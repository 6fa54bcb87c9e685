//! Text as the line protocol sees it: whitespace, words, upper case, and text
//! read out of datagrams.

use vstd::prelude::*;
use vstd::string::*;
use vstd::utf8::*;

verus! {

broadcast use vstd::string::group_string_axioms;

/// The characters with the Unicode property `White_Space`.
pub open spec fn is_white_space(c: char) -> bool {
    let n = c as u32;
    ||| 0x09 <= n <= 0x0d
    ||| n == 0x20
    ||| n == 0x85
    ||| n == 0xa0
    ||| n == 0x1680
    ||| 0x2000 <= n <= 0x200a
    ||| n == 0x2028
    ||| n == 0x2029
    ||| n == 0x202f
    ||| n == 0x205f
    ||| n == 0x3000
}

/// `char::is_whitespace`: true of exactly the characters with the Unicode
/// property `White_Space`, which are the ones that `is_white_space` lists.
pub assume_specification[ char::is_whitespace ](c: char) -> (r: bool)
    ensures
        r == is_white_space(c),
;

/// Every character of `s` is whitespace.
pub open spec fn all_white(s: Seq<char>) -> bool {
    forall|i: int| 0 <= i < s.len() ==> is_white_space(#[trigger] s[i])
}

/// No character of `s` is whitespace.
pub open spec fn no_white(s: Seq<char>) -> bool {
    forall|i: int| 0 <= i < s.len() ==> !is_white_space(#[trigger] s[i])
}

/// `s` can stand as one word of a line: it is not empty and holds no whitespace.
pub open spec fn is_word(s: Seq<char>) -> bool {
    s.len() > 0 && no_white(s)
}

/// `s` without the whitespace at its two ends.
pub open spec fn trimmed(s: Seq<char>) -> Seq<char>
    decreases s.len(),
{
    if s.len() == 0 {
        s
    } else if is_white_space(s[0]) {
        trimmed(s.drop_first())
    } else if is_white_space(s.last()) {
        trimmed(s.drop_last())
    } else {
        s
    }
}

/// The words of `s`, in order: its longest runs of characters that are not
/// whitespace.
pub open spec fn words(s: Seq<char>) -> Seq<Seq<char>>
    decreases s.len(),
{
    if s.len() == 0 {
        Seq::empty()
    } else {
        let before = words(s.drop_last());
        if is_white_space(s.last()) {
            before
        } else if s.len() == 1 || is_white_space(s[s.len() - 2]) {
            before.push(seq![s.last()])
        } else {
            before.drop_last().push(before.last().push(s.last()))
        }
    }
}

/// What `trimmed` keeps is the stretch between the first and the last character
/// that is not whitespace.
proof fn lemma_trimmed_is_stretch(s: Seq<char>, lo: int, hi: int)
    requires
        0 <= lo <= hi <= s.len(),
        all_white(s.subrange(0, lo)),
        all_white(s.subrange(hi, s.len() as int)),
        lo < hi ==> !is_white_space(s[lo]) && !is_white_space(s[hi - 1]),
    ensures
        trimmed(s) == s.subrange(lo, hi),
    decreases s.len(),
{
    if s.len() == 0 {
        assert(s =~= s.subrange(lo, hi));
    } else if lo > 0 {
        assert(s.subrange(0, lo)[0] == s[0]);
        let t = s.drop_first();
        assert(all_white(t.subrange(0, lo - 1))) by {
            assert forall|i: int| 0 <= i < lo - 1 implies is_white_space(
                #[trigger] t.subrange(0, lo - 1)[i],
            ) by {
                assert(s.subrange(0, lo)[i + 1] == t.subrange(0, lo - 1)[i]);
            }
        }
        assert(t.subrange(hi - 1, t.len() as int) =~= s.subrange(hi, s.len() as int));
        lemma_trimmed_is_stretch(t, lo - 1, hi - 1);
        assert(t.subrange(lo - 1, hi - 1) =~= s.subrange(lo, hi));
    } else if hi < s.len() {
        let trail = s.subrange(hi, s.len() as int);
        assert(trail[trail.len() - 1] == s.last());
        if lo < hi {
            let t = s.drop_last();
            assert(t.subrange(0, lo) =~= s.subrange(0, lo));
            assert(all_white(t.subrange(hi, t.len() as int))) by {
                assert forall|i: int| 0 <= i < t.len() - hi implies is_white_space(
                    #[trigger] t.subrange(hi, t.len() as int)[i],
                ) by {
                    assert(trail[i] == t.subrange(hi, t.len() as int)[i]);
                }
            }
            lemma_trimmed_is_stretch(t, lo, hi);
            assert(t.subrange(lo, hi) =~= s.subrange(lo, hi));
        } else {
            assert(trail[0] == s[0]);
            let t = s.drop_first();
            assert(t.subrange(0, 0) =~= s.subrange(0, 0));
            assert(all_white(t.subrange(0, t.len() as int))) by {
                assert forall|i: int| 0 <= i < t.len() implies is_white_space(
                    #[trigger] t.subrange(0, t.len() as int)[i],
                ) by {
                    assert(trail[i + 1] == t[i]);
                }
            }
            lemma_trimmed_is_stretch(t, 0, 0);
            assert(t.subrange(0, 0) =~= s.subrange(lo, hi));
        }
    } else {
        assert(s.subrange(lo, hi) =~= s);
    }
}

/// `s` without the whitespace at its two ends.
pub fn trim(s: &str) -> (r: &str)
    ensures
        r@ == trimmed(s@),
{
    let n: usize = s.unicode_len();
    let mut lo: usize = 0;
    let mut hi: usize = 0;
    let mut i: usize = 0;
    for c in it: s.chars()
        invariant
            it.seq() == s@,
            n == s@.len(),
            i == it.index(),
            lo <= hi <= i,
            all_white(s@.subrange(0, lo as int)),
            all_white(s@.subrange(hi as int, i as int)),
            lo == hi ==> hi == 0 && lo == 0,
            lo < hi ==> !is_white_space(s@[lo as int]) && !is_white_space(s@[hi - 1]),
    {
        assert(c == s@[i as int]);
        let white = c.is_whitespace();
        proof {
            let seen = s@.subrange(hi as int, i + 1);
            assert(seen =~= s@.subrange(hi as int, i as int).push(c));
        }
        i = i + 1;
        if !white {
            if lo == hi {
                lo = i - 1;
            }
            hi = i;
        }
    }
    proof {
        lemma_trimmed_is_stretch(s@, lo as int, hi as int);
    }
    s.substring_char(lo, hi)
}

/// The spec view of a list of texts.
pub open spec fn texts(v: Seq<String>) -> Seq<Seq<char>> {
    v.map_values(|t: String| t@)
}

/// The words of `s`, in order.
pub fn split_words(s: &str) -> (r: Vec<String>)
    ensures
        texts(r@) == words(s@),
        r@.len() == words(s@).len(),
        forall|i: int| 0 <= i < r@.len() ==> (#[trigger] r@[i])@ == words(s@)[i],
{
    let n: usize = s.unicode_len();
    let mut found: Vec<String> = Vec::new();
    let mut i: usize = 0;
    let mut start: usize = 0;
    for c in it: s.chars()
        invariant
            it.seq() == s@,
            n == s@.len(),
            i == it.index(),
            start <= i,
            no_white(s@.subrange(start as int, i as int)),
            start > 0 ==> is_white_space(s@[start - 1]),
            words(s@.take(i as int)) == if start < i {
                texts(found@).push(s@.subrange(start as int, i as int))
            } else {
                texts(found@)
            },
    {
        assert(c == s@[i as int]);
        proof {
            let before = s@.take(i as int);
            let after = s@.take(i + 1);
            assert(after.drop_last() =~= before);
            assert(after.last() == c);
            if start < i {
                let run = s@.subrange(start as int, i as int);
                assert(run.last() == s@[i - 1]);
                assert(after[after.len() - 2] == s@[i - 1]);
                assert(texts(found@).push(run).drop_last() =~= texts(found@));
                assert(run.push(c) =~= s@.subrange(start as int, i + 1));
            } else if i > 0 {
                assert(after[after.len() - 2] == s@[start - 1]);
                assert(seq![c] =~= s@.subrange(start as int, i + 1));
            } else {
                assert(seq![c] =~= s@.subrange(start as int, i + 1));
            }
        }
        if c.is_whitespace() {
            if start < i {
                let ghost earlier = found@;
                let word = s.substring_char(start, i).to_string();
                found.push(word);
                proof {
                    assert(texts(found@) =~= texts(earlier).push(word@));
                }
            }
            start = i + 1;
        } else {
            proof {
                assert(s@.subrange(start as int, i + 1) =~= s@.subrange(
                    start as int,
                    i as int,
                ).push(c));
            }
        }
        i = i + 1;
    }
    proof {
        assert(s@.take(i as int) =~= s@);
    }
    if start < i {
        let ghost earlier = found@;
        let word = s.substring_char(start, i).to_string();
        found.push(word);
        proof {
            assert(texts(found@) =~= texts(earlier).push(word@));
        }
    }
    proof {
        assert forall|j: int| 0 <= j < found@.len() implies (#[trigger] found@[j])@ == words(
            s@,
        )[j] by {
            assert(texts(found@)[j] == found@[j]@);
        }
    }
    found
}

/// Whether two texts are the same.
pub fn same_text(a: &str, b: &str) -> (r: bool)
    ensures
        r == (a@ == b@),
{
    let x = a.as_bytes();
    let y = b.as_bytes();
    proof {
        encode_utf8_decode_utf8(a@);
        encode_utf8_decode_utf8(b@);
    }
    if x.len() != y.len() {
        return false;
    }
    let mut i: usize = 0;
    while i < x.len()
        invariant
            i <= x@.len(),
            x@.len() == y@.len(),
            x@ == encode_utf8(a@),
            y@ == encode_utf8(b@),
            forall|j: int| 0 <= j < i ==> x@[j] == y@[j],
        decreases x@.len() - i,
    {
        if x[i] != y[i] {
            return false;
        }
        i = i + 1;
    }
    proof {
        assert(x@ =~= y@);
    }
    true
}

/// The upper case of a character, where both it and its upper case are ASCII.
pub open spec fn ascii_upper(c: char) -> char {
    if 'a' <= c && c <= 'z' {
        ((c as u32 - 32) as u32) as char
    } else {
        c
    }
}

/// The upper case of a text in ASCII.
pub open spec fn ascii_uppercase(s: Seq<char>) -> Seq<char> {
    s.map_values(|c: char| ascii_upper(c))
}

/// The upper case of a text, as `str::to_uppercase` gives it.
pub uninterp spec fn uppercase(s: Seq<char>) -> Seq<char>;

/// `str::to_uppercase`: the result depends on the text alone, and is named
/// `uppercase`. Of a text in ASCII it is the text with `a` to `z` replaced by `A`
/// to `Z`; which characters other texts give, the Unicode tables say.
pub assume_specification[ str::to_uppercase ](s: &str) -> (r: String)
    ensures
        r@ == uppercase(s@),
        is_ascii_chars(s@) ==> r@ == ascii_uppercase(s@),
;

/// The text that `String::from_utf8_lossy` reads out of bytes.
pub uninterp spec fn utf8_lossy(bytes: Seq<u8>) -> Seq<char>;

/// `String::from_utf8_lossy`: the result depends on the bytes alone, and is named
/// `utf8_lossy`. Of valid UTF-8 it is the text that the bytes encode; where the
/// bytes are not valid, replacement characters stand in for what is not, and how
/// many of them is not stated.
#[verifier::external_body]
pub(crate) fn from_utf8_lossy(bytes: &[u8]) -> (r: String)
    ensures
        r@ == utf8_lossy(bytes@),
        valid_utf8(bytes@) ==> r@ == decode_utf8(bytes@),
{
    String::from_utf8_lossy(bytes).into_owned()
}

/// Whitespace parts a text into two whose words are found separately.
pub proof fn law_words_part_at_white_space(a: Seq<char>, w: char, b: Seq<char>)
    requires
        is_white_space(w),
    ensures
        words(a.push(w) + b) == words(a) + words(b),
    decreases b.len(),
{
    let whole = a.push(w) + b;
    if b.len() == 0 {
        assert(whole =~= a.push(w));
        assert(a.push(w).drop_last() =~= a);
        assert(words(a) + words(b) =~= words(a));
    } else {
        let rest = b.drop_last();
        law_words_part_at_white_space(a, w, rest);
        assert(whole.drop_last() =~= a.push(w) + rest);
        assert(whole.last() == b.last());
        let before = words(a) + words(rest);
        if is_white_space(b.last()) {
        } else if b.len() == 1 {
            assert(whole[whole.len() - 2] == w);
            assert(rest =~= Seq::<char>::empty());
            assert(before.push(seq![b.last()]) =~= words(a) + words(b));
        } else {
            assert(whole[whole.len() - 2] == b[b.len() - 2]);
            if is_white_space(b[b.len() - 2]) {
                assert(before.push(seq![b.last()]) =~= words(a) + words(b));
            } else {
                lemma_last_word_stays_open(rest);
                assert(before.last() == words(rest).last());
                assert(before.drop_last() =~= words(a) + words(rest).drop_last());
                assert(before.drop_last().push(before.last().push(b.last())) =~= words(a)
                    + words(b));
            }
        }
    }
}

/// A text that does not end in whitespace ends in a word.
proof fn lemma_last_word_stays_open(s: Seq<char>)
    requires
        s.len() > 0,
        !is_white_space(s.last()),
    ensures
        words(s).len() > 0,
{
}

/// A text that is one word has itself as its only word.
pub proof fn law_word_is_its_own_words(s: Seq<char>)
    requires
        s.len() > 0,
        forall|i: int| 0 <= i < s.len() ==> !is_white_space(#[trigger] s[i]),
    ensures
        words(s) == seq![s],
    decreases s.len(),
{
    let rest = s.drop_last();
    assert(!is_white_space(s[s.len() - 1]));
    if s.len() == 1 {
        assert(words(rest) =~= Seq::<Seq<char>>::empty());
        assert(seq![s.last()] =~= s);
        assert(words(s) =~= seq![s]);
    } else {
        assert(!is_white_space(s[s.len() - 2]));
        law_word_is_its_own_words(rest);
        assert(rest.push(s.last()) =~= s);
        assert(words(s) =~= seq![s]);
    }
}

/// Whatever the text, none of its words is empty and none holds whitespace.
pub proof fn law_words_hold_no_white_space(s: Seq<char>)
    ensures
        forall|i: int| 0 <= i < words(s).len() ==> is_word(#[trigger] words(s)[i]),
        forall|i: int, j: int|
            0 <= i < words(s).len() && 0 <= j < words(s)[i].len() ==> !is_white_space(
                #[trigger] words(s)[i][j],
            ),
        forall|i: int| 0 <= i < words(s).len() ==> (#[trigger] words(s)[i]).len() > 0,
    decreases s.len(),
{
    if s.len() > 0 {
        let rest = s.drop_last();
        law_words_hold_no_white_space(rest);
        let before = words(rest);
        assert forall|i: int| 0 <= i < words(s).len() implies is_word(#[trigger] words(s)[i]) by {
            if is_white_space(s.last()) {
                assert(is_word(before[i]));
            } else if s.len() == 1 || is_white_space(s[s.len() - 2]) {
                if i < before.len() {
                    assert(is_word(before[i]));
                }
            } else {
                lemma_last_word_stays_open(rest);
                assert(is_word(before[before.len() - 1]));
                if i < before.len() - 1 {
                    assert(is_word(before[i]));
                }
            }
        }
    }
}

/// A line or packet that is made of a word, a space and an argument is read as that
/// word and then the words of the argument.
pub proof fn law_line_words(head: Seq<char>, argument: Seq<char>)
    requires
        head.len() > 0,
        forall|i: int| 0 <= i < head.len() ==> !is_white_space(#[trigger] head[i]),
    ensures
        words(head.push(' ') + argument.push('\n')) == seq![head] + words(argument),
        words(head.push('\n')) == seq![head],
        words(head.push(' ') + argument) == seq![head] + words(argument),
{
    law_word_is_its_own_words(head);
    law_words_part_at_white_space(head, ' ', argument.push('\n'));
    assert(argument.push('\n').drop_last() =~= argument);
    law_words_part_at_white_space(head, ' ', argument);
    assert(head.push('\n').drop_last() =~= head);
}

/// Taking the whitespace off the ends of a text changes none of its words.
pub proof fn law_trim_keeps_words(s: Seq<char>)
    ensures
        words(trimmed(s)) == words(s),
    decreases s.len(),
{
    if s.len() == 0 {
    } else if is_white_space(s[0]) {
        let rest = s.drop_first();
        law_words_part_at_white_space(Seq::empty(), s[0], rest);
        assert(Seq::<char>::empty().push(s[0]) + rest =~= s);
        assert(words(Seq::<char>::empty()) + words(rest) =~= words(rest));
        law_trim_keeps_words(rest);
    } else if is_white_space(s.last()) {
        law_trim_keeps_words(s.drop_last());
    }
}

/// A trimmed text has no whitespace at its ends, and trimming it again changes
/// nothing.
pub proof fn law_trim_twice_is_trim_once(s: Seq<char>)
    ensures
        trimmed(trimmed(s)) == trimmed(s),
        trimmed(s).len() > 0 ==> !is_white_space(trimmed(s)[0]) && !is_white_space(
            trimmed(s).last(),
        ),
    decreases s.len(),
{
    if s.len() == 0 {
    } else if is_white_space(s[0]) {
        law_trim_twice_is_trim_once(s.drop_first());
    } else if is_white_space(s.last()) {
        law_trim_twice_is_trim_once(s.drop_last());
    }
}

/// A text that is more than whitespace has a word.
pub proof fn law_text_that_is_not_blank_has_a_word(s: Seq<char>)
    ensures
        words(s).len() > 0 <==> trimmed(s).len() > 0,
    decreases s.len(),
{
    if s.len() == 0 {
    } else if is_white_space(s[0]) {
        let rest = s.drop_first();
        law_words_part_at_white_space(Seq::empty(), s[0], rest);
        assert(Seq::<char>::empty().push(s[0]) + rest =~= s);
        assert(words(Seq::<char>::empty()) + words(rest) =~= words(rest));
        law_text_that_is_not_blank_has_a_word(rest);
    } else if is_white_space(s.last()) {
        law_text_that_is_not_blank_has_a_word(s.drop_last());
    }
}

/// A text in ASCII that was trimmed and put into upper case once is not changed by
/// doing so again, and is one word if the text was.
pub proof fn law_normalizing_twice_is_normalizing_once(s: Seq<char>)
    requires
        is_ascii_chars(trimmed(s)),
    ensures
        is_ascii_chars(ascii_uppercase(trimmed(s))),
        trimmed(ascii_uppercase(trimmed(s))) == ascii_uppercase(trimmed(s)),
        ascii_uppercase(ascii_uppercase(trimmed(s))) == ascii_uppercase(trimmed(s)),
        is_word(trimmed(s)) ==> is_word(ascii_uppercase(trimmed(s))),
{
    let t = trimmed(s);
    let u = ascii_uppercase(t);
    law_trim_twice_is_trim_once(s);
    assert forall|i: int| 0 <= i < t.len() implies is_white_space(#[trigger] u[i])
        == is_white_space(t[i]) && ascii_upper(u[i]) == u[i] && (0 <= u[i] as nat && (u[i] as nat)
        < 128) by {
        assert(0 <= t[i] as nat && (t[i] as nat) < 128);
    }
    if u.len() > 0 {
        assert(is_white_space(u[0]) == is_white_space(t[0]));
        assert(is_white_space(u[u.len() - 1]) == is_white_space(t[t.len() - 1]));
    }
    assert(ascii_uppercase(u) =~= u);
}

/// Trimming takes off what stands before the first and after the last character that
/// is not whitespace, and nothing else.
pub proof fn law_trim_keeps_the_stretch_between(s: Seq<char>, lo: int, hi: int)
    requires
        0 <= lo < hi <= s.len(),
        forall|i: int| 0 <= i < lo ==> is_white_space(#[trigger] s[i]),
        forall|i: int| hi <= i < s.len() ==> is_white_space(#[trigger] s[i]),
        !is_white_space(s[lo]),
        !is_white_space(s[hi - 1]),
    ensures
        trimmed(s) == s.subrange(lo, hi),
{
    lemma_trimmed_is_stretch(s, lo, hi);
}

/// Nothing is left of a text by trimming, and it has no words, exactly if all of it is
/// whitespace.
pub proof fn law_blank_text(s: Seq<char>)
    ensures
        trimmed(s).len() > 0 <==> exists|i: int| 0 <= i < s.len() && !is_white_space(#[trigger] s[i]),
        words(s).len() > 0 <==> exists|i: int| 0 <= i < s.len() && !is_white_space(#[trigger] s[i]),
    decreases s.len(),
{
    law_text_that_is_not_blank_has_a_word(s);
    if s.len() == 0 {
    } else if is_white_space(s[0]) {
        let rest = s.drop_first();
        law_blank_text(rest);
        if exists|i: int| 0 <= i < s.len() && !is_white_space(#[trigger] s[i]) {
            let i = choose|i: int| 0 <= i < s.len() && !is_white_space(#[trigger] s[i]);
            assert(rest[i - 1] == s[i]);
        }
        if exists|i: int| 0 <= i < rest.len() && !is_white_space(#[trigger] rest[i]) {
            let i = choose|i: int| 0 <= i < rest.len() && !is_white_space(#[trigger] rest[i]);
            assert(s[i + 1] == rest[i]);
        }
    } else {
        assert(!is_white_space(s[0]));
        if is_white_space(s.last()) {
            let rest = s.drop_last();
            assert(rest[0] == s[0]);
            law_blank_text(rest);
        }
    }
}

/// A list of texts stands for the texts in it, each in its place.
pub proof fn law_texts(list: Seq<String>)
    ensures
        texts(list).len() == list.len(),
        forall|i: int| 0 <= i < list.len() ==> #[trigger] texts(list)[i] == list[i]@,
{
}

/// In upper case, `a` to `z` are `A` to `Z`, which stand 32 places before them, and
/// every other character of a text in ASCII is itself.
pub proof fn law_ascii_uppercase(s: Seq<char>, i: int)
    requires
        0 <= i < s.len(),
    ensures
        ascii_uppercase(s).len() == s.len(),
        'a' <= s[i] <= 'z' ==> ascii_uppercase(s)[i] as u32 + 32 == s[i] as u32,
        !('a' <= s[i] <= 'z') ==> ascii_uppercase(s)[i] == s[i],
{
}

/// A word is a text that is not empty and in which nothing is whitespace, however long.
pub proof fn law_what_a_word_is(s: Seq<char>)
    ensures
        is_word(s) <==> s.len() > 0 && forall|i: int|
            0 <= i < s.len() ==> !is_white_space(#[trigger] s[i]),
{
}

} // verus!
