//! The codes of the rooms that the server opens: six letters and digits, none of which
//! is easily taken for another.

use crate::server::rooms::RoomsView;
use vstd::prelude::*;
use vstd::relations::injective_on;
use vstd::set_lib::{lemma_int_range, lemma_len_subset, lemma_map_size, set_int_range};
use vstd::string::*;

verus! {

/// The length of a room code.
pub const ROOM_CODE_LEN: usize = 6;

/// The number of room codes.
pub const ROOM_CODES: u64 = 887_503_681;

/// The characters of room codes: capital letters and digits, without `O` and `0`, and
/// without `I`, `1` and `L`.
pub open spec fn is_code_char(c: char) -> bool {
    &&& 'A' <= c <= 'Z' || '0' <= c <= '9'
    &&& c != 'O' && c != '0' && c != 'I' && c != '1' && c != 'L'
}

/// `code` can be the code of a room that the server opens.
pub open spec fn is_room_code(code: Seq<char>) -> bool {
    code.len() == ROOM_CODE_LEN && forall|i: int|
        0 <= i < code.len() ==> is_code_char(#[trigger] code[i])
}

/// The digits that room codes are written with.
pub open spec fn code_digits() -> Seq<char> {
    "ABCDEFGHJKMNPQRSTUVWXYZ23456789"@
}

/// The last `len` digits of `n`, where `n` is written with the digits of room codes.
pub open spec fn numeral(n: int, len: nat) -> Seq<char>
    decreases len,
{
    if len == 0 {
        Seq::empty()
    } else {
        numeral(n / 31, (len - 1) as nat).push(code_digits()[n % 31])
    }
}

/// Room code number `n`.
pub open spec fn room_code(n: int) -> Seq<char> {
    numeral(n, ROOM_CODE_LEN as nat)
}

/// The first of the room codes number `n`, `n + 1` and so on, `tries` of them, that no
/// room has. After the last code comes the first.
pub open spec fn free_code(rooms: RoomsView, n: int, tries: int) -> Option<Seq<char>>
    decreases tries,
{
    let code = room_code(n % ROOM_CODES as int);
    if tries <= 0 {
        None
    } else if !rooms.contains_key(code) {
        Some(code)
    } else {
        free_code(rooms, n + 1, tries - 1)
    }
}

/// The code of the next room, where the number `draw` was drawn for it, or `None` if
/// every code is taken.
pub open spec fn fresh_code(rooms: RoomsView, draw: u64) -> Option<Seq<char>> {
    free_code(rooms, draw as int % ROOM_CODES as int, ROOM_CODES as int)
}

/// The digits of room codes are the characters of room codes, and no two are the same.
proof fn lemma_code_digits()
    ensures
        code_digits().len() == 31,
        forall|i: int| 0 <= i < 31 ==> is_code_char(#[trigger] code_digits()[i]),
        forall|i: int, j: int|
            0 <= i < 31 && 0 <= j < 31 && #[trigger] code_digits()[i]
                == #[trigger] code_digits()[j] ==> i == j,
{
    reveal_strlit("ABCDEFGHJKMNPQRSTUVWXYZ23456789");
}

/// A numeral has as many digits as it should, all of them characters of room codes.
proof fn lemma_numeral(n: int, len: nat)
    ensures
        numeral(n, len).len() == len,
        forall|i: int| 0 <= i < len ==> is_code_char(#[trigger] numeral(n, len)[i]),
    decreases len,
{
    if len > 0 {
        lemma_numeral(n / 31, (len - 1) as nat);
        lemma_code_digits();
        assert(0 <= n % 31 < 31);
        assert forall|i: int| 0 <= i < len implies is_code_char(#[trigger] numeral(n, len)[i]) by {
            if i < len - 1 {
                assert(numeral(n, len)[i] == numeral(n / 31, (len - 1) as nat)[i]);
            } else {
                assert(is_code_char(code_digits()[n % 31]));
            }
        }
    }
}

/// How many numerals of `len` digits there are.
spec fn numerals(len: nat) -> int
    decreases len,
{
    if len == 0 {
        1
    } else {
        31 * numerals((len - 1) as nat)
    }
}

/// Different numbers have different numerals, as long as the digits suffice.
proof fn lemma_numerals_differ(a: int, b: int, len: nat)
    requires
        0 <= a < numerals(len),
        0 <= b < numerals(len),
        numeral(a, len) == numeral(b, len),
    ensures
        a == b,
    decreases len,
{
    if len > 0 {
        let shorter = (len - 1) as nat;
        let head_a = numeral(a / 31, shorter);
        let head_b = numeral(b / 31, shorter);
        lemma_code_digits();
        lemma_numeral(a / 31, shorter);
        lemma_numeral(b / 31, shorter);
        assert(numeral(a, len).drop_last() =~= head_a);
        assert(numeral(b, len).drop_last() =~= head_b);
        assert(numeral(a, len).last() == code_digits()[a % 31]);
        assert(numeral(b, len).last() == code_digits()[b % 31]);
        lemma_numerals_differ(a / 31, b / 31, shorter);
    }
}

/// There are as many room codes as `ROOM_CODES` says, all of them different.
pub proof fn law_room_codes_differ(a: int, b: int)
    requires
        0 <= a < ROOM_CODES,
        0 <= b < ROOM_CODES,
    ensures
        room_code(a) == room_code(b) ==> a == b,
        is_room_code(room_code(a)),
{
    lemma_numeral(a, ROOM_CODE_LEN as nat);
    if room_code(a) == room_code(b) {
        assert(numerals(6) == ROOM_CODES) by {
            reveal_with_fuel(numerals, 7);
        }
        lemma_numerals_differ(a, b, 6);
    }
}

/// A code that is found is a room code that no room has, and none is found only if
/// each of those that were tried is taken.
proof fn lemma_free_code(rooms: RoomsView, n: int, tries: int)
    ensures
        match free_code(rooms, n, tries) {
            Some(code) => is_room_code(code) && !rooms.contains_key(code),
            None => forall|i: int|
                n <= i < n + tries ==> rooms.contains_key(
                    #[trigger] room_code(i % ROOM_CODES as int),
                ),
        },
    decreases tries,
{
    if tries > 0 {
        lemma_numeral(n % ROOM_CODES as int, ROOM_CODE_LEN as nat);
        lemma_free_code(rooms, n + 1, tries - 1);
    }
}

/// The code of the next room is a room code that no room has, whatever number was
/// drawn. There is one unless every room code is taken, and so as long as there are
/// fewer rooms than codes.
pub proof fn law_fresh_code(rooms: RoomsView, draw: u64)
    ensures
        match fresh_code(rooms, draw) {
            Some(code) => is_room_code(code) && !rooms.contains_key(code),
            None => forall|n: int| 0 <= n < ROOM_CODES ==> rooms.contains_key(#[trigger] room_code(n)),
        },
        rooms.dom().finite() && rooms.len() < ROOM_CODES ==> fresh_code(rooms, draw) is Some,
{
    let first = draw as int % ROOM_CODES as int;
    let codes = ROOM_CODES as int;
    lemma_free_code(rooms, first, codes);
    if fresh_code(rooms, draw) is None {
        assert forall|n: int| 0 <= n < codes implies rooms.contains_key(#[trigger] room_code(n)) by {
            let i = if n >= first {
                n
            } else {
                n + codes
            };
            assert(i % codes == n);
            assert(rooms.contains_key(room_code(i % codes)));
        }
        if rooms.dom().finite() {
            let numbers = set_int_range(0, codes);
            let f = |n: int| room_code(n);
            let taken = numbers.map(f);
            assert(injective_on(f, numbers)) by {
                assert forall|a: int, b: int|
                    numbers.contains(a) && numbers.contains(b) && #[trigger] f(a)
                        == #[trigger] f(b) implies a == b by {
                    law_room_codes_differ(a, b);
                }
            }
            lemma_int_range(0, codes);
            lemma_map_size(numbers, taken, f);
            assert(taken.subset_of(rooms.dom()));
            lemma_len_subset(taken, rooms.dom());
        }
    }
}

/// Writes the last `len` digits of `n`.
fn write_numeral(n: u64, len: usize) -> (r: String)
    ensures
        r@ == numeral(n as int, len as nat),
    decreases len,
{
    if len == 0 {
        return String::new();
    }
    proof {
        lemma_code_digits();
    }
    let digit: usize = (n % 31) as usize;
    let text = "ABCDEFGHJKMNPQRSTUVWXYZ23456789".substring_char(digit, digit + 1);
    let head = write_numeral(n / 31, len - 1);
    proof {
        assert(head@ + text@ =~= head@.push(code_digits()[n as int % 31]));
    }
    head.concat(text)
}

/// Room code number `n`.
pub fn make_room_code(n: u64) -> (r: String)
    ensures
        r@ == room_code(n as int),
        is_room_code(r@),
{
    proof {
        lemma_numeral(n as int, ROOM_CODE_LEN as nat);
    }
    write_numeral(n, ROOM_CODE_LEN)
}

/// Room codes have six characters, each a capital letter or a digit and none of `O`, `0`,
/// `I`, `1` and `L`, and every text of that kind can be one.
pub proof fn law_room_code_characters(code: Seq<char>)
    ensures
        is_room_code(code) <==> code.len() == 6 && forall|i: int|
            0 <= i < code.len() ==> {
                let c = #[trigger] code[i];
                &&& 'A' <= c <= 'Z' || '0' <= c <= '9'
                &&& c != 'O' && c != '0' && c != 'I' && c != '1' && c != 'L'
            },
        ROOM_CODE_LEN == 6,
        ROOM_CODES == 887_503_681,
{
    if is_room_code(code) {
        assert forall|i: int| 0 <= i < code.len() implies {
            let c = #[trigger] code[i];
            &&& 'A' <= c <= 'Z' || '0' <= c <= '9'
            &&& c != 'O' && c != '0' && c != 'I' && c != '1' && c != 'L'
        } by {
            assert(is_code_char(code[i]));
        }
    }
}

/// The number that is drawn decides the code: as long as the codes of two numbers are
/// free, they are the codes that are found for them, and they are different.
pub proof fn law_draws_decide_the_code(rooms: RoomsView, a: u64, b: u64)
    requires
        a < ROOM_CODES,
        b < ROOM_CODES,
        !rooms.contains_key(room_code(a as int)),
        !rooms.contains_key(room_code(b as int)),
    ensures
        fresh_code(rooms, a) == Some(room_code(a as int)),
        a != b ==> fresh_code(rooms, a) != fresh_code(rooms, b),
{
    law_room_codes_differ(a as int, b as int);
}

} // verus!
