use p2p_chat::text::{same_text, split_words, trim};

fn words(text: &str) -> Vec<String> {
    split_words(text)
}

#[test]
fn trim_takes_whitespace_off_both_ends() {
    assert_eq!(trim("  a b\u{3000}\n"), "a b");
    assert_eq!(trim(" \t\r\n"), "");
    assert_eq!(trim(""), "");
    assert_eq!(trim("x"), "x");
    assert_eq!(trim("\u{a0}방 이름 "), "방 이름");
    assert_eq!(trim(trim("  twice  ")), trim("  twice  "));
}

#[test]
fn trim_agrees_with_the_standard_library() {
    for text in ["", " ", "a", " a", "a ", "\u{85}a\u{2028}", "\u{180e}a", "\u{200b}a ", " 가 나 "] {
        assert_eq!(trim(text), text.trim());
    }
}

#[test]
fn words_are_the_runs_between_whitespace() {
    assert_eq!(words(" JOIN\tABC \n"), vec!["JOIN".to_string(), "ABC".to_string()]);
    assert_eq!(words("한국\u{2003}어"), vec!["한국".to_string(), "어".to_string()]);
    assert!(words(" \n ").is_empty());
    assert!(words("").is_empty());
    assert_eq!(words("one"), vec!["one".to_string()]);
}

#[test]
fn words_agree_with_the_standard_library() {
    for text in ["", "a b  c", " a\n", "\u{1680}a\u{205f}b\u{202f}", "x\u{200b}y z", "가\t나"] {
        let expected: Vec<String> = text.split_whitespace().map(|w| w.to_string()).collect();
        assert_eq!(words(text), expected);
        assert_eq!(words(trim(text)), expected);
    }
}

#[test]
fn every_character_is_whitespace_or_not_as_in_the_standard_library() {
    for code in 0..0x11_0000u32 {
        if let Some(c) = char::from_u32(code) {
            let listed = matches!(code, 0x09..=0x0d | 0x20 | 0x85 | 0xa0 | 0x1680
                | 0x2000..=0x200a | 0x2028 | 0x2029 | 0x202f | 0x205f | 0x3000);
            assert_eq!(c.is_whitespace(), listed);
        }
    }
}

#[test]
fn whitespace_parts_words() {
    let mut joined = words("a b");
    joined.extend(words("c d"));
    assert_eq!(words("a b\tc d"), joined);
}

#[test]
fn texts_are_compared_by_their_characters() {
    assert!(same_text("방", "방"));
    assert!(!same_text("방", "밤"));
    assert!(!same_text("PEER", "PEER_LEFT"));
    assert!(same_text("", ""));
}
