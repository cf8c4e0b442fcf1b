use helios::text::chars_of;
use helios::text::str_concat;
use helios::text::decimal_string;
use helios::text::is_whitespace_char;
use helios::text::join_strings;
use helios::text::split_words;
use helios::text::string_of;

#[test]
fn decimal_text() {
    assert_eq!(decimal_string(0), "0");
    assert_eq!(decimal_string(9), "9");
    assert_eq!(decimal_string(10), "10");
    assert_eq!(decimal_string(50052), "50052");
    assert_eq!(decimal_string(u64::MAX), u64::MAX.to_string());
}

#[test]
fn words_of_text() {
    assert_eq!(split_words("  a  bc\td\u{a0}e\n"), vec!["a", "bc", "d", "e"]);
    assert!(split_words("").is_empty());
    assert!(split_words(" \u{2003} ").is_empty());
    assert_eq!(split_words("x"), vec!["x"]);
}

#[test]
fn whitespace_matches_std() {
    for u in 0u32..0x3100 {
        if let Some(c) = char::from_u32(u) {
            assert_eq!(is_whitespace_char(c), c.is_whitespace(), "{:x}", u);
        }
    }
}

#[test]
fn joining() {
    assert_eq!(join_strings(&vec![], ", "), "");
    assert_eq!(join_strings(&vec!["a".to_string()], ", "), "a");
    assert_eq!(join_strings(&vec!["a".to_string(), "b".to_string(), "c".to_string()], ", "), "a, b, c");
}

#[test]
fn characters_and_slices() {
    let cs = chars_of("héllo");
    assert_eq!(cs, vec!['h', 'é', 'l', 'l', 'o']);
    assert_eq!(string_of(&cs, 1, 3), "él");
    assert_eq!(str_concat("ab", "cd"), "abcd");
}
