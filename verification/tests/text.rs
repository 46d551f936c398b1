use tinyvpn::text::{
    chars_of, contains, decimal, digit, equals, find, find_word_after, hex, hex_byte,
    hex_string, read_byte, read_decimal, read_hex, read_hex_digit, same, same_ignoring_case,
    same_str, space, split_at_each, split_words, string_of, trim, trim_start,
};

fn chars(s: &str) -> Vec<char> {
    s.chars().collect()
}

fn text(s: &[char]) -> String {
    s.iter().collect()
}

#[test]
fn numbers_are_written() {
    assert_eq!(decimal(0), "0");
    assert_eq!(decimal(1500), "1500");
    assert_eq!(decimal(u64::MAX), "18446744073709551615");
    assert_eq!(hex(0), "0");
    assert_eq!(hex(0xFACE), "face");
    assert_eq!(hex_byte(0), "00");
    assert_eq!(hex_byte(0x0B), "0b");
    assert_eq!(hex_byte(0xFF), "ff");
    assert_eq!(hex_string(&[0x00, 0x1F, 0xA0]), "001fa0");
    assert_eq!(hex_string(&[]), "");
    assert_eq!(digit(9), '9');
    assert_eq!(digit(15), 'f');
}

#[test]
fn numbers_are_read() {
    assert_eq!(read_decimal(&chars("007")), Some(7));
    assert_eq!(read_decimal(&chars("12x")), None);
    assert_eq!(read_hex(&chars("fF")), Some(255));
    assert_eq!(read_hex(&chars("g")), None);
    assert_eq!(read_hex_digit(b'c'), Some(12));
    assert_eq!(read_hex_digit(b'C'), Some(12));
    assert_eq!(read_hex_digit(b'/'), None);
    assert_eq!(read_hex_digit(b':'), None);
    assert_eq!(read_byte(&chars("255")), Some(255));
    assert_eq!(read_byte(&chars("256")), None);
    assert_eq!(read_byte(&chars("+24")), None);
    assert_eq!(read_byte(&chars("024")), Some(24));
    assert_eq!(read_byte(&chars("0000000000000024")), Some(24));
    assert_eq!(read_byte(&chars("+")), None);
    assert_eq!(read_byte(&chars("-0")), None);
    assert_eq!(read_byte(&chars("")), None);
}

#[test]
fn white_space_is_trimmed() {
    assert!(space(' ') && space('\t') && space('\r') && space('\n') && space('\u{3000}'));
    assert!(space('\u{a0}') && space('\u{85}') && space('\u{2028}'));
    assert!(!space('a') && !space('\u{200b}') && !space('\0'));
    assert_eq!(text(trim(&chars(" \t a b \r\n"))), "a b");
    assert_eq!(text(trim(&chars("\u{3000}x\u{a0}"))), "x");
    assert_eq!(text(trim(&chars(" \n "))), "");
    assert_eq!(text(trim_start(&chars("  a "))), "a ");
}

#[test]
fn every_character_is_space_as_the_language_has_it() {
    for c in (0..=0x10FFFF).filter_map(char::from_u32) {
        assert_eq!(space(c), c.is_whitespace(), "{c:?}");
    }
}

#[test]
fn texts_are_split_at_each_separator() {
    let s = chars("a,,b,");
    let parts: Vec<String> = split_at_each(&s, ',').into_iter().map(text).collect();
    assert_eq!(parts, vec!["a", "", "b", ""]);
    assert_eq!(split_at_each(&[], ',').len(), 1);
}

#[test]
fn texts_are_split_into_words() {
    let s = chars("  default via\t10.0.0.1\u{a0}dev eth0 \n");
    let words: Vec<String> = split_words(&s).into_iter().map(text).collect();
    assert_eq!(words, vec!["default", "via", "10.0.0.1", "dev", "eth0"]);
    assert_eq!(split_words(&chars(" \n")).len(), 0);
}

#[test]
fn words_are_found_behind_a_marker() {
    let route = "default via 10.0.0.1 dev eth0 proto dhcp";
    assert_eq!(find_word_after(route, "dev"), Some("eth0".to_string()));
    assert_eq!(find_word_after(route, "via"), Some("10.0.0.1".to_string()));
    assert_eq!(find_word_after(route, "dhcp"), None);
    assert_eq!(find_word_after(route, "de"), None);
    assert_eq!(find_word_after("dev dev x", "dev"), Some("dev".to_string()));
}

#[test]
fn parts_are_found() {
    assert!(contains("abcde", "cd"));
    assert!(contains("abcde", "abcde"));
    assert!(contains("abcde", ""));
    assert!(contains("", ""));
    assert!(!contains("abcde", "ce"));
    assert!(!contains("abc", "abcd"));
    assert!(contains("aab", "ab"));
}

#[test]
fn characters_are_compared() {
    assert_eq!(find(&chars("abc"), 'c'), 2);
    assert_eq!(find(&chars("abc"), 'd'), 3);
    assert!(same(&chars("ab"), &chars("ab")));
    assert!(!same(&chars("ab"), &chars("abc")));
    assert!(equals(&chars("ab"), "ab"));
    assert!(!equals(&chars("ab"), "ac"));
    assert!(same_str("", ""));
    assert!(!same_str("a", "A"));
    assert!(same_ignoring_case("TRUE", "true"));
    assert!(same_ignoring_case("tRuE", "TrUe"));
    assert!(!same_ignoring_case("tru", "true"));
    assert!(!same_ignoring_case("[", "{"));
    assert!(!same_ignoring_case("\u{c4}", "\u{e4}"));
}

#[test]
fn strings_become_characters_and_back() {
    assert_eq!(chars_of("a\u{e4}\u{1f600}"), chars("a\u{e4}\u{1f600}"));
    assert_eq!(string_of(&chars("a\u{e4}\u{1f600}")), "a\u{e4}\u{1f600}");
}
