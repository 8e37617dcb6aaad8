use sable::table::NameTable;
use sable::lexer::chars::{blank, blank_given, utf8_width, word_char, word_char_given};
use sable::text::{chars_of, parse_u64, str_eq};

#[test]
fn str_eq_compares_characters() {
    assert!(str_eq("", ""));
    assert!(str_eq("abc", "abc"));
    assert!(!str_eq("abc", "abd"));
    assert!(!str_eq("abc", "ab"));
    assert!(str_eq("a\u{e9}", "a\u{e9}"));
    assert!(!str_eq("a\u{e9}", "a\u{e8}"));
}

#[test]
fn chars_of_lists_the_characters() {
    assert_eq!(chars_of("a\u{e9}b"), vec!['a', '\u{e9}', 'b']);
    assert_eq!(chars_of(""), Vec::<char>::new());
}

#[test]
fn parse_u64_reads_decimals() {
    assert_eq!(parse_u64("0"), Some(0));
    assert_eq!(parse_u64("69"), Some(69));
    assert_eq!(parse_u64("+5"), Some(5));
    assert_eq!(parse_u64("007"), Some(7));
    assert_eq!(parse_u64("18446744073709551615"), Some(u64::MAX));
}

#[test]
fn parse_u64_rejects_what_is_no_number() {
    assert_eq!(parse_u64(""), None);
    assert_eq!(parse_u64("+"), None);
    assert_eq!(parse_u64("-1"), None);
    assert_eq!(parse_u64("12a"), None);
    assert_eq!(parse_u64("1 2"), None);
    assert_eq!(parse_u64("1_000"), None);
    assert_eq!(parse_u64("4.5"), None);
    assert_eq!(parse_u64("\u{663}"), None);
    assert_eq!(parse_u64("18446744073709551616"), None);
    assert_eq!(parse_u64("99999999999999999999999"), None);
}

#[test]
fn parse_u64_agrees_with_the_standard_library() {
    for text in ["", "+", "++1", "+0", "1", "42", "18446744073709551615", "18446744073709551616", "x", "1x", " 1"] {
        assert_eq!(parse_u64(text), text.parse::<u64>().ok(), "{:?}", text);
    }
}

#[test]
fn name_table_binds_and_rebinds() {
    let mut table: NameTable<u64> = NameTable::new();
    assert_eq!(table.get("a"), None);
    assert!(!table.contains("a"));
    table.insert("a", 1);
    table.insert("b", 2);
    assert_eq!(table.get("a"), Some(&1));
    assert_eq!(table.get("b"), Some(&2));
    table.insert("a", 3);
    assert_eq!(table.get("a"), Some(&3));
    assert_eq!(table.get("b"), Some(&2));
    assert!(table.contains("b"));
    assert_eq!(table.get("c"), None);
}

#[test]
fn character_classes_agree_with_the_standard_library() {
    for code in 0..=0x10ffffu32 {
        if let Some(c) = char::from_u32(code) {
            assert_eq!(blank(c), c.is_whitespace(), "{:?}", c);
            assert_eq!(word_char(c), c.is_alphanumeric() || c == '_', "{:?}", c);
        }
    }
}

#[test]
fn first_characters_are_classed_without_asking() {
    assert!(blank_given(' ', false));
    assert!(blank_given('\n', false));
    assert!(!blank_given('a', true));
    assert!(!blank_given('\u{b}', false) || '\u{b}'.is_whitespace());
    assert!(blank_given('\u{2003}', true));
    assert!(!blank_given('\u{2003}', false));
    assert!(word_char_given('_', false));
    assert!(word_char_given('Z', false));
    assert!(word_char_given('7', false));
    assert!(!word_char_given('-', true));
    assert!(word_char_given('\u{3b2}', true));
    assert!(!word_char_given('\u{3b2}', false));
    assert_eq!(utf8_width('a'), 1);
    assert_eq!(utf8_width('\u{e9}'), 2);
    assert_eq!(utf8_width('\u{20ac}'), 3);
    assert_eq!(utf8_width('\u{1f600}'), 4);
}
