use tagged_rusqlite::text::{escape_str_literal, find_char, trim_str, usize_to_string};

#[test]
fn trim_removes_surrounding_whitespace_only() {
    assert_eq!(trim_str("  a b  "), "a b");
    assert_eq!(trim_str("\t\n x \r"), "x");
    assert_eq!(trim_str("abc"), "abc");
    assert_eq!(trim_str("   "), "");
    assert_eq!(trim_str(""), "");
}

#[test]
fn find_char_returns_the_first_position_at_or_after_from() {
    assert_eq!(find_char("hello", 'l', 0), Some(2));
    assert_eq!(find_char("hello", 'l', 3), Some(3));
    assert_eq!(find_char("hello", 'l', 4), None);
    assert_eq!(find_char("hello", 'z', 0), None);
    assert_eq!(find_char("", 'a', 0), None);
}

#[test]
fn decimal_rendering_is_exact() {
    assert_eq!(usize_to_string(0), "0");
    assert_eq!(usize_to_string(7), "7");
    assert_eq!(usize_to_string(10), "10");
    assert_eq!(usize_to_string(12345), "12345");
}

#[test]
fn escaping_touches_only_quotes_and_backslashes() {
    assert_eq!(escape_str_literal("plain"), "plain");
    assert_eq!(escape_str_literal("a\"b"), "a\\\"b");
    assert_eq!(escape_str_literal("a\\b"), "a\\\\b");
    assert_eq!(escape_str_literal("line\nbreak"), "line\nbreak");
}

use tagged_rusqlite::text::parse_i64;

#[test]
fn parse_i64_accepts_the_signed_decimal_grammar() {
    assert_eq!(parse_i64("0"), Some(0));
    assert_eq!(parse_i64("1600000000000"), Some(1_600_000_000_000));
    assert_eq!(parse_i64("+42"), Some(42));
    assert_eq!(parse_i64("-42"), Some(-42));
    assert_eq!(parse_i64("9223372036854775807"), Some(i64::MAX));
    assert_eq!(parse_i64("-9223372036854775808"), Some(i64::MIN));
}

#[test]
fn parse_i64_refuses_everything_else() {
    assert_eq!(parse_i64(""), None);
    assert_eq!(parse_i64("+"), None);
    assert_eq!(parse_i64("-"), None);
    assert_eq!(parse_i64(" 1"), None);
    assert_eq!(parse_i64("1 "), None);
    assert_eq!(parse_i64("1a"), None);
    assert_eq!(parse_i64("12.5"), None);
    assert_eq!(parse_i64("9223372036854775808"), None);
    assert_eq!(parse_i64("-9223372036854775809"), None);
    assert_eq!(parse_i64("99999999999999999999999999"), None);
}
