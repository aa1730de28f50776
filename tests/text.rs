use screen_server::text::{decimal_string, parse_u32, remove_all_of, trim};

#[test]
fn trims_unicode_whitespace() {
    assert_eq!(trim("\u{a0} \n abc \t\u{3000}"), "abc");
    assert_eq!(trim("   "), "");
    assert_eq!(trim("a b"), "a b");
}

#[test]
fn removes_every_occurrence() {
    assert_eq!(remove_all_of("aXXbXXXc", "XX"), "abXc");
    assert_eq!(remove_all_of("Sid gives ", " gives "), "Sid");
    assert_eq!(remove_all_of("", " to "), "");
}

#[test]
fn parses_unsigned_numbers_like_std() {
    assert_eq!(parse_u32("42"), Some(42));
    assert_eq!(parse_u32("+7"), Some(7));
    assert_eq!(parse_u32("4294967295"), Some(u32::MAX));
    assert_eq!(parse_u32("4294967296"), None);
    assert_eq!(parse_u32(""), None);
    assert_eq!(parse_u32("+"), None);
    assert_eq!(parse_u32("-1"), None);
    assert_eq!(parse_u32(" 1"), None);
}

#[test]
fn writes_decimal_numbers() {
    assert_eq!(decimal_string(0), "0");
    assert_eq!(decimal_string(8588845), "8588845");
    assert_eq!(decimal_string(u32::MAX), u32::MAX.to_string());
}

#[test]
fn removing_an_empty_pattern_keeps_the_text() {
    assert_eq!(remove_all_of("abc", ""), "abc");
}
