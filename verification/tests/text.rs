use ferrotick::text::{
    decimal_string, eq_ignore_ascii_case, parse_usize, str_contains, to_ascii_lowercase, trim_str,
};

#[test]
fn parse_usize_follows_std() {
    assert_eq!(parse_usize("42"), Some(42));
    assert_eq!(parse_usize("+7"), Some(7));
    assert_eq!(parse_usize("007"), Some(7));
    assert_eq!(parse_usize(""), None);
    assert_eq!(parse_usize("+"), None);
    assert_eq!(parse_usize("-1"), None);
    assert_eq!(parse_usize("12a"), None);
    assert_eq!(parse_usize(" 1"), None);
    assert_eq!(parse_usize("99999999999999999999999"), None);
    for s in ["0", "18446744073709551615", "18446744073709551616", "+12", "x"] {
        assert_eq!(parse_usize(s), s.parse::<usize>().ok());
    }
}

#[test]
fn text_helpers() {
    assert_eq!(decimal_string(0), "0");
    assert_eq!(decimal_string(1204), "1204");
    assert_eq!(to_ascii_lowercase("AbC-Ü"), "abc-Ü");
    assert!(eq_ignore_ascii_case("X-Api", "x-API"));
    assert!(!eq_ignore_ascii_case("abc", "abd"));
    assert_eq!(trim_str("  hi \t"), "hi");
    assert!(str_contains("hello world", "o w"));
    assert!(!str_contains("hello", "world"));
}
