use mdcpl::text::{has_prefix, has_suffix, parse_decimal_i64, push_char, push_decimal, str_equal};

#[test]
fn parse_decimal_accepts_signs_and_limits() {
    assert_eq!(parse_decimal_i64("42"), Some(42));
    assert_eq!(parse_decimal_i64("+7"), Some(7));
    assert_eq!(parse_decimal_i64("-0"), Some(0));
    assert_eq!(parse_decimal_i64("007"), Some(7));
    assert_eq!(parse_decimal_i64("9223372036854775807"), Some(i64::MAX));
    assert_eq!(parse_decimal_i64("-9223372036854775808"), Some(i64::MIN));
}

#[test]
fn parse_decimal_rejects_what_std_rejects() {
    for s in ["", "-", "+", "12a", "1 2", "9223372036854775808", "-9223372036854775809", "99999999999999999999999", "--1", "0x10"] {
        assert_eq!(parse_decimal_i64(s), None, "{}", s);
        assert!(s.parse::<i64>().is_err());
    }
}

#[test]
fn parse_decimal_agrees_with_std() {
    for s in ["0", "1", "-1", "+123", "65536", "-9000000000", "18"] {
        assert_eq!(parse_decimal_i64(s), s.parse::<i64>().ok());
    }
}

#[test]
fn push_helpers() {
    let mut s = String::from("ab");
    push_char(&mut s, 'é');
    assert_eq!(s, "abé");
    push_decimal(&mut s, 0);
    push_decimal(&mut s, 1905);
    assert_eq!(s, "abé01905");
    let mut t = String::new();
    push_decimal(&mut t, u64::MAX);
    assert_eq!(t, u64::MAX.to_string());
}

#[test]
fn string_comparisons() {
    assert!(str_equal("--lex", "--lex"));
    assert!(!str_equal("--lex", "--le"));
    assert!(has_prefix("--lex", "--"));
    assert!(!has_prefix("-", "--"));
    assert!(has_suffix("main.c", ".c"));
    assert!(!has_suffix("main.cc", ".c"));
    assert!(has_suffix("héllo", "llo"));
}
