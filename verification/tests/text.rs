use scryer_plugins::text::{
    chars_of, contains_chars, eq_ignore_ascii_case, i64_to_string, parse_i64, parse_u64,
    trim_string, u64_to_string, IntErrorKind,
};

#[test]
fn unsigned_integers_parse_as_from_str_does() {
    assert_eq!(parse_u64("0"), Ok(0));
    assert_eq!(parse_u64("+42"), Ok(42));
    assert_eq!(parse_u64("18446744073709551615"), Ok(u64::MAX));
    assert_eq!(parse_u64("18446744073709551616"), Err(IntErrorKind::PosOverflow));
    assert_eq!(parse_u64(""), Err(IntErrorKind::Empty));
    assert_eq!(parse_u64("+"), Err(IntErrorKind::InvalidDigit));
    assert_eq!(parse_u64("-1"), Err(IntErrorKind::InvalidDigit));
    assert_eq!(parse_u64(" 1"), Err(IntErrorKind::InvalidDigit));
    assert_eq!(IntErrorKind::InvalidDigit.message(), "invalid digit found in string");
}

#[test]
fn signed_integers_parse_as_from_str_does() {
    assert_eq!(parse_i64("-9223372036854775808"), Some(i64::MIN));
    assert_eq!(parse_i64("9223372036854775807"), Some(i64::MAX));
    assert_eq!(parse_i64("9223372036854775808"), None);
    assert_eq!(parse_i64("-"), None);
    assert_eq!(parse_i64("12a"), None);
}

#[test]
fn integers_format_in_decimal() {
    assert_eq!(u64_to_string(0), "0");
    assert_eq!(u64_to_string(u64::MAX), "18446744073709551615");
    assert_eq!(i64_to_string(i64::MIN), "-9223372036854775808");
    assert_eq!(i64_to_string(-5), "-5");
}

#[test]
fn trimming_and_matching_follow_std() {
    assert_eq!(trim_string("\u{3000} x y \n"), "x y");
    assert!(eq_ignore_ascii_case(&chars_of("AbC"), &chars_of("aBc")));
    assert!(!eq_ignore_ascii_case(&chars_of("Äb"), &chars_of("äb")));
    assert!(contains_chars(&chars_of("http://localhost"), &chars_of("://local")));
    assert!(!contains_chars(&chars_of("http"), &chars_of("https")));
}
