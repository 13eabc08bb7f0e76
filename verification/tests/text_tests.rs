use seq_everruns_bridge::text::{
    i64_to_dec_string, non_empty, parse_u64_dec, str_eq, trim_str, u64_to_dec_string,
};

#[test]
fn decimal_rendering_exact_values() {
    assert_eq!(u64_to_dec_string(0), "0");
    assert_eq!(u64_to_dec_string(7), "7");
    assert_eq!(u64_to_dec_string(100), "100");
    assert_eq!(u64_to_dec_string(u64::MAX), "18446744073709551615");
}

#[test]
fn signed_rendering_exact_values() {
    assert_eq!(i64_to_dec_string(0), "0");
    assert_eq!(i64_to_dec_string(3), "3");
    assert_eq!(i64_to_dec_string(-1), "-1");
    assert_eq!(i64_to_dec_string(i64::MIN), "-9223372036854775808");
    assert_eq!(i64_to_dec_string(i64::MAX), "9223372036854775807");
}

#[test]
fn parsing_accepts_exactly_digit_strings_in_range() {
    assert_eq!(parse_u64_dec("0"), Some(0));
    assert_eq!(parse_u64_dec("007"), Some(7));
    assert_eq!(parse_u64_dec("18446744073709551615"), Some(u64::MAX));
    assert_eq!(parse_u64_dec("18446744073709551616"), None);
    assert_eq!(parse_u64_dec(""), None);
    assert_eq!(parse_u64_dec("12a"), None);
    assert_eq!(parse_u64_dec("-1"), None);
    assert_eq!(parse_u64_dec(" 1"), None);
}

#[test]
fn rendering_then_parsing_is_identity() {
    for n in [0u64, 1, 9, 10, 99, 4096, u64::MAX] {
        assert_eq!(parse_u64_dec(&u64_to_dec_string(n)), Some(n));
    }
}

#[test]
fn trimming_removes_only_the_margins() {
    assert_eq!(trim_str("  a b  "), "a b");
    assert_eq!(trim_str("\t\r\nx\n"), "x");
    assert_eq!(trim_str("   "), "");
    assert_eq!(trim_str(""), "");
    assert_eq!(trim_str("plain"), "plain");
}

#[test]
fn non_empty_distinguishes_blank_from_text() {
    assert_eq!(non_empty("  value "), Some("value".to_string()));
    assert_eq!(non_empty("   "), None);
    assert_eq!(non_empty(""), None);
}

#[test]
fn str_eq_is_exact() {
    assert!(str_eq("abc", "abc"));
    assert!(!str_eq("abc", "abd"));
    assert!(!str_eq("abc", "abcd"));
    assert!(str_eq("", ""));
}
