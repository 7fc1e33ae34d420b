use mzdata::text::parse_u64;

#[test]
fn decimal_numbers_are_parsed() {
    assert_eq!(parse_u64("0"), Some(0));
    assert_eq!(parse_u64("7"), Some(7));
    assert_eq!(parse_u64("4242"), Some(4242));
    assert_eq!(parse_u64("0004242"), Some(4242));
    assert_eq!(parse_u64("+15"), Some(15));
    assert_eq!(parse_u64("18446744073709551615"), Some(u64::MAX));
}

#[test]
fn anything_else_is_rejected() {
    assert_eq!(parse_u64(""), None);
    assert_eq!(parse_u64("+"), None);
    assert_eq!(parse_u64("-1"), None);
    assert_eq!(parse_u64("-0"), None);
    assert_eq!(parse_u64("++1"), None);
    assert_eq!(parse_u64("1+"), None);
    assert_eq!(parse_u64(" 1"), None);
    assert_eq!(parse_u64("1 "), None);
    assert_eq!(parse_u64("12a"), None);
    assert_eq!(parse_u64("1.5"), None);
    assert_eq!(parse_u64("0x10"), None);
    assert_eq!(parse_u64("\u{0661}\u{0662}"), None);
}

#[test]
fn values_out_of_range_are_rejected() {
    assert_eq!(parse_u64("18446744073709551616"), None);
    assert_eq!(parse_u64("18446744073709551620"), None);
    assert_eq!(parse_u64("99999999999999999999"), None);
    assert_eq!(parse_u64("100000000000000000000000000"), None);
}

#[test]
fn parsing_agrees_with_the_standard_library() {
    for text in [
        "0", "1", "+1", "-1", "", "+", "18446744073709551615", "18446744073709551616", "00",
        "1_000", "12 ", "٣", "9223372036854775808", "+0", "+-1", "1e3",
    ] {
        assert_eq!(parse_u64(text), text.parse::<u64>().ok(), "for {:?}", text);
    }
}
