use maenami::numbers::{is_float, parse_u32, parse_u64};

#[test]
fn parse_u64_reads_decimal() {
    assert_eq!(parse_u64("0"), Some(0));
    assert_eq!(parse_u64("42"), Some(42));
    assert_eq!(parse_u64("0042"), Some(42));
    assert_eq!(parse_u64("+7"), Some(7));
    assert_eq!(parse_u64("18446744073709551615"), Some(u64::MAX));
}

#[test]
fn parse_u64_rejects_junk() {
    assert_eq!(parse_u64(""), None);
    assert_eq!(parse_u64("+"), None);
    assert_eq!(parse_u64("-1"), None);
    assert_eq!(parse_u64("1.5"), None);
    assert_eq!(parse_u64("x"), None);
    assert_eq!(parse_u64("1x"), None);
}

#[test]
fn parse_u64_rejects_overflow() {
    assert_eq!(parse_u64("18446744073709551616"), None);
    assert_eq!(parse_u64("99999999999999999999999999"), None);
}

#[test]
fn parse_u32_narrows() {
    assert_eq!(parse_u32("4294967295"), Some(u32::MAX));
    assert_eq!(parse_u32("4294967296"), None);
    assert_eq!(parse_u32("3"), Some(3));
}

#[test]
fn float_tokens_accept_what_float_parsing_accepts() {
    for token in [
        "0", "1", "-1", "+1", "1.5", "-2e3", ".5", "1.", "3.25e-2", "1E+9", "inf", "-inf",
        "Infinity", "NaN", "nan", "+inf",
    ] {
        assert!(is_float(token), "{} should be accepted", token);
        assert!(token.parse::<f32>().is_ok(), "{} should parse", token);
    }
}

#[test]
fn float_tokens_reject_what_float_parsing_rejects() {
    for token in ["", "+", "-", ".", "e5", "1e", "1e+", "--1", "1.5x", "in", "nana", "0x1"] {
        assert!(!is_float(token), "{} should be rejected", token);
        assert!(token.parse::<f32>().is_err(), "{} should not parse", token);
    }
}
