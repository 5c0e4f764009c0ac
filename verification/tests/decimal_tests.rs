use jarvis_meters::{parse_decimal, Value};

fn parsed_micros(s: &str) -> Option<i64> {
    parse_decimal(s.as_bytes()).map(|v| v.micros())
}

#[test]
fn parses_plain_integers() {
    assert_eq!(parsed_micros("0"), Some(0));
    assert_eq!(parsed_micros("42"), Some(42_000_000));
    assert_eq!(parsed_micros("0000123"), Some(123_000_000));
}

#[test]
fn parses_fractions() {
    assert_eq!(parsed_micros("0000123.45"), Some(123_450_000));
    assert_eq!(parsed_micros("0.5"), Some(500_000));
    assert_eq!(parsed_micros(".5"), Some(500_000));
    assert_eq!(parsed_micros("3."), Some(3_000_000));
    assert_eq!(parsed_micros("0.000001"), Some(1));
}

#[test]
fn parses_signs() {
    assert_eq!(parsed_micros("+3"), Some(3_000_000));
    assert_eq!(parsed_micros("-12.5"), Some(-12_500_000));
    assert_eq!(parsed_micros("-0"), Some(0));
}

#[test]
fn truncates_beyond_the_sixth_fraction_digit() {
    assert_eq!(parsed_micros("0.1234567"), Some(123_456));
    assert_eq!(parsed_micros("-0.9999999"), Some(-999_999));
}

#[test]
fn rejects_malformed_fields() {
    assert_eq!(parsed_micros(""), None);
    assert_eq!(parsed_micros("."), None);
    assert_eq!(parsed_micros("-"), None);
    assert_eq!(parsed_micros("+."), None);
    assert_eq!(parsed_micros("--1"), None);
    assert_eq!(parsed_micros("1.2.3"), None);
    assert_eq!(parsed_micros("12a"), None);
    assert_eq!(parsed_micros(" 12"), None);
    assert_eq!(parsed_micros("1e5"), None);
    assert_eq!(parsed_micros("NaN"), None);
    assert_eq!(parsed_micros("inf"), None);
}

#[test]
fn rejects_values_that_do_not_fit() {
    // More units than any 64-bit count of millionths can hold.
    assert_eq!(parsed_micros("9223372036854.775808"), None);
    assert_eq!(parsed_micros("99999999999999999999999999"), None);
    // The largest representable value parses exactly.
    assert_eq!(parsed_micros("9223372036854.775807"), Some(i64::MAX));
}

#[test]
fn scaled_multiplication_is_exact_and_truncates_toward_zero() {
    let a = Value::from_micros(2_500_000); // 2.5
    let b = Value::from_micros(4_000_000); // 4
    assert_eq!(a.checked_scale_mul(b).unwrap().micros(), 10_000_000);

    let c = Value::from_micros(-2_500_000);
    assert_eq!(c.checked_scale_mul(b).unwrap().micros(), -10_000_000);

    // 0.000001 * 1.5 = 0.0000015, truncated toward zero to 0.000001.
    let tiny = Value::from_micros(1);
    let one_and_a_half = Value::from_micros(1_500_000);
    assert_eq!(tiny.checked_scale_mul(one_and_a_half).unwrap().micros(), 1);
    let neg_tiny = Value::from_micros(-1);
    assert_eq!(neg_tiny.checked_scale_mul(one_and_a_half).unwrap().micros(), -1);
}

#[test]
fn scaled_multiplication_reports_overflow() {
    let big = Value::from_micros(i64::MAX);
    let two = Value::from_micros(2_000_000);
    assert!(big.checked_scale_mul(two).is_none());
    let one = Value::from_micros(1_000_000);
    assert_eq!(big.checked_scale_mul(one).unwrap().micros(), i64::MAX);
}
