use pw_volume::fixed::{is_decimal_percentage, parse_decimal, parse_percentage};

#[test]
fn decimal_percentage_accepts_examples() {
    assert!(is_decimal_percentage("+1%"));
    assert!(is_decimal_percentage("-0.5%"));
    assert!(is_decimal_percentage("12.25%"));
}

#[test]
fn decimal_percentage_rejects_examples() {
    assert!(!is_decimal_percentage("1"));
    assert!(!is_decimal_percentage("%"));
    assert!(!is_decimal_percentage("abc%"));
    assert!(!is_decimal_percentage(""));
}

#[test]
fn decimal_percentage_rejects_bare_sign_and_point() {
    assert!(!is_decimal_percentage("+%"));
    assert!(!is_decimal_percentage(".%"));
    assert!(!is_decimal_percentage("1e%"));
    assert!(!is_decimal_percentage("1%%"));
}

#[test]
fn percentage_values_in_units() {
    assert_eq!(parse_percentage("+1%"), Some(10_000_000));
    assert_eq!(parse_percentage("-0.5%"), Some(-5_000_000));
    assert_eq!(parse_percentage("12.25%"), Some(122_500_000));
    assert_eq!(parse_percentage("+0%"), Some(0));
    assert_eq!(parse_percentage("+1000%"), Some(10_000_000_000));
    assert_eq!(parse_percentage("1"), None);
}

#[test]
fn decimal_text_with_exponent() {
    assert_eq!(parse_decimal("1e-6", 9), Some(1_000));
    assert_eq!(parse_decimal("2.5E+1", 9), Some(25_000_000_000));
    assert_eq!(parse_decimal("-3", 9), Some(-3_000_000_000));
    assert_eq!(parse_decimal(".5", 9), Some(500_000_000));
    assert_eq!(parse_decimal("5.", 9), Some(5_000_000_000));
}

#[test]
fn decimal_text_cut_toward_zero() {
    assert_eq!(parse_decimal("0.123456789123", 9), Some(123_456_789));
    assert_eq!(parse_decimal("-0.123456789999", 9), Some(-123_456_789));
    assert_eq!(parse_decimal("1e-10", 9), Some(0));
}

#[test]
fn decimal_text_saturates() {
    assert_eq!(parse_decimal("1e10", 9), Some(1_000_000_000_000_000_000));
    assert_eq!(parse_decimal("-1e99999", 9), Some(-1_000_000_000_000_000_000));
    assert_eq!(parse_decimal("1e-99999", 9), Some(0));
    assert_eq!(parse_decimal("1e123456789012", 9), Some(1_000_000_000_000_000_000));
    assert_eq!(parse_percentage("200000000000%"), Some(1_000_000_000_000_000_000));
}

#[test]
fn decimal_text_with_many_digits() {
    let long_int = format!("1{}", "0".repeat(40));
    assert_eq!(parse_decimal(&long_int, 9), Some(1_000_000_000_000_000_000));
    let long_frac = format!("0.5{}", "1".repeat(40));
    assert_eq!(parse_decimal(&long_frac, 9), Some(511_111_111));
    let leading = format!("{}7.25", "0".repeat(50));
    assert_eq!(parse_decimal(&leading, 9), Some(7_250_000_000));
    let tiny = format!("0.{}1", "0".repeat(50));
    assert_eq!(parse_decimal(&tiny, 9), Some(0));
    assert!(is_decimal_percentage(&format!("{}%", "9".repeat(60))));
}

#[test]
fn decimal_text_malformed() {
    assert_eq!(parse_decimal("0x10", 9), None);
    assert_eq!(parse_decimal("1.2.3", 9), None);
    assert_eq!(parse_decimal("inf", 9), None);
    assert_eq!(parse_decimal("", 9), None);
}
