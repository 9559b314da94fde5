use svg2gcode_web::decimal::parse_decimal_milli;

#[test]
fn decimals_in_thousandths() {
    assert_eq!(parse_decimal_milli("0"), Some(0));
    assert_eq!(parse_decimal_milli("12"), Some(12_000));
    assert_eq!(parse_decimal_milli("-12.5"), Some(-12_500));
    assert_eq!(parse_decimal_milli("+0.125"), Some(125));
    assert_eq!(parse_decimal_milli("3.14159"), Some(3_141));
    assert_eq!(parse_decimal_milli(".5"), Some(500));
    assert_eq!(parse_decimal_milli("7."), Some(7_000));
    assert_eq!(parse_decimal_milli("9223372036854775.807"), Some(i64::MAX));
}

#[test]
fn decimals_with_exponents() {
    assert_eq!(parse_decimal_milli("1e3"), Some(1_000_000));
    assert_eq!(parse_decimal_milli("2.5E-3"), Some(2));
    assert_eq!(parse_decimal_milli("-1.5e+2"), Some(-150_000));
    assert_eq!(parse_decimal_milli("4e-4"), Some(0));
    assert_eq!(parse_decimal_milli(".5e1"), Some(5_000));
    assert_eq!(parse_decimal_milli("0e9999"), Some(0));
    assert_eq!(parse_decimal_milli("1e9999"), None);
    assert_eq!(parse_decimal_milli("9.223372036854775807e15"), Some(i64::MAX));
    assert_eq!(parse_decimal_milli("9.223372036854775808e15"), None);
}

#[test]
fn non_decimals_rejected() {
    for s in ["", "-", ".", "-.", "e3", "1e", "1e+", "1e12345", "1.e3.", "1ee3", " 1", "1 ", "1,5", "abc", "1.2.3", "9223372036854775.808", "99999999999999999999"] {
        assert_eq!(parse_decimal_milli(s), None, "{s}");
    }
}
