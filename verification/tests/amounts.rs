use billly::amounts::{format_decimal, parse_decimal};

#[test]
fn formats_with_two_fraction_digits() {
    assert_eq!(format_decimal(0), "0.00".to_string());
    assert_eq!(format_decimal(5), "0.05".to_string());
    assert_eq!(format_decimal(100), "1.00".to_string());
    assert_eq!(format_decimal(1950), "19.50".to_string());
    assert_eq!(format_decimal(123456), "1234.56".to_string());
}

#[test]
fn formats_negative_amounts() {
    assert_eq!(format_decimal(-1950), "-19.50".to_string());
    assert_eq!(format_decimal(-5), "-0.05".to_string());
}

#[test]
fn parses_dot_and_comma_separators() {
    assert_eq!(parse_decimal("19.50"), Ok(1950));
    assert_eq!(parse_decimal("19,50"), Ok(1950));
    assert_eq!(parse_decimal("19,5"), Ok(1950));
    assert_eq!(parse_decimal("0.05"), Ok(5));
}

#[test]
fn parses_integers_and_signs() {
    assert_eq!(parse_decimal("1234"), Ok(123400));
    assert_eq!(parse_decimal("-0.05"), Ok(-5));
    assert_eq!(parse_decimal("+2.00"), Ok(200));
    assert_eq!(parse_decimal("-7"), Ok(-700));
}

#[test]
fn rejects_text_that_is_no_amount() {
    assert!(parse_decimal("").is_err());
    assert!(parse_decimal("abc").is_err());
    assert!(parse_decimal("1.234").is_err());
    assert!(parse_decimal("1.2.3").is_err());
    assert!(parse_decimal("1.").is_err());
    assert!(parse_decimal(".5").is_err());
    assert!(parse_decimal("12345678901234567").is_err());
}

#[test]
fn round_trips_through_text() {
    for cents in [0i64, 1, 99, 100, 1950, -1950, 999999] {
        let text = format_decimal(cents);
        assert_eq!(parse_decimal(&text), Ok(cents));
    }
}
