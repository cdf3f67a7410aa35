use billly::dates::{format_date, is_valid_date, normalize_date};

fn norm(s: &str) -> Option<String> {
    normalize_date(Some(s.to_string()))
}

#[test]
fn iso_input_is_kept_canonical() {
    assert_eq!(norm("2024-03-01"), Some("2024-03-01".to_string()));
}

#[test]
fn dotted_day_first_is_normalized() {
    assert_eq!(norm("01.03.2024"), Some("2024-03-01".to_string()));
}

#[test]
fn slashed_day_first_is_normalized() {
    assert_eq!(norm("01/03/2024"), Some("2024-03-01".to_string()));
}

#[test]
fn slashed_year_first_is_normalized() {
    assert_eq!(norm("2024/03/01"), Some("2024-03-01".to_string()));
}

#[test]
fn dotted_year_first_is_normalized() {
    assert_eq!(norm("2024.03.01"), Some("2024-03-01".to_string()));
}

#[test]
fn unparseable_text_passes_through_unchanged() {
    assert_eq!(norm("March 1st"), Some("March 1st".to_string()));
}

#[test]
fn single_digit_day_and_month_are_padded() {
    assert_eq!(norm("1.3.2024"), Some("2024-03-01".to_string()));
    assert_eq!(norm("2024-3-1"), Some("2024-03-01".to_string()));
}

#[test]
fn surrounding_whitespace_is_trimmed() {
    assert_eq!(norm("  2024-03-01  "), Some("2024-03-01".to_string()));
}

#[test]
fn blank_input_becomes_none() {
    assert_eq!(norm(""), None);
    assert_eq!(norm("   "), None);
    assert_eq!(normalize_date(None), None);
}

#[test]
fn impossible_date_passes_through() {
    assert_eq!(norm("2024-02-30"), Some("2024-02-30".to_string()));
    assert_eq!(norm("2023-02-29"), Some("2023-02-29".to_string()));
    assert_eq!(norm("00.13.2024"), Some("00.13.2024".to_string()));
}

#[test]
fn leap_day_is_accepted() {
    assert_eq!(norm("29.02.2024"), Some("2024-02-29".to_string()));
    assert_eq!(norm("2000-02-29"), Some("2000-02-29".to_string()));
}

#[test]
fn century_non_leap_year_rejects_leap_day() {
    assert!(!is_valid_date(1900, 2, 29));
    assert!(is_valid_date(2000, 2, 29));
    assert!(!is_valid_date(2024, 4, 31));
}

#[test]
fn formatting_zero_pads() {
    assert_eq!(format_date(7, 4, 9), "0007-04-09".to_string());
}
