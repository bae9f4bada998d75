//! Bandwidth notation.

use rperf3::bandwidth::{parse_bandwidth, BandwidthError};

#[test]
fn test_parse_bandwidth_kilobits() {
    assert_eq!(parse_bandwidth("500K").unwrap(), 500_000);
    assert_eq!(parse_bandwidth("500k").unwrap(), 500_000);
}

#[test]
fn test_parse_bandwidth_megabits() {
    assert_eq!(parse_bandwidth("100M").unwrap(), 100_000_000);
    assert_eq!(parse_bandwidth("100m").unwrap(), 100_000_000);
}

#[test]
fn test_parse_bandwidth_gigabits() {
    assert_eq!(parse_bandwidth("1G").unwrap(), 1_000_000_000);
    assert_eq!(parse_bandwidth("1g").unwrap(), 1_000_000_000);
}

#[test]
fn test_parse_bandwidth_plain_number() {
    assert_eq!(parse_bandwidth("1000000").unwrap(), 1_000_000);
}

#[test]
fn test_parse_bandwidth_with_whitespace() {
    assert_eq!(parse_bandwidth(" 100M ").unwrap(), 100_000_000);
}

#[test]
fn test_parse_bandwidth_invalid() {
    assert!(parse_bandwidth("").is_err());
    assert!(parse_bandwidth("abc").is_err());
    assert!(parse_bandwidth("M").is_err());
}

#[test]
fn blank_bandwidth_is_empty() {
    let err = parse_bandwidth(" \t\u{2003}\n").unwrap_err();
    assert!(matches!(err, BandwidthError::Empty));
    assert_eq!(err.message(), "Bandwidth cannot be empty");
}

#[test]
fn bad_number_is_named_in_the_message() {
    let err = parse_bandwidth(" 12x4M").unwrap_err();
    assert!(matches!(err, BandwidthError::InvalidNumber(_)));
    assert_eq!(err.message(), "Invalid bandwidth number: 12x4");
    assert_eq!(parse_bandwidth("K").unwrap_err().message(), "Invalid bandwidth number: ");
    assert_eq!(parse_bandwidth("1 G").unwrap_err().message(), "Invalid bandwidth number: 1 ");
    assert_eq!(parse_bandwidth("-5").unwrap_err().message(), "Invalid bandwidth number: -5");
    assert_eq!(parse_bandwidth("5MM").unwrap_err().message(), "Invalid bandwidth number: 5M");
}

#[test]
fn plus_sign_and_leading_zeros_are_read() {
    assert_eq!(parse_bandwidth("+007K").unwrap(), 7_000);
    assert!(parse_bandwidth("+").is_err());
    assert!(parse_bandwidth("++1").is_err());
}

#[test]
fn largest_numbers() {
    assert_eq!(parse_bandwidth("18446744073709551615").unwrap(), u64::MAX);
    assert!(parse_bandwidth("18446744073709551616").is_err());
    let err = parse_bandwidth(" 18446744074G ").unwrap_err();
    assert!(matches!(err, BandwidthError::TooLarge(_)));
    assert_eq!(err.message(), "Bandwidth is too large: 18446744074G");
    assert!(matches!(
        parse_bandwidth("18446744073709551615K"),
        Err(BandwidthError::TooLarge(_))
    ));
    assert_eq!(parse_bandwidth("18446744073G").unwrap(), 18_446_744_073_000_000_000);
}
