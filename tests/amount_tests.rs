use bitcoin_sdk::amount::{
    format_btc_amount, is_valid_amount_internal, parse_btc_amount, AmountError, MAX_SUPPLY,
};
use bitcoin_sdk::is_valid_amount;

#[test]
fn test_is_valid_amount() {
    assert!(is_valid_amount_internal(100_000_000));
    assert!(is_valid_amount_internal(21_000_000 * 100_000_000));
    assert!(!is_valid_amount_internal(21_000_001 * 100_000_000));
}

#[test]
fn test_parse_btc_amount() {
    assert_eq!(parse_btc_amount("1.0").unwrap(), 100_000_000);
    assert_eq!(parse_btc_amount("0.5").unwrap(), 50_000_000);
    assert!(parse_btc_amount("-1.0").is_err());
    assert!(parse_btc_amount("22000000.0").is_err());
}

#[test]
fn supply_cap_boundaries() {
    assert!(is_valid_amount(0));
    assert!(is_valid_amount(MAX_SUPPLY));
    assert!(is_valid_amount(MAX_SUPPLY - 1));
    assert!(!is_valid_amount(MAX_SUPPLY + 1));
    assert!(!is_valid_amount(u64::MAX));
}

#[test]
fn format_exact_values() {
    assert_eq!(format_btc_amount(100_000_000), "1.00000000");
    assert_eq!(format_btc_amount(50_000_000), "0.50000000");
    assert_eq!(format_btc_amount(1), "0.00000001");
    assert_eq!(format_btc_amount(0), "0.00000000");
    assert_eq!(format_btc_amount(MAX_SUPPLY), "21000000.00000000");
    assert_eq!(format_btc_amount(1_234_567_890), "12.34567890");
}

#[test]
fn parse_exact_values() {
    assert_eq!(parse_btc_amount("0.00000001"), Ok(1));
    assert_eq!(parse_btc_amount("1"), Ok(100_000_000));
    assert_eq!(parse_btc_amount("21000000"), Ok(MAX_SUPPLY));
    assert_eq!(parse_btc_amount("0.12345678"), Ok(12_345_678));
    assert_eq!(parse_btc_amount("0.123456789"), Ok(12_345_678));
    assert_eq!(parse_btc_amount(".5"), Ok(50_000_000));
    assert_eq!(parse_btc_amount("1."), Ok(100_000_000));
    assert_eq!(parse_btc_amount("+1"), Ok(100_000_000));
    assert_eq!(parse_btc_amount("21000000.000000000"), Ok(MAX_SUPPLY));
    assert_eq!(parse_btc_amount("-0"), Ok(0));
    assert_eq!(parse_btc_amount("-0.00000000"), Ok(0));
    assert_eq!(parse_btc_amount("007.5"), Ok(750_000_000));
}

#[test]
fn parse_errors() {
    assert_eq!(parse_btc_amount("21000000.00000001"), Err(AmountError::ExceedsSupply));
    assert_eq!(parse_btc_amount("99999999999999999999999"), Err(AmountError::ExceedsSupply));
    assert_eq!(parse_btc_amount("-1.0"), Err(AmountError::Negative));
    assert_eq!(parse_btc_amount("-0.5"), Err(AmountError::Negative));
    assert_eq!(parse_btc_amount(""), Err(AmountError::Malformed));
    assert_eq!(parse_btc_amount("21000000.000000001"), Err(AmountError::ExceedsSupply));
    assert_eq!(parse_btc_amount("."), Err(AmountError::Malformed));
    assert_eq!(parse_btc_amount("+"), Err(AmountError::Malformed));
    assert_eq!(parse_btc_amount("+-1"), Err(AmountError::Malformed));
    assert_eq!(parse_btc_amount("-0.000000001"), Err(AmountError::Negative));
    assert_eq!(parse_btc_amount("NaN"), Err(AmountError::Malformed));
    assert_eq!(parse_btc_amount("-0.00000001"), Err(AmountError::Negative));
    assert_eq!(parse_btc_amount("-"), Err(AmountError::Malformed));
    assert_eq!(parse_btc_amount("abc"), Err(AmountError::Malformed));
    assert_eq!(parse_btc_amount("1.2.3"), Err(AmountError::Malformed));
    assert_eq!(parse_btc_amount("1,5"), Err(AmountError::Malformed));
    assert_eq!(parse_btc_amount("１"), Err(AmountError::Malformed));
}

#[test]
fn amount_text_round_trip() {
    for n in [0u64, 1, 9, 10, 99_999_999, 100_000_000, 123_456_789, MAX_SUPPLY - 1, MAX_SUPPLY] {
        assert_eq!(parse_btc_amount(&format_btc_amount(n)), Ok(n));
    }
}
