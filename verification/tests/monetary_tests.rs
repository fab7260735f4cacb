use architect_chain::chain::monetary::conversions::{
    format_satoshis, is_above_dust_threshold, is_valid_fee,
};
use architect_chain::chain::monetary::educational::{LARGE_AMOUNT, MEDIUM_AMOUNT, SMALL_AMOUNT};
use architect_chain::chain::monetary::{
    DEFAULT_TRANSACTION_FEE, DUST_THRESHOLD, INITIAL_BLOCK_REWARD, MAX_TRANSACTION_FEE,
    MIN_TRANSACTION_FEE, SATOSHIS_PER_COIN,
};

#[test]
fn test_monetary_constants() {
    assert_eq!(SATOSHIS_PER_COIN, 100_000_000);
    assert_eq!(INITIAL_BLOCK_REWARD, 50 * SATOSHIS_PER_COIN);
    assert!(MIN_TRANSACTION_FEE < DEFAULT_TRANSACTION_FEE);
    assert!(DEFAULT_TRANSACTION_FEE < MAX_TRANSACTION_FEE);
}

#[test]
fn test_validation() {
    assert!(!is_above_dust_threshold(DUST_THRESHOLD - 1));
    assert!(is_above_dust_threshold(DUST_THRESHOLD));
    assert!(is_above_dust_threshold(DUST_THRESHOLD + 1));

    assert!(!is_valid_fee(MIN_TRANSACTION_FEE - 1));
    assert!(is_valid_fee(MIN_TRANSACTION_FEE));
    assert!(is_valid_fee(DEFAULT_TRANSACTION_FEE));
    assert!(is_valid_fee(MAX_TRANSACTION_FEE));
    assert!(!is_valid_fee(MAX_TRANSACTION_FEE + 1));
}

#[test]
fn test_formatting() {
    assert_eq!(format_satoshis(SATOSHIS_PER_COIN), "1.00000000 coins");
    assert_eq!(format_satoshis(SATOSHIS_PER_COIN / 2), "0.50000000 coins");
    assert_eq!(format_satoshis(1_000), "0.00001000 coins");
}

#[test]
fn test_educational_constants() {
    assert_eq!(SMALL_AMOUNT, SATOSHIS_PER_COIN / 1_000);
    assert_eq!(MEDIUM_AMOUNT, SATOSHIS_PER_COIN / 10);
    assert_eq!(LARGE_AMOUNT, 10 * SATOSHIS_PER_COIN);
    assert!(SMALL_AMOUNT < MEDIUM_AMOUNT);
    assert!(MEDIUM_AMOUNT < LARGE_AMOUNT);
}

#[test]
fn format_satoshis_keeps_every_digit() {
    assert_eq!(format_satoshis(0), "0.00000000 coins");
    assert_eq!(format_satoshis(1), "0.00000001 coins");
    assert_eq!(format_satoshis(123_456_789), "1.23456789 coins");
    assert_eq!(format_satoshis(u64::MAX), "184467440737.09551615 coins");
}
