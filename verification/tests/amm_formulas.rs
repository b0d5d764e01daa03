use market_manager::errors::MarketError;
use market_manager::utils::amm::{
    calculate_potential_payout, calculate_price_impact, calculate_shares_out, price_to_probability,
};

#[test]
fn shares_out_for_an_even_binary_pool() {
    let k: u128 = 1_000_000_000u128 * 1_000_000_000u128;
    let shares = calculate_shares_out(10_000_000, 1_000_000_000, k).unwrap();
    assert_eq!(shares, 9_900_991);
    assert!(shares < 10_000_000);
}

#[test]
fn shares_out_rounds_the_counter_reserve_down() {
    // 100 / 7 = 14 remainder 2: the reserve keeps 14, the bettor gets 10 - 14 < 0.
    assert_eq!(calculate_shares_out(2, 5, 100), Err(MarketError::ArithmeticUnderflow));
    // 100 / 30 = 3 remainder 10: the bettor gets 20 - 3.
    assert_eq!(calculate_shares_out(10, 20, 100), Ok(17));
}

#[test]
fn shares_out_never_exceed_the_reserve() {
    assert_eq!(calculate_shares_out(u64::MAX, 1_000, 0), Ok(1_000));
    assert_eq!(calculate_shares_out(1, u64::MAX, 1), Ok(u64::MAX));
    assert_eq!(calculate_shares_out(0, 7, 49), Ok(0));
}

#[test]
fn shares_out_without_any_reserve_is_an_overflow() {
    assert_eq!(calculate_shares_out(0, 0, 0), Err(MarketError::ArithmeticOverflow));
    assert_eq!(calculate_shares_out(0, 0, u128::MAX), Err(MarketError::ArithmeticOverflow));
}

#[test]
fn shares_out_with_a_large_snapshot_is_an_underflow() {
    assert_eq!(
        calculate_shares_out(1, 1_000, 1_000_000_000),
        Err(MarketError::ArithmeticUnderflow)
    );
    assert_eq!(calculate_shares_out(0, 1, u128::MAX), Err(MarketError::ArithmeticUnderflow));
}

#[test]
fn shares_out_at_the_edge_of_underflow() {
    // k / (reserve + amount) == reserve exactly: no share, no error.
    assert_eq!(calculate_shares_out(10, 10, 200), Ok(0));
    assert_eq!(calculate_shares_out(10, 10, 219), Ok(0));
    assert_eq!(calculate_shares_out(10, 10, 220), Err(MarketError::ArithmeticUnderflow));
}

#[test]
fn price_impact_values() {
    assert_eq!(calculate_price_impact(10_000_000, 1_000_000_000, 0), Ok(9_900));
    assert_eq!(calculate_price_impact(1, 2, 12345), Ok(333_333));
    assert_eq!(calculate_price_impact(5, 0, 0), Ok(1_000_000));
    assert_eq!(calculate_price_impact(0, 5, 0), Ok(0));
    assert_eq!(calculate_price_impact(u64::MAX, u64::MAX, u64::MAX), Ok(500_000));
}

#[test]
fn price_impact_ignores_the_other_reserve() {
    assert_eq!(
        calculate_price_impact(7, 93, 1),
        calculate_price_impact(7, 93, u64::MAX)
    );
    assert_eq!(calculate_price_impact(7, 93, 1), Ok(70_000));
}

#[test]
fn price_impact_of_nothing_into_nothing_is_an_overflow() {
    assert_eq!(calculate_price_impact(0, 0, 10), Err(MarketError::ArithmeticOverflow));
}

#[test]
fn potential_payout_values() {
    assert_eq!(calculate_potential_payout(9_900_991, 1_009_900_991, 2_010_000_000), Ok(19_705_884));
    assert_eq!(calculate_potential_payout(1, 3, 10), Ok(3));
    assert_eq!(calculate_potential_payout(3, 3, 10), Ok(10));
    assert_eq!(calculate_potential_payout(0, 3, 10), Ok(0));
    assert_eq!(calculate_potential_payout(u64::MAX, u64::MAX, u64::MAX), Ok(u64::MAX));
}

#[test]
fn potential_payout_without_shares_issued_is_zero() {
    assert_eq!(calculate_potential_payout(5, 0, 1_000), Ok(0));
    assert_eq!(calculate_potential_payout(u64::MAX, 0, u64::MAX), Ok(0));
}

#[test]
fn potential_payout_that_does_not_fit_is_an_overflow() {
    assert_eq!(
        calculate_potential_payout(u64::MAX, 1, 2),
        Err(MarketError::ArithmeticOverflow)
    );
    assert_eq!(calculate_potential_payout(u64::MAX, 2, 2), Ok(u64::MAX));
    assert_eq!(
        calculate_potential_payout(1 << 63, 1, 2),
        Err(MarketError::ArithmeticOverflow)
    );
}

#[test]
fn probability_values() {
    assert_eq!(price_to_probability(500_000), Ok(50));
    assert_eq!(price_to_probability(502_487), Ok(50));
    assert_eq!(price_to_probability(1_000_000), Ok(100));
    assert_eq!(price_to_probability(9_999), Ok(0));
    assert_eq!(price_to_probability(10_000), Ok(1));
    assert_eq!(price_to_probability(0), Ok(0));
}

#[test]
fn probability_of_a_huge_price_is_an_overflow() {
    assert_eq!(price_to_probability(184_467_440_737_095_516), Ok(18_446_744_073_709));
    assert_eq!(
        price_to_probability(184_467_440_737_095_517),
        Err(MarketError::ArithmeticOverflow)
    );
    assert_eq!(price_to_probability(u64::MAX), Err(MarketError::ArithmeticOverflow));
}
