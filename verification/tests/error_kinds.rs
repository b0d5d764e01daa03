use market_manager::errors::MarketError;
use market_manager::pubkey::Pubkey;

#[test]
fn every_error_has_its_message() {
    let all = [
        (MarketError::MarketNotActive, "Market is not active"),
        (MarketError::MarketAlreadySettled, "Market already settled"),
        (MarketError::SettlementTimeNotReached, "Settlement time not reached"),
        (MarketError::InvalidOutcomeIndex, "Invalid outcome index"),
        (MarketError::BetAmountTooSmall, "Bet amount too small"),
        (MarketError::BetAmountTooLarge, "Bet amount too large"),
        (MarketError::InsufficientLiquidity, "Insufficient liquidity"),
        (MarketError::SlippageExceeded, "Slippage tolerance exceeded"),
        (MarketError::TooManyOutcomes, "Too many outcomes"),
        (MarketError::MarketNotSettled, "Market not settled yet"),
        (MarketError::AlreadyClaimed, "Already claimed winnings"),
        (MarketError::NotWinningBet, "Not a winning bet"),
        (MarketError::OracleNotAuthorized, "Oracle not authorized"),
        (MarketError::InvalidLiquidityAmounts, "Invalid liquidity amounts"),
        (MarketError::InsufficientLPTokens, "Insufficient LP tokens"),
        (MarketError::CaseIdTooLong, "Case ID too long"),
        (MarketError::OutcomeNameTooLong, "Outcome name too long"),
        (MarketError::ArithmeticOverflow, "Arithmetic overflow"),
        (MarketError::ArithmeticUnderflow, "Arithmetic underflow"),
    ];
    for (error, message) in all {
        assert_eq!(error.message(), message);
    }
}

#[test]
fn errors_are_told_apart() {
    assert_ne!(MarketError::ArithmeticOverflow, MarketError::ArithmeticUnderflow);
    assert_ne!(MarketError::MarketNotSettled, MarketError::MarketAlreadySettled);
    assert_eq!(MarketError::AlreadyClaimed, MarketError::AlreadyClaimed);
}

#[test]
fn pubkeys_compare_by_their_bytes() {
    let a = Pubkey { bytes: [5u8; 32] };
    let b = Pubkey { bytes: [5u8; 32] };
    let mut c = Pubkey { bytes: [5u8; 32] };
    c.bytes[0] = 6;
    let mut d = Pubkey { bytes: [5u8; 32] };
    d.bytes[31] = 6;
    assert!(a == b);
    assert!(a != c);
    assert!(a != d);
    assert!(c != d);
}
