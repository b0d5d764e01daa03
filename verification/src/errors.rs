//! Failure kinds of the market engine.

use vstd::prelude::*;

verus! {

/// Every way an operation of the engine can be rejected.
#[derive(Clone, Copy, Debug, PartialEq, Eq, Structural)]
pub enum MarketError {
    /// A bet or liquidity change was attempted on a market that is not active.
    MarketNotActive,
    /// The market already has a declared winner.
    MarketAlreadySettled,
    /// The deadline forbids the operation at the given time.
    SettlementTimeNotReached,
    /// The outcome index does not name an outcome of the market.
    InvalidOutcomeIndex,
    /// The stake is below the minimum bet.
    BetAmountTooSmall,
    /// The stake is above the maximum bet.
    BetAmountTooLarge,
    /// The initial liquidity is below the minimum.
    InsufficientLiquidity,
    /// The bet would yield fewer shares than the bettor accepts.
    SlippageExceeded,
    /// The number of outcomes is outside the accepted range.
    TooManyOutcomes,
    /// The market has no declared winner yet.
    MarketNotSettled,
    /// The bet has already been redeemed.
    AlreadyClaimed,
    /// The bet is on an outcome that did not win.
    NotWinningBet,
    /// The caller is not the oracle registered for the market.
    OracleNotAuthorized,
    /// The liquidity amounts do not fit the pool.
    InvalidLiquidityAmounts,
    /// More LP tokens were named than are held.
    InsufficientLPTokens,
    /// The case identifier is longer than 64 bytes.
    CaseIdTooLong,
    /// An outcome name is longer than 64 bytes.
    OutcomeNameTooLong,
    /// A result does not fit its integer type, or a division has no divisor.
    ArithmeticOverflow,
    /// A subtraction would go below zero.
    ArithmeticUnderflow,
}

impl MarketError {
    /// The message shown for this failure.
    pub open spec fn spec_message(self) -> Seq<char> {
        match self {
            MarketError::MarketNotActive => "Market is not active"@,
            MarketError::MarketAlreadySettled => "Market already settled"@,
            MarketError::SettlementTimeNotReached => "Settlement time not reached"@,
            MarketError::InvalidOutcomeIndex => "Invalid outcome index"@,
            MarketError::BetAmountTooSmall => "Bet amount too small"@,
            MarketError::BetAmountTooLarge => "Bet amount too large"@,
            MarketError::InsufficientLiquidity => "Insufficient liquidity"@,
            MarketError::SlippageExceeded => "Slippage tolerance exceeded"@,
            MarketError::TooManyOutcomes => "Too many outcomes"@,
            MarketError::MarketNotSettled => "Market not settled yet"@,
            MarketError::AlreadyClaimed => "Already claimed winnings"@,
            MarketError::NotWinningBet => "Not a winning bet"@,
            MarketError::OracleNotAuthorized => "Oracle not authorized"@,
            MarketError::InvalidLiquidityAmounts => "Invalid liquidity amounts"@,
            MarketError::InsufficientLPTokens => "Insufficient LP tokens"@,
            MarketError::CaseIdTooLong => "Case ID too long"@,
            MarketError::OutcomeNameTooLong => "Outcome name too long"@,
            MarketError::ArithmeticOverflow => "Arithmetic overflow"@,
            MarketError::ArithmeticUnderflow => "Arithmetic underflow"@,
        }
    }

    /// The message shown for this failure.
    pub fn message(&self) -> (text: &'static str)
        ensures
            text@ == self.spec_message(),
    {
        match self {
            MarketError::MarketNotActive => "Market is not active",
            MarketError::MarketAlreadySettled => "Market already settled",
            MarketError::SettlementTimeNotReached => "Settlement time not reached",
            MarketError::InvalidOutcomeIndex => "Invalid outcome index",
            MarketError::BetAmountTooSmall => "Bet amount too small",
            MarketError::BetAmountTooLarge => "Bet amount too large",
            MarketError::InsufficientLiquidity => "Insufficient liquidity",
            MarketError::SlippageExceeded => "Slippage tolerance exceeded",
            MarketError::TooManyOutcomes => "Too many outcomes",
            MarketError::MarketNotSettled => "Market not settled yet",
            MarketError::AlreadyClaimed => "Already claimed winnings",
            MarketError::NotWinningBet => "Not a winning bet",
            MarketError::OracleNotAuthorized => "Oracle not authorized",
            MarketError::InvalidLiquidityAmounts => "Invalid liquidity amounts",
            MarketError::InsufficientLPTokens => "Insufficient LP tokens",
            MarketError::CaseIdTooLong => "Case ID too long",
            MarketError::OutcomeNameTooLong => "Outcome name too long",
            MarketError::ArithmeticOverflow => "Arithmetic overflow",
            MarketError::ArithmeticUnderflow => "Arithmetic underflow",
        }
    }
}

} // verus!
