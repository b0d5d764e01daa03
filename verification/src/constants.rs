//! Protocol constants.

use vstd::prelude::*;

verus! {

/// Platform fee in basis points (250 = 2.5%).
pub const PLATFORM_FEE_BPS: u16 = 250;

/// Basis points that make up the whole.
pub const BPS_DENOMINATOR: u64 = 10_000;

/// Fewest outcomes a market can have.
pub const MIN_OUTCOMES: usize = 2;

/// Most outcomes a market can have.
pub const MAX_OUTCOMES: usize = 10;

/// Longest case identifier or outcome name, in bytes.
pub const MAX_NAME_LEN: usize = 64;

/// Smallest stake accepted for one bet (0.01 of the base currency at 1e9 scale).
pub const MIN_BET_AMOUNT: u64 = 10_000_000;

/// Largest stake accepted for one bet (100 units of the base currency).
pub const MAX_BET_AMOUNT: u64 = 100_000_000_000;

/// Smallest liquidity a market can be created with (1 unit of the base currency).
pub const MIN_INITIAL_LIQUIDITY: u64 = 1_000_000_000;

/// Dispute period in seconds (24 hours).
pub const DISPUTE_PERIOD: i64 = 86400;

/// Denominator of the fixed-point prices: a price of `PRICE_SCALE` is certainty.
pub const PRICE_SCALE: u64 = 1_000_000;

} // verus!
