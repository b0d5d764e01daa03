//! Records of the engine: markets, liquidity pools and bets.

pub mod bet;
pub mod market;
pub mod pool;

pub use self::bet::{Bet, BetView};
pub use self::market::{Market, MarketStatus, MarketView, Outcome, OutcomeView};
pub use self::pool::{LiquidityPool, PoolView};
