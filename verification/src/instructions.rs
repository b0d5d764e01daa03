//! The operations of the engine, one module each.

pub mod claim_winnings;
pub mod create_market;
pub mod place_bet;
pub mod settle_market;

pub use self::claim_winnings::ClaimWinnings;
pub use self::create_market::CreateMarket;
pub use self::place_bet::PlaceBet;
pub use self::settle_market::SettleMarket;
