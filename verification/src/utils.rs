//! Pricing formulas and the arithmetic facts behind them.

pub mod amm;
pub mod math;
