//! One stake of one user on one outcome.

use crate::pubkey::Pubkey;
use vstd::prelude::*;

verus! {

/// A stake, with the shares the pool gave for it.
#[derive(Clone, Copy, Debug, PartialEq, Eq)]
pub struct Bet {
    /// Market this bet belongs to.
    pub market: Pubkey,
    /// Owner of the bet.
    pub user: Pubkey,
    /// Outcome the stake is on.
    pub outcome_index: u8,
    /// Value staked.
    pub amount: u64,
    /// Shares the pool gave for the stake.
    pub shares: u64,
    /// Price of the outcome just before the stake moved it.
    pub entry_price: u64,
    /// When the bet was placed.
    pub timestamp: i64,
    /// Whether the bet has been redeemed; goes from `false` to `true` once.
    pub claimed: bool,
}

/// Mathematical model of a [`Bet`].
pub struct BetView {
    pub market: Seq<u8>,
    pub user: Seq<u8>,
    pub outcome_index: nat,
    pub amount: nat,
    pub shares: nat,
    pub entry_price: nat,
    pub timestamp: int,
    pub claimed: bool,
}

impl View for Bet {
    type V = BetView;

    open spec fn view(&self) -> BetView {
        BetView {
            market: self.market@,
            user: self.user@,
            outcome_index: self.outcome_index as nat,
            amount: self.amount as nat,
            shares: self.shares as nat,
            entry_price: self.entry_price as nat,
            timestamp: self.timestamp as int,
            claimed: self.claimed,
        }
    }
}

/// Shares that the bets in `bets` hold on the outcome `outcome`.
pub open spec fn shares_staked_on(bets: Seq<BetView>, outcome: nat) -> nat
    decreases bets.len(),
{
    if bets.len() == 0 {
        0
    } else {
        shares_staked_on(bets.drop_last(), outcome) + if bets.last().outcome_index == outcome {
            bets.last().shares
        } else {
            0
        }
    }
}

} // verus!
