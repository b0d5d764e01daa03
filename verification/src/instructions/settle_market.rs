//! Settlement: the oracle declares the winning outcome.

use crate::errors::MarketError;
use crate::pubkey::Pubkey;
use crate::state::market::{Market, MarketStatus, MarketView};
use vstd::prelude::*;

verus! {

/// A market and who asks to settle it.
#[derive(Clone, Debug, PartialEq, Eq)]
pub struct SettleMarket {
    /// The market to settle.
    pub market: Market,
    /// Who asks for the settlement.
    pub oracle: Pubkey,
}

/// The market after a settlement request, or why the request is refused.
///
/// The checks come in this order: the market is not yet settled; it is active;
/// `current_time` has reached the deadline; the caller is the market's oracle; the winning
/// outcome exists. Settlement records the winner and the time and is final.
pub open spec fn settle_market_step(
    m: MarketView,
    caller: Seq<u8>,
    winning_outcome_index: nat,
    current_time: int,
) -> Result<MarketView, MarketError> {
    if m.status == MarketStatus::Settled {
        Err(MarketError::MarketAlreadySettled)
    } else if m.status != MarketStatus::Active {
        Err(MarketError::MarketNotActive)
    } else if current_time < m.settlement_time {
        Err(MarketError::SettlementTimeNotReached)
    } else if caller != m.oracle {
        Err(MarketError::OracleNotAuthorized)
    } else if winning_outcome_index >= m.outcomes.len() {
        Err(MarketError::InvalidOutcomeIndex)
    } else {
        Ok(
            MarketView {
                status: MarketStatus::Settled,
                winning_outcome: Some(winning_outcome_index),
                settled_at: Some(current_time),
                ..m
            },
        )
    }
}

/// Settles the market as [`settle_market_step`] says. A refused request leaves the market
/// untouched.
pub fn handler(ctx: &mut SettleMarket, winning_outcome_index: u8, current_time: i64) -> (result:
    Result<(), MarketError>)
    requires
        old(ctx).market.wf(),
    ensures
        match settle_market_step(
            old(ctx).market@,
            old(ctx).oracle@,
            winning_outcome_index as nat,
            current_time as int,
        ) {
            Ok(market) => result is Ok && final(ctx).market@ == market,
            Err(e) => result matches Err(err) && err == e && *final(ctx) == *old(ctx),
        },
        final(ctx).oracle == old(ctx).oracle,
        final(ctx).market.wf(),
{
    if ctx.market.is_settled() {
        return Err(MarketError::MarketAlreadySettled);
    }
    if !ctx.market.is_active() {
        return Err(MarketError::MarketNotActive);
    }
    if current_time < ctx.market.settlement_time {
        return Err(MarketError::SettlementTimeNotReached);
    }
    if ctx.oracle != ctx.market.oracle {
        return Err(MarketError::OracleNotAuthorized);
    }
    if (winning_outcome_index as usize) >= ctx.market.outcomes.len() {
        return Err(MarketError::InvalidOutcomeIndex);
    }
    ctx.market.winning_outcome = Some(winning_outcome_index);
    ctx.market.status = MarketStatus::Settled;
    ctx.market.settled_at = Some(current_time);

    Ok(())
}

/// Settlement succeeds at most once: after a settlement, every further request, whoever
/// makes it and whenever, is refused because the market is already settled.
pub proof fn lemma_settle_succeeds_once(
    m: MarketView,
    caller: Seq<u8>,
    winning_outcome_index: nat,
    current_time: int,
    next_caller: Seq<u8>,
    next_winning_outcome_index: nat,
    next_time: int,
)
    requires
        settle_market_step(m, caller, winning_outcome_index, current_time) is Ok,
    ensures
        settle_market_step(
            settle_market_step(m, caller, winning_outcome_index, current_time).unwrap(),
            next_caller,
            next_winning_outcome_index,
            next_time,
        ) == Err::<MarketView, MarketError>(MarketError::MarketAlreadySettled),
{
}

/// Only a market that is active and past its deadline can be settled, and the winner it then
/// gets is the one asked for: the lifecycle never returns to an earlier state.
pub proof fn lemma_settlement_is_one_way(
    m: MarketView,
    caller: Seq<u8>,
    winning_outcome_index: nat,
    current_time: int,
)
    ensures
        match settle_market_step(m, caller, winning_outcome_index, current_time) {
            Ok(settled) => {
                &&& m.can_settle(current_time)
                &&& settled.status == MarketStatus::Settled
                &&& settled.winning_outcome == Some(winning_outcome_index)
                &&& m.wf() ==> settled.wf()
            },
            Err(_) => true,
        },
{
}

} // verus!
