//! Pricing and settlement engine of a multi-outcome prediction market.
//!
//! Users stake value on one of several mutually exclusive outcomes of a future event. A
//! constant-product pool prices each outcome from the liquidity it holds, an oracle later
//! declares the winner, and each winning bet is redeemed once for its part of the liquidity,
//! less a fee. The engine holds no funds and reads no clock: every operation takes the
//! records it works on and the current time, and says what changes and what is to be moved.

pub mod constants;
pub mod errors;
pub mod instructions;
pub mod ledger;
pub mod pubkey;
pub mod state;
pub mod utils;

use crate::errors::MarketError;
use crate::instructions::claim_winnings::claim_winnings_step;
use crate::instructions::create_market::{create_market_step, names_of};
use crate::instructions::place_bet::{place_bet_step, BetRequest};
use crate::instructions::settle_market::settle_market_step;
use crate::instructions::{ClaimWinnings, CreateMarket, PlaceBet, SettleMarket};
use crate::state::{Bet, LiquidityPool, Market};
use vstd::prelude::*;

verus! {

/// Creates a market and its pool. See [`instructions::create_market::handler`].
pub fn create_market(
    ctx: &CreateMarket,
    case_id: String,
    outcomes: Vec<String>,
    settlement_time: i64,
    initial_liquidity: u64,
    current_time: i64,
) -> (result: Result<(Market, LiquidityPool), MarketError>)
    ensures
        match create_market_step(
            *ctx,
            case_id@,
            names_of(outcomes@),
            settlement_time as int,
            initial_liquidity as nat,
            current_time as int,
        ) {
            Ok((market, pool)) => result matches Ok((m, p)) && m@ == market && p@ == pool,
            Err(e) => result matches Err(err) && err == e,
        },
        result matches Ok((m, p)) ==> m.wf() && m@.seeded() && p@.covers(m@),
{
    instructions::create_market::handler(
        ctx,
        case_id,
        outcomes,
        settlement_time,
        initial_liquidity,
        current_time,
    )
}

/// Places a bet on an outcome. See [`instructions::place_bet::handler`].
pub fn place_bet(
    ctx: &mut PlaceBet,
    outcome_index: u8,
    amount: u64,
    min_shares: u64,
    current_time: i64,
) -> (result: Result<Bet, MarketError>)
    requires
        old(ctx).wf(),
    ensures
        match place_bet_step(
            old(ctx).market@,
            old(ctx).pool@,
            old(ctx).market_key@,
            (BetRequest {
                user: old(ctx).user@,
                outcome_index: outcome_index as nat,
                amount: amount as nat,
                min_shares: min_shares as nat,
                current_time: current_time as int,
            }),
        ) {
            Ok((market, pool, bet)) => {
                &&& result matches Ok(b) && b@ == bet
                &&& final(ctx).market@ == market
                &&& final(ctx).pool@ == pool
            },
            Err(e) => result matches Err(err) && err == e && *final(ctx) == *old(ctx),
        },
        final(ctx).market_key == old(ctx).market_key,
        final(ctx).user == old(ctx).user,
        final(ctx).wf(),
{
    instructions::place_bet::handler(ctx, outcome_index, amount, min_shares, current_time)
}

/// Settles a market once the oracle has the outcome. See
/// [`instructions::settle_market::handler`].
pub fn settle_market(
    ctx: &mut SettleMarket,
    winning_outcome_index: u8,
    current_time: i64,
) -> (result: Result<(), MarketError>)
    requires
        old(ctx).market.wf(),
    ensures
        match settle_market_step(
            old(ctx).market@,
            old(ctx).oracle@,
            winning_outcome_index as nat,
            current_time as int,
        ) {
            Ok(market) => result is Ok && final(ctx).market@ == market,
            Err(e) => result matches Err(err) && err == e && *final(ctx) == *old(ctx),
        },
        final(ctx).oracle == old(ctx).oracle,
        final(ctx).market.wf(),
{
    instructions::settle_market::handler(ctx, winning_outcome_index, current_time)
}

/// Redeems a winning bet of a settled market. See [`instructions::claim_winnings::handler`].
pub fn claim_winnings(ctx: &mut ClaimWinnings) -> (result: Result<u64, MarketError>)
    requires
        old(ctx).wf(),
    ensures
        match claim_winnings_step(old(ctx).market@, old(ctx).bet@) {
            Ok((bet, amount)) => {
                &&& result matches Ok(paid) && paid == amount
                &&& final(ctx).bet@ == bet
            },
            Err(e) => result matches Err(err) && err == e && final(ctx).bet == old(ctx).bet,
        },
        final(ctx).market == old(ctx).market,
        final(ctx).market_key == old(ctx).market_key,
        final(ctx).user == old(ctx).user,
        final(ctx).wf(),
{
    instructions::claim_winnings::handler(ctx)
}

} // verus!
