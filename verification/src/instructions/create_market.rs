//! Creation of a market together with its pool.

use crate::constants::{
    MAX_NAME_LEN, MAX_OUTCOMES, MIN_INITIAL_LIQUIDITY, MIN_OUTCOMES, PLATFORM_FEE_BPS, PRICE_SCALE,
};
use crate::errors::MarketError;
use crate::pubkey::Pubkey;
use crate::state::market::{byte_len, Market, MarketStatus, MarketView, Outcome, OutcomeView};
use crate::state::pool::{amounts, constant_product, product_of_reserves, LiquidityPool, PoolView};
use vstd::prelude::*;

verus! {

/// Who creates a market, under which address, and who will settle it.
#[derive(Clone, Copy, Debug, PartialEq, Eq)]
pub struct CreateMarket {
    /// Address of the market record.
    pub market_key: Pubkey,
    /// Who creates the market.
    pub creator: Pubkey,
    /// Who will be allowed to settle it.
    pub oracle: Pubkey,
}

/// The names as sequences of characters.
pub open spec fn names_of(outcomes: Seq<String>) -> Seq<Seq<char>> {
    Seq::new(outcomes.len(), |i: int| outcomes[i]@)
}

/// One outcome per name, each seeded with the same shares and price and with no bet yet.
pub open spec fn seeded_outcomes(names: Seq<Seq<char>>, shares: nat, price: nat) -> Seq<
    OutcomeView,
> {
    Seq::new(
        names.len(),
        |i: int| OutcomeView { name: names[i], total_shares: shares, price: price, bet_count: 0 },
    )
}

/// The market and the pool that a creation request yields, or why it is refused.
///
/// The checks come in this order: the case identifier has at most 64 bytes; there are two to
/// ten outcomes; the liquidity reaches the minimum; the deadline lies after `current_time`;
/// every name has at most 64 bytes; the product of the seeded reserves fits 128 bits. The
/// liquidity is split evenly, rounded down, over the outcomes: that part seeds the reserve
/// and the shares of each, and each starts at the price `1,000,000 / n`, rounded down.
pub open spec fn create_market_step(
    accounts: CreateMarket,
    case_id: Seq<char>,
    names: Seq<Seq<char>>,
    settlement_time: int,
    initial_liquidity: nat,
    current_time: int,
) -> Result<(MarketView, PoolView), MarketError> {
    let n = names.len();
    if byte_len(case_id) > MAX_NAME_LEN {
        Err(MarketError::CaseIdTooLong)
    } else if n < MIN_OUTCOMES || n > MAX_OUTCOMES {
        Err(MarketError::TooManyOutcomes)
    } else if initial_liquidity < MIN_INITIAL_LIQUIDITY {
        Err(MarketError::InsufficientLiquidity)
    } else if settlement_time <= current_time {
        Err(MarketError::SettlementTimeNotReached)
    } else if exists|i: int| 0 <= i < n && byte_len(#[trigger] names[i]) > MAX_NAME_LEN {
        Err(MarketError::OutcomeNameTooLong)
    } else {
        let per_outcome = initial_liquidity / n;
        let reserves = Seq::new(n, |i: int| per_outcome);
        match constant_product(reserves) {
            Err(e) => Err(e),
            Ok(k) => Ok(
                (
                    MarketView {
                        case_id: case_id,
                        creator: accounts.creator@,
                        oracle: accounts.oracle@,
                        outcomes: seeded_outcomes(names, per_outcome, (PRICE_SCALE as nat) / n),
                        total_liquidity: initial_liquidity,
                        total_bets: 0,
                        status: MarketStatus::Active,
                        settlement_time: settlement_time,
                        winning_outcome: None,
                        fee_bps: PLATFORM_FEE_BPS as nat,
                        created_at: current_time,
                        settled_at: None,
                    },
                    PoolView {
                        market: accounts.market_key@,
                        reserves: reserves,
                        total_lp_tokens: initial_liquidity,
                        k_constant: k,
                    },
                ),
            ),
        }
    }
}

/// Creates a market and its pool as [`create_market_step`] says. What is created is well
/// formed, the pool has one reserve per outcome, and every outcome starts with shares.
pub fn handler(
    ctx: &CreateMarket,
    case_id: String,
    outcomes: Vec<String>,
    settlement_time: i64,
    initial_liquidity: u64,
    current_time: i64,
) -> (result: Result<(Market, LiquidityPool), MarketError>)
    ensures
        match create_market_step(
            *ctx,
            case_id@,
            names_of(outcomes@),
            settlement_time as int,
            initial_liquidity as nat,
            current_time as int,
        ) {
            Ok((market, pool)) => result matches Ok((m, p)) && m@ == market && p@ == pool,
            Err(e) => result matches Err(err) && err == e,
        },
        result matches Ok((m, p)) ==> m.wf() && m@.seeded() && p@.covers(m@),
{
    if case_id.as_str().len() > MAX_NAME_LEN {
        return Err(MarketError::CaseIdTooLong);
    }
    if !(outcomes.len() >= MIN_OUTCOMES && outcomes.len() <= MAX_OUTCOMES) {
        return Err(MarketError::TooManyOutcomes);
    }
    if initial_liquidity < MIN_INITIAL_LIQUIDITY {
        return Err(MarketError::InsufficientLiquidity);
    }
    if settlement_time <= current_time {
        return Err(MarketError::SettlementTimeNotReached);
    }
    let ghost names = names_of(outcomes@);
    let outcome_count: usize = outcomes.len();
    let liquidity_per_outcome: u64 = initial_liquidity / (outcome_count as u64);
    let initial_price: u64 = 1_000_000 / (outcome_count as u64);
    assert(liquidity_per_outcome > 0) by (nonlinear_arith)
        requires
            liquidity_per_outcome == initial_liquidity as int / outcome_count as int,
            initial_liquidity >= 1_000_000_000,
            2 <= outcome_count <= 10,
    ;

    let mut seeded: Vec<Outcome> = Vec::new();
    let mut reserves: Vec<u64> = Vec::new();
    let mut i: usize = 0;
    while i < outcome_count
        invariant
            i <= outcome_count,
            outcome_count == outcomes@.len(),
            names == names_of(outcomes@),
            byte_len(case_id@) <= MAX_NAME_LEN,
            MIN_OUTCOMES <= outcome_count <= MAX_OUTCOMES,
            initial_liquidity >= MIN_INITIAL_LIQUIDITY,
            settlement_time > current_time,
            seeded@.len() == i,
            reserves@.len() == i,
            forall|j: int| 0 <= j < i ==> byte_len(#[trigger] names[j]) <= MAX_NAME_LEN,
            forall|j: int|
                0 <= j < i ==> (#[trigger] seeded@[j])@ == (OutcomeView {
                    name: names[j],
                    total_shares: liquidity_per_outcome as nat,
                    price: initial_price as nat,
                    bet_count: 0,
                }),
            forall|j: int| 0 <= j < i ==> #[trigger] reserves@[j] == liquidity_per_outcome,
        decreases outcome_count - i,
    {
        if outcomes[i].as_str().len() > MAX_NAME_LEN {
            assert(byte_len(names[i as int]) > MAX_NAME_LEN);
            return Err(MarketError::OutcomeNameTooLong);
        }
        seeded.push(
            Outcome {
                name: outcomes[i].clone(),
                total_shares: liquidity_per_outcome,
                price: initial_price,
                bet_count: 0,
            },
        );
        reserves.push(liquidity_per_outcome);
        i += 1;
    }
    assert(amounts(reserves@) =~= Seq::new(names.len(), |i: int| liquidity_per_outcome as nat));
    let k_constant: u128 = product_of_reserves(&reserves)?;

    let market = Market {
        case_id: case_id,
        creator: ctx.creator,
        oracle: ctx.oracle,
        outcomes: seeded,
        total_liquidity: initial_liquidity,
        total_bets: 0,
        status: MarketStatus::Active,
        settlement_time: settlement_time,
        winning_outcome: None,
        fee_bps: PLATFORM_FEE_BPS,
        created_at: current_time,
        settled_at: None,
    };
    let pool = LiquidityPool {
        market: ctx.market_key,
        reserves: reserves,
        total_lp_tokens: initial_liquidity,
        k_constant: k_constant,
    };
    assert(market@.outcomes =~= seeded_outcomes(
        names,
        liquidity_per_outcome as nat,
        initial_price as nat,
    ));
    Ok((market, pool))
}

} // verus!
