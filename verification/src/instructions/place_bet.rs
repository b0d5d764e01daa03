//! Placing a bet: a stake on one outcome, priced by the pool.

use crate::constants::{MAX_BET_AMOUNT, MIN_BET_AMOUNT};
use crate::errors::MarketError;
use crate::pubkey::Pubkey;
use crate::state::bet::{shares_staked_on, Bet, BetView};
use crate::state::market::{Market, MarketStatus, MarketView, OutcomeView};
use crate::state::pool::{LiquidityPool, PoolView};
use crate::utils::amm::{calculate_shares_out, shares_out};
use crate::utils::math::lemma_sum_update;
use vstd::prelude::*;

verus! {

/// A market with its pool, and who bets on it.
#[derive(Clone, Debug, PartialEq, Eq)]
pub struct PlaceBet {
    /// The market bet on.
    pub market: Market,
    /// Its pool.
    pub pool: LiquidityPool,
    /// Address of the market record.
    pub market_key: Pubkey,
    /// Who places the bet.
    pub user: Pubkey,
}

impl PlaceBet {
    /// The market is well formed, and the pool is its own: it refers to the market and has
    /// one reserve per outcome.
    pub open spec fn wf(&self) -> bool {
        &&& self.market.wf()
        &&& self.pool@.covers(self.market@)
        &&& self.pool@.market == self.market_key@
    }

    /// Tests [`PlaceBet::wf`].
    pub fn is_well_formed(&self) -> (ok: bool)
        ensures
            ok == self.wf(),
    {
        self.market.is_well_formed() && self.pool.reserves.len() == self.market.outcomes.len()
            && self.pool.market == self.market_key
    }
}

/// Whether a total of the market or of the pool leaves its 64 bits when a stake of `amount`
/// that earns `shares` is booked on outcome `i`, or the pool is empty and has no price.
pub open spec fn booking_overflows(
    m: MarketView,
    p: PoolView,
    i: int,
    amount: nat,
    shares: nat,
) -> bool {
    ||| p.total_reserves() == 0
    ||| p.reserves[i] + amount > u64::MAX
    ||| m.total_liquidity + amount > u64::MAX
    ||| m.total_bets + 1 > u64::MAX
    ||| m.outcomes[i].total_shares + shares > u64::MAX
    ||| m.outcomes[i].bet_count + 1 > u64::MAX
}

/// The market after a stake of `amount` that earned `shares` was booked on outcome `i`, whose
/// price is now `price`.
pub open spec fn market_after_bet(
    m: MarketView,
    i: int,
    amount: nat,
    shares: nat,
    price: nat,
) -> MarketView {
    MarketView {
        outcomes: m.outcomes.update(
            i,
            OutcomeView {
                total_shares: m.outcomes[i].total_shares + shares,
                bet_count: m.outcomes[i].bet_count + 1,
                price: price,
                ..m.outcomes[i]
            },
        ),
        total_liquidity: m.total_liquidity + amount,
        total_bets: m.total_bets + 1,
        ..m
    }
}

/// A request to place a bet: who stakes how much on which outcome, the fewest shares they
/// accept for it, and when.
pub struct BetRequest {
    pub user: Seq<u8>,
    pub outcome_index: nat,
    pub amount: nat,
    pub min_shares: nat,
    pub current_time: int,
}

/// What a bet does to a market and its pool, and the bet it records, or why it is refused.
///
/// The checks come in this order: the market is active; the outcome exists; the stake is
/// neither below the minimum nor above the maximum; the time of the request lies before the
/// deadline; the shares can be computed from the reserve of the outcome and the product
/// snapshot; they reach the fewest accepted; no total overflows.
///
/// The stake goes into the reserve of the outcome and into the market's liquidity, the shares
/// are added to those of the outcome, both bet counts go up by one, and the outcome takes its
/// new price. The bet records the price from before the stake. The product snapshot of the
/// pool stays as it is.
pub open spec fn place_bet_step(
    m: MarketView,
    p: PoolView,
    market_key: Seq<u8>,
    request: BetRequest,
) -> Result<(MarketView, PoolView, BetView), MarketError> {
    let i = request.outcome_index as int;
    let amount = request.amount;
    if m.status != MarketStatus::Active {
        Err(MarketError::MarketNotActive)
    } else if request.outcome_index >= m.outcomes.len() {
        Err(MarketError::InvalidOutcomeIndex)
    } else if amount < MIN_BET_AMOUNT {
        Err(MarketError::BetAmountTooSmall)
    } else if amount > MAX_BET_AMOUNT {
        Err(MarketError::BetAmountTooLarge)
    } else if request.current_time >= m.settlement_time {
        Err(MarketError::SettlementTimeNotReached)
    } else {
        match shares_out(amount, p.reserves[i], p.k_constant) {
            Err(e) => Err(e),
            Ok(shares) => if shares < request.min_shares {
                Err(MarketError::SlippageExceeded)
            } else if booking_overflows(m, p, i, amount, shares) {
                Err(MarketError::ArithmeticOverflow)
            } else {
                let pool = p.deposit(i, amount);
                Ok(
                    (
                        market_after_bet(m, i, amount, shares, pool.price(i).unwrap()),
                        pool,
                        BetView {
                            market: market_key,
                            user: request.user,
                            outcome_index: request.outcome_index,
                            amount: amount,
                            shares: shares,
                            entry_price: p.price(i).unwrap(),
                            timestamp: request.current_time,
                            claimed: false,
                        },
                    ),
                )
            },
        }
    }
}

/// Places a bet as [`place_bet_step`] says and returns its record. A refused bet leaves the
/// market and the pool untouched. An accepted bet raises the reserve of its outcome by
/// exactly the stake, and earns no more shares than that reserve held before.
pub fn handler(
    ctx: &mut PlaceBet,
    outcome_index: u8,
    amount: u64,
    min_shares: u64,
    current_time: i64,
) -> (result: Result<Bet, MarketError>)
    requires
        old(ctx).wf(),
    ensures
        match place_bet_step(
            old(ctx).market@,
            old(ctx).pool@,
            old(ctx).market_key@,
            (BetRequest {
                user: old(ctx).user@,
                outcome_index: outcome_index as nat,
                amount: amount as nat,
                min_shares: min_shares as nat,
                current_time: current_time as int,
            }),
        ) {
            Ok((market, pool, bet)) => {
                &&& result matches Ok(b) && b@ == bet
                &&& final(ctx).market@ == market
                &&& final(ctx).pool@ == pool
            },
            Err(e) => result matches Err(err) && err == e && *final(ctx) == *old(ctx),
        },
        result matches Ok(bet) ==> {
            let reserve_before = old(ctx).pool@.reserves[outcome_index as int];
            &&& final(ctx).pool@.reserves[outcome_index as int] == reserve_before + amount
            &&& amount > 0
            &&& bet.shares <= reserve_before
        },
        final(ctx).market_key == old(ctx).market_key,
        final(ctx).user == old(ctx).user,
        final(ctx).wf(),
{
    if !ctx.market.is_active() {
        return Err(MarketError::MarketNotActive);
    }
    let idx: usize = outcome_index as usize;
    if idx >= ctx.market.outcomes.len() {
        return Err(MarketError::InvalidOutcomeIndex);
    }
    if amount < MIN_BET_AMOUNT {
        return Err(MarketError::BetAmountTooSmall);
    }
    if amount > MAX_BET_AMOUNT {
        return Err(MarketError::BetAmountTooLarge);
    }
    if current_time >= ctx.market.settlement_time {
        return Err(MarketError::SettlementTimeNotReached);
    }
    let shares: u64 = calculate_shares_out(amount, ctx.pool.reserves[idx], ctx.pool.k_constant)?;

    if shares < min_shares {
        return Err(MarketError::SlippageExceeded);
    }
    let current_price: u64 = ctx.pool.get_price(outcome_index)?;

    let total_liquidity: u64 = ctx.market.total_liquidity.checked_add(amount).ok_or(
        MarketError::ArithmeticOverflow,
    )?;
    let total_bets: u64 = ctx.market.total_bets.checked_add(1).ok_or(
        MarketError::ArithmeticOverflow,
    )?;
    let total_shares: u64 = ctx.market.outcomes[idx].total_shares.checked_add(shares).ok_or(
        MarketError::ArithmeticOverflow,
    )?;
    let bet_count: u64 = ctx.market.outcomes[idx].bet_count.checked_add(1).ok_or(
        MarketError::ArithmeticOverflow,
    )?;

    ctx.pool.update_reserves(outcome_index, amount, shares)?;

    proof {
        lemma_sum_update(
            old(ctx).pool@.reserves,
            idx as int,
            old(ctx).pool@.reserves[idx as int] + amount as nat,
        );
    }
    let price: u64 = ctx.pool.get_price(outcome_index).unwrap();

    ctx.market.total_liquidity = total_liquidity;
    ctx.market.total_bets = total_bets;
    ctx.market.outcomes[idx].total_shares = total_shares;
    ctx.market.outcomes[idx].bet_count = bet_count;
    ctx.market.outcomes[idx].price = price;

    assert(ctx.market@.outcomes =~= market_after_bet(
        old(ctx).market@,
        idx as int,
        amount as nat,
        shares as nat,
        price as nat,
    ).outcomes);

    Ok(
        Bet {
            market: ctx.market_key,
            user: ctx.user,
            outcome_index: outcome_index,
            amount: amount,
            shares: shares,
            entry_price: current_price,
            timestamp: current_time,
            claimed: false,
        },
    )
}

/// Whether the shares that the bets in `bets` hold on each outcome are among the shares
/// issued against it.
pub open spec fn shares_accounted(m: MarketView, bets: Seq<BetView>) -> bool {
    forall|j: int|
        0 <= j < m.outcomes.len() ==> shares_staked_on(bets, j as nat) <= (
        #[trigger] m.outcomes[j]).total_shares
}

/// Every share a bet earns is issued against its outcome: where the shares of the bets
/// recorded so far are accounted for in the market, they still are once a new bet is placed
/// and recorded with them.
pub proof fn lemma_bet_keeps_shares_accounted(
    m: MarketView,
    p: PoolView,
    market_key: Seq<u8>,
    request: BetRequest,
    bets: Seq<BetView>,
)
    requires
        shares_accounted(m, bets),
        place_bet_step(m, p, market_key, request) is Ok,
    ensures
        ({
            let (market, pool, bet) = place_bet_step(m, p, market_key, request).unwrap();
            shares_accounted(market, bets.push(bet))
        }),
{
    let bet = place_bet_step(m, p, market_key, request).unwrap().2;
    assert(bets.push(bet).drop_last() =~= bets);
}

/// A bet raises the reserve of its outcome by exactly the stake, which is never nothing, and
/// earns no more shares than that reserve held before. No other reserve moves, and the
/// product snapshot stays.
pub proof fn lemma_bet_raises_reserve_by_stake(
    m: MarketView,
    p: PoolView,
    market_key: Seq<u8>,
    request: BetRequest,
)
    requires
        p.covers(m),
        place_bet_step(m, p, market_key, request) is Ok,
    ensures
        ({
            let (market, pool, bet) = place_bet_step(m, p, market_key, request).unwrap();
            let i = request.outcome_index as int;
            &&& request.amount > 0
            &&& pool.reserves[i] == p.reserves[i] + request.amount
            &&& bet.shares <= p.reserves[i]
            &&& pool.reserves.len() == p.reserves.len()
            &&& forall|j: int|
                0 <= j < p.reserves.len() && j != i ==> pool.reserves[j] == p.reserves[j]
            &&& pool.k_constant == p.k_constant
        }),
{
}

/// A bet takes no shares away: where shares were issued against every outcome, they still
/// are once the bet is placed.
pub proof fn lemma_bet_keeps_outcomes_seeded(
    m: MarketView,
    p: PoolView,
    market_key: Seq<u8>,
    request: BetRequest,
)
    requires
        m.seeded(),
        place_bet_step(m, p, market_key, request) is Ok,
    ensures
        place_bet_step(m, p, market_key, request).unwrap().0.seeded(),
{
}

/// A market that is not active accepts no bet.
pub proof fn lemma_only_active_markets_take_bets(
    m: MarketView,
    p: PoolView,
    market_key: Seq<u8>,
    request: BetRequest,
)
    requires
        m.status != MarketStatus::Active,
    ensures
        place_bet_step(m, p, market_key, request) == Err::<
            (MarketView, PoolView, BetView),
            MarketError,
        >(MarketError::MarketNotActive),
{
}

} // verus!
