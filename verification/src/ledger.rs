//! What holds of a market over its whole life: from its creation, through every bet, to its
//! settlement and the claims on it.

use crate::instructions::claim_winnings::{lemma_payouts_within_liquidity, total_paid};
use crate::instructions::create_market::{create_market_step, CreateMarket};
use crate::instructions::place_bet::{
    lemma_bet_keeps_outcomes_seeded, lemma_bet_keeps_shares_accounted, place_bet_step,
    shares_accounted, BetRequest,
};
use crate::instructions::settle_market::settle_market_step;
use crate::state::bet::BetView;
use crate::state::market::{MarketStatus, MarketView};
use crate::state::pool::PoolView;
use crate::utils::math::product;
use vstd::prelude::*;

verus! {

/// The market, its pool and the bets recorded once the requests were made one after the
/// other. A refused request leaves everything as it was.
pub open spec fn after_requests(
    m: MarketView,
    p: PoolView,
    market_key: Seq<u8>,
    requests: Seq<BetRequest>,
) -> (MarketView, PoolView, Seq<BetView>)
    decreases requests.len(),
{
    if requests.len() == 0 {
        (m, p, Seq::empty())
    } else {
        let (market, pool, bets) = after_requests(m, p, market_key, requests.drop_last());
        match place_bet_step(market, pool, market_key, requests.last()) {
            Ok((next_market, next_pool, bet)) => (next_market, next_pool, bets.push(bet)),
            Err(_) => (market, pool, bets),
        }
    }
}

/// Whether two states of a market agree on what is fixed at its creation: the case, the
/// parties, the deadline, the fee, and the outcomes by number and name.
pub open spec fn same_terms(a: MarketView, b: MarketView) -> bool {
    &&& a.case_id == b.case_id
    &&& a.creator == b.creator
    &&& a.oracle == b.oracle
    &&& a.settlement_time == b.settlement_time
    &&& a.fee_bps == b.fee_bps
    &&& a.created_at == b.created_at
    &&& a.outcomes.len() == b.outcomes.len()
    &&& forall|i: int|
        0 <= i < a.outcomes.len() ==> (#[trigger] a.outcomes[i]).name == b.outcomes[i].name
}

/// The terms of a market are fixed: neither a bet nor the settlement changes them.
pub proof fn lemma_terms_are_fixed(
    m: MarketView,
    p: PoolView,
    market_key: Seq<u8>,
    request: BetRequest,
    caller: Seq<u8>,
    winning_outcome_index: nat,
    current_time: int,
)
    ensures
        place_bet_step(m, p, market_key, request) matches Ok((market, _, _)) ==> same_terms(
            m,
            market,
        ),
        settle_market_step(m, caller, winning_outcome_index, current_time) matches Ok(market)
            ==> same_terms(m, market),
{
}

/// What a market, its pool and the bets recorded on it keep through every bet.
pub open spec fn consistent(
    m: MarketView,
    p: PoolView,
    market_key: Seq<u8>,
    bets: Seq<BetView>,
) -> bool {
    &&& m.wf()
    &&& m.seeded()
    &&& m.status == MarketStatus::Active
    &&& p.covers(m)
    &&& p.market == market_key
    &&& shares_accounted(m, bets)
    &&& forall|i: int| 0 <= i < bets.len() ==> (#[trigger] bets[i]).market == market_key
}

/// A market is consistent from its creation, and the product snapshot of its pool is the
/// product of the reserves it was seeded with.
pub proof fn lemma_created_market_is_consistent(
    accounts: CreateMarket,
    case_id: Seq<char>,
    names: Seq<Seq<char>>,
    settlement_time: int,
    initial_liquidity: nat,
    current_time: int,
)
    requires
        create_market_step(
            accounts,
            case_id,
            names,
            settlement_time,
            initial_liquidity,
            current_time,
        ) is Ok,
    ensures
        ({
            let (m, p) = create_market_step(
                accounts,
                case_id,
                names,
                settlement_time,
                initial_liquidity,
                current_time,
            ).unwrap();
            &&& consistent(m, p, accounts.market_key@, Seq::empty())
            &&& p.k_constant == product(p.reserves)
        }),
{
    let (m, p) = create_market_step(
        accounts,
        case_id,
        names,
        settlement_time,
        initial_liquidity,
        current_time,
    ).unwrap();
    let n = names.len();
    assert(initial_liquidity / n > 0) by (nonlinear_arith)
        requires
            initial_liquidity >= 1_000_000_000,
            2 <= n <= 10,
    ;
}

/// Bets keep a market consistent: whatever requests are made on a consistent market, it
/// stays consistent together with the bets they add.
pub proof fn lemma_bets_keep_market_consistent(
    m: MarketView,
    p: PoolView,
    market_key: Seq<u8>,
    requests: Seq<BetRequest>,
)
    requires
        consistent(m, p, market_key, Seq::empty()),
    ensures
        ({
            let (market, pool, bets) = after_requests(m, p, market_key, requests);
            consistent(market, pool, market_key, bets)
        }),
    decreases requests.len(),
{
    if requests.len() > 0 {
        lemma_bets_keep_market_consistent(m, p, market_key, requests.drop_last());
        let (market, pool, bets) = after_requests(m, p, market_key, requests.drop_last());
        let request = requests.last();
        if place_bet_step(market, pool, market_key, request) is Ok {
            lemma_bet_keeps_shares_accounted(market, pool, market_key, request, bets);
            lemma_bet_keeps_outcomes_seeded(market, pool, market_key, request);
        }
    }
}

/// Payouts never exceed the liquidity, over the whole life of a market: create a market,
/// let any requests to bet be made on it, settle it, and let every recorded bet be claimed.
/// All that is paid together is at most the market's total liquidity.
pub proof fn lemma_market_pays_within_liquidity(
    accounts: CreateMarket,
    case_id: Seq<char>,
    names: Seq<Seq<char>>,
    settlement_time: int,
    initial_liquidity: nat,
    created_at: int,
    requests: Seq<BetRequest>,
    caller: Seq<u8>,
    winning_outcome_index: nat,
    settled_at: int,
)
    requires
        create_market_step(
            accounts,
            case_id,
            names,
            settlement_time,
            initial_liquidity,
            created_at,
        ) is Ok,
        ({
            let (m, p) = create_market_step(
                accounts,
                case_id,
                names,
                settlement_time,
                initial_liquidity,
                created_at,
            ).unwrap();
            let (market, pool, bets) = after_requests(m, p, accounts.market_key@, requests);
            settle_market_step(market, caller, winning_outcome_index, settled_at) is Ok
        }),
    ensures
        ({
            let (m, p) = create_market_step(
                accounts,
                case_id,
                names,
                settlement_time,
                initial_liquidity,
                created_at,
            ).unwrap();
            let (market, pool, bets) = after_requests(m, p, accounts.market_key@, requests);
            let settled = settle_market_step(
                market,
                caller,
                winning_outcome_index,
                settled_at,
            ).unwrap();
            total_paid(settled, bets) <= settled.total_liquidity
        }),
{
    let (m, p) = create_market_step(
        accounts,
        case_id,
        names,
        settlement_time,
        initial_liquidity,
        created_at,
    ).unwrap();
    lemma_created_market_is_consistent(
        accounts,
        case_id,
        names,
        settlement_time,
        initial_liquidity,
        created_at,
    );
    lemma_bets_keep_market_consistent(m, p, accounts.market_key@, requests);
    let (market, pool, bets) = after_requests(m, p, accounts.market_key@, requests);
    let settled = settle_market_step(market, caller, winning_outcome_index, settled_at).unwrap();
    lemma_payouts_within_liquidity(settled, bets);
}

} // verus!
