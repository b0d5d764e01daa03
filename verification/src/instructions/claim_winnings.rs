//! Redemption of a winning bet.

use crate::constants::BPS_DENOMINATOR;
use crate::errors::MarketError;
use crate::pubkey::Pubkey;
use crate::state::bet::{shares_staked_on, Bet, BetView};
use crate::state::market::{Market, MarketStatus, MarketView};
use crate::utils::math::lemma_scaled_part_le;
use vstd::arithmetic::div_mod::{lemma_fundamental_div_mod, lemma_mod_bound};
use vstd::prelude::*;

verus! {

/// A market, a bet placed on it, and who claims the bet.
#[derive(Clone, Debug, PartialEq, Eq)]
pub struct ClaimWinnings {
    /// The market the bet was placed on.
    pub market: Market,
    /// Address of the market record.
    pub market_key: Pubkey,
    /// The bet to redeem.
    pub bet: Bet,
    /// Who claims the bet.
    pub user: Pubkey,
}

impl ClaimWinnings {
    /// The market is well formed, the bet was placed on it, and the claimant owns the bet.
    pub open spec fn wf(&self) -> bool {
        &&& self.market.wf()
        &&& self.bet@.market == self.market_key@
        &&& self.bet@.user == self.user@
    }

    /// Tests [`ClaimWinnings::wf`].
    pub fn is_well_formed(&self) -> (ok: bool)
        ensures
            ok == self.wf(),
    {
        self.market.is_well_formed() && self.bet.market == self.market_key && self.bet.user
            == self.user
    }
}

/// What `shares` of the winning outcome redeem: their pro-rata part of the liquidity,
/// rounded down, less the fee on that part, rounded down.
///
/// There is no payout when the winning outcome has no shares, when the pro-rata part does
/// not fit 64 bits, or when the fee exceeds it.
pub open spec fn payout(
    shares: nat,
    total_liquidity: nat,
    winning_shares: nat,
    fee_bps: nat,
) -> Result<nat, MarketError> {
    if winning_shares == 0 {
        Err(MarketError::ArithmeticOverflow)
    } else {
        let gross = shares * total_liquidity / winning_shares;
        let fee = gross * fee_bps / (BPS_DENOMINATOR as nat);
        if gross > u64::MAX {
            Err(MarketError::ArithmeticOverflow)
        } else if fee > gross {
            Err(MarketError::ArithmeticUnderflow)
        } else {
            Ok((gross - fee) as nat)
        }
    }
}

/// The bet after its redemption and the amount paid, or why the claim is refused.
///
/// The checks come in this order: the market is settled; the bet has not been redeemed; it
/// is on the winning outcome; the payout can be computed.
pub open spec fn claim_winnings_step(m: MarketView, b: BetView) -> Result<
    (BetView, nat),
    MarketError,
>
    recommends
        m.wf(),
{
    if m.status != MarketStatus::Settled {
        Err(MarketError::MarketNotSettled)
    } else if b.claimed {
        Err(MarketError::AlreadyClaimed)
    } else {
        let winner = m.winning_outcome.unwrap();
        if b.outcome_index != winner {
            Err(MarketError::NotWinningBet)
        } else {
            match payout(
                b.shares,
                m.total_liquidity,
                m.outcomes[winner as int].total_shares,
                m.fee_bps,
            ) {
                Err(e) => Err(e),
                Ok(amount) => Ok((BetView { claimed: true, ..b }, amount)),
            }
        }
    }
}

/// Redeems the bet as [`claim_winnings_step`] says and returns the amount to pay out. The
/// market is never changed, and a refused claim leaves the bet untouched.
pub fn handler(ctx: &mut ClaimWinnings) -> (result: Result<u64, MarketError>)
    requires
        old(ctx).wf(),
    ensures
        match claim_winnings_step(old(ctx).market@, old(ctx).bet@) {
            Ok((bet, amount)) => {
                &&& result matches Ok(paid) && paid == amount
                &&& final(ctx).bet@ == bet
            },
            Err(e) => result matches Err(err) && err == e && final(ctx).bet == old(ctx).bet,
        },
        final(ctx).market == old(ctx).market,
        final(ctx).market_key == old(ctx).market_key,
        final(ctx).user == old(ctx).user,
        final(ctx).wf(),
{
    if !ctx.market.is_settled() {
        return Err(MarketError::MarketNotSettled);
    }
    if ctx.bet.claimed {
        return Err(MarketError::AlreadyClaimed);
    }
    let winning_outcome: u8 = ctx.market.winning_outcome.unwrap();

    if ctx.bet.outcome_index != winning_outcome {
        return Err(MarketError::NotWinningBet);
    }
    let winning_outcome_shares: u64 = ctx.market.outcomes[winning_outcome as usize].total_shares;
    let total_liquidity: u64 = ctx.market.total_liquidity;

    assert(ctx.bet.shares * total_liquidity <= u128::MAX) by (nonlinear_arith)
        requires
            ctx.bet.shares <= u64::MAX,
            total_liquidity <= u64::MAX,
    ;
    let gross: u128 = (ctx.bet.shares as u128).checked_mul(total_liquidity as u128).ok_or(
        MarketError::ArithmeticOverflow,
    )?.checked_div(winning_outcome_shares as u128).ok_or(MarketError::ArithmeticOverflow)?;

    if gross > u64::MAX as u128 {
        return Err(MarketError::ArithmeticOverflow);
    }
    let winnings: u64 = gross as u64;

    assert(winnings * ctx.market.fee_bps <= u128::MAX) by (nonlinear_arith)
        requires
            winnings <= u64::MAX,
            ctx.market.fee_bps <= u16::MAX,
    ;
    let fee: u128 = (winnings as u128).checked_mul(ctx.market.fee_bps as u128).ok_or(
        MarketError::ArithmeticOverflow,
    )?.checked_div(10000).ok_or(MarketError::ArithmeticOverflow)?;

    let payout: u128 = (winnings as u128).checked_sub(fee).ok_or(
        MarketError::ArithmeticUnderflow,
    )?;

    ctx.bet.claimed = true;

    Ok(payout as u64)
}

/// What a claim on the bet `b` pays: nothing when the claim is refused.
pub open spec fn amount_paid(m: MarketView, b: BetView) -> nat {
    match claim_winnings_step(m, b) {
        Ok((_, amount)) => amount,
        Err(_) => 0,
    }
}

/// What claims on all of `bets` pay together.
pub open spec fn total_paid(m: MarketView, bets: Seq<BetView>) -> nat
    decreases bets.len(),
{
    if bets.len() == 0 {
        0
    } else {
        total_paid(m, bets.drop_last()) + amount_paid(m, bets.last())
    }
}

/// A claim succeeds at most once: the bet that a successful claim leaves behind is refused
/// as already claimed.
pub proof fn lemma_claim_succeeds_once(m: MarketView, b: BetView)
    requires
        claim_winnings_step(m, b) is Ok,
    ensures
        claim_winnings_step(m, claim_winnings_step(m, b).unwrap().0) == Err::<
            (BetView, nat),
            MarketError,
        >(MarketError::AlreadyClaimed),
{
}

/// A payout is at most the pro-rata part it is taken from.
proof fn lemma_amount_paid_bound(m: MarketView, b: BetView)
    requires
        m.wf(),
        m.status == MarketStatus::Settled,
    ensures
        ({
            let winner = m.winning_outcome.unwrap();
            let winning_shares = m.outcomes[winner as int].total_shares;
            &&& winning_shares == 0 ==> amount_paid(m, b) == 0
            &&& b.outcome_index != winner ==> amount_paid(m, b) == 0
            &&& amount_paid(m, b) * winning_shares <= b.shares * m.total_liquidity
        }),
{
    let winner = m.winning_outcome.unwrap();
    let winning_shares = m.outcomes[winner as int].total_shares;
    let paid = amount_paid(m, b);
    if paid > 0 {
        let gross = b.shares * m.total_liquidity / winning_shares;
        lemma_fundamental_div_mod((b.shares * m.total_liquidity) as int, winning_shares as int);
        lemma_mod_bound((b.shares * m.total_liquidity) as int, winning_shares as int);
        assert(paid * winning_shares <= winning_shares * gross) by (nonlinear_arith)
            requires
                paid <= gross,
        ;
    } else {
        assert(paid * winning_shares == 0) by (nonlinear_arith)
            requires
                paid == 0,
        ;
    }
}

/// All payouts together, times the shares of the winning outcome, are at most the shares
/// that the claimed bets hold on it, times the liquidity.
proof fn lemma_total_paid_bound(m: MarketView, bets: Seq<BetView>)
    requires
        m.wf(),
        m.status == MarketStatus::Settled,
    ensures
        ({
            let winner = m.winning_outcome.unwrap();
            let winning_shares = m.outcomes[winner as int].total_shares;
            &&& winning_shares == 0 ==> total_paid(m, bets) == 0
            &&& total_paid(m, bets) * winning_shares <= shares_staked_on(bets, winner)
                * m.total_liquidity
        }),
    decreases bets.len(),
{
    let winner = m.winning_outcome.unwrap();
    let winning_shares = m.outcomes[winner as int].total_shares;
    if bets.len() == 0 {
        assert(total_paid(m, bets) * winning_shares == 0) by (nonlinear_arith)
            requires
                total_paid(m, bets) == 0,
        ;
    } else {
        let rest = bets.drop_last();
        let last = bets.last();
        lemma_total_paid_bound(m, rest);
        lemma_amount_paid_bound(m, last);
        let paid_rest = total_paid(m, rest);
        let paid_last = amount_paid(m, last);
        let staked_rest = shares_staked_on(rest, winner);
        assert((paid_rest + paid_last) * winning_shares == paid_rest * winning_shares + paid_last
            * winning_shares) by (nonlinear_arith);
        if last.outcome_index == winner {
            assert((staked_rest + last.shares) * m.total_liquidity == staked_rest
                * m.total_liquidity + last.shares * m.total_liquidity) by (nonlinear_arith);
        }
    }
}

/// A claim that is owed its payout gets it. Take a settled market with shares issued against
/// every outcome, a fee of at most the whole, and liquidity within 64 bits. An unclaimed bet
/// on the winner, with no more shares than were issued against it, is paid its pro-rata part
/// less the fee, and that part is at most the liquidity.
pub proof fn lemma_claim_of_a_recorded_bet_succeeds(m: MarketView, b: BetView)
    requires
        m.wf(),
        m.seeded(),
        m.status == MarketStatus::Settled,
        m.fee_bps <= BPS_DENOMINATOR,
        m.total_liquidity <= u64::MAX,
        !b.claimed,
        b.outcome_index == m.winning_outcome.unwrap(),
        b.shares <= m.outcomes[b.outcome_index as int].total_shares,
    ensures
        ({
            let winning_shares = m.outcomes[b.outcome_index as int].total_shares;
            let gross = b.shares * m.total_liquidity / winning_shares;
            let fee = gross * m.fee_bps / (BPS_DENOMINATOR as nat);
            &&& gross <= m.total_liquidity
            &&& fee <= gross
            &&& claim_winnings_step(m, b) == Ok::<(BetView, nat), MarketError>(
                (BetView { claimed: true, ..b }, (gross - fee) as nat),
            )
        }),
{
    let winning_shares = m.outcomes[b.outcome_index as int].total_shares;
    let gross = b.shares * m.total_liquidity / winning_shares;
    lemma_scaled_part_le(b.shares, m.total_liquidity, winning_shares);
    lemma_scaled_part_le(m.fee_bps, gross, BPS_DENOMINATOR as nat);
}

/// Payouts never exceed the liquidity: whatever bets are claimed on a settled market, as long
/// as the shares they hold on the winning outcome are among the shares issued against it,
/// all that is paid for them together is at most the market's total liquidity.
pub proof fn lemma_payouts_within_liquidity(m: MarketView, bets: Seq<BetView>)
    requires
        m.wf(),
        m.status == MarketStatus::Settled,
        ({
            let winner = m.winning_outcome.unwrap();
            shares_staked_on(bets, winner) <= m.outcomes[winner as int].total_shares
        }),
    ensures
        total_paid(m, bets) <= m.total_liquidity,
{
    let winner = m.winning_outcome.unwrap();
    let winning_shares = m.outcomes[winner as int].total_shares;
    let staked = shares_staked_on(bets, winner);
    let paid = total_paid(m, bets);
    let liquidity = m.total_liquidity;
    lemma_total_paid_bound(m, bets);
    if winning_shares > 0 {
        assert(paid <= liquidity) by (nonlinear_arith)
            requires
                paid * winning_shares <= staked * liquidity,
                staked <= winning_shares,
                winning_shares > 0,
        ;
    }
}

} // verus!
