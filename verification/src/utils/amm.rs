//! Constant-product pricing formulas.

use crate::constants::PRICE_SCALE;
use crate::errors::MarketError;
use crate::utils::math::lemma_scaled_part_le;
use vstd::prelude::*;

verus! {

/// Shares issued for a stake of `amount_in` on an outcome whose reserve is `reserve`, under
/// the product snapshot `k_constant`: what the reserve exceeds `k_constant / (reserve +
/// amount_in)` by, the quotient rounded down.
pub open spec fn shares_out(amount_in: nat, reserve: nat, k_constant: nat) -> Result<
    nat,
    MarketError,
> {
    let new_reserve = reserve + amount_in;
    if new_reserve == 0 {
        Err(MarketError::ArithmeticOverflow)
    } else if k_constant / new_reserve > reserve {
        Err(MarketError::ArithmeticUnderflow)
    } else {
        Ok((reserve - k_constant / new_reserve) as nat)
    }
}

/// Share of the grown reserve that a stake of `amount_in` makes up, out of 1,000,000.
pub open spec fn price_impact(amount_in: nat, reserve_in: nat) -> Result<nat, MarketError> {
    if reserve_in + amount_in == 0 {
        Err(MarketError::ArithmeticOverflow)
    } else {
        Ok(amount_in * (PRICE_SCALE as nat) / (reserve_in + amount_in))
    }
}

/// What `shares` of an outcome with `total_outcome_shares` would redeem out of
/// `total_liquidity` before fees: the pro-rata part, rounded down.
pub open spec fn potential_payout(
    shares: nat,
    total_outcome_shares: nat,
    total_liquidity: nat,
) -> Result<nat, MarketError> {
    if total_outcome_shares == 0 {
        Ok(0)
    } else if shares * total_liquidity / total_outcome_shares > u64::MAX {
        Err(MarketError::ArithmeticOverflow)
    } else {
        Ok(shares * total_liquidity / total_outcome_shares)
    }
}

/// The percentage that a price out of 1,000,000 stands for, rounded down.
pub open spec fn probability(price: nat) -> Result<nat, MarketError> {
    if price * 100 > u64::MAX {
        Err(MarketError::ArithmeticOverflow)
    } else {
        Ok(price * 100 / (PRICE_SCALE as nat))
    }
}

/// Computes [`shares_out`]. The shares never exceed the reserve before the stake.
pub fn calculate_shares_out(amount_in: u64, reserve: u64, k_constant: u128) -> (result: Result<
    u64,
    MarketError,
>)
    ensures
        match shares_out(amount_in as nat, reserve as nat, k_constant as nat) {
            Ok(shares) => result matches Ok(v) && v == shares,
            Err(e) => result == Err::<u64, MarketError>(e),
        },
        result matches Ok(v) ==> v <= reserve,
{
    let amount_in_u128: u128 = amount_in as u128;
    let reserve_u128: u128 = reserve as u128;

    let new_reserve: u128 = reserve_u128.checked_add(amount_in_u128).ok_or(
        MarketError::ArithmeticOverflow,
    )?;

    let output_reserve: u128 = k_constant.checked_div(new_reserve).ok_or(
        MarketError::ArithmeticOverflow,
    )?;

    let shares: u128 = reserve_u128.checked_sub(output_reserve).ok_or(
        MarketError::ArithmeticUnderflow,
    )?;

    Ok(shares as u64)
}

/// Computes [`price_impact`]. The reserve of the other side plays no part.
#[allow(unused_variables)]
pub fn calculate_price_impact(amount_in: u64, reserve_in: u64, reserve_out: u64) -> (result:
    Result<u64, MarketError>)
    ensures
        match price_impact(amount_in as nat, reserve_in as nat) {
            Ok(impact) => result matches Ok(v) && v == impact,
            Err(e) => result == Err::<u64, MarketError>(e),
        },
        result matches Ok(v) ==> v <= PRICE_SCALE,
{
    let amount_in_u128: u128 = amount_in as u128;
    let reserve_in_u128: u128 = reserve_in as u128;

    let price_impact: u128 = (amount_in_u128 * 1_000_000).checked_div(
        reserve_in_u128 + amount_in_u128,
    ).ok_or(MarketError::ArithmeticOverflow)?;

    proof {
        lemma_scaled_part_le(
            amount_in as nat,
            PRICE_SCALE as nat,
            (reserve_in + amount_in) as nat,
        );
    }
    Ok(price_impact as u64)
}

/// Computes [`potential_payout`].
pub fn calculate_potential_payout(
    shares: u64,
    total_outcome_shares: u64,
    total_liquidity: u64,
) -> (result: Result<u64, MarketError>)
    ensures
        match potential_payout(
            shares as nat,
            total_outcome_shares as nat,
            total_liquidity as nat,
        ) {
            Ok(payout) => result matches Ok(v) && v == payout,
            Err(e) => result == Err::<u64, MarketError>(e),
        },
{
    if total_outcome_shares == 0 {
        return Ok(0);
    }
    assert(shares * total_liquidity <= u128::MAX) by (nonlinear_arith)
        requires
            shares <= u64::MAX,
            total_liquidity <= u64::MAX,
    ;
    let payout: u128 = (shares as u128).checked_mul(total_liquidity as u128).ok_or(
        MarketError::ArithmeticOverflow,
    )?.checked_div(total_outcome_shares as u128).ok_or(MarketError::ArithmeticOverflow)?;

    if payout > u64::MAX as u128 {
        return Err(MarketError::ArithmeticOverflow);
    }
    Ok(payout as u64)
}

/// Computes [`probability`].
pub fn price_to_probability(price: u64) -> (result: Result<u64, MarketError>)
    ensures
        match probability(price as nat) {
            Ok(percent) => result matches Ok(v) && v == percent,
            Err(e) => result == Err::<u64, MarketError>(e),
        },
{
    let prob: u64 = price.checked_mul(100).ok_or(MarketError::ArithmeticOverflow)?.checked_div(
        1_000_000,
    ).ok_or(MarketError::ArithmeticOverflow)?;

    Ok(prob)
}

} // verus!
