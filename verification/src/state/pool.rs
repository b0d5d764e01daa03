//! The constant-product pool that prices the outcomes of one market.

use crate::constants::PRICE_SCALE;
use crate::errors::MarketError;
use crate::pubkey::Pubkey;
use crate::state::market::MarketView;
use crate::utils::math::{
    lemma_product_take_next, lemma_scaled_part_le, lemma_sum_bounds_entry, lemma_sum_take_next,
    product, sum,
};
use vstd::arithmetic::div_mod::{lemma_fundamental_div_mod, lemma_mod_bound};
use vstd::prelude::*;

verus! {

/// Liquidity pool of one market.
#[derive(Clone, Debug, PartialEq, Eq)]
pub struct LiquidityPool {
    /// Market this pool belongs to.
    pub market: Pubkey,
    /// Reserve of each outcome, in the order of the market's outcomes.
    pub reserves: Vec<u64>,
    /// LP tokens minted.
    pub total_lp_tokens: u64,
    /// Product of all reserves as of the last liquidity event. A bet moves a reserve and
    /// leaves this snapshot as it is.
    pub k_constant: u128,
}

/// Mathematical model of a [`LiquidityPool`].
pub struct PoolView {
    pub market: Seq<u8>,
    pub reserves: Seq<nat>,
    pub total_lp_tokens: nat,
    pub k_constant: nat,
}

/// The reserves as natural numbers.
pub open spec fn amounts(reserves: Seq<u64>) -> Seq<nat> {
    Seq::new(reserves.len(), |i: int| reserves[i] as nat)
}

impl View for LiquidityPool {
    type V = PoolView;

    open spec fn view(&self) -> PoolView {
        PoolView {
            market: self.market@,
            reserves: amounts(self.reserves@),
            total_lp_tokens: self.total_lp_tokens as nat,
            k_constant: self.k_constant as nat,
        }
    }
}

impl PoolView {
    /// Sum of all reserves.
    pub open spec fn total_reserves(self) -> nat {
        sum(self.reserves)
    }

    /// Price of outcome `i`: its part of all reserves, out of 1,000,000, rounded down.
    /// There is no price while all reserves are empty.
    pub open spec fn price(self, i: int) -> Result<nat, MarketError> {
        if self.total_reserves() == 0 {
            Err(MarketError::ArithmeticOverflow)
        } else {
            Ok(self.reserves[i] * (PRICE_SCALE as nat) / self.total_reserves())
        }
    }

    /// Whether the pool has one reserve for each outcome of the market `m`.
    pub open spec fn covers(self, m: MarketView) -> bool {
        self.reserves.len() == m.outcomes.len()
    }

    /// The pool after `amount` went into the reserve of outcome `i`. The product snapshot
    /// stays.
    pub open spec fn deposit(self, i: int, amount: nat) -> PoolView {
        PoolView { reserves: self.reserves.update(i, self.reserves[i] + amount), ..self }
    }
}

/// Sum of the prices of the first `n` outcomes. While the pool is empty and nothing has a
/// price, the sum is zero.
pub open spec fn price_sum(p: PoolView, n: nat) -> nat
    decreases n,
{
    if n == 0 {
        0
    } else {
        price_sum(p, (n - 1) as nat) + match p.price(n - 1) {
            Ok(price) => price,
            Err(_) => 0,
        }
    }
}

/// Output of a swap of `input_amount` between two reserves under a constant product:
/// `input_amount * output_reserve / (input_reserve + input_amount)`, rounded down.
pub open spec fn output_amount(
    input_amount: nat,
    input_reserve: nat,
    output_reserve: nat,
) -> Result<nat, MarketError> {
    if input_reserve + input_amount == 0 {
        Err(MarketError::ArithmeticOverflow)
    } else {
        Ok(input_amount * output_reserve / (input_reserve + input_amount))
    }
}

/// Product of all reserves, taken from the first to the last. It is refused as soon as the
/// product of the reserves taken so far does not fit 128 bits.
pub open spec fn constant_product(reserves: Seq<nat>) -> Result<nat, MarketError> {
    if forall|n: int|
        0 <= n <= reserves.len() ==> #[trigger] product(reserves.take(n)) <= u128::MAX {
        Ok(product(reserves))
    } else {
        Err(MarketError::ArithmeticOverflow)
    }
}

/// Where every reserve holds something, the product of the first `n` reserves is at most
/// the product of all.
proof fn lemma_product_of_positive_grows(reserves: Seq<nat>, n: int)
    requires
        forall|i: int| 0 <= i < reserves.len() ==> reserves[i] > 0,
        0 <= n <= reserves.len(),
    ensures
        product(reserves.take(n)) <= product(reserves),
    decreases reserves.len() - n,
{
    if n == reserves.len() {
        assert(reserves.take(n) =~= reserves);
    } else {
        lemma_product_of_positive_grows(reserves, n + 1);
        lemma_product_take_next(reserves, n);
        let before = product(reserves.take(n));
        let next = reserves[n];
        assert(before <= before * next) by (nonlinear_arith)
            requires
                next >= 1,
        ;
    }
}

/// Where every reserve holds something, the constant product is the product of all
/// reserves, and it is refused exactly when that product does not fit 128 bits.
pub proof fn lemma_constant_product_of_positive(reserves: Seq<nat>)
    requires
        forall|i: int| 0 <= i < reserves.len() ==> reserves[i] > 0,
    ensures
        constant_product(reserves) == if product(reserves) <= u128::MAX {
            Ok::<nat, MarketError>(product(reserves))
        } else {
            Err::<nat, MarketError>(MarketError::ArithmeticOverflow)
        },
{
    if product(reserves) <= u128::MAX {
        assert forall|n: int| 0 <= n <= reserves.len() implies #[trigger] product(
            reserves.take(n),
        ) <= u128::MAX by {
            lemma_product_of_positive_grows(reserves, n);
        }
    } else {
        assert(reserves.take(reserves.len() as int) =~= reserves);
    }
}

/// Computes [`constant_product`].
pub fn product_of_reserves(reserves: &Vec<u64>) -> (result: Result<u128, MarketError>)
    ensures
        match constant_product(amounts(reserves@)) {
            Ok(k) => result matches Ok(v) && v == k,
            Err(e) => result == Err::<u128, MarketError>(e),
        },
{
    let ghost all = amounts(reserves@);
    let mut k: u128 = 1;
    let mut i: usize = 0;
    while i < reserves.len()
        invariant
            i <= reserves@.len(),
            all == amounts(reserves@),
            k == product(all.take(i as int)),
            forall|n: int| 0 <= n <= i ==> #[trigger] product(all.take(n)) <= u128::MAX,
        decreases reserves@.len() - i,
    {
        proof {
            lemma_product_take_next(all, i as int);
        }
        k = k.checked_mul(reserves[i] as u128).ok_or(MarketError::ArithmeticOverflow)?;
        i += 1;
    }
    assert(all.take(i as int) =~= all);
    Ok(k)
}

/// The prices of the first `n` outcomes, times the total, fall short of the scaled sum of
/// their reserves by less than the total for each outcome.
proof fn lemma_price_sum_bounds(p: PoolView, n: nat)
    requires
        p.total_reserves() > 0,
        n <= p.reserves.len(),
    ensures
        ({
            let scaled = (PRICE_SCALE as nat) * sum(p.reserves.take(n as int));
            let priced = price_sum(p, n) * p.total_reserves();
            priced <= scaled <= priced + n * (p.total_reserves() - 1)
        }),
    decreases n,
{
    let total = p.total_reserves();
    let scale = PRICE_SCALE as nat;
    if n == 0 {
        assert(price_sum(p, 0) * total == 0) by (nonlinear_arith)
            requires
                price_sum(p, 0) == 0,
        ;
    } else {
        let m = (n - 1) as nat;
        lemma_price_sum_bounds(p, m);
        lemma_sum_take_next(p.reserves, m as int);
        let reserve = p.reserves[m as int];
        let price = reserve * scale / total;
        let before = sum(p.reserves.take(m as int));
        let prices = price_sum(p, m);
        lemma_fundamental_div_mod((reserve * scale) as int, total as int);
        lemma_mod_bound((reserve * scale) as int, total as int);
        assert((prices + price) * total == prices * total + total * price) by (nonlinear_arith);
        assert(n * (total - 1) == m * (total - 1) + (total - 1)) by (nonlinear_arith)
            requires
                n == m + 1,
        ;
    }
}

/// The prices of all outcomes of a pool that holds something add up to 1,000,000, less what
/// rounding down takes: under one unit for each outcome.
pub proof fn lemma_prices_sum_to_scale(p: PoolView)
    requires
        p.total_reserves() > 0,
    ensures
        PRICE_SCALE - p.reserves.len() < price_sum(p, p.reserves.len()) <= PRICE_SCALE,
{
    let n = p.reserves.len();
    let total = p.total_reserves();
    let scale = PRICE_SCALE as nat;
    let prices = price_sum(p, n);
    lemma_price_sum_bounds(p, n);
    assert(p.reserves.take(n as int) =~= p.reserves);
    assert(prices <= scale) by (nonlinear_arith)
        requires
            prices * total <= scale * total,
            total > 0,
    ;
    assert(scale < prices + n) by (nonlinear_arith)
        requires
            scale * total <= prices * total + n * (total - 1),
            total > 0,
            n > 0,
    ;
}

impl LiquidityPool {
    /// Sum of all reserves.
    pub fn total_reserves(&self) -> (total: u128)
        ensures
            total == self@.total_reserves(),
    {
        let ghost all = self@.reserves;
        let mut total: u128 = 0;
        let mut i: usize = 0;
        while i < self.reserves.len()
            invariant
                i <= self.reserves@.len(),
                all == self@.reserves,
                total == sum(all.take(i as int)),
                total <= i * 0xFFFF_FFFF_FFFF_FFFF,
            decreases self.reserves@.len() - i,
        {
            proof {
                lemma_sum_take_next(all, i as int);
            }
            total = total + self.reserves[i] as u128;
            i += 1;
        }
        assert(all.take(i as int) =~= all);
        total
    }

    /// Computes [`output_amount`]. The pool's own reserves play no part.
    pub fn calculate_output_amount(
        &self,
        input_amount: u64,
        input_reserve: u64,
        output_reserve: u64,
    ) -> (result: Result<u64, MarketError>)
        ensures
            match output_amount(input_amount as nat, input_reserve as nat, output_reserve as nat) {
                Ok(output) => result matches Ok(v) && v == output,
                Err(e) => result == Err::<u64, MarketError>(e),
            },
            result matches Ok(v) ==> v <= output_reserve,
    {
        let input_amount_u128: u128 = input_amount as u128;
        let input_reserve_u128: u128 = input_reserve as u128;
        let output_reserve_u128: u128 = output_reserve as u128;

        assert(input_amount * output_reserve <= u128::MAX) by (nonlinear_arith)
            requires
                input_amount <= u64::MAX,
                output_reserve <= u64::MAX,
        ;
        let numerator: u128 = input_amount_u128.checked_mul(output_reserve_u128).ok_or(
            MarketError::ArithmeticOverflow,
        )?;

        let denominator: u128 = input_reserve_u128.checked_add(input_amount_u128).ok_or(
            MarketError::ArithmeticOverflow,
        )?;

        let output: u128 = numerator.checked_div(denominator).ok_or(
            MarketError::ArithmeticOverflow,
        )?;

        proof {
            lemma_scaled_part_le(
                input_amount as nat,
                output_reserve as nat,
                (input_reserve + input_amount) as nat,
            );
        }
        Ok(output as u64)
    }

    /// Adds `amount_in` to the reserve of outcome `outcome_index`. The shares issued for
    /// the stake move no reserve, and the product snapshot stays as it is. On overflow the
    /// pool is left untouched.
    #[allow(unused_variables)]
    pub fn update_reserves(
        &mut self,
        outcome_index: u8,
        amount_in: u64,
        shares_out: u64,
    ) -> (result: Result<(), MarketError>)
        requires
            (outcome_index as int) < old(self).reserves@.len(),
        ensures
            match result {
                Ok(()) => {
                    &&& old(self)@.reserves[outcome_index as int] + amount_in <= u64::MAX
                    &&& final(self)@ == old(self)@.deposit(outcome_index as int, amount_in as nat)
                },
                Err(e) => {
                    &&& e == MarketError::ArithmeticOverflow
                    &&& old(self)@.reserves[outcome_index as int] + amount_in > u64::MAX
                    &&& *final(self) == *old(self)
                },
            },
    {
        let idx: usize = outcome_index as usize;

        let grown: u64 = self.reserves[idx].checked_add(amount_in).ok_or(
            MarketError::ArithmeticOverflow,
        )?;
        self.reserves[idx] = grown;

        assert(self@.reserves =~= old(self)@.deposit(
            outcome_index as int,
            amount_in as nat,
        ).reserves);
        Ok(())
    }

    /// Computes [`PoolView::price`] for outcome `outcome_index`. A price never exceeds
    /// 1,000,000.
    pub fn get_price(&self, outcome_index: u8) -> (result: Result<u64, MarketError>)
        requires
            (outcome_index as int) < self.reserves@.len(),
        ensures
            match self@.price(outcome_index as int) {
                Ok(price) => result matches Ok(v) && v == price,
                Err(e) => result == Err::<u64, MarketError>(e),
            },
            result matches Ok(v) ==> v <= PRICE_SCALE,
    {
        let idx: usize = outcome_index as usize;
        let total_reserves: u128 = self.total_reserves();

        let price: u128 = (self.reserves[idx] as u128).checked_mul(1_000_000).ok_or(
            MarketError::ArithmeticOverflow,
        )?.checked_div(total_reserves).ok_or(MarketError::ArithmeticOverflow)?;

        proof {
            lemma_sum_bounds_entry(self@.reserves, idx as int);
            lemma_scaled_part_le(
                self@.reserves[idx as int],
                PRICE_SCALE as nat,
                self@.total_reserves(),
            );
        }
        Ok(price as u64)
    }
}

} // verus!
