//! Sums, products and quotients of natural numbers.

use vstd::arithmetic::div_mod::{lemma_div_is_ordered, lemma_div_multiples_vanish};
use vstd::prelude::*;

verus! {

/// Sum of the entries of `s`.
pub open spec fn sum(s: Seq<nat>) -> nat
    decreases s.len(),
{
    if s.len() == 0 {
        0
    } else {
        sum(s.drop_last()) + s.last()
    }
}

/// Product of the entries of `s`.
pub open spec fn product(s: Seq<nat>) -> nat
    decreases s.len(),
{
    if s.len() == 0 {
        1
    } else {
        product(s.drop_last()) * s.last()
    }
}

/// The sum of the first `i + 1` entries is the sum of the first `i` plus entry `i`.
pub proof fn lemma_sum_take_next(s: Seq<nat>, i: int)
    requires
        0 <= i < s.len(),
    ensures
        sum(s.take(i + 1)) == sum(s.take(i)) + s[i],
{
    assert(s.take(i + 1).drop_last() =~= s.take(i));
}

/// The product of the first `i + 1` entries is the product of the first `i` times entry `i`.
pub proof fn lemma_product_take_next(s: Seq<nat>, i: int)
    requires
        0 <= i < s.len(),
    ensures
        product(s.take(i + 1)) == product(s.take(i)) * s[i],
{
    assert(s.take(i + 1).drop_last() =~= s.take(i));
}

/// No entry is larger than the sum of all.
pub proof fn lemma_sum_bounds_entry(s: Seq<nat>, i: int)
    requires
        0 <= i < s.len(),
    ensures
        s[i] <= sum(s),
    decreases s.len(),
{
    if i < s.len() - 1 {
        lemma_sum_bounds_entry(s.drop_last(), i);
    }
}

/// Replacing one entry moves the sum by the difference.
pub proof fn lemma_sum_update(s: Seq<nat>, i: int, v: nat)
    requires
        0 <= i < s.len(),
    ensures
        sum(s.update(i, v)) + s[i] == sum(s) + v,
    decreases s.len(),
{
    if i < s.len() - 1 {
        lemma_sum_update(s.drop_last(), i, v);
        assert(s.update(i, v).drop_last() =~= s.drop_last().update(i, v));
    } else {
        assert(s.update(i, v).drop_last() =~= s.drop_last());
    }
}

/// A part of a whole, scaled and divided by the whole, is at most the scale.
pub proof fn lemma_scaled_part_le(part: nat, scale: nat, whole: nat)
    requires
        part <= whole,
        whole > 0,
    ensures
        part * scale / whole <= scale,
{
    assert(part * scale <= whole * scale) by (nonlinear_arith)
        requires
            part <= whole,
    ;
    lemma_div_is_ordered((part * scale) as int, (whole * scale) as int, whole as int);
    lemma_div_multiples_vanish(scale as int, whole as int);
}

} // verus!
