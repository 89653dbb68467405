//! Sums over integer sequences, and the division facts the kernel
//! normalization rests on.

use vstd::prelude::*;
use vstd::arithmetic::div_mod::{
    lemma_div_is_ordered, lemma_div_multiples_vanish, lemma_fundamental_div_mod,
    lemma_mod_bound, lemma_multiply_divide_le,
};
use vstd::arithmetic::mul::lemma_mul_is_distributive_add;

verus! {

/// The sum of all entries of an integer sequence.
pub open spec fn sum_seq(s: Seq<int>) -> int
    decreases s.len(),
{
    if s.len() == 0 {
        0
    } else {
        sum_seq(s.drop_last()) + s.last()
    }
}

pub proof fn lemma_sum_push(s: Seq<int>, v: int)
    ensures
        sum_seq(s.push(v)) == sum_seq(s) + v,
{
    assert(s.push(v).drop_last() =~= s);
    assert(s.push(v).last() == v);
}

pub proof fn lemma_sum_take_step(s: Seq<int>, k: int)
    requires
        0 <= k < s.len(),
    ensures
        sum_seq(s.take(k + 1)) == sum_seq(s.take(k)) + s[k],
{
    let t = s.take(k + 1);
    assert(t.drop_last() =~= s.take(k));
    assert(t.last() == s[k]);
}

pub proof fn lemma_sum_take_le(s: Seq<int>, k: int)
    requires
        forall|i: int| 0 <= i < s.len() ==> s[i] >= 0,
        0 <= k <= s.len(),
    ensures
        sum_seq(s.take(k)) <= sum_seq(s),
    decreases s.len(),
{
    if k == s.len() {
        assert(s.take(k) =~= s);
    } else {
        assert(s.drop_last().take(k) =~= s.take(k));
        lemma_sum_take_le(s.drop_last(), k);
    }
}

pub proof fn lemma_sum_nonneg(s: Seq<int>)
    requires
        forall|i: int| 0 <= i < s.len() ==> s[i] >= 0,
    ensures
        sum_seq(s) >= 0,
    decreases s.len(),
{
    if s.len() > 0 {
        lemma_sum_nonneg(s.drop_last());
    }
}

pub proof fn lemma_element_le_sum(s: Seq<int>, i: int)
    requires
        forall|j: int| 0 <= j < s.len() ==> s[j] >= 0,
        0 <= i < s.len(),
    ensures
        s[i] <= sum_seq(s),
    decreases s.len(),
{
    if i == s.len() - 1 {
        lemma_sum_nonneg(s.drop_last());
    } else {
        lemma_element_le_sum(s.drop_last(), i);
    }
}

pub proof fn lemma_sum_update(s: Seq<int>, i: int, v: int)
    requires
        0 <= i < s.len(),
    ensures
        sum_seq(s.update(i, v)) == sum_seq(s) - s[i] + v,
    decreases s.len(),
{
    let t = s.update(i, v);
    if i == s.len() - 1 {
        assert(t.drop_last() =~= s.drop_last());
    } else {
        assert(t.drop_last() =~= s.drop_last().update(i, v));
        lemma_sum_update(s.drop_last(), i, v);
    }
}

/// Truncating division loses mass: dividing two parts separately never
/// beats dividing their total.
pub proof fn lemma_div_split_le(a: int, b: int, d: int)
    requires
        a >= 0,
        b >= 0,
        d > 0,
    ensures
        a / d + b / d <= (a + b) / d,
{
    lemma_fundamental_div_mod(a, d);
    lemma_fundamental_div_mod(b, d);
    lemma_mod_bound(a, d);
    lemma_mod_bound(b, d);
    let q = a / d + b / d;
    assert(d * q <= a + b) by {
        lemma_mul_is_distributive_add(d, a / d, b / d);
    }
    lemma_div_is_ordered(d * q, a + b, d);
    lemma_div_multiples_vanish(q, d);
    assert(d * q / d == q);
}

/// A part of a nonnegative total, rescaled by truncating division,
/// stays at or below the rescaled total.
pub proof fn lemma_scaled_part_le(w: int, k: int, s: int)
    requires
        0 <= w <= s,
        k >= 0,
        s > 0,
    ensures
        w * k / s <= k,
{
    assert(w * k <= s * k) by (nonlinear_arith)
        requires 0 <= w <= s && k >= 0;
    lemma_multiply_divide_le(w * k, s, k);
}

} // verus!
