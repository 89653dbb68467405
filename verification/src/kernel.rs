//! The Kernel Generator: a normalized 2D discrete Gaussian weight matrix,
//! side length `2 * radius + 1`, flattened row-major.
//!
//! All weights are Q16 fixed point (`WEIGHT_ONE` stands for 1.0). The
//! unnormalized weight at offset `(dx, dy)` follows the Gaussian shape
//! `exp(-(dx^2 + dy^2) / (2 * sigma^2))` with `sigma = max(radius / 2, 1)`;
//! the constant factor `1 / (2 * pi * sigma^2)` of the continuous density
//! cancels under normalization and is not computed. Normalization is exact:
//! the weights of a generated matrix sum to `WEIGHT_ONE` precisely, with the
//! truncation deficit folded into the center weight (which is its own image
//! under 180-degree rotation, so the fold keeps the matrix symmetric).

use vstd::prelude::*;
use vstd::arithmetic::div_mod::{
    lemma_div_is_ordered, lemma_div_multiples_vanish, lemma_div_pos_is_pos,
    lemma_fundamental_div_mod_converse, lemma_mod_bound, lemma_multiply_divide_le,
    lemma_multiply_divide_lt,
};
use crate::errors::BlurError;
use crate::sums::{
    lemma_div_split_le, lemma_element_le_sum, lemma_scaled_part_le, lemma_sum_nonneg,
    lemma_sum_push, lemma_sum_take_le, lemma_sum_take_step, lemma_sum_update, sum_seq,
};
use crate::WEIGHT_ONE;

verus! {

/// Largest accepted radius. Keeps every intermediate of the fixed-point
/// evaluation inside `u64` and the flattened matrix length inside `usize`.
pub const MAX_RADIUS: u32 = 30000;

/// Side length of the square matrix for a given radius.
pub open spec fn spec_side(r: int) -> int {
    2 * r + 1
}

/// Q16 sigma: `max(radius / 2, 1)` scaled by `WEIGHT_ONE`.
pub open spec fn spec_sigma_q(r: int) -> int {
    if r * 32768 > 65536 {
        r * 32768
    } else {
        65536
    }
}

/// Q16 value of `2 * sigma^2`, the Gaussian's denominator.
pub open spec fn spec_denom_q(r: int) -> int {
    2 * ((spec_sigma_q(r) * spec_sigma_q(r)) / 65536)
}

/// Squared distance of cell `(a, b)` from the matrix center.
pub open spec fn spec_dist_sq(r: int, a: int, b: int) -> int {
    (a - r) * (a - r) + (b - r) * (b - r)
}

/// Q16 value of the Gaussian exponent argument `dist^2 / (2 * sigma^2)`.
/// For cells of the matrix grid it never exceeds the Q16 value of 4.0 —
/// the domain of the exponential approximation — because
/// `sigma >= radius / 2`.
pub open spec fn spec_t_q(r: int, a: int, b: int) -> int {
    spec_dist_sq(r, a, b) * 65536 * 65536 / spec_denom_q(r)
}

/// Q16 quadratic approximation of `exp(-t / 256)` for a Q16 argument `t`.
pub open spec fn spec_exp_base(t: int) -> int {
    let s = t / 256;
    65536 - s + (s * s) / 131072
}

/// `n` Q16 squarings of `x`.
pub open spec fn spec_square_iter(x: int, n: nat) -> int
    decreases n,
{
    if n == 0 {
        x
    } else {
        let p = spec_square_iter(x, (n - 1) as nat);
        (p * p) / 65536
    }
}

/// Q16 value of `exp(-t)` for a Q16 argument `t`: the 256th power of
/// `exp(-t / 256)`.
pub open spec fn spec_exp_neg(t: int) -> int {
    spec_square_iter(spec_exp_base(t), 8)
}

/// Unnormalized weight of cell `(a, b)`.
pub open spec fn spec_raw_weight(r: int, a: int, b: int) -> int {
    spec_exp_neg(spec_t_q(r, a, b))
}

/// The unnormalized matrix, flattened row-major.
pub open spec fn spec_raw_seq(r: int) -> Seq<int> {
    Seq::new((spec_side(r) * spec_side(r)) as nat, |n: int| spec_raw_weight(
        r,
        n / spec_side(r),
        n % spec_side(r),
    ))
}

pub open spec fn spec_raw_total(r: int) -> int {
    sum_seq(spec_raw_seq(r))
}

/// Weight of cell `n` after truncating normalization.
pub open spec fn spec_norm_weight(r: int, n: int) -> int {
    spec_raw_seq(r)[n] * 65536 / spec_raw_total(r)
}

pub open spec fn spec_norm_seq(r: int) -> Seq<int> {
    Seq::new((spec_side(r) * spec_side(r)) as nat, |n: int| spec_norm_weight(r, n))
}

/// Flat index of the center cell.
pub open spec fn spec_center(r: int) -> int {
    r * spec_side(r) + r
}

/// The generated matrix: truncating normalization, with the lost mass
/// folded into the center cell so the total is exactly `WEIGHT_ONE`.
pub open spec fn spec_kernel_seq(r: int) -> Seq<int> {
    let norm = spec_norm_seq(r);
    norm.update(spec_center(r), norm[spec_center(r)] + 65536 - sum_seq(norm))
}

proof fn lemma_square_iter_bounds(x: int, n: nat)
    requires
        0 <= x <= 65536,
    ensures
        0 <= spec_square_iter(x, n) <= 65536,
    decreases n,
{
    if n > 0 {
        lemma_square_iter_bounds(x, (n - 1) as nat);
        let p = spec_square_iter(x, (n - 1) as nat);
        assert(p * p <= 65536 * 65536) by (nonlinear_arith)
            requires 0 <= p <= 65536;
        lemma_multiply_divide_le(p * p, 65536, 65536);
        lemma_div_pos_is_pos(p * p, 65536);
        assert(p * p >= 0) by (nonlinear_arith)
            requires p >= 0;
    }
}

proof fn lemma_square_iter_one(n: nat)
    ensures
        spec_square_iter(65536, n) == 65536,
    decreases n,
{
    if n > 0 {
        lemma_square_iter_one((n - 1) as nat);
        lemma_div_multiples_vanish(65536, 65536);
    }
}

proof fn lemma_exp_base_bounds(t: int)
    requires
        0 <= t <= 262144,
    ensures
        0 <= spec_exp_base(t) <= 65536,
{
    let s = t / 256;
    lemma_div_pos_is_pos(t, 256);
    lemma_div_is_ordered(t, 262144, 256);
    assert(s <= 1024);
    assert(s * s <= 131072 * s) by (nonlinear_arith)
        requires 0 <= s <= 1024;
    lemma_multiply_divide_le(s * s, 131072, s);
    assert(s * s >= 0) by (nonlinear_arith)
        requires s >= 0;
    lemma_div_pos_is_pos(s * s, 131072);
}

proof fn lemma_exp_neg_bounds(t: int)
    requires
        0 <= t <= 262144,
    ensures
        0 <= spec_exp_neg(t) <= 65536,
{
    lemma_exp_base_bounds(t);
    lemma_square_iter_bounds(spec_exp_base(t), 8);
}

proof fn lemma_exp_neg_zero()
    ensures
        spec_exp_neg(0) == 65536,
{
    assert(spec_exp_base(0) == 65536) by {
        vstd::arithmetic::div_mod::lemma_div_of0(256);
        vstd::arithmetic::div_mod::lemma_div_of0(131072);
    }
    lemma_square_iter_one(8);
}

/// Q16 `exp(-t)`: a quadratic approximation of `exp(-t / 256)`, raised to
/// the 256th power by eight Q16 squarings.
fn exp_neg_fixed(t: u64) -> (v: u32)
    requires
        t <= 262144,
    ensures
        v as int == spec_exp_neg(t as int),
        v <= 65536,
{
    proof {
        lemma_exp_base_bounds(t as int);
    }
    let s: u64 = t / 256;
    let quad: u64 = (s * s) / 131072;
    let base: u64 = 65536 - s + quad;
    let mut v: u64 = base;
    let mut k: u64 = 0;
    while k < 8
        invariant
            k <= 8,
            0 <= v <= 65536,
            v as int == spec_square_iter(base as int, k as nat),
        decreases 8 - k,
    {
        proof {
            let p = v as int;
            assert(p * p <= 65536 * 65536) by (nonlinear_arith)
                requires 0 <= p <= 65536;
            assert(p * p >= 0) by (nonlinear_arith)
                requires p >= 0;
            lemma_multiply_divide_le(p * p, 65536, 65536);
            lemma_div_pos_is_pos(p * p, 65536);
            assert(spec_square_iter(base as int, (k + 1) as nat) == (p * p) / 65536);
        }
        v = (v * v) / 65536;
        k = k + 1;
    }
    v as u32
}

proof fn lemma_denom_q_bounds(r: int)
    requires
        0 <= r <= MAX_RADIUS,
    ensures
        131072 <= spec_denom_q(r),
        spec_denom_q(r) <= 0x8000_0000_0000_0000,
{
    let sg = spec_sigma_q(r);
    assert(65536 <= sg <= 983040000);
    assert(65536 * 65536 <= sg * sg <= 983040000 * 983040000) by (nonlinear_arith)
        requires 65536 <= sg <= 983040000;
    lemma_div_is_ordered((65536 * 65536) as int, sg * sg, 65536);
    lemma_div_multiples_vanish(65536, 65536);
    lemma_div_is_ordered(sg * sg, (983040000 * 983040000) as int, 65536);
}

proof fn lemma_t_q_bounds(r: int, a: int, b: int)
    requires
        0 <= r <= MAX_RADIUS,
        0 <= a < spec_side(r),
        0 <= b < spec_side(r),
    ensures
        0 <= spec_t_q(r, a, b) <= 262144,
{
    lemma_denom_q_bounds(r);
    let d2 = spec_dist_sq(r, a, b);
    assert(0 <= d2 <= 2 * r * r) by (nonlinear_arith)
        requires
            -r <= a - r <= r,
            -r <= b - r <= r,
            d2 == (a - r) * (a - r) + (b - r) * (b - r);
    assert(d2 * 65536 * 65536 >= 0) by (nonlinear_arith)
        requires d2 >= 0;
    lemma_div_pos_is_pos(d2 * 65536 * 65536, spec_denom_q(r));
    if r <= 2 {
        assert(spec_sigma_q(r) == 65536);
        lemma_div_multiples_vanish(65536, 65536);
        assert(spec_denom_q(r) == 131072);
        assert(2 * r * r <= 8) by (nonlinear_arith)
            requires 0 <= r <= 2;
        assert(d2 * 65536 * 65536 <= 34359738368) by (nonlinear_arith)
            requires 0 <= d2 <= 8;
        lemma_div_is_ordered(d2 * 65536 * 65536, 34359738368, 131072);
        assert(34359738368int / 131072 == 262144);
    } else {
        assert(spec_sigma_q(r) == r * 32768);
        assert(r * 32768 * (r * 32768) == 65536 * (r * r * 16384)) by (nonlinear_arith);
        lemma_div_multiples_vanish(r * r * 16384, 65536);
        assert(spec_denom_q(r) == 2 * (r * r * 16384));
        assert(d2 * 65536 * 65536 <= (2 * (r * r * 16384)) * 262144) by (nonlinear_arith)
            requires 0 <= d2 <= 2 * r * r;
        assert(2 * (r * r * 16384) > 0) by (nonlinear_arith)
            requires r > 2;
        lemma_multiply_divide_le(d2 * 65536 * 65536, 2 * (r * r * 16384), 262144);
    }
}

/// The Q16 exponent argument for cell `(a, b)`: squared distance from the
/// center over `2 * sigma^2`.
fn gauss_t(r: u32, a: u64, b: u64) -> (t: u64)
    requires
        r <= MAX_RADIUS,
        a < spec_side(r as int),
        b < spec_side(r as int),
    ensures
        t as int == spec_t_q(r as int, a as int, b as int),
        t <= 262144,
{
    let sigma: u64 = {
        let v: u64 = (r as u64) * 32768;
        if v > 65536 {
            v
        } else {
            65536
        }
    };
    proof {
        assert(sigma as int == spec_sigma_q(r as int));
        assert(sigma * sigma <= 983040000 * 983040000) by (nonlinear_arith)
            requires 0 <= (sigma as int) <= 983040000;
        lemma_denom_q_bounds(r as int);
    }
    let denom: u64 = 2 * ((sigma * sigma) / 65536);
    let dx: i64 = (a as i64) - (r as i64);
    let dy: i64 = (b as i64) - (r as i64);
    proof {
        assert(dx * dx + dy * dy <= 2 * 30000 * 30000 && dx * dx >= 0 && dy * dy >= 0)
            by (nonlinear_arith)
            requires
                -30000 <= (dx as int) <= 30000,
                -30000 <= (dy as int) <= 30000;
    }
    let sq: u64 = (dx * dx + dy * dy) as u64;
    proof {
        lemma_t_q_bounds(r as int, a as int, b as int);
    }
    let num: u64 = sq * 65536 * 65536;
    let t: u64 = num / denom;
    t
}

/// At the center cell the exponent argument is zero, so the unnormalized
/// weight is exactly `WEIGHT_ONE`.
proof fn lemma_raw_weight_center(r: int)
    requires
        0 <= r <= MAX_RADIUS,
    ensures
        spec_raw_weight(r, r, r) == 65536,
{
    lemma_denom_q_bounds(r);
    assert(spec_dist_sq(r, r, r) == 0);
    assert(spec_t_q(r, r, r) == 0) by {
        vstd::arithmetic::div_mod::lemma_div_of0(spec_denom_q(r));
    }
    lemma_exp_neg_zero();
}

/// A weight vector as mathematical integers.
pub open spec fn weights_view(v: Seq<u32>) -> Seq<int> {
    v.map_values(|w: u32| w as int)
}

/// Every unnormalized weight is a Q16 value in `[0, 1]`.
proof fn lemma_raw_seq_bounds(r: int)
    requires
        0 <= r <= MAX_RADIUS,
    ensures
        forall|k: int|
            0 <= k < spec_raw_seq(r).len() ==> 0 <= #[trigger] spec_raw_seq(r)[k] <= 65536,
{
    assert forall|k: int|
        0 <= k < spec_raw_seq(r).len() implies 0 <= #[trigger] spec_raw_seq(r)[k] <= 65536 by {
        let side = spec_side(r);
        lemma_multiply_divide_lt(k, side, side);
        lemma_mod_bound(k, side);
        lemma_div_pos_is_pos(k, side);
        lemma_t_q_bounds(r, k / side, k % side);
        lemma_exp_neg_bounds(spec_t_q(r, k / side, k % side));
    }
}

/// The center cell's flat index lies inside the matrix.
proof fn lemma_center_in_range(r: int)
    requires
        0 <= r,
    ensures
        0 <= spec_center(r) < spec_side(r) * spec_side(r),
        spec_center(r) / spec_side(r) == r,
        spec_center(r) % spec_side(r) == r,
{
    let side = spec_side(r);
    assert(0 <= r * side + r < side * side) by (nonlinear_arith)
        requires 0 <= r && side == 2 * r + 1;
    lemma_fundamental_div_mod_converse(r * side + r, side, r, r);
}

/// The unnormalized matrix and the total of its weights. The total is at
/// least `WEIGHT_ONE`, because the center cell alone contributes that much.
fn raw_matrix(r: u32) -> (res: (Vec<u32>, u64))
    requires
        r <= MAX_RADIUS,
    ensures
        weights_view(res.0@) == spec_raw_seq(r as int),
        res.1 as int == spec_raw_total(r as int),
        res.1 >= 65536,
{
    let side: u64 = 2 * (r as u64) + 1;
    proof {
        assert(side * side <= 60001 * 60001) by (nonlinear_arith)
            requires 1 <= (side as int) <= 60001;
    }
    let count: u64 = side * side;
    let mut raw: Vec<u32> = Vec::new();
    let mut total: u64 = 0;
    let mut n: u64 = 0;
    while n < count
        invariant
            r <= MAX_RADIUS,
            side == spec_side(r as int),
            count == spec_side(r as int) * spec_side(r as int),
            count <= 3600120001,
            n <= count,
            raw@.len() == n,
            forall|k: int|
                0 <= k < n ==> #[trigger] weights_view(raw@)[k] == spec_raw_seq(r as int)[k],
            total as int == sum_seq(weights_view(raw@)),
            total <= n * 65536,
        decreases count - n,
    {
        proof {
            lemma_multiply_divide_lt(n as int, side as int, side as int);
            lemma_mod_bound(n as int, side as int);
            lemma_div_pos_is_pos(n as int, side as int);
        }
        let a: u64 = n / side;
        let b: u64 = n % side;
        let t: u64 = gauss_t(r, a, b);
        let w: u32 = exp_neg_fixed(t);
        proof {
            lemma_sum_push(weights_view(raw@), w as int);
            assert(weights_view(raw@.push(w)) =~= weights_view(raw@).push(w as int));
        }
        raw.push(w);
        total = total + (w as u64);
        n = n + 1;
    }
    proof {
        assert(weights_view(raw@) =~= spec_raw_seq(r as int));
        let rs = spec_raw_seq(r as int);
        lemma_raw_seq_bounds(r as int);
        lemma_center_in_range(r as int);
        lemma_element_le_sum(rs, spec_center(r as int));
        lemma_raw_weight_center(r as int);
        assert(rs[spec_center(r as int)] == 65536);
    }
    (raw, total)
}

/// Build the normalized Gaussian matrix for a radius.
///
/// A negative radius is rejected with `InvalidParameter` and no matrix is
/// produced. For any admissible radius the result is fully determined by
/// the radius alone — same radius, identical matrix — and its weights sum
/// to exactly `WEIGHT_ONE`.
pub fn generate(radius: i32) -> (result: Result<KernelMatrix, BlurError>)
    requires
        radius as int <= MAX_RADIUS as int,
    ensures
        result is Ok <==> radius >= 0,
        radius < 0 ==> result == Err::<KernelMatrix, BlurError>(BlurError::InvalidParameter),
        result matches Ok(k) ==> {
            &&& k.wf()
            &&& k.radius as int == radius as int
            &&& k.view_weights() == spec_kernel_seq(radius as int)
        },
{
    if radius < 0 {
        return Err(BlurError::InvalidParameter);
    }
    let r: u32 = radius as u32;
    let (raw, total) = raw_matrix(r);
    let count: usize = raw.len();
    let ghost rs = spec_raw_seq(r as int);
    let ghost tot = total as int;
    proof {
        lemma_raw_seq_bounds(r as int);
    }
    let mut norm: Vec<u32> = Vec::new();
    let mut nsum: u64 = 0;
    let mut n: usize = 0;
    while n < count
        invariant
            r <= MAX_RADIUS,
            rs == spec_raw_seq(r as int),
            tot == total as int,
            tot == spec_raw_total(r as int),
            total >= 65536,
            weights_view(raw@) == rs,
            count == raw@.len(),
            count == rs.len(),
            n <= count,
            norm@.len() == n,
            forall|k: int|
                0 <= k < n ==> #[trigger] weights_view(norm@)[k] == spec_norm_seq(r as int)[k],
            nsum as int == sum_seq(weights_view(norm@)),
            nsum as int <= sum_seq(rs.take(n as int)) * 65536 / tot,
            nsum <= 65536,
        decreases count - n,
    {
        let w: u32 = raw[n];
        proof {
            lemma_raw_seq_bounds(r as int);
            assert(weights_view(raw@)[n as int] == w as int);
            lemma_element_le_sum(rs, n as int);
            lemma_div_pos_is_pos((w as int) * 65536, tot);
            lemma_scaled_part_le(w as int, 65536, tot);
        }
        let v64: u64 = ((w as u64) * 65536) / total;
        proof {
            assert(v64 as int == spec_norm_weight(r as int, n as int));
            lemma_sum_push(weights_view(norm@), v64 as int);
            assert(weights_view(norm@.push(v64 as u32)) =~= weights_view(norm@).push(
                v64 as int,
            ));
            // The prefix bound advances with the prefix.
            lemma_sum_take_step(rs, n as int);
            let pa = sum_seq(rs.take(n as int));
            let pb = rs[n as int];
            lemma_sum_nonneg(rs.take(n as int));
            assert(pb * 65536 >= 0) by (nonlinear_arith)
                requires pb >= 0;
            assert(pa * 65536 >= 0) by (nonlinear_arith)
                requires pa >= 0;
            assert((pa + pb) * 65536 == pa * 65536 + pb * 65536) by (nonlinear_arith);
            lemma_div_split_le(pa * 65536, pb * 65536, tot);
            // And the advanced prefix keeps the running total under one.
            lemma_sum_take_le(rs, n as int + 1);
            lemma_sum_nonneg(rs.take(n as int + 1));
            lemma_scaled_part_le(sum_seq(rs.take(n as int + 1)), 65536, tot);
            lemma_div_is_ordered(
                sum_seq(rs.take(n as int + 1)) * 65536,
                tot * 65536,
                tot,
            );
            assert(sum_seq(rs.take(n as int + 1)) * 65536 <= tot * 65536) by (nonlinear_arith)
                requires sum_seq(rs.take(n as int + 1)) <= tot && 65536 > 0;
            lemma_div_multiples_vanish(65536, tot);
            assert(tot * 65536 / tot == 65536);
        }
        norm.push(v64 as u32);
        nsum = nsum + v64;
        n = n + 1;
    }
    proof {
        assert(rs.take(count as int) =~= rs);
        assert(weights_view(norm@) =~= spec_norm_seq(r as int));
        lemma_scaled_part_le(sum_seq(rs), 65536, tot);
        lemma_div_multiples_vanish(65536, tot);
        assert(nsum <= 65536);
    }
    let deficit: u64 = 65536 - nsum;
    proof {
        assert((r as int) * (2 * (r as int) + 1) <= 30000 * 60001) by (nonlinear_arith)
            requires 0 <= (r as int) <= 30000;
        assert((r as int) * (2 * (r as int) + 1) >= 0) by (nonlinear_arith)
            requires 0 <= (r as int);
    }
    let c64: u64 = (r as u64) * (2 * (r as u64) + 1) + (r as u64);
    proof {
        lemma_center_in_range(r as int);
        assert(c64 as int == spec_center(r as int));
        lemma_norm_seq_nonneg(r as int);
        lemma_element_le_sum(weights_view(norm@), c64 as int);
    }
    let c: usize = c64 as usize;
    let oldv: u32 = norm[c];
    let newv: u64 = (oldv as u64) + deficit;
    norm.set(c, newv as u32);
    proof {
        let ns = spec_norm_seq(r as int);
        let cc = spec_center(r as int);
        assert(weights_view(norm@) =~= ns.update(cc, ns[cc] + 65536 - sum_seq(ns)));
        assert(weights_view(norm@) == spec_kernel_seq(r as int));
        lemma_sum_update(ns, cc, ns[cc] + 65536 - sum_seq(ns));
        assert(sum_seq(spec_kernel_seq(r as int)) == 65536);
        lemma_kernel_seq_bounds(r as int);
    }
    Ok(KernelMatrix { radius: r, weights: norm })
}

/// Every normalized weight is nonnegative.
proof fn lemma_norm_seq_nonneg(r: int)
    requires
        0 <= r <= MAX_RADIUS,
        spec_raw_total(r) > 0,
    ensures
        forall|k: int|
            0 <= k < spec_norm_seq(r).len() ==> 0 <= #[trigger] spec_norm_seq(r)[k],
{
    lemma_raw_seq_bounds(r);
    assert forall|k: int|
        0 <= k < spec_norm_seq(r).len() implies 0 <= #[trigger] spec_norm_seq(r)[k] by {
        assert(spec_raw_seq(r)[k] * 65536 >= 0) by (nonlinear_arith)
            requires spec_raw_seq(r)[k] >= 0;
        lemma_div_pos_is_pos(spec_raw_seq(r)[k] * 65536, spec_raw_total(r));
    }
}

/// Every weight of the finished matrix is a Q16 value in `[0, 1]`.
proof fn lemma_kernel_seq_bounds(r: int)
    requires
        0 <= r <= MAX_RADIUS,
        spec_raw_total(r) > 0,
        sum_seq(spec_norm_seq(r)) <= 65536,
        sum_seq(spec_kernel_seq(r)) == 65536,
    ensures
        forall|k: int|
            0 <= k < spec_kernel_seq(r).len() ==> 0 <= #[trigger] spec_kernel_seq(r)[k]
                <= 65536,
{
    let ks = spec_kernel_seq(r);
    let ns = spec_norm_seq(r);
    let cc = spec_center(r);
    lemma_center_in_range(r);
    lemma_norm_seq_nonneg(r);
    assert forall|k: int| 0 <= k < ks.len() implies 0 <= #[trigger] ks[k] by {
        if k != cc {
            assert(ks[k] == ns[k]);
        }
    }
    assert forall|k: int| 0 <= k < ks.len() implies #[trigger] ks[k] <= 65536 by {
        lemma_element_le_sum(ks, k);
    }
}

/// The matrix is symmetric under 180-degree rotation: the weight of cell
/// `(a, b)` equals the weight of cell `(side-1-a, side-1-b)` exactly. The
/// generating shape depends only on the squared distance from the center,
/// truncating normalization maps equal raw weights to equal normalized
/// weights, and the deficit fold touches only the center cell, which is its
/// own image under the rotation.
pub proof fn lemma_kernel_rotation_symmetry(r: int, a: int, b: int)
    requires
        0 <= r <= MAX_RADIUS,
        0 <= a < spec_side(r),
        0 <= b < spec_side(r),
    ensures
        spec_kernel_seq(r)[a * spec_side(r) + b] == spec_kernel_seq(r)[(spec_side(r) - 1 - a)
            * spec_side(r) + (spec_side(r) - 1 - b)],
{
    let side = spec_side(r);
    let a2 = side - 1 - a;
    let b2 = side - 1 - b;
    let n1 = a * side + b;
    let n2 = a2 * side + b2;
    assert(0 <= a * side + b < side * side && 0 <= a2 * side + b2 < side * side)
        by (nonlinear_arith)
        requires
            0 <= a < side,
            0 <= b < side,
            0 <= a2 < side,
            0 <= b2 < side;
    lemma_fundamental_div_mod_converse(n1, side, a, b);
    lemma_fundamental_div_mod_converse(n2, side, a2, b2);
    assert(spec_dist_sq(r, a, b) == spec_dist_sq(r, a2, b2)) by (nonlinear_arith)
        requires
            a2 == 2 * r - a,
            b2 == 2 * r - b;
    assert(spec_raw_seq(r)[n1] == spec_raw_seq(r)[n2]);
    assert(spec_norm_seq(r)[n1] == spec_norm_seq(r)[n2]);
    let cc = spec_center(r);
    lemma_center_in_range(r);
    if n1 == cc {
        assert(a == r && b == r);
        assert(n2 == cc);
    } else {
        assert(n2 != cc) by {
            if n2 == cc {
                assert(a2 == r && b2 == r);
            }
        }
    }
}

/// Generation is deterministic and idempotent: any two matrices carrying
/// the generated weights for one and the same radius are weight-for-weight
/// identical.
pub proof fn lemma_generate_deterministic(k1: &KernelMatrix, k2: &KernelMatrix)
    requires
        k1.radius == k2.radius,
        k1.view_weights() == spec_kernel_seq(k1.radius as int),
        k2.view_weights() == spec_kernel_seq(k2.radius as int),
    ensures
        k1.view_weights() == k2.view_weights(),
{
}

pub struct KernelMatrix {
    pub radius: u32,
    pub weights: Vec<u32>,
}

impl KernelMatrix {
    /// The weights as mathematical integers.
    pub open spec fn view_weights(&self) -> Seq<int> {
        weights_view(self.weights@)
    }

    /// A well-formed matrix: a full `side x side` grid of Q16 weights
    /// that sum to exactly `WEIGHT_ONE`.
    pub open spec fn wf(&self) -> bool {
        &&& self.radius <= MAX_RADIUS
        &&& self.view_weights().len() == spec_side(self.radius as int) * spec_side(
            self.radius as int,
        )
        &&& sum_seq(self.view_weights()) == WEIGHT_ONE
        &&& forall|n: int|
            0 <= n < self.view_weights().len() ==> 0 <= #[trigger] self.view_weights()[n]
                <= WEIGHT_ONE
    }

    pub fn radius(&self) -> (r: u32)
        ensures
            r == self.radius,
    {
        self.radius
    }

    /// The flattened weights, for staging into a device buffer or for
    /// inspection by a test.
    pub fn weight_at(&self, n: usize) -> (r: u32)
        requires
            n < self.view_weights().len(),
        ensures
            r as int == self.view_weights()[n as int],
    {
        self.weights[n]
    }

    pub fn len(&self) -> (r: usize)
        ensures
            r == self.view_weights().len(),
    {
        self.weights.len()
    }
}

} // verus!
