//! The Reference Convolver: the sequential, host-side ground truth for the
//! blur. For every destination pixel it accumulates, per color channel, the
//! Q16-weighted sum of the source pixels under the kernel window. A tap
//! whose source coordinate falls outside the image contributes nothing —
//! its weight is simply lost from the local normalization, which darkens
//! edges. The alpha channel is not filtered: every output pixel is written
//! fully opaque. The accumulated Q16 value is narrowed by truncation, with
//! an explicit clamp to 255 before the cast.

use vstd::prelude::*;
use vstd::arithmetic::div_mod::{
    lemma_div_multiples_vanish, lemma_div_pos_is_pos, lemma_fundamental_div_mod_converse,
    lemma_mod_bound, lemma_multiply_divide_lt,
};
use crate::image_buffer::ImageBuffer;
use crate::kernel::{spec_side, KernelMatrix};
use crate::sums::{lemma_sum_take_le, lemma_sum_take_step, sum_seq};
use crate::WEIGHT_ONE;

verus! {

/// Clamp a channel value to the 8-bit range before narrowing.
pub open spec fn spec_clamp255(v: int) -> int {
    if v > 255 {
        255
    } else {
        v
    }
}

/// The weighted sum of the first `k` taps (in row-major tap order) for one
/// color channel of the destination pixel `(x, y)`. Out-of-bounds taps are
/// skipped entirely.
pub open spec fn spec_tap_sum(
    src: &ImageBuffer,
    kw: Seq<int>,
    r: int,
    x: int,
    y: int,
    ch: int,
    k: int,
) -> int
    decreases k,
{
    if k <= 0 {
        0
    } else {
        let side = spec_side(r);
        let jrow = (k - 1) / side;
        let icol = (k - 1) % side;
        let sx = x + icol - r;
        let sy = y + jrow - r;
        spec_tap_sum(src, kw, r, x, y, ch, k - 1) + if 0 <= sx < src.spec_width() && 0 <= sy
            < src.spec_height() {
            kw[k - 1] * src.spec_channel(sx, sy, ch)
        } else {
            0
        }
    }
}

/// What the convolver writes to channel `ch` of the destination pixel
/// `(x, y)`: the full tap sum, truncated from Q16 and clamped — except the
/// alpha channel, which is always fully opaque.
pub open spec fn spec_out_channel(
    src: &ImageBuffer,
    kw: Seq<int>,
    r: int,
    x: int,
    y: int,
    ch: int,
) -> int {
    if ch == 3 {
        255
    } else {
        spec_clamp255(
            spec_tap_sum(src, kw, r, x, y, ch, spec_side(r) * spec_side(r)) / (WEIGHT_ONE as int),
        )
    }
}

/// One byte of the flattened destination raster, by flat byte index.
pub open spec fn spec_result_byte(src: &ImageBuffer, kw: Seq<int>, r: int, i: int) -> int {
    let pix = i / 4;
    let ch = i % 4;
    let py = pix / src.spec_width();
    let px = pix % src.spec_width();
    spec_out_channel(src, kw, r, px, py, ch)
}

/// The three color channels of one destination pixel.
fn convolve_pixel(source: &ImageBuffer, kernel: &KernelMatrix, x: u32, y: u32) -> (px: (
    u8,
    u8,
    u8,
))
    requires
        source.wf(),
        kernel.wf(),
        x < source.spec_width(),
        y < source.spec_height(),
    ensures
        px.0 == spec_out_channel(
            source,
            kernel.view_weights(),
            kernel.radius as int,
            x as int,
            y as int,
            0,
        ),
        px.1 == spec_out_channel(
            source,
            kernel.view_weights(),
            kernel.radius as int,
            x as int,
            y as int,
            1,
        ),
        px.2 == spec_out_channel(
            source,
            kernel.view_weights(),
            kernel.radius as int,
            x as int,
            y as int,
            2,
        ),
{
    let r: u32 = kernel.radius();
    let side: u64 = 2 * (r as u64) + 1;
    let ghost kw = kernel.view_weights();
    let ghost ri = r as int;
    proof {
        assert(side * side <= 60001 * 60001) by (nonlinear_arith)
            requires 1 <= (side as int) <= 60001;
        assert(kw.len() == side * side);
    }
    let count: u64 = side * side;
    let mut accr: u64 = 0;
    let mut accg: u64 = 0;
    let mut accb: u64 = 0;
    let mut k: u64 = 0;
    while k < count
        invariant
            source.wf(),
            kernel.wf(),
            kw == kernel.view_weights(),
            ri == kernel.radius as int,
            r == kernel.radius,
            side == spec_side(ri),
            count == side * side,
            count == kw.len(),
            count <= 3600120001,
            x < source.spec_width(),
            y < source.spec_height(),
            k <= count,
            accr as int == spec_tap_sum(source, kw, ri, x as int, y as int, 0, k as int),
            accg as int == spec_tap_sum(source, kw, ri, x as int, y as int, 1, k as int),
            accb as int == spec_tap_sum(source, kw, ri, x as int, y as int, 2, k as int),
            accr as int <= 255 * sum_seq(kw.take(k as int)),
            accg as int <= 255 * sum_seq(kw.take(k as int)),
            accb as int <= 255 * sum_seq(kw.take(k as int)),
        decreases count - k,
    {
        proof {
            lemma_multiply_divide_lt(k as int, side as int, side as int);
            lemma_mod_bound(k as int, side as int);
            lemma_div_pos_is_pos(k as int, side as int);
            assert(kernel.view_weights()[k as int] >= 0);
            assert(kernel.view_weights()[k as int] <= WEIGHT_ONE);
            lemma_sum_take_step(kw, k as int);
            lemma_sum_take_le(kw, k as int);
            lemma_sum_take_le(kw, k as int + 1);
        }
        let jrow: u64 = k / side;
        let icol: u64 = k % side;
        let wt: u32 = kernel.weight_at(k as usize);
        let sx: i64 = (x as i64) + (icol as i64) - (r as i64);
        let sy: i64 = (y as i64) + (jrow as i64) - (r as i64);
        let w64: i64 = source.width() as i64;
        let h64: i64 = source.height() as i64;
        if 0 <= sx && sx < w64 && 0 <= sy && sy < h64 {
            let pr: u8 = source.channel_at(sx as u32, sy as u32, 0);
            let pg: u8 = source.channel_at(sx as u32, sy as u32, 1);
            let pb: u8 = source.channel_at(sx as u32, sy as u32, 2);
            proof {
                assert((wt as int) * (pr as int) <= 255 * (wt as int) && (wt as int) * (pr as int)
                    >= 0) by (nonlinear_arith)
                    requires 0 <= (wt as int) && 0 <= (pr as int) <= 255;
                assert((wt as int) * (pg as int) <= 255 * (wt as int) && (wt as int) * (pg as int)
                    >= 0) by (nonlinear_arith)
                    requires 0 <= (wt as int) && 0 <= (pg as int) <= 255;
                assert((wt as int) * (pb as int) <= 255 * (wt as int) && (wt as int) * (pb as int)
                    >= 0) by (nonlinear_arith)
                    requires 0 <= (wt as int) && 0 <= (pb as int) <= 255;
            }
            accr = accr + (wt as u64) * (pr as u64);
            accg = accg + (wt as u64) * (pg as u64);
            accb = accb + (wt as u64) * (pb as u64);
        }
        k = k + 1;
    }
    proof {
        assert(kw.take(count as int) =~= kw);
        lemma_div_pos_is_pos(accr as int, WEIGHT_ONE as int);
        lemma_div_pos_is_pos(accg as int, WEIGHT_ONE as int);
        lemma_div_pos_is_pos(accb as int, WEIGHT_ONE as int);
    }
    let vr: u64 = accr / 65536;
    let vg: u64 = accg / 65536;
    let vb: u64 = accb / 65536;
    let cr: u8 = if vr > 255 {
        255
    } else {
        vr as u8
    };
    let cg: u8 = if vg > 255 {
        255
    } else {
        vg as u8
    };
    let cb: u8 = if vb > 255 {
        255
    } else {
        vb as u8
    };
    (cr, cg, cb)
}

/// Apply the kernel to every pixel of `source` and produce the destination
/// raster of identical dimensions. Channel by channel, the output is the
/// clamped, truncated Q16 tap sum; the alpha channel of every output pixel
/// is exactly 255 regardless of input alpha.
pub fn convolve(source: &ImageBuffer, kernel: &KernelMatrix) -> (result: ImageBuffer)
    requires
        source.wf(),
        kernel.wf(),
    ensures
        result.wf(),
        result.spec_width() == source.spec_width(),
        result.spec_height() == source.spec_height(),
        forall|x: int, y: int, ch: int|
            0 <= x < source.spec_width() && 0 <= y < source.spec_height() && 0 <= ch < 4
                ==> #[trigger] result.spec_channel(x, y, ch) == spec_out_channel(
                source,
                kernel.view_weights(),
                kernel.radius as int,
                x,
                y,
                ch,
            ),
        forall|x: int, y: int|
            0 <= x < source.spec_width() && 0 <= y < source.spec_height()
                ==> #[trigger] result.spec_channel(x, y, 3) == 255,
{
    let w: u32 = source.width();
    let h: u32 = source.height();
    let ghost kw = kernel.view_weights();
    let ghost ri = kernel.radius as int;
    let mut data: Vec<u8> = Vec::new();
    let mut y: u32 = 0;
    while y < h
        invariant
            source.wf(),
            kernel.wf(),
            kw == kernel.view_weights(),
            ri == kernel.radius as int,
            w == source.spec_width(),
            h == source.spec_height(),
            y <= h,
            data@.len() == 4 * (y as int) * (w as int),
            forall|i: int|
                0 <= i < data@.len() ==> #[trigger] data@[i] as int == spec_result_byte(
                    source,
                    kw,
                    ri,
                    i,
                ),
        decreases h - y,
    {
        let mut x: u32 = 0;
        while x < w
            invariant
                source.wf(),
                kernel.wf(),
                kw == kernel.view_weights(),
                ri == kernel.radius as int,
                w == source.spec_width(),
                h == source.spec_height(),
                y < h,
                x <= w,
                data@.len() == 4 * (y as int) * (w as int) + 4 * (x as int),
                forall|i: int|
                    0 <= i < data@.len() ==> #[trigger] data@[i] as int == spec_result_byte(
                        source,
                        kw,
                        ri,
                        i,
                    ),
            decreases w - x,
        {
            let px = convolve_pixel(source, kernel, x, y);
            proof {
                let pix = (y as int) * (w as int) + (x as int);
                assert(data@.len() == 4 * pix) by (nonlinear_arith)
                    requires
                        data@.len() == 4 * (y as int) * (w as int) + 4 * (x as int),
                        pix == (y as int) * (w as int) + (x as int);
                assert forall|ch: int| 0 <= ch < 4 implies spec_result_byte(
                    source,
                    kw,
                    ri,
                    4 * pix + ch,
                ) == spec_out_channel(source, kw, ri, x as int, y as int, ch) by {
                    lemma_fundamental_div_mod_converse(4 * pix + ch, 4, pix, ch);
                    lemma_fundamental_div_mod_converse(pix, w as int, y as int, x as int);
                }
            }
            data.push(px.0);
            data.push(px.1);
            data.push(px.2);
            data.push(255);
            x = x + 1;
        }
        proof {
            assert(4 * (y as int) * (w as int) + 4 * (w as int) == 4 * ((y as int) + 1) * (
            w as int)) by (nonlinear_arith);
        }
        y = y + 1;
    }
    let result = ImageBuffer { width: w, height: h, data };
    proof {
        assert(4 * (h as int) * (w as int) == 4 * (w as int) * (h as int)) by (nonlinear_arith);
        assert(result.wf());
        assert forall|x: int, y: int, ch: int|
            0 <= x < source.spec_width() && 0 <= y < source.spec_height() && 0 <= ch < 4
            implies #[trigger] result.spec_channel(x, y, ch) == spec_out_channel(
            source,
            kw,
            ri,
            x,
            y,
            ch,
        ) by {
            let pix = y * (w as int) + x;
            let i = 4 * pix + ch;
            assert(0 <= pix < (w as int) * (h as int) && 4 * pix + ch < 4 * (w as int) * (
            h as int)) by (nonlinear_arith)
                requires
                    0 <= x < (w as int),
                    0 <= y < (h as int),
                    0 <= ch < 4,
                    pix == y * (w as int) + x;
            lemma_fundamental_div_mod_converse(i, 4, pix, ch);
            lemma_fundamental_div_mod_converse(pix, w as int, y, x);
            assert(data@[i] as int == spec_result_byte(source, kw, ri, i));
        }
    }
    result
}

/// Over a uniform source field, the first `k` taps of an interior pixel
/// sum to the constant channel value times the weight mass of those taps.
proof fn lemma_uniform_tap_sum(
    src: &ImageBuffer,
    kw: Seq<int>,
    r: int,
    x: int,
    y: int,
    ch: int,
    c: int,
    k: int,
)
    requires
        src.wf(),
        r >= 0,
        kw.len() == spec_side(r) * spec_side(r),
        0 <= ch < 3,
        forall|px: int, py: int|
            0 <= px < src.spec_width() && 0 <= py < src.spec_height()
                ==> #[trigger] src.spec_channel(px, py, ch) == c,
        r <= x && x + r < src.spec_width(),
        r <= y && y + r < src.spec_height(),
        0 <= k <= kw.len(),
    ensures
        spec_tap_sum(src, kw, r, x, y, ch, k) == c * sum_seq(kw.take(k)),
    decreases k,
{
    let side = spec_side(r);
    if k == 0 {
        assert(kw.take(0) =~= Seq::<int>::empty());
    } else {
        lemma_uniform_tap_sum(src, kw, r, x, y, ch, c, k - 1);
        lemma_sum_take_step(kw, k - 1);
        lemma_multiply_divide_lt(k - 1, side, side);
        lemma_mod_bound(k - 1, side);
        lemma_div_pos_is_pos(k - 1, side);
        let jrow = (k - 1) / side;
        let icol = (k - 1) % side;
        let sx = x + icol - r;
        let sy = y + jrow - r;
        assert(0 <= sx < src.spec_width());
        assert(0 <= sy < src.spec_height());
        assert(src.spec_channel(sx, sy, ch) == c);
        assert(c * (sum_seq(kw.take(k - 1)) + kw[k - 1]) == c * sum_seq(kw.take(k - 1)) + c * kw[k
            - 1]) by (nonlinear_arith);
        assert(kw[k - 1] * c == c * kw[k - 1]) by (nonlinear_arith);
    }
}

/// Applied to a uniform (flat-color) source, the convolver reproduces the
/// same uniform color at every interior pixel — a pixel whose whole kernel
/// window lies inside the image — because the kernel's weights sum to
/// exactly `WEIGHT_ONE`: a normalized kernel over a constant field is the
/// identity.
pub proof fn lemma_uniform_interior_identity(
    src: &ImageBuffer,
    kw: Seq<int>,
    r: int,
    x: int,
    y: int,
    ch: int,
    c: int,
)
    requires
        src.wf(),
        r >= 0,
        kw.len() == spec_side(r) * spec_side(r),
        sum_seq(kw) == WEIGHT_ONE,
        0 <= ch < 3,
        0 <= c <= 255,
        forall|px: int, py: int|
            0 <= px < src.spec_width() && 0 <= py < src.spec_height()
                ==> #[trigger] src.spec_channel(px, py, ch) == c,
        r <= x && x + r < src.spec_width(),
        r <= y && y + r < src.spec_height(),
    ensures
        spec_out_channel(src, kw, r, x, y, ch) == c,
{
    let count = spec_side(r) * spec_side(r);
    lemma_uniform_tap_sum(src, kw, r, x, y, ch, c, count);
    assert(kw.take(count) =~= kw);
    assert(spec_tap_sum(src, kw, r, x, y, ch, count) == c * 65536);
    lemma_div_multiples_vanish(c, 65536);
    assert(65536 * c == c * 65536) by (nonlinear_arith);
}

} // verus!
