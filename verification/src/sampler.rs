//! Block sampler: averages the luminance of a rectangular block of pixels,
//! counting only pixels at or above a threshold. Pixels below the threshold
//! are treated as "off" and excluded from the average rather than dragging
//! it toward zero; a block with no pixel at the threshold averages to 0.

use vstd::prelude::*;

use crate::luminance::get_luminance;
use crate::luminance::lum;
use crate::pixel::PixelBuffer;

verus! {

/// The luminance of the pixel at column x, row y.
pub open spec fn pix_lum(buf: PixelBuffer, x: int, y: int) -> int {
    lum(buf.pixel(x, y).r as int, buf.pixel(x, y).g as int, buf.pixel(x, y).b as int)
}

/// Sum of the luminances of the first i pixels of the row at y, starting at
/// column x0, counting only pixels with luminance >= t.
pub open spec fn row_sum(buf: PixelBuffer, x0: int, y: int, t: int, i: int) -> int
    decreases i,
{
    if i <= 0 {
        0
    } else {
        row_sum(buf, x0, y, t, i - 1) + if pix_lum(buf, x0 + i - 1, y) >= t {
            pix_lum(buf, x0 + i - 1, y)
        } else {
            0
        }
    }
}

/// How many of the first i pixels of the row at y, starting at column x0,
/// have luminance >= t.
pub open spec fn row_cnt(buf: PixelBuffer, x0: int, y: int, t: int, i: int) -> int
    decreases i,
{
    if i <= 0 {
        0
    } else {
        row_cnt(buf, x0, y, t, i - 1) + if pix_lum(buf, x0 + i - 1, y) >= t {
            1int
        } else {
            0int
        }
    }
}

/// Thresholded luminance sum over the first j rows of a w-wide block
/// anchored at (x0, y0).
pub open spec fn block_sum(buf: PixelBuffer, x0: int, y0: int, w: int, t: int, j: int) -> int
    decreases j,
{
    if j <= 0 {
        0
    } else {
        block_sum(buf, x0, y0, w, t, j - 1) + row_sum(buf, x0, y0 + j - 1, t, w)
    }
}

/// Thresholded pixel count over the first j rows of a w-wide block
/// anchored at (x0, y0).
pub open spec fn block_cnt(buf: PixelBuffer, x0: int, y0: int, w: int, t: int, j: int) -> int
    decreases j,
{
    if j <= 0 {
        0
    } else {
        block_cnt(buf, x0, y0, w, t, j - 1) + row_cnt(buf, x0, y0 + j - 1, t, w)
    }
}

/// The average luminance of a w x h block anchored at (x0, y0), over the
/// pixels with luminance >= t; 0 when no pixel reaches the threshold.
pub open spec fn block_avg(buf: PixelBuffer, x0: int, y0: int, w: int, h: int, t: int) -> int {
    let s = block_sum(buf, x0, y0, w, t, h);
    let c = block_cnt(buf, x0, y0, w, t, h);
    if c == 0 {
        0
    } else {
        s / c
    }
}

proof fn lemma_row_bounds(buf: PixelBuffer, x0: int, y: int, t: int, i: int)
    requires
        i >= 0,
    ensures
        0 <= row_cnt(buf, x0, y, t, i) <= i,
        0 <= row_sum(buf, x0, y, t, i) <= 255 * row_cnt(buf, x0, y, t, i),
    decreases i,
{
    if i > 0 {
        lemma_row_bounds(buf, x0, y, t, i - 1);
        let p = buf.pixel(x0 + i - 1, y);
        crate::luminance::lemma_lum_range(p.r as int, p.g as int, p.b as int);
    }
}

proof fn lemma_block_bounds(buf: PixelBuffer, x0: int, y0: int, w: int, t: int, j: int)
    requires
        j >= 0,
        w >= 0,
    ensures
        0 <= block_cnt(buf, x0, y0, w, t, j) <= j * w,
        0 <= block_sum(buf, x0, y0, w, t, j) <= 255 * block_cnt(buf, x0, y0, w, t, j),
    decreases j,
{
    if j > 0 {
        lemma_block_bounds(buf, x0, y0, w, t, j - 1);
        lemma_row_bounds(buf, x0, y0 + j - 1, t, w);
        assert((j - 1) * w + w == j * w) by (nonlinear_arith);
    }
}

/// Law: the average of a block is always a luminance value in 0..=255, and
/// it is 0 whenever no pixel of the block reaches the threshold — in
/// particular no division by zero is ever performed.
pub proof fn lemma_block_avg_range(
    buf: PixelBuffer,
    x0: int,
    y0: int,
    w: int,
    h: int,
    t: int,
)
    requires
        w >= 0,
        h >= 0,
    ensures
        0 <= block_avg(buf, x0, y0, w, h, t) <= 255,
        block_cnt(buf, x0, y0, w, t, h) == 0 ==> block_avg(buf, x0, y0, w, h, t) == 0,
{
    lemma_block_bounds(buf, x0, y0, w, t, h);
    let s = block_sum(buf, x0, y0, w, t, h);
    let c = block_cnt(buf, x0, y0, w, t, h);
    if c != 0 {
        vstd::arithmetic::div_mod::lemma_div_pos_is_pos(s, c);
        vstd::arithmetic::div_mod::lemma_div_is_ordered(s, 255 * c, c);
        vstd::arithmetic::div_mod::lemma_div_multiples_vanish(255, c);
    }
}

/// Reads the block_width x block_height block anchored at (origin_x,
/// origin_y) and returns the average luminance of the pixels whose
/// luminance is >= threshold, together with how many such pixels there are.
/// A block with no pixel at the threshold yields (0, 0).
pub fn sample_block(
    buf: &PixelBuffer,
    origin_x: usize,
    origin_y: usize,
    block_width: usize,
    block_height: usize,
    threshold: u8,
) -> (r: (u8, usize))
    requires
        buf.wf(),
        origin_x + block_width <= buf.spec_width(),
        origin_y + block_height <= buf.spec_height(),
        block_width * block_height <= u32::MAX,
    ensures
        r.0 == block_avg(
            *buf,
            origin_x as int,
            origin_y as int,
            block_width as int,
            block_height as int,
            threshold as int,
        ),
        r.1 == block_cnt(
            *buf,
            origin_x as int,
            origin_y as int,
            block_width as int,
            threshold as int,
            block_height as int,
        ),
{
    let ghost x0 = origin_x as int;
    let ghost y0 = origin_y as int;
    let ghost w = block_width as int;
    let ghost h = block_height as int;
    let ghost t = threshold as int;
    let mut sum: u64 = 0;
    let mut cnt: usize = 0;
    let mut j: usize = 0;
    proof {
        lemma_block_bounds(*buf, x0, y0, w, t, h);
        buf.lemma_dims_bounded();
    }
    while j < block_height
        invariant
            buf.wf(),
            x0 + w <= buf.spec_width() <= usize::MAX,
            y0 + h <= buf.spec_height() <= usize::MAX,
            w * h <= u32::MAX,
            j <= block_height,
            x0 == origin_x as int && y0 == origin_y as int,
            w == block_width as int && h == block_height as int,
            t == threshold as int,
            cnt == block_cnt(*buf, x0, y0, w, t, j as int),
            sum == block_sum(*buf, x0, y0, w, t, j as int),
            cnt <= j * w,
            sum <= 255 * cnt,
        decreases block_height - j,
    {
        let mut i: usize = 0;
        proof {
            lemma_block_bounds(*buf, x0, y0, w, t, j as int);
            lemma_row_bounds(*buf, x0, y0 + j, t, w);
            assert((j as int) * w + w <= h * w) by (nonlinear_arith)
                requires
                    (j as int) < h,
                    w >= 0,
            ;
            assert(h * w == w * h) by (nonlinear_arith);
        }
        while i < block_width
            invariant
                buf.wf(),
                x0 + w <= buf.spec_width() <= usize::MAX,
                y0 + h <= buf.spec_height() <= usize::MAX,
                w * h <= u32::MAX,
                j < block_height,
                i <= block_width,
                x0 == origin_x as int && y0 == origin_y as int,
                w == block_width as int && h == block_height as int,
                t == threshold as int,
                cnt == block_cnt(*buf, x0, y0, w, t, j as int) + row_cnt(
                    *buf,
                    x0,
                    y0 + j,
                    t,
                    i as int,
                ),
                sum == block_sum(*buf, x0, y0, w, t, j as int) + row_sum(
                    *buf,
                    x0,
                    y0 + j,
                    t,
                    i as int,
                ),
                cnt <= (j as int) * w + i,
                (j as int) * w + w <= w * h,
                sum <= 255 * cnt,
            decreases block_width - i,
        {
            let p = buf.get_pixel(origin_x + i, origin_y + j);
            let l = get_luminance(p.r, p.g, p.b);
            if l >= threshold {
                sum = sum + (l as u64);
                cnt = cnt + 1;
            }
            i = i + 1;
        }
        proof {
            assert((j as int + 1) * w == (j as int) * w + w) by (nonlinear_arith);
        }
        j = j + 1;
    }
    if cnt == 0 {
        (0u8, 0usize)
    } else {
        proof {
            vstd::arithmetic::div_mod::lemma_div_pos_is_pos(sum as int, cnt as int);
            vstd::arithmetic::div_mod::lemma_div_is_ordered(sum as int, 255 * cnt, cnt as int);
            vstd::arithmetic::div_mod::lemma_div_multiples_vanish(255, cnt as int);
        }
        (((sum / (cnt as u64)) as u8), cnt)
    }
}

} // verus!
