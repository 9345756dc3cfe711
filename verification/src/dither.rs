//! Error-diffusion dithering.
//!
//! One pass walks the buffer in raster order. Each pixel's channels are
//! quantized to the nearest of the configured number of evenly spaced
//! levels in 0..=255, and the per-channel residual (original - quantized)
//! is pushed forward into the pixels not yet visited: the right neighbor
//! weighted 7/16, and below-left, below and below-right weighted 3/16,
//! 5/16 and 1/16. Neighbors outside the buffer are skipped, never wrapped.
//! The weights sum to 16/16, so a pixel's error is conserved up to the
//! truncation of the integer scaling, never amplified.

use vstd::prelude::*;

use crate::pixel::Pixel;
use crate::pixel::PixelBuffer;

verus! {

/// The quantization of a channel value to the levels k * 255 / n for
/// k in 0..=n: nearest level index first (rounding half up), then that
/// level's value.
pub open spec fn quantize(v: int, n: int) -> int {
    ((v * n + 127) / 255) * 255 / n
}

/// Clamps an integer into the channel range 0..=255.
pub open spec fn clamp255(v: int) -> int {
    if v < 0 {
        0
    } else if v > 255 {
        255
    } else {
        v
    }
}

/// The share of an error e carried by a kernel weight wt, truncated toward
/// zero as machine division does: e * wt / 16.
pub open spec fn scaled_err(e: int, wt: int) -> int {
    if e >= 0 {
        e * wt / 16
    } else {
        -((-e) * wt / 16)
    }
}

/// A pixel after receiving the weighted share of a diffused error on each
/// color channel; the alpha channel is untouched.
pub open spec fn add_err(p: Pixel, er: int, eg: int, eb: int, wt: int) -> Pixel {
    Pixel {
        r: clamp255(p.r + scaled_err(er, wt)) as u8,
        g: clamp255(p.g + scaled_err(eg, wt)) as u8,
        b: clamp255(p.b + scaled_err(eb, wt)) as u8,
        a: p.a,
    }
}

/// Diffuses one weighted error share into the neighbor at offset
/// (dx, dy) of (x, y), if that neighbor is inside the w x h grid.
pub open spec fn diffuse_one(
    s: Seq<Pixel>,
    w: int,
    h: int,
    x: int,
    y: int,
    er: int,
    eg: int,
    eb: int,
    dx: int,
    dy: int,
    wt: int,
) -> Seq<Pixel> {
    if 0 <= x + dx < w && 0 <= y + dy < h {
        let t = (y + dy) * w + (x + dx);
        s.update(t, add_err(s[t], er, eg, eb, wt))
    } else {
        s
    }
}

/// One dithering step: quantizes the pixel at flat index k and diffuses
/// the residual to the right, below-left, below and below-right neighbors.
pub open spec fn dither_step(s: Seq<Pixel>, w: int, h: int, n: int, k: int) -> Seq<Pixel> {
    let x = k % w;
    let y = k / w;
    let p = s[k];
    let qr = quantize(p.r as int, n);
    let qg = quantize(p.g as int, n);
    let qb = quantize(p.b as int, n);
    let er = p.r - qr;
    let eg = p.g - qg;
    let eb = p.b - qb;
    let s1 = s.update(k, Pixel { r: qr as u8, g: qg as u8, b: qb as u8, a: p.a });
    let s2 = diffuse_one(s1, w, h, x, y, er, eg, eb, 1, 0, 7);
    let s3 = diffuse_one(s2, w, h, x, y, er, eg, eb, -1, 1, 3);
    let s4 = diffuse_one(s3, w, h, x, y, er, eg, eb, 0, 1, 5);
    diffuse_one(s4, w, h, x, y, er, eg, eb, 1, 1, 1)
}

/// The buffer contents after the first k dithering steps.
pub open spec fn dither_upto(s: Seq<Pixel>, w: int, h: int, n: int, k: int) -> Seq<Pixel>
    decreases k,
{
    if k <= 0 {
        s
    } else {
        dither_step(dither_upto(s, w, h, n, k - 1), w, h, n, k - 1)
    }
}

/// The buffer contents after one full dithering pass over a w x h grid.
pub open spec fn dither_spec(s: Seq<Pixel>, w: int, h: int, n: int) -> Seq<Pixel> {
    dither_upto(s, w, h, n, w * h)
}

/// Law: quantization stays within the channel range.
pub proof fn lemma_quantize_range(v: int, n: int)
    requires
        0 <= v <= 255,
        1 <= n,
    ensures
        0 <= quantize(v, n) <= 255,
{
    let k = (v * n + 127) / 255;
    assert(0 <= v * n <= 255 * n) by (nonlinear_arith)
        requires
            0 <= v <= 255,
            1 <= n,
    ;
    vstd::arithmetic::div_mod::lemma_div_pos_is_pos(v * n + 127, 255);
    assert(v * n + 127 <= 255 * n + 127);
    assert(255 * n + 127 < 255 * (n + 1));
    vstd::arithmetic::div_mod::lemma_multiply_divide_lt(v * n + 127, 255, n + 1);
    assert(k <= n);
    vstd::arithmetic::div_mod::lemma_div_pos_is_pos(k * 255, n);
    assert(k * 255 <= n * 255) by (nonlinear_arith)
        requires
            0 <= k <= n,
    ;
    vstd::arithmetic::div_mod::lemma_multiply_divide_le(k * 255, n, 255);
}

/// Law: the four kernel shares of an error never add up to more than the
/// error itself — diffusion conserves or attenuates error, it never
/// amplifies it.
pub proof fn lemma_diffusion_attenuates(e: int)
    requires
        -255 <= e <= 255,
    ensures
        scaled_err(e, 7) + scaled_err(e, 3) + scaled_err(e, 5) + scaled_err(e, 1) <= if e >= 0 {
            e
        } else {
            -e
        },
        -(if e >= 0 {
            e
        } else {
            -e
        }) <= scaled_err(e, 7) + scaled_err(e, 3) + scaled_err(e, 5) + scaled_err(e, 1),
{
    let m = if e >= 0 {
        e
    } else {
        -e
    };
    lemma_sum_div16(m);
    if e < 0 {
        assert(scaled_err(e, 7) == -(m * 7 / 16));
    }
}

proof fn lemma_sum_div16(m: int)
    requires
        m >= 0,
    ensures
        m * 7 / 16 + m * 3 / 16 + m * 5 / 16 + m * 1 / 16 <= m,
        m * 7 / 16 + m * 3 / 16 + m * 5 / 16 + m * 1 / 16 >= 0,
{
    assert(m * 7 / 16 + m * 3 / 16 + m * 5 / 16 + m * 1 / 16 <= m && m * 7 / 16 + m * 3 / 16 + m
        * 5 / 16 + m * 1 / 16 >= 0) by (nonlinear_arith)
        requires
            m >= 0,
    ;
}

/// Law: for step counts up to 128, a value already sitting on a
/// quantization level is left exactly where it is.
pub proof fn lemma_quantize_idempotent(v: int, n: int)
    requires
        0 <= v <= 255,
        1 <= n <= 128,
    ensures
        quantize(quantize(v, n), n) == quantize(v, n),
{
    let k = (v * n + 127) / 255;
    lemma_quantize_range(v, n);
    vstd::arithmetic::div_mod::lemma_div_pos_is_pos(v * n + 127, 255);
    let q = k * 255 / n;
    vstd::arithmetic::div_mod::lemma_fundamental_div_mod(k * 255, n);
    let r1 = (k * 255) % n;
    assert(k * 255 == n * (k * 255 / n) + r1);
    assert(q * n == k * 255 - r1) by (nonlinear_arith)
        requires
            k * 255 == n * q + r1,
    ;
    assert(0 <= r1 < n);
    assert(q * n + 127 == 255 * k + (127 - r1));
    assert(0 <= 127 - r1 < 255);
    vstd::arithmetic::div_mod::lemma_fundamental_div_mod_converse(q * n + 127, 255, k, 127 - r1);
    assert((q * n + 127) / 255 == k);
    assert(quantize(q, n) == k * 255 / n);
}

/// Every pixel of the grid already sits on a quantization level on all
/// three color channels.
pub open spec fn all_quantized(s: Seq<Pixel>, n: int) -> bool {
    forall|i: int|
        0 <= i < s.len() ==> quantize(s[i].r as int, n) == s[i].r as int && quantize(
            s[i].g as int,
            n,
        ) == s[i].g as int && quantize(s[i].b as int, n) == s[i].b as int
}

proof fn lemma_step_fixed(s: Seq<Pixel>, w: int, h: int, n: int, k: int)
    requires
        s.len() == w * h,
        all_quantized(s, n),
        1 <= w,
        1 <= h,
        0 <= k < w * h,
    ensures
        dither_step(s, w, h, n, k) == s,
{
    let x = k % w;
    let y = k / w;
    let p = s[k];
    assert(quantize(p.r as int, n) == p.r as int);
    let s1 = s.update(k, Pixel { r: p.r, g: p.g, b: p.b, a: p.a });
    assert(s1 =~= s);
    assert forall|wt: int| 0 <= wt <= 16 implies scaled_err(0, wt) == 0 by {
        assert(0 * wt == 0) by (nonlinear_arith);
        assert(0 * wt / 16 == 0);
    }
    assert forall|t: int, wt: int| 0 <= t < s.len() && 0 <= wt <= 16 implies add_err(
        s[t],
        0,
        0,
        0,
        wt,
    ) == s[t] by {
        assert(scaled_err(0, wt) == 0);
        assert(clamp255(s[t].r + 0) == s[t].r as int);
    }
    assert forall|dx: int, dy: int, wt: int| 0 <= wt <= 16 implies diffuse_one(
        s,
        w,
        h,
        x,
        y,
        0,
        0,
        0,
        dx,
        dy,
        wt,
    ) == s by {
        if 0 <= x + dx < w && 0 <= y + dy < h {
            let t = (y + dy) * w + (x + dx);
            assert(0 <= t < w * h) by (nonlinear_arith)
                requires
                    0 <= x + dx < w,
                    0 <= y + dy < h,
                    t == (y + dy) * w + (x + dx),
            ;
            assert(add_err(s[t], 0, 0, 0, wt) == s[t]);
            assert(s.update(t, s[t]) =~= s);
        }
    }
}

/// Law: a dithering pass over a buffer whose pixels already sit on the
/// quantization levels leaves the buffer exactly unchanged — every
/// residual is zero, so nothing is diffused.
pub proof fn lemma_dither_fixed_point(s: Seq<Pixel>, w: int, h: int, n: int)
    requires
        s.len() == w * h,
        all_quantized(s, n),
        1 <= w,
        1 <= h,
    ensures
        dither_spec(s, w, h, n) == s,
{
    lemma_upto_fixed(s, w, h, n, w * h);
}

proof fn lemma_upto_fixed(s: Seq<Pixel>, w: int, h: int, n: int, k: int)
    requires
        s.len() == w * h,
        all_quantized(s, n),
        1 <= w,
        1 <= h,
        0 <= k <= w * h,
    ensures
        dither_upto(s, w, h, n, k) == s,
    decreases k,
{
    if k > 0 {
        lemma_upto_fixed(s, w, h, n, k - 1);
        lemma_step_fixed(s, w, h, n, k - 1);
    }
}

fn quantize_exec(v: u8, n: u8) -> (q: u8)
    requires
        n >= 1,
    ensures
        q == quantize(v as int, n as int),
{
    proof {
        lemma_quantize_range(v as int, n as int);
        assert((v as int) * (n as int) <= 255 * 255) by (nonlinear_arith)
            requires
                0 <= v <= 255,
                0 <= n <= 255,
        ;
        assert(((v as int) * (n as int) + 127) / 255 <= 255);
    }
    let k: u32 = ((v as u32) * (n as u32) + 127) / 255;
    ((k * 255) / (n as u32)) as u8
}

fn clamp_add(c: u8, d: i32) -> (r: u8)
    requires
        -512 <= d <= 512,
    ensures
        r == clamp255(c + d),
{
    let v: i32 = (c as i32) + d;
    if v < 0 {
        0
    } else if v > 255 {
        255
    } else {
        v as u8
    }
}

fn scaled_err_exec(e: i32, wt: i32) -> (r: i32)
    requires
        -255 <= e <= 255,
        0 <= wt <= 16,
    ensures
        r == scaled_err(e as int, wt as int),
        -255 <= r <= 255,
{
    proof {
        if e >= 0 {
            vstd::arithmetic::div_mod::lemma_div_pos_is_pos(e * wt, 16);
            assert(e * wt <= 16 * 255) by (nonlinear_arith)
                requires
                    0 <= e <= 255,
                    0 <= wt <= 16,
            ;
            vstd::arithmetic::div_mod::lemma_multiply_divide_le(e * wt, 16, 255);
        } else {
            vstd::arithmetic::div_mod::lemma_div_pos_is_pos((-e) * wt, 16);
            assert((-e) * wt <= 16 * 255) by (nonlinear_arith)
                requires
                    -255 <= e < 0,
                    0 <= wt <= 16,
            ;
            vstd::arithmetic::div_mod::lemma_multiply_divide_le((-e) * wt, 16, 255);
        }
    }
    if e >= 0 {
        (e * wt) / 16
    } else {
        -(((-e) * wt) / 16)
    }
}

/// Adds the weighted error shares to the pixel at (x, y).
fn apply_err(buf: &mut PixelBuffer, x: usize, y: usize, er: i32, eg: i32, eb: i32, wt: i32)
    requires
        old(buf).wf(),
        x < old(buf).spec_width(),
        y < old(buf).spec_height(),
        -255 <= er <= 255,
        -255 <= eg <= 255,
        -255 <= eb <= 255,
        0 <= wt <= 16,
    ensures
        final(buf).wf(),
        final(buf).spec_width() == old(buf).spec_width(),
        final(buf).spec_height() == old(buf).spec_height(),
        final(buf).pixels() == old(buf).pixels().update(
            y * old(buf).spec_width() + x,
            add_err(
                old(buf).pixels()[y * old(buf).spec_width() + x],
                er as int,
                eg as int,
                eb as int,
                wt as int,
            ),
        ),
{
    let p = buf.get_pixel(x, y);
    let dr = scaled_err_exec(er, wt);
    let dg = scaled_err_exec(eg, wt);
    let db = scaled_err_exec(eb, wt);
    let np = Pixel {
        r: clamp_add(p.r, dr),
        g: clamp_add(p.g, dg),
        b: clamp_add(p.b, db),
        a: p.a,
    };
    buf.set_pixel(x, y, np);
}

/// One in-place error-diffusion pass, with dither_scale quantization
/// steps. The resulting contents are exactly `dither_spec` of the old
/// contents; dimensions are unchanged.
pub fn dither(buf: &mut PixelBuffer, dither_scale: u8)
    requires
        old(buf).wf(),
        dither_scale >= 1,
    ensures
        final(buf).wf(),
        final(buf).spec_width() == old(buf).spec_width(),
        final(buf).spec_height() == old(buf).spec_height(),
        final(buf).pixels() == dither_spec(
            old(buf).pixels(),
            old(buf).spec_width(),
            old(buf).spec_height(),
            dither_scale as int,
        ),
{
    let ghost s0 = old(buf).pixels();
    let ghost w = old(buf).spec_width();
    let ghost h = old(buf).spec_height();
    let ghost n = dither_scale as int;
    let width = buf.width();
    let height = buf.height();
    proof {
        buf.lemma_dims_bounded();
    }
    let mut y: usize = 0;
    while y < height
        invariant
            buf.wf(),
            buf.spec_width() == w,
            buf.spec_height() == h,
            width == w,
            height == h,
            n == dither_scale as int,
            n >= 1,
            y <= height,
            buf.pixels() == dither_upto(s0, w, h, n, y as int * w),
        decreases height - y,
    {
        let mut x: usize = 0;
        proof {
            assert(y as int * w + 0 == y as int * w);
        }
        while x < width
            invariant
                buf.wf(),
                buf.spec_width() == w,
                buf.spec_height() == h,
                width == w,
                height == h,
                n == dither_scale as int,
                n >= 1,
                y < height,
                x <= width,
                buf.pixels() == dither_upto(s0, w, h, n, y as int * w + x as int),
            decreases width - x,
        {
            let ghost k = y as int * w + x as int;
            proof {
                buf.lemma_index_in_bounds(x as int, y as int);
                vstd::arithmetic::div_mod::lemma_fundamental_div_mod_converse(
                    k,
                    w,
                    y as int,
                    x as int,
                );
            }
            let ghost sk = buf.pixels();
            let p = buf.get_pixel(x, y);
            proof {
                lemma_quantize_range(p.r as int, n);
                lemma_quantize_range(p.g as int, n);
                lemma_quantize_range(p.b as int, n);
            }
            let qr = quantize_exec(p.r, dither_scale);
            let qg = quantize_exec(p.g, dither_scale);
            let qb = quantize_exec(p.b, dither_scale);
            let er: i32 = (p.r as i32) - (qr as i32);
            let eg: i32 = (p.g as i32) - (qg as i32);
            let eb: i32 = (p.b as i32) - (qb as i32);
            buf.set_pixel(x, y, Pixel { r: qr, g: qg, b: qb, a: p.a });
            let ghost s1 = buf.pixels();
            if x + 1 < width {
                apply_err(buf, x + 1, y, er, eg, eb, 7);
            }
            let ghost s2 = buf.pixels();
            assert(s2 == diffuse_one(s1, w, h, x as int, y as int, er as int, eg as int,
                eb as int, 1, 0, 7));
            if x >= 1 && y + 1 < height {
                apply_err(buf, x - 1, y + 1, er, eg, eb, 3);
            }
            let ghost s3 = buf.pixels();
            assert(s3 == diffuse_one(s2, w, h, x as int, y as int, er as int, eg as int,
                eb as int, -1, 1, 3));
            if y + 1 < height {
                apply_err(buf, x, y + 1, er, eg, eb, 5);
            }
            let ghost s4 = buf.pixels();
            assert(s4 == diffuse_one(s3, w, h, x as int, y as int, er as int, eg as int,
                eb as int, 0, 1, 5));
            if x + 1 < width && y + 1 < height {
                apply_err(buf, x + 1, y + 1, er, eg, eb, 1);
            }
            let ghost s5 = buf.pixels();
            assert(s5 == diffuse_one(s4, w, h, x as int, y as int, er as int, eg as int,
                eb as int, 1, 1, 1));
            assert(s5 == dither_step(sk, w, h, n, k));
            x = x + 1;
        }
        proof {
            assert((y as int + 1) * w == y as int * w + w) by (nonlinear_arith);
        }
        y = y + 1;
    }
    proof {
        assert(y as int * w == w * h) by (nonlinear_arith)
            requires
                y as int == h,
        ;
    }
}

} // verus!
