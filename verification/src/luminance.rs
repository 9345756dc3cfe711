//! Luminance model: converts an RGB triple to a scalar brightness in 0..=255.
//!
//! The weights are the Rec. 709 coefficients 0.2126, 0.7152 and 0.0722,
//! carried in fixed-point arithmetic with denominator 10000 so that the
//! computation is exact and integer-only. The weights sum to exactly 1
//! (2126 + 7152 + 722 == 10000), so the output range is 0..=255.

use vstd::prelude::*;

verus! {

/// Mathematical definition of the luminance of one pixel:
/// floor((2126*r + 7152*g + 722*b) / 10000).
pub open spec fn lum(r: int, g: int, b: int) -> int {
    (2126 * r + 7152 * g + 722 * b) / 10000
}

/// Perceptual brightness of an RGB triple, in 0..=255, monotonic in each
/// channel, with lum(0,0,0) == 0 and lum(255,255,255) == 255.
pub fn get_luminance(r: u8, g: u8, b: u8) -> (l: u8)
    ensures
        l == lum(r as int, g as int, b as int),
        0 <= l <= 255,
{
    let weighted: u32 = 2126 * (r as u32) + 7152 * (g as u32) + 722 * (b as u32);
    (weighted / 10000) as u8
}

/// Law: luminance is within 0..=255 for every channel triple in 0..=255.
pub proof fn lemma_lum_range(r: int, g: int, b: int)
    requires
        0 <= r <= 255,
        0 <= g <= 255,
        0 <= b <= 255,
    ensures
        0 <= lum(r, g, b) <= 255,
{
}

/// Law: pure black has luminance 0 and pure white exactly 255 — the
/// fixed-point weights sum to exactly 1.
pub proof fn lemma_lum_extremes()
    ensures
        lum(0, 0, 0) == 0,
        lum(255, 255, 255) == 255,
{
}

/// Law: luminance is monotonically non-decreasing in each channel.
pub proof fn lemma_lum_monotonic(r1: int, g1: int, b1: int, r2: int, g2: int, b2: int)
    requires
        0 <= r1 <= r2,
        0 <= g1 <= g2,
        0 <= b1 <= b2,
    ensures
        lum(r1, g1, b1) <= lum(r2, g2, b2),
{
    let n1 = 2126 * r1 + 7152 * g1 + 722 * b1;
    let n2 = 2126 * r2 + 7152 * g2 + 722 * b2;
    assert(n1 <= n2) by (nonlinear_arith)
        requires
            0 <= r1 <= r2,
            0 <= g1 <= g2,
            0 <= b1 <= b2,
            n1 == 2126 * r1 + 7152 * g1 + 722 * b1,
            n2 == 2126 * r2 + 7152 * g2 + 722 * b2,
    ;
    vstd::arithmetic::div_mod::lemma_div_is_ordered(n1, n2, 10000);
}

} // verus!
