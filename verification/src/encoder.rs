//! Glyph encoders.
//!
//! The table encoder maps an average luminance to an index into an ordered
//! glyph table: index 0 is the darkest glyph, the last index the brightest,
//! and rounding always truncates, so 0 maps to the first entry and 255
//! exactly to the last.
//!
//! The dot-matrix encoder binarizes a 2-wide x 4-tall pixel block and packs
//! the eight signals into one Unicode Braille character. Braille cells
//! number their dots column-first (dots 1, 2, 3, 7 down the left column,
//! dots 4, 5, 6, 8 down the right), and dot k corresponds to bit k - 1 of
//! the offset from U+2800.

use vstd::prelude::*;

use crate::luminance::get_luminance;
use crate::pixel::PixelBuffer;
use crate::sampler::pix_lum;
use crate::strings::char_from_u32;

verus! {

/// The table index chosen for luminance l by a table of the given length:
/// floor(l * (len - 1) / 255), clamped into 0..=len-1.
pub open spec fn select_index(len: int, l: int) -> int {
    let i = l * (len - 1) / 255;
    if i < 0 {
        0
    } else if i > len - 1 {
        len - 1
    } else {
        i
    }
}

/// Law: a luminance of 0 picks the first table entry and a luminance of 255
/// the last one.
pub proof fn lemma_select_extremes(len: int)
    requires
        len >= 1,
    ensures
        select_index(len, 0) == 0,
        select_index(len, 255) == len - 1,
{
    assert(0 * (len - 1) == 0) by (nonlinear_arith);
    vstd::arithmetic::div_mod::lemma_div_by_multiple(len - 1, 255);
}

/// Law: the chosen index is monotonically non-decreasing in the luminance.
pub proof fn lemma_select_monotonic(len: int, l1: int, l2: int)
    requires
        len >= 1,
        0 <= l1 <= l2,
    ensures
        select_index(len, l1) <= select_index(len, l2),
{
    assert(l1 * (len - 1) <= l2 * (len - 1)) by (nonlinear_arith)
        requires
            0 <= l1 <= l2,
            len >= 1,
    ;
    vstd::arithmetic::div_mod::lemma_div_is_ordered(l1 * (len - 1), l2 * (len - 1), 255);
}

/// Picks the glyph of the table that stands for the given average
/// luminance: entry floor(avg * (len - 1) / 255).
pub fn select(table: &Vec<char>, average_luminance: u8) -> (c: char)
    requires
        table@.len() >= 1,
    ensures
        c == table@[select_index(table@.len() as int, average_luminance as int)],
{
    let ghost len = table@.len() as int;
    let ghost l = average_luminance as int;
    proof {
        assert(l * (len - 1) <= 255 * (len - 1)) by (nonlinear_arith)
            requires
                0 <= l <= 255,
                len >= 1,
        ;
    }
    let idx128: u128 = (average_luminance as u128) * ((table.len() - 1) as u128) / 255;
    proof {
        assert(l * (len - 1) <= 255 * (len - 1)) by (nonlinear_arith)
            requires
                0 <= l <= 255,
                len >= 1,
        ;
        vstd::arithmetic::div_mod::lemma_multiply_divide_le(l * (len - 1), 255, len - 1);
        vstd::arithmetic::div_mod::lemma_div_pos_is_pos(l * (len - 1), 255);
        assert(l * (len - 1) >= 0) by (nonlinear_arith)
            requires
                0 <= l,
                len >= 1,
        ;
    }
    let idx: usize = idx128 as usize;
    table[idx]
}

/// The Braille dot pattern encoded by a 2x4 block of binary signals, as the
/// offset from U+2800: signal (row, column) of the block raises the dot
/// whose bit this is, following the canonical dot numbering (dot 1 = bit 0
/// at row 0 column 0, down the left column 2, 3, then the right column
/// 4, 5, 6, and 7, 8 for the bottom row).
pub open spec fn braille_bits(map: [[u8; 2]; 4]) -> int {
    map[0][0] + 2 * map[1][0] + 4 * map[2][0] + 8 * map[0][1] + 16 * map[1][1] + 32 * map[2][1]
        + 64 * map[3][0] + 128 * map[3][1]
}

/// All entries of a signal block are binary.
pub open spec fn signals_wf(map: [[u8; 2]; 4]) -> bool {
    forall|iy: int, ix: int|
        0 <= iy < 4 && 0 <= ix < 2 ==> map[iy][ix] == 0 || map[iy][ix] == 1
}

/// The binarization of one pixel: 1 when its luminance exceeds the
/// threshold, else 0.
pub open spec fn signal_of(buf: PixelBuffer, x: int, y: int, t: int) -> u8 {
    if pix_lum(buf, x, y) > t {
        1u8
    } else {
        0u8
    }
}

fn signal(img: &PixelBuffer, x: usize, y: usize, threshold: u8) -> (s: u8)
    requires
        img.wf(),
        x < img.spec_width(),
        y < img.spec_height(),
    ensures
        s == signal_of(*img, x as int, y as int, threshold as int),
{
    let p = img.get_pixel(x, y);
    let l = get_luminance(p.r, p.g, p.b);
    if l > threshold {
        1
    } else {
        0
    }
}

/// Reads the 2x4 pixel block anchored at (coord_x, coord_y) and binarizes
/// each pixel against the threshold: 1 for a raised dot (luminance above
/// the threshold), 0 otherwise, in raster order (row, column).
#[verifier::rlimit(60)]
pub fn get_block_signals(
    threshold: u8,
    img: &PixelBuffer,
    coord_x: usize,
    coord_y: usize,
) -> (map: [[u8; 2]; 4])
    requires
        img.wf(),
        coord_x + 2 <= img.spec_width(),
        coord_y + 4 <= img.spec_height(),
    ensures
        forall|iy: int, ix: int|
            0 <= iy < 4 && 0 <= ix < 2 ==> map[iy][ix] == signal_of(
                *img,
                coord_x + ix,
                coord_y + iy,
                threshold as int,
            ),
        signals_wf(map),
{
    proof {
        img.lemma_dims_bounded();
    }
    let map: [[u8; 2]; 4] = [
        [signal(img, coord_x, coord_y, threshold), signal(img, coord_x + 1, coord_y, threshold)],
        [
            signal(img, coord_x, coord_y + 1, threshold),
            signal(img, coord_x + 1, coord_y + 1, threshold),
        ],
        [
            signal(img, coord_x, coord_y + 2, threshold),
            signal(img, coord_x + 1, coord_y + 2, threshold),
        ],
        [
            signal(img, coord_x, coord_y + 3, threshold),
            signal(img, coord_x + 1, coord_y + 3, threshold),
        ],
    ];
    map
}

/// Packs a 2x4 block of binary signals into the Braille character whose
/// dots are exactly the raised signals: the code point is U+2800 plus
/// `braille_bits`. An all-zero block gives U+2800, an all-one block U+28FF.
pub fn translate(map: &[[u8; 2]; 4]) -> (c: char)
    requires
        signals_wf(*map),
    ensures
        c as u32 == 0x2800 + braille_bits(*map),
{
    let v: u32 = (map[0][0] as u32) + 2 * (map[1][0] as u32) + 4 * (map[2][0] as u32) + 8 * (
    map[0][1] as u32) + 16 * (map[1][1] as u32) + 32 * (map[2][1] as u32) + 64 * (
    map[3][0] as u32) + 128 * (map[3][1] as u32);
    assert(v == braille_bits(*map));
    assert(v <= 255);
    match char_from_u32(0x2800 + v) {
        Some(c) => c,
        None => vstd::pervasive::unreached(),
    }
}

} // verus!
