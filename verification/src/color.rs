//! Colorizer: wraps a glyph in a true-color ANSI escape sequence,
//! `ESC[<code>;2;<r>;<g>;<b>m<glyph>ESC[0m`, where code 38 selects the
//! foreground and 48 the background.

use vstd::prelude::*;

use crate::strings::push_char;

verus! {

/// The decimal digit character for a value in 0..=9.
pub open spec fn digit_char(d: int) -> char {
    if d == 0 {
        '0'
    } else if d == 1 {
        '1'
    } else if d == 2 {
        '2'
    } else if d == 3 {
        '3'
    } else if d == 4 {
        '4'
    } else if d == 5 {
        '5'
    } else if d == 6 {
        '6'
    } else if d == 7 {
        '7'
    } else if d == 8 {
        '8'
    } else {
        '9'
    }
}

/// The decimal representation of a non-negative integer, as characters,
/// most significant digit first, without leading zeros.
pub open spec fn dec_rep(n: int) -> Seq<char>
    decreases n,
{
    if n < 10 {
        seq![digit_char(n)]
    } else {
        dec_rep(n / 10).push(digit_char(n % 10))
    }
}

/// The exact character sequence of a colorized glyph:
/// ESC [ code ; 2 ; r ; g ; b m glyph ESC [ 0 m.
pub open spec fn ansi_colorized(r: int, g: int, b: int, ch: char, code: int) -> Seq<char> {
    seq!['\x1B', '['] + dec_rep(code) + seq![';', '2', ';'] + dec_rep(r) + seq![';'] + dec_rep(g)
        + seq![';'] + dec_rep(b) + seq!['m', ch, '\x1B', '[', '0', 'm']
}

fn digit(d: u8) -> (c: char)
    requires
        d <= 9,
    ensures
        c == digit_char(d as int),
{
    match d {
        0 => '0',
        1 => '1',
        2 => '2',
        3 => '3',
        4 => '4',
        5 => '5',
        6 => '6',
        7 => '7',
        8 => '8',
        _ => '9',
    }
}

/// Appends the decimal representation of n to s.
fn push_dec_u8(s: &mut String, n: u8)
    ensures
        final(s)@ == old(s)@ + dec_rep(n as int),
{
    let ghost n0 = n as int;
    if n >= 100 {
        proof {
            vstd::arithmetic::div_mod::lemma_div_denominator(n0, 10, 10);
            assert(dec_rep(n0) == dec_rep(n0 / 10).push(digit_char(n0 % 10)));
            assert(dec_rep(n0 / 10) == dec_rep(n0 / 10 / 10).push(digit_char(n0 / 10 % 10)));
            assert(dec_rep(n0 / 100) == seq![digit_char(n0 / 100)]);
        }
        push_char(s, digit(n / 100));
        push_char(s, digit((n / 10) % 10));
        push_char(s, digit(n % 10));
        assert(final(s)@ =~= old(s)@ + dec_rep(n0));
    } else if n >= 10 {
        proof {
            assert(dec_rep(n0) == dec_rep(n0 / 10).push(digit_char(n0 % 10)));
            assert(dec_rep(n0 / 10) == seq![digit_char(n0 / 10)]);
        }
        push_char(s, digit(n / 10));
        push_char(s, digit(n % 10));
        assert(final(s)@ =~= old(s)@ + dec_rep(n0));
    } else {
        push_char(s, digit(n));
        assert(final(s)@ =~= old(s)@ + dec_rep(n0));
    }
}

/// Wraps ch in a true-color escape carrying the given RGB triple; bg_fg is
/// the SGR code, 38 for foreground or 48 for background. Pure formatting:
/// the exact output characters are pinned by `ansi_colorized`.
pub fn colorize(rgb: &[u8; 3], ch: char, bg_fg: u8) -> (s: String)
    ensures
        s@ == ansi_colorized(
            rgb@[0] as int,
            rgb@[1] as int,
            rgb@[2] as int,
            ch,
            bg_fg as int,
        ),
{
    let mut s = String::new();
    push_char(&mut s, '\x1B');
    push_char(&mut s, '[');
    push_dec_u8(&mut s, bg_fg);
    push_char(&mut s, ';');
    push_char(&mut s, '2');
    push_char(&mut s, ';');
    push_dec_u8(&mut s, rgb[0]);
    push_char(&mut s, ';');
    push_dec_u8(&mut s, rgb[1]);
    push_char(&mut s, ';');
    push_dec_u8(&mut s, rgb[2]);
    push_char(&mut s, 'm');
    push_char(&mut s, ch);
    push_char(&mut s, '\x1B');
    push_char(&mut s, '[');
    push_char(&mut s, '0');
    push_char(&mut s, 'm');
    assert(s@ =~= ansi_colorized(
        rgb@[0] as int,
        rgb@[1] as int,
        rgb@[2] as int,
        ch,
        bg_fg as int,
    ));
    s
}

} // verus!
