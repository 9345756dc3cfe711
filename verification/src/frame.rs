//! Frame assembler and reel builder.
//!
//! A frame is assembled by striding over the pixel buffer in blocks: the
//! table path averages a 2x2 window at every position (a one-step stride
//! after pre-averaging), the Braille path packs disjoint 2x4 blocks. Each
//! block becomes one glyph, optionally colorized with the block's origin
//! pixel, glyphs are concatenated left to right, and every row of glyphs
//! ends with a newline. Blocks whose full extent would leave the buffer
//! are never started: trailing partial rows and columns are dropped.
//!
//! For animated sources the reel holds a leading clear sequence and then
//! one entry per frame, each prefixed with a cursor-reset sequence.

use vstd::prelude::*;
use vstd::string::*;

use crate::color::ansi_colorized;
use crate::color::colorize;
use crate::config::Config;
use crate::config::Style;
use crate::dither::dither;
use crate::dither::dither_spec;
use crate::encoder::braille_bits;
use crate::encoder::get_block_signals;
use crate::encoder::select;
use crate::encoder::select_index;
use crate::encoder::signal_of;
use crate::encoder::translate;
use crate::pixel::PixelBuffer;
use crate::sampler::block_avg;
use crate::sampler::sample_block;
use crate::strings::push_char;

verus! {

/// The Unicode code point of a character.
pub open spec fn codepoint(c: char) -> int {
    c as int
}

/// The character with the given code point; meaningful only for values
/// that are code points of characters.
pub open spec fn char_of_codepoint(v: int) -> char {
    choose|c: char| codepoint(c) == v
}

pub proof fn lemma_char_of_codepoint(c: char)
    ensures
        char_of_codepoint(codepoint(c)) == c,
{
    assert(codepoint(c) == codepoint(c));
    assert(exists|cc: char| codepoint(cc) == codepoint(c)) by {
        assert(codepoint(c) == codepoint(c));
    }
    let cc = choose|cc: char| codepoint(cc) == codepoint(c);
    assert(cc as int == c as int);
    assert(cc == c);
}

/// The text a single glyph contributes to a frame: the glyph itself, or,
/// when colorizing, the glyph wrapped in the escape built from the block's
/// origin pixel at (x, y).
pub open spec fn glyph_seq(buf: PixelBuffer, cfg: Config, ch: char, x: int, y: int) -> Seq<char> {
    if cfg.colored {
        ansi_colorized(
            buf.pixel(x, y).r as int,
            buf.pixel(x, y).g as int,
            buf.pixel(x, y).b as int,
            ch,
            cfg.background as int,
        )
    } else {
        seq![ch]
    }
}

/// The glyph the table encoder picks at position (x, y): the table entry
/// for the thresholded 2x2 average luminance.
pub open spec fn ascii_glyph_char(buf: PixelBuffer, cfg: Config, table: Seq<char>, x: int, y: int) -> char {
    table[select_index(table.len() as int, block_avg(buf, x, y, 2, 2, cfg.threshold as int))]
}

/// Number of glyph columns of the table path: one per x with x + 2 <= width.
pub open spec fn ascii_cols(buf: PixelBuffer) -> int {
    if buf.spec_width() >= 2 {
        buf.spec_width() - 1
    } else {
        0
    }
}

/// Number of glyph rows of the table path: one per y with y + 2 <= height.
pub open spec fn ascii_rows(buf: PixelBuffer) -> int {
    if buf.spec_height() >= 2 {
        buf.spec_height() - 1
    } else {
        0
    }
}

pub open spec fn ascii_row_seq(
    buf: PixelBuffer,
    cfg: Config,
    table: Seq<char>,
    y: int,
    i: int,
) -> Seq<char>
    decreases i,
{
    if i <= 0 {
        Seq::empty()
    } else {
        ascii_row_seq(buf, cfg, table, y, i - 1) + glyph_seq(
            buf,
            cfg,
            ascii_glyph_char(buf, cfg, table, i - 1, y),
            i - 1,
            y,
        )
    }
}

pub open spec fn ascii_rows_seq(buf: PixelBuffer, cfg: Config, table: Seq<char>, j: int) -> Seq<
    char,
>
    decreases j,
{
    if j <= 0 {
        Seq::empty()
    } else {
        ascii_rows_seq(buf, cfg, table, j - 1) + ascii_row_seq(
            buf,
            cfg,
            table,
            j - 1,
            ascii_cols(buf),
        ) + seq!['\n']
    }
}

/// The full text of one table-encoded frame: every glyph row, each ended
/// by a newline.
pub open spec fn ascii_frame_spec(buf: PixelBuffer, cfg: Config, table: Seq<char>) -> Seq<char> {
    ascii_rows_seq(buf, cfg, table, ascii_rows(buf))
}

/// The dot pattern of the 2x4 block at (x, y), as the offset from U+2800:
/// canonical Braille dot numbering, left column top to bottom on bits
/// 0, 1, 2, right column on bits 3, 4, 5, bottom row on bits 6, 7.
pub open spec fn braille_cell_bits(buf: PixelBuffer, t: int, x: int, y: int) -> int {
    signal_of(buf, x, y, t) + 2 * signal_of(buf, x, y + 1, t) + 4 * signal_of(buf, x, y + 2, t)
        + 8 * signal_of(buf, x + 1, y, t) + 16 * signal_of(buf, x + 1, y + 1, t) + 32 * signal_of(
        buf,
        x + 1,
        y + 2,
        t,
    ) + 64 * signal_of(buf, x, y + 3, t) + 128 * signal_of(buf, x + 1, y + 3, t)
}

/// The Braille character rendered for the 2x4 block at (x, y).
pub open spec fn braille_glyph_char(buf: PixelBuffer, cfg: Config, x: int, y: int) -> char {
    char_of_codepoint(0x2800 + braille_cell_bits(buf, cfg.threshold as int, x, y))
}

/// Number of glyph columns of the Braille path: blocks of width 2 starting
/// at even x with x + 2 <= width.
pub open spec fn braille_cols(buf: PixelBuffer) -> int {
    if buf.spec_width() >= 2 {
        (buf.spec_width() - 2) / 2 + 1
    } else {
        0
    }
}

/// Number of glyph rows of the Braille path: blocks of height 4 starting
/// at y divisible by 4 with y + 4 <= height.
pub open spec fn braille_rows(buf: PixelBuffer) -> int {
    if buf.spec_height() >= 4 {
        (buf.spec_height() - 4) / 4 + 1
    } else {
        0
    }
}

pub open spec fn braille_row_seq(buf: PixelBuffer, cfg: Config, y: int, i: int) -> Seq<char>
    decreases i,
{
    if i <= 0 {
        Seq::empty()
    } else {
        braille_row_seq(buf, cfg, y, i - 1) + glyph_seq(
            buf,
            cfg,
            braille_glyph_char(buf, cfg, 2 * (i - 1), y),
            2 * (i - 1),
            y,
        )
    }
}

pub open spec fn braille_rows_seq(buf: PixelBuffer, cfg: Config, j: int) -> Seq<char>
    decreases j,
{
    if j <= 0 {
        Seq::empty()
    } else {
        braille_rows_seq(buf, cfg, j - 1) + braille_row_seq(
            buf,
            cfg,
            4 * (j - 1),
            braille_cols(buf),
        ) + seq!['\n']
    }
}

/// The full text of one Braille-encoded frame.
pub open spec fn braille_frame_spec(buf: PixelBuffer, cfg: Config) -> Seq<char> {
    braille_rows_seq(buf, cfg, braille_rows(buf))
}

/// The text of one frame under a configuration: the Braille encoder for
/// the Braille style, the table encoder for every other style.
pub open spec fn frame_spec(buf: PixelBuffer, cfg: Config, table: Seq<char>) -> Seq<char> {
    if cfg.style == Style::Braille {
        braille_frame_spec(buf, cfg)
    } else {
        ascii_frame_spec(buf, cfg, table)
    }
}

/// The dithering step count a render effectively uses: the configured
/// count, or the default of 16 when the configured count is invalid.
pub open spec fn effective_dither_scale(cfg: Config) -> int {
    if cfg.dither_scale >= 1 {
        cfg.dither_scale as int
    } else {
        16int
    }
}

/// The buffer contents a configuration renders: dithered when dithering
/// is enabled, untouched otherwise.
pub open spec fn rendered_pixels(buf: PixelBuffer, cfg: Config) -> Seq<crate::pixel::Pixel> {
    if cfg.dither {
        dither_spec(buf.pixels(), buf.spec_width(), buf.spec_height(), effective_dither_scale(cfg))
    } else {
        buf.pixels()
    }
}

/// The control sequence emitted once at the start of a reel, clearing the
/// screen.
pub open spec fn clear_sequence() -> Seq<char> {
    seq!['\x1B', '[', '1', 'J']
}

/// The control sequence prefixed to every reel frame, resetting the
/// cursor so the frame overwrites the previous one.
pub open spec fn frame_reset_sequence() -> Seq<char> {
    seq!['\x1B', '[', 'r']
}

/// Assembles one table-encoded frame: a glyph for the 2x2 window at every
/// position whose full extent fits, row by row, each row ended by a
/// newline.
pub fn translate_frame(img: &PixelBuffer, config: &Config, table: &Vec<char>) -> (s: String)
    requires
        img.wf(),
        table@.len() >= 1,
    ensures
        s@ == ascii_frame_spec(*img, *config, table@),
{
    proof {
        img.lemma_dims_bounded();
    }
    let w = img.width();
    let h = img.height();
    let rows: usize = if h >= 2 {
        h - 1
    } else {
        0
    };
    let cols: usize = if w >= 2 {
        w - 1
    } else {
        0
    };
    let mut s = String::new();
    let mut y: usize = 0;
    while y < rows
        invariant
            img.wf(),
            table@.len() >= 1,
            w == img.spec_width(),
            h == img.spec_height(),
            rows == ascii_rows(*img),
            cols == ascii_cols(*img),
            y <= rows,
            s@ == ascii_rows_seq(*img, *config, table@, y as int),
        decreases rows - y,
    {
        let mut x: usize = 0;
        while x < cols
            invariant
                img.wf(),
                table@.len() >= 1,
                w == img.spec_width(),
                h == img.spec_height(),
                rows == ascii_rows(*img),
                cols == ascii_cols(*img),
                y < rows,
                x <= cols,
                s@ == ascii_rows_seq(*img, *config, table@, y as int) + ascii_row_seq(
                    *img,
                    *config,
                    table@,
                    y as int,
                    x as int,
                ),
            decreases cols - x,
        {
            let (avg, _count) = sample_block(img, x, y, 2, 2, config.threshold);
            let ch = select(table, avg);
            assert(ch == ascii_glyph_char(*img, *config, table@, x as int, y as int));
            if config.colored {
                let p = img.get_pixel(x, y);
                let colored = colorize(&[p.r, p.g, p.b], ch, config.background);
                s.append(colored.as_str());
            } else {
                push_char(&mut s, ch);
            }
            assert(s@ == ascii_rows_seq(*img, *config, table@, y as int) + ascii_row_seq(
                *img,
                *config,
                table@,
                y as int,
                x as int + 1,
            ));
            x = x + 1;
        }
        push_char(&mut s, '\n');
        assert(s@ == ascii_rows_seq(*img, *config, table@, y as int + 1));
        y = y + 1;
    }
    s
}

/// Assembles one Braille-encoded frame: a glyph for every disjoint 2x4
/// block whose full extent fits, row by row, each row ended by a newline.
pub fn translate_frame_braille(img: &PixelBuffer, config: &Config) -> (s: String)
    requires
        img.wf(),
    ensures
        s@ == braille_frame_spec(*img, *config),
{
    proof {
        img.lemma_dims_bounded();
    }
    let w = img.width();
    let h = img.height();
    let rows: usize = if h >= 4 {
        (h - 4) / 4 + 1
    } else {
        0
    };
    let cols: usize = if w >= 2 {
        (w - 2) / 2 + 1
    } else {
        0
    };
    proof {
        if h >= 4 {
            vstd::arithmetic::div_mod::lemma_fundamental_div_mod(h as int - 4, 4);
        }
        if w >= 2 {
            vstd::arithmetic::div_mod::lemma_fundamental_div_mod(w as int - 2, 2);
        }
    }
    let mut s = String::new();
    let mut j: usize = 0;
    while j < rows
        invariant
            img.wf(),
            w == img.spec_width(),
            h == img.spec_height(),
            rows == braille_rows(*img),
            cols == braille_cols(*img),
            4 * (rows as int - 1) + 4 <= h as int || rows == 0,
            2 * (cols as int - 1) + 2 <= w as int || cols == 0,
            j <= rows,
            s@ == braille_rows_seq(*img, *config, j as int),
        decreases rows - j,
    {
        let y: usize = 4 * j;
        let mut i: usize = 0;
        while i < cols
            invariant
                img.wf(),
                w == img.spec_width(),
                h == img.spec_height(),
                rows == braille_rows(*img),
                cols == braille_cols(*img),
                4 * (rows as int - 1) + 4 <= h as int || rows == 0,
                2 * (cols as int - 1) + 2 <= w as int || cols == 0,
                j < rows,
                y == 4 * j,
                i <= cols,
                s@ == braille_rows_seq(*img, *config, j as int) + braille_row_seq(
                    *img,
                    *config,
                    y as int,
                    i as int,
                ),
            decreases cols - i,
        {
            let x: usize = 2 * i;
            let map = get_block_signals(config.threshold, img, x, y);
            let ch = translate(&map);
            proof {
                let t = config.threshold as int;
                assert(braille_bits(map) == braille_cell_bits(*img, t, x as int, y as int));
                lemma_char_of_codepoint(ch);
                assert(ch == braille_glyph_char(*img, *config, x as int, y as int));
            }
            if config.colored {
                let p = img.get_pixel(x, y);
                let colored = colorize(&[p.r, p.g, p.b], ch, config.background);
                s.append(colored.as_str());
            } else {
                push_char(&mut s, ch);
            }
            assert(s@ == braille_rows_seq(*img, *config, j as int) + braille_row_seq(
                *img,
                *config,
                y as int,
                i as int + 1,
            ));
            i = i + 1;
        }
        push_char(&mut s, '\n');
        assert(s@ == braille_rows_seq(*img, *config, j as int + 1));
        j = j + 1;
    }
    s
}

/// Renders one still table-encoded image: dithers the buffer in place when
/// dithering is enabled, assembles the frame, and appends the trailing
/// blank line that separates a static render from the prompt.
pub fn img_to_ascii(img: &mut PixelBuffer, config: &Config, table: &Vec<char>) -> (s: String)
    requires
        old(img).wf(),
        table@.len() >= 1,
    ensures
        final(img).wf(),
        final(img).spec_width() == old(img).spec_width(),
        final(img).spec_height() == old(img).spec_height(),
        final(img).pixels() == rendered_pixels(*old(img), *config),
        s@ == ascii_frame_spec(*final(img), *config, table@) + seq!['\n'],
{
    if config.dither {
        let (scale, _warned) = crate::config::validate_dither_scale(config.dither_scale);
        dither(img, scale);
    }
    let mut s = translate_frame(img, config, table);
    push_char(&mut s, '\n');
    s
}

/// Renders one still Braille-encoded image: dithers the buffer in place
/// when dithering is enabled and assembles the frame.
pub fn img_to_braille(img: &mut PixelBuffer, config: &Config) -> (s: String)
    requires
        old(img).wf(),
    ensures
        final(img).wf(),
        final(img).spec_width() == old(img).spec_width(),
        final(img).spec_height() == old(img).spec_height(),
        final(img).pixels() == rendered_pixels(*old(img), *config),
        s@ == braille_frame_spec(*final(img), *config),
{
    if config.dither {
        let (scale, _warned) = crate::config::validate_dither_scale(config.dither_scale);
        dither(img, scale);
    }
    translate_frame_braille(img, config)
}

/// Renders one frame with the encoder the configuration selects, dithering
/// first when enabled.
pub fn render_frame(img: &mut PixelBuffer, config: &Config, table: &Vec<char>) -> (s: String)
    requires
        old(img).wf(),
        config.style == Style::Braille || table@.len() >= 1,
    ensures
        final(img).wf(),
        final(img).spec_width() == old(img).spec_width(),
        final(img).spec_height() == old(img).spec_height(),
        final(img).pixels() == rendered_pixels(*old(img), *config),
        s@ == frame_spec(*final(img), *config, table@),
{
    if config.dither {
        let (scale, _warned) = crate::config::validate_dither_scale(config.dither_scale);
        dither(img, scale);
    }
    if matches!(config.style, Style::Braille) {
        translate_frame_braille(img, config)
    } else {
        translate_frame(img, config, table)
    }
}

/// The next frame of the playback loop: after the last frame the reel
/// wraps back to the first.
pub fn next_frame_index(current: usize, len: usize) -> (next: usize)
    requires
        len >= 1,
        current < len,
    ensures
        next == (current + 1) % (len as int),
        next < len,
        current + 1 < len ==> next == current + 1,
        current + 1 == len ==> next == 0,
{
    if current + 1 < len {
        proof {
            vstd::arithmetic::div_mod::lemma_small_mod((current + 1) as nat, len as nat);
        }
        current + 1
    } else {
        proof {
            vstd::arithmetic::div_mod::lemma_mod_self_0(len as int);
        }
        0
    }
}

/// Builds the reel of an animated source: the clear sequence first, then
/// every frame rendered (dithered in place when enabled) and prefixed
/// with the cursor-reset sequence, in order.
pub fn build_reel(frames: &mut Vec<PixelBuffer>, config: &Config, table: &Vec<char>) -> (r: Vec<
    String,
>)
    requires
        forall|k: int| 0 <= k < old(frames)@.len() ==> (#[trigger] old(frames)@[k]).wf(),
        config.style == Style::Braille || table@.len() >= 1,
    ensures
        final(frames)@.len() == old(frames)@.len(),
        r@.len() == old(frames)@.len() + 1,
        r@[0]@ == clear_sequence(),
        forall|k: int|
            0 <= k < old(frames)@.len() ==> (#[trigger] final(frames)@[k]).wf()
                && final(frames)@[k].spec_width() == old(frames)@[k].spec_width()
                && final(frames)@[k].spec_height() == old(frames)@[k].spec_height()
                && final(frames)@[k].pixels() == rendered_pixels(old(frames)@[k], *config),
        forall|k: int|
            0 <= k < old(frames)@.len() ==> (#[trigger] r@[k + 1])@ == frame_reset_sequence()
                + frame_spec(final(frames)@[k], *config, table@),
{
    let len = frames.len();
    let mut r: Vec<String> = Vec::new();
    let mut head = String::new();
    push_char(&mut head, '\x1B');
    push_char(&mut head, '[');
    push_char(&mut head, '1');
    push_char(&mut head, 'J');
    assert(head@ =~= clear_sequence());
    r.push(head);
    let mut i: usize = 0;
    while i < len
        invariant
            len == old(frames)@.len(),
            frames@.len() == len,
            config.style == Style::Braille || table@.len() >= 1,
            i <= len,
            forall|k: int|
                0 <= k < len - i ==> #[trigger] frames@[k] == old(frames)@[i + k],
            forall|k: int| 0 <= k < old(frames)@.len() ==> (#[trigger] old(frames)@[k]).wf(),
            forall|k: int|
                0 <= k < i ==> (#[trigger] frames@[len - i + k]).wf() && frames@[len - i
                    + k].spec_width() == old(frames)@[k].spec_width() && frames@[len - i
                    + k].spec_height() == old(frames)@[k].spec_height() && frames@[len - i
                    + k].pixels() == rendered_pixels(old(frames)@[k], *config),
            r@.len() == i + 1,
            r@[0]@ == clear_sequence(),
            forall|k: int|
                0 <= k < i ==> (#[trigger] r@[k + 1])@ == frame_reset_sequence() + frame_spec(
                    frames@[len - i + k],
                    *config,
                    table@,
                ),
        decreases len - i,
    {
        let ghost frames_pre = frames@;
        let mut buf = frames.remove(0);
        let body = render_frame(&mut buf, config, table);
        let mut entry = String::new();
        push_char(&mut entry, '\x1B');
        push_char(&mut entry, '[');
        push_char(&mut entry, 'r');
        entry.append(body.as_str());
        assert(entry@ =~= frame_reset_sequence() + frame_spec(buf, *config, table@));
        frames.push(buf);
        r.push(entry);
        proof {
            assert forall|k: int| 0 <= k < len - (i + 1) implies #[trigger] frames@[k] == old(
                frames,
            )@[i + 1 + k] by {
                assert(frames@[k] == frames_pre[k + 1]);
            }
            assert forall|k: int| 0 <= k < i + 1 implies (#[trigger] frames@[len - (i + 1)
                + k]).wf() && frames@[len - (i + 1) + k].spec_width() == old(
                frames,
            )@[k].spec_width() && frames@[len - (i + 1) + k].spec_height() == old(
                frames,
            )@[k].spec_height() && frames@[len - (i + 1) + k].pixels() == rendered_pixels(
                old(frames)@[k],
                *config,
            ) by {
                if k < i {
                    assert(frames@[len - (i + 1) + k] == frames_pre[len - i + k]);
                } else {
                    assert(frames@[len - 1] == buf);
                }
            }
            assert forall|k: int| 0 <= k < i + 1 implies (#[trigger] r@[k + 1])@
                == frame_reset_sequence() + frame_spec(
                frames@[len - (i + 1) + k],
                *config,
                table@,
            ) by {
                if k < i {
                    assert(frames@[len - (i + 1) + k] == frames_pre[len - i + k]);
                } else {
                    assert(frames@[len - 1] == buf);
                }
            }
        }
        i = i + 1;
    }
    proof {
        assert forall|k: int| 0 <= k < old(frames)@.len() implies (#[trigger] frames@[k]).wf()
            && frames@[k].spec_width() == old(frames)@[k].spec_width() && frames@[k].spec_height()
            == old(frames)@[k].spec_height() && frames@[k].pixels() == rendered_pixels(
            old(frames)@[k],
            *config,
        ) && (r@[k + 1])@ == frame_reset_sequence() + frame_spec(
            frames@[k],
            *config,
            table@,
        ) by {
            assert(0 <= k < i);
            assert((frames@[len - i + k]).wf());
            assert((r@[k + 1])@ == frame_reset_sequence() + frame_spec(
                frames@[len - i + k],
                *config,
                table@,
            ));
            assert(len - i + k == k);
        }
    }
    r
}

} // verus!
