//! Render configuration: the immutable parameters of one render, the style
//! selector, the default glyph tables, and the validation steps that fall
//! back to documented defaults instead of failing hard.

use vstd::prelude::*;

verus! {

/// The art style: which encoder and glyph table a render uses.
#[derive(Clone, Copy, PartialEq, Eq, Structural, Debug)]
pub enum Style {
    Ascii,
    Blocks,
    Braille,
    Numbers,
    OneChar,
}

impl Default for Style {
    /// The default style is Braille.
    fn default() -> (s: Self)
        ensures
            s == Style::Braille,
    {
        Style::Braille
    }
}

/// Immutable parameters for one render.
pub struct Config {
    /// SGR code for the colorizer: 38 colors the foreground, 48 the
    /// background.
    pub background: u8,
    /// Whether glyphs are wrapped in true-color escapes.
    pub colored: bool,
    /// Whether the buffer is error-diffused before encoding.
    pub dither: bool,
    /// Number of quantization steps for dithering; at least 1.
    pub dither_scale: u8,
    /// Path of the image source; only the external source reads it.
    pub image_file: String,
    /// The glyph used by the one-character style.
    pub onechar: char,
    /// Whether the source is rendered at its own size instead of scaled.
    pub original_size: bool,
    /// Downscale divisor for the image source; at least 1.
    pub scale: u32,
    /// Delay between animation frames, in milliseconds.
    pub sleep: u64,
    /// Which encoder and table the render uses.
    pub style: Style,
    /// Custom glyph table for the ascii style; empty means the default
    /// table.
    pub table: Vec<char>,
    /// Luminance threshold: the dot-matrix binarization cut, and the bound
    /// below which the block sampler treats a pixel as background.
    pub threshold: u8,
}

impl Default for Config {
    /// The documented defaults: foreground color placement, no color, no
    /// dithering with 16 steps when enabled, full block glyph, half scale,
    /// 100 ms between frames, Braille style, threshold 128.
    fn default() -> (c: Self)
        ensures
            c.background == 38,
            !c.colored,
            !c.dither,
            c.dither_scale == 16,
            c.image_file@.len() == 0,
            c.onechar == '\u{2588}',
            !c.original_size,
            c.scale == 2,
            c.sleep == 100,
            c.style == Style::Braille,
            c.table@.len() == 0,
            c.threshold == 128,
    {
        Config {
            background: 38,
            colored: false,
            dither: false,
            dither_scale: 16,
            image_file: String::new(),
            onechar: '\u{2588}',
            original_size: false,
            scale: 2,
            sleep: 100,
            style: Style::Braille,
            table: Vec::new(),
            threshold: 128,
        }
    }
}

/// The style a name selects; every unrecognized name falls back to the
/// default style.
pub open spec fn style_of_name(s: Seq<char>) -> Style {
    if s == "ascii"@ {
        Style::Ascii
    } else if s == "blocks"@ {
        Style::Blocks
    } else if s == "braille"@ {
        Style::Braille
    } else if s == "numbers"@ {
        Style::Numbers
    } else if s == "onechar"@ {
        Style::OneChar
    } else {
        Style::Braille
    }
}

fn str_eq(a: &str, b: &str) -> (r: bool)
    ensures
        r == (a@ == b@),
{
    let sa: String = a.to_owned();
    let sb: String = b.to_owned();
    sa == sb
}

/// Resolves a style name; an unknown name selects the default style
/// (Braille), which the caller may report as a fallback warning.
pub fn check_style_arg(arg: &str) -> (s: Style)
    ensures
        s == style_of_name(arg@),
{
    if str_eq(arg, "ascii") {
        Style::Ascii
    } else if str_eq(arg, "blocks") {
        Style::Blocks
    } else if str_eq(arg, "braille") {
        Style::Braille
    } else if str_eq(arg, "numbers") {
        Style::Numbers
    } else if str_eq(arg, "onechar") {
        Style::OneChar
    } else {
        Style::Braille
    }
}

/// Validates a dithering step count: a count below 1 is invalid, falls
/// back to the default of 16, and raises the warning flag.
pub fn validate_dither_scale(requested: u8) -> (r: (u8, bool))
    ensures
        r.0 == if requested >= 1 {
            requested as int
        } else {
            16int
        },
        r.1 == (requested < 1),
        r.0 >= 1,
{
    if requested >= 1 {
        (requested, false)
    } else {
        (16, true)
    }
}

/// Validates a scale divisor: a divisor below 1 would divide by zero,
/// falls back to the default of 2, and raises the warning flag.
pub fn validate_scale(requested: u32) -> (r: (u32, bool))
    ensures
        r.0 == if requested >= 1 {
            requested as int
        } else {
            2int
        },
        r.1 == (requested < 1),
        r.0 >= 1,
{
    if requested >= 1 {
        (requested, false)
    } else {
        (2, true)
    }
}

/// Target dimensions handed to the image source: the source width is
/// divided by the scale and then by the 2-pixel glyph width, the height by
/// the scale and the 4-pixel glyph height.
pub fn target_dimensions(width: u32, height: u32, scale: u32) -> (r: (u32, u32))
    requires
        scale >= 1,
    ensures
        r.0 == width as int / scale as int / 2,
        r.1 == height as int / scale as int / 4,
{
    ((width / scale) / 2, (height / scale) / 4)
}

/// The default glyph table of the ascii style, darkest to brightest.
pub open spec fn default_ascii_table_spec() -> Seq<char> {
    seq![
        ' ', '.', ',', ':', ';', '\'', '"', '<', '>', 'i', '!', '(', ')', '[', ']', '(', ')', '{',
        '}', '*', '8', 'B', '%', '$', '#', '@',
    ]
}

/// The glyph table of the numbers style.
pub open spec fn default_numbers_table_spec() -> Seq<char> {
    seq![' ', '2', '7', '4', '1', '3', '9', '8', '5', '6', '0']
}

/// The glyph table of the blocks style, darkest to brightest.
pub open spec fn default_blocks_table_spec() -> Seq<char> {
    seq![' ', '\u{2591}', '\u{2592}', '\u{2593}', '\u{2588}']
}

/// The glyph table a render uses: the style's own table, the custom table
/// for the ascii style when one is given, and a single-glyph table for the
/// one-character style. The Braille style samples dots instead of a table.
pub open spec fn table_for_style_spec(style: Style, onechar: char, custom: Seq<char>) -> Seq<
    char,
> {
    match style {
        Style::Ascii => if custom.len() == 0 {
            default_ascii_table_spec()
        } else {
            custom
        },
        Style::Numbers => default_numbers_table_spec(),
        Style::Blocks => default_blocks_table_spec(),
        Style::OneChar => seq![onechar],
        Style::Braille => Seq::empty(),
    }
}

/// Builds the glyph table that a configuration renders with; see
/// `table_for_style_spec`.
pub fn table_for_style(style: Style, onechar: char, custom: &Vec<char>) -> (t: Vec<char>)
    ensures
        t@ == table_for_style_spec(style, onechar, custom@),
        style != Style::Braille ==> t@.len() >= 1,
{
    let t: Vec<char> = match style {
        Style::Ascii => {
            if custom.len() == 0 {
                let v = vec![
                    ' ', '.', ',', ':', ';', '\'', '"', '<', '>', 'i', '!', '(', ')', '[', ']',
                    '(', ')', '{', '}', '*', '8', 'B', '%', '$', '#', '@',
                ];
                assert(v@ =~= default_ascii_table_spec());
                v
            } else {
                custom.clone()
            }
        },
        Style::Numbers => {
            let v = vec![' ', '2', '7', '4', '1', '3', '9', '8', '5', '6', '0'];
            assert(v@ =~= default_numbers_table_spec());
            v
        },
        Style::Blocks => {
            let v = vec![' ', '\u{2591}', '\u{2592}', '\u{2593}', '\u{2588}'];
            assert(v@ =~= default_blocks_table_spec());
            v
        },
        Style::OneChar => {
            let v = vec![onechar];
            assert(v@ =~= seq![onechar]);
            v
        },
        Style::Braille => Vec::new(),
    };
    t
}

} // verus!
