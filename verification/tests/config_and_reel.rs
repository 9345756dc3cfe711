use tai::build_reel;
use tai::check_style_arg;
use tai::next_frame_index;
use tai::render_frame;
use tai::Config;
use tai::Pixel;
use tai::PixelBuffer;
use tai::Style;
use tai::config::table_for_style;
use tai::config::target_dimensions;
use tai::config::validate_dither_scale;
use tai::config::validate_scale;

fn gray(v: u8) -> Pixel {
    Pixel { r: v, g: v, b: v, a: 255 }
}

#[test]
fn style_names_resolve_to_their_styles() {
    assert_eq!(check_style_arg("ascii"), Style::Ascii);
    assert_eq!(check_style_arg("blocks"), Style::Blocks);
    assert_eq!(check_style_arg("braille"), Style::Braille);
    assert_eq!(check_style_arg("numbers"), Style::Numbers);
    assert_eq!(check_style_arg("onechar"), Style::OneChar);
}

#[test]
fn unknown_style_name_falls_back_to_braille() {
    assert_eq!(check_style_arg("sepia"), Style::Braille);
    assert_eq!(check_style_arg(""), Style::Braille);
    assert_eq!(check_style_arg("ASCII"), Style::Braille);
}

#[test]
fn invalid_dither_scale_falls_back_to_default_with_warning() {
    assert_eq!(validate_dither_scale(0), (16, true));
    assert_eq!(validate_dither_scale(1), (1, false));
    assert_eq!(validate_dither_scale(200), (200, false));
}

#[test]
fn invalid_scale_falls_back_to_default_with_warning() {
    assert_eq!(validate_scale(0), (2, true));
    assert_eq!(validate_scale(3), (3, false));
}

#[test]
fn default_config_matches_the_documented_defaults() {
    let c = Config::default();
    assert_eq!(c.background, 38);
    assert!(!c.colored);
    assert!(!c.dither);
    assert_eq!(c.dither_scale, 16);
    assert_eq!(c.image_file, "");
    assert_eq!(c.onechar, '\u{2588}');
    assert!(!c.original_size);
    assert_eq!(c.scale, 2);
    assert_eq!(c.sleep, 100);
    assert_eq!(c.style, Style::Braille);
    assert!(c.table.is_empty());
    assert_eq!(c.threshold, 128);
}

#[test]
fn target_dimensions_divide_by_scale_and_block_size() {
    assert_eq!(target_dimensions(100, 200, 2), (25, 25));
    assert_eq!(target_dimensions(7, 9, 1), (3, 2));
    assert_eq!(target_dimensions(0, 0, 5), (0, 0));
}

#[test]
fn table_for_style_picks_the_documented_tables() {
    let none: Vec<char> = Vec::new();
    let ascii = table_for_style(Style::Ascii, 'x', &none);
    assert_eq!(ascii.len(), 26);
    assert_eq!(ascii[0], ' ');
    assert_eq!(ascii[25], '@');
    let custom: Vec<char> = vec!['a', 'b', 'c'];
    assert_eq!(table_for_style(Style::Ascii, 'x', &custom), custom);
    let numbers = table_for_style(Style::Numbers, 'x', &none);
    assert_eq!(numbers, vec![' ', '2', '7', '4', '1', '3', '9', '8', '5', '6', '0']);
    let blocks = table_for_style(Style::Blocks, 'x', &none);
    assert_eq!(blocks, vec![' ', '\u{2591}', '\u{2592}', '\u{2593}', '\u{2588}']);
    assert_eq!(table_for_style(Style::OneChar, 'x', &none), vec!['x']);
}

#[test]
fn next_frame_index_wraps_after_the_last_frame() {
    assert_eq!(next_frame_index(0, 3), 1);
    assert_eq!(next_frame_index(1, 3), 2);
    assert_eq!(next_frame_index(2, 3), 0);
    assert_eq!(next_frame_index(0, 1), 0);
}

#[test]
fn reel_starts_with_clear_and_prefixes_every_frame() {
    let mut frames = vec![
        PixelBuffer::new(2, 4, gray(0)),
        PixelBuffer::new(2, 4, gray(255)),
    ];
    let cfg = Config::default();
    let table: Vec<char> = Vec::new();
    let reel = build_reel(&mut frames, &cfg, &table);
    assert_eq!(reel.len(), 3);
    assert_eq!(reel[0], "\x1B[1J");
    assert_eq!(reel[1], "\x1B[r\u{2800}\n");
    assert_eq!(reel[2], "\x1B[r\u{28FF}\n");
}

#[test]
fn render_frame_dispatches_on_the_configured_style() {
    let mut cfg = Config::default();
    cfg.style = Style::Ascii;
    let table: Vec<char> = vec![' ', '@'];
    let mut buf = PixelBuffer::new(2, 2, gray(255));
    assert_eq!(render_frame(&mut buf, &cfg, &table), "@\n");
    cfg.style = Style::Braille;
    let mut buf = PixelBuffer::new(2, 4, gray(255));
    assert_eq!(render_frame(&mut buf, &cfg, &table), "\u{28FF}\n");
}

#[test]
fn onechar_table_repeats_the_single_glyph() {
    let mut cfg = Config::default();
    cfg.style = Style::OneChar;
    let none: Vec<char> = Vec::new();
    let table = table_for_style(Style::OneChar, '#', &none);
    let mut buf = PixelBuffer::new(3, 3, gray(200));
    let s = render_frame(&mut buf, &cfg, &table);
    assert_eq!(s, "##\n##\n");
}
