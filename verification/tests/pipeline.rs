use tai::colorize;
use tai::dither;
use tai::get_block_signals;
use tai::get_luminance;
use tai::img_to_ascii;
use tai::img_to_braille;
use tai::select;
use tai::translate;
use tai::Config;
use tai::Pixel;
use tai::PixelBuffer;

fn gray(v: u8) -> Pixel {
    Pixel { r: v, g: v, b: v, a: 255 }
}

fn uniform(width: usize, height: usize, v: u8) -> PixelBuffer {
    PixelBuffer::new(width, height, gray(v))
}

#[test]
fn luminance_of_white_is_255() {
    assert_eq!(get_luminance(255, 255, 255), 255);
}

#[test]
fn luminance_of_black_is_0() {
    assert_eq!(get_luminance(0, 0, 0), 0);
}

#[test]
fn luminance_matches_fixed_weights() {
    // floor((2126*10 + 7152*20 + 722*30) / 10000) == 18
    assert_eq!(get_luminance(10, 20, 30), 18);
    // the green channel dominates
    assert_eq!(get_luminance(0, 255, 0), 182);
    assert_eq!(get_luminance(255, 0, 0), 54);
    assert_eq!(get_luminance(0, 0, 255), 18);
}

#[test]
fn luminance_is_monotonic_per_channel() {
    assert!(get_luminance(100, 0, 0) <= get_luminance(200, 0, 0));
    assert!(get_luminance(0, 100, 0) <= get_luminance(0, 200, 0));
    assert!(get_luminance(0, 0, 100) <= get_luminance(0, 0, 200));
}

#[test]
fn select_maps_extremes_to_first_and_last_entry() {
    let table: Vec<char> = vec![' ', '.', 'x', '@'];
    assert_eq!(select(&table, 0), ' ');
    assert_eq!(select(&table, 255), '@');
}

#[test]
fn select_truncates_and_is_monotonic() {
    let table: Vec<char> = vec!['a', 'b'];
    // 127 * 1 / 255 and 128 * 1 / 255 both truncate to index 0
    assert_eq!(select(&table, 127), 'a');
    assert_eq!(select(&table, 128), 'a');
    assert_eq!(select(&table, 255), 'b');
    let long: Vec<char> = (b'a'..=b'z').map(|c| c as char).collect();
    let mut prev = 0usize;
    for l in 0..=255u8 {
        let c = select(&long, l);
        let idx = long.iter().position(|&x| x == c).unwrap();
        assert!(idx >= prev, "index decreased at luminance {}", l);
        prev = idx;
    }
}

#[test]
fn all_dark_block_is_blank_braille_cell() {
    let map = [[0u8; 2]; 4];
    assert_eq!(translate(&map), '\u{2800}');
}

#[test]
fn all_bright_block_raises_all_eight_dots() {
    let map = [[1u8; 2]; 4];
    assert_eq!(translate(&map), '\u{28FF}');
}

#[test]
fn top_left_pixel_alone_raises_dot_one() {
    let mut map = [[0u8; 2]; 4];
    map[0][0] = 1;
    assert_eq!(translate(&map), '\u{2801}');
}

#[test]
fn braille_dot_order_is_column_first() {
    // second row, left column is dot 2 (bit 1)
    let mut map = [[0u8; 2]; 4];
    map[1][0] = 1;
    assert_eq!(translate(&map), '\u{2802}');
    // first row, right column is dot 4 (bit 3)
    let mut map = [[0u8; 2]; 4];
    map[0][1] = 1;
    assert_eq!(translate(&map), '\u{2808}');
    // bottom row holds dots 7 and 8 (bits 6 and 7)
    let mut map = [[0u8; 2]; 4];
    map[3][0] = 1;
    assert_eq!(translate(&map), '\u{2840}');
    let mut map = [[0u8; 2]; 4];
    map[3][1] = 1;
    assert_eq!(translate(&map), '\u{2880}');
}

#[test]
fn block_signals_binarize_against_threshold() {
    let mut buf = uniform(2, 4, 0);
    buf.set_pixel(0, 0, gray(200));
    buf.set_pixel(1, 3, gray(129));
    let map = get_block_signals(128, &buf, 0, 0);
    assert_eq!(map[0][0], 1);
    assert_eq!(map[3][1], 1);
    assert_eq!(map[0][1], 0);
    assert_eq!(map[1][0], 0);
    assert_eq!(map[2][1], 0);
}

#[test]
fn sample_block_below_threshold_yields_zero_and_empty_count() {
    let buf = uniform(4, 4, 10);
    let (avg, count) = tai::sample_block(&buf, 0, 0, 2, 2, 128);
    assert_eq!(avg, 0);
    assert_eq!(count, 0);
}

#[test]
fn sample_block_averages_only_pixels_at_threshold() {
    let mut buf = uniform(4, 4, 10);
    buf.set_pixel(0, 0, gray(200));
    buf.set_pixel(1, 1, gray(130));
    let (avg, count) = tai::sample_block(&buf, 0, 0, 2, 2, 128);
    assert_eq!(count, 2);
    assert_eq!(avg as u32, (200 + 130) / 2);
}

#[test]
fn white_image_renders_the_last_table_glyph_with_blank_line() {
    // 4 x 8 solid white, uncolored: a 3 x 7 glyph grid of the brightest
    // entry, then the trailing blank line.
    let mut buf = uniform(4, 8, 255);
    let cfg = Config::default();
    let table: Vec<char> = vec![' ', '.', ',', ':', ';', '\'', '"', '<', '>', 'i', '!', '(', ')',
        '[', ']', '(', ')', '{', '}', '*', '8', 'B', '%', '$', '#', '@'];
    let s = img_to_ascii(&mut buf, &cfg, &table);
    let expected = "@@@\n".repeat(7) + "\n";
    assert_eq!(s, expected);
}

#[test]
fn black_block_renders_blank_braille_cell_and_newline() {
    let mut buf = uniform(2, 4, 0);
    let cfg = Config::default();
    let s = img_to_braille(&mut buf, &cfg);
    assert_eq!(s, "\u{2800}\n");
}

#[test]
fn white_block_renders_full_braille_cell() {
    let mut buf = uniform(2, 4, 255);
    let cfg = Config::default();
    let s = img_to_braille(&mut buf, &cfg);
    assert_eq!(s, "\u{28FF}\n");
}

#[test]
fn colorize_formats_the_exact_escape_sequence() {
    assert_eq!(colorize(&[10, 20, 30], 'X', 38), "\x1B[38;2;10;20;30mX\x1B[0m");
}

#[test]
fn colorize_background_placement_uses_code_48() {
    assert_eq!(colorize(&[0, 0, 0], 'y', 48), "\x1B[48;2;0;0;0my\x1B[0m");
    assert_eq!(colorize(&[255, 255, 255], 'z', 38), "\x1B[38;2;255;255;255mz\x1B[0m");
}

#[test]
fn colored_frame_wraps_each_glyph_in_an_escape() {
    let mut buf = uniform(2, 2, 255);
    let mut cfg = Config::default();
    cfg.colored = true;
    let table: Vec<char> = vec![' ', '@'];
    let s = img_to_ascii(&mut buf, &cfg, &table);
    assert_eq!(s, "\x1B[38;2;255;255;255m@\x1B[0m\n\n");
}

#[test]
fn dither_leaves_an_already_quantized_buffer_unchanged() {
    // 0 and 255 both sit on quantization levels for 16 steps.
    let mut buf = uniform(3, 3, 0);
    buf.set_pixel(1, 1, gray(255));
    buf.set_pixel(2, 2, gray(255));
    dither(&mut buf, 16);
    for y in 0..3 {
        for x in 0..3 {
            let expected = if (x, y) == (1, 1) || (x, y) == (2, 2) { 255 } else { 0 };
            let p = buf.get_pixel(x, y);
            assert_eq!(p.r, expected);
            assert_eq!(p.g, expected);
            assert_eq!(p.b, expected);
        }
    }
}

#[test]
fn dither_diffuses_the_residual_forward() {
    // Two pixels, one quantization step: 128 rounds up to 255 with residual
    // -127, of which 7/16 (-55) lands on the right neighbor; the neighbor,
    // 100 - 55 = 45, then rounds down to 0.
    let mut buf = uniform(2, 1, 128);
    buf.set_pixel(1, 0, gray(100));
    dither(&mut buf, 1);
    assert_eq!(buf.get_pixel(0, 0).r, 255);
    assert_eq!(buf.get_pixel(1, 0).r, 0);
}

#[test]
fn degenerate_buffers_render_without_panicking() {
    // too small for any 2x2 window: only the trailing blank line remains
    let mut tiny = uniform(1, 1, 255);
    let cfg = Config::default();
    let table: Vec<char> = vec![' ', '@'];
    assert_eq!(img_to_ascii(&mut tiny, &cfg, &table), "\n");
    // too small for any 2x4 block: the Braille render is empty
    let mut tiny = uniform(1, 3, 255);
    assert_eq!(img_to_braille(&mut tiny, &cfg), "");
    // a single column still renders newline-only rows on the table path
    let mut thin = uniform(1, 4, 255);
    assert_eq!(img_to_ascii(&mut thin, &cfg, &table), "\n\n\n\n");
}

#[test]
fn dither_preserves_alpha_and_dimensions() {
    let mut buf = PixelBuffer::new(3, 2, Pixel { r: 77, g: 77, b: 77, a: 42 });
    dither(&mut buf, 4);
    assert_eq!(buf.width(), 3);
    assert_eq!(buf.height(), 2);
    for y in 0..2 {
        for x in 0..3 {
            assert_eq!(buf.get_pixel(x, y).a, 42);
        }
    }
}
