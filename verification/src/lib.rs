//! Terminal image renderer: maps pixel luminance to glyphs, with optional
//! error-diffusion dithering, Braille dot-matrix encoding, true-color
//! ANSI escapes, and reel assembly for animated sources.

pub mod color;
pub mod config;
pub mod dither;
pub mod encoder;
pub mod frame;
pub mod luminance;
pub mod pixel;
pub mod sampler;
mod strings;

pub use color::colorize;
pub use config::check_style_arg;
pub use config::Config;
pub use config::Style;
pub use dither::dither;
pub use encoder::get_block_signals;
pub use encoder::select;
pub use encoder::translate;
pub use frame::build_reel;
pub use frame::img_to_ascii;
pub use frame::img_to_braille;
pub use frame::next_frame_index;
pub use frame::render_frame;
pub use frame::translate_frame;
pub use frame::translate_frame_braille;
pub use luminance::get_luminance;
pub use pixel::Pixel;
pub use pixel::PixelBuffer;
pub use sampler::sample_block;
