//! Big pixel text for terminal user interfaces: strings are drawn with the
//! glyphs of an 8x8 bitmap font, one or more font pixels per terminal cell.

pub mod arith;
pub mod buffer;
pub mod font;
pub mod glyph;
pub mod grid;
pub mod layout;
pub mod pixel_size;
pub mod rect;
pub mod render;
pub mod style;
pub mod symbols;
pub mod text;
pub mod widget;

pub use glyph::{pixel_at, render_glyph};
pub use layout::{cell_size, layout, layout_at, layout_size};
pub use pixel_size::{pixels_per_cell, PixelSize};
pub use rect::Rect;
pub use symbols::{
    get_symbol_full, get_symbol_half_height, get_symbol_half_width, get_symbol_quadrant_size,
    get_symbol_sextantant_size, get_symbol_third_height,
};
pub use text::StyledGrapheme;
pub use render::{first_char, render_symbol};
pub use widget::{BigText, BigTextBuilder, BigTextBuilderError};
