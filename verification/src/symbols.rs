//! Block-drawing symbols: one terminal cell that shows a small block of font
//! pixels.
//!
//! Every function takes its pixels as bytes, where any value but zero means
//! that the pixel is set, and says which symbol it returns by the table of
//! its block shape and the index that the set pixels make up.

use vstd::prelude::*;

verus! {

/// Symbols for two pixels, one above the other. The upper pixel counts 1,
/// the lower one 2.
pub const HALF_HEIGHT_SYMBOLS: [char; 4] = [' ', '▀', '▄', '█'];

/// Symbols for two pixels side by side. The left pixel counts 1, the right
/// one 2.
pub const HALF_WIDTH_SYMBOLS: [char; 4] = [' ', '▌', '▐', '█'];

/// Symbols for two by two pixels. The pixels count 1 (top left), 2 (top
/// right), 4 (bottom left) and 8 (bottom right).
pub const QUADRANT_SYMBOLS: [char; 16] = [
    ' ', '▘', '▝', '▀', '▖', '▌', '▞', '▛', '▗', '▚', '▐', '▜', '▄', '▙', '▟', '█',
];

/// Symbols for two by three pixels. The pixels count 1 (top left), 2 (top
/// right), 4 (middle left), 8 (middle right), 16 (bottom left) and 32 (bottom
/// right).
pub const SEXTANT_SYMBOLS: [char; 64] = [
    ' ', '🬀', '🬁', '🬂', '🬃', '🬄', '🬅', '🬆', '🬇', '🬈', '🬉', '🬊', '🬋', '🬌', '🬍', '🬎',
    '🬏', '🬐', '🬑', '🬒', '🬓', '▌', '🬔', '🬕', '🬖', '🬗', '🬘', '🬙', '🬚', '🬛', '🬜', '🬝',
    '🬞', '🬟', '🬠', '🬡', '🬢', '🬣', '🬤', '🬥', '🬦', '🬧', '▐', '🬨', '🬩', '🬪', '🬫', '🬬',
    '🬭', '🬮', '🬯', '🬰', '🬱', '🬲', '🬳', '🬴', '🬵', '🬶', '🬷', '🬸', '🬹', '🬺', '🬻', '█',
];

/// What a pixel adds to the index of its block, before its weight: 1 if set.
pub open spec fn bit(on: bool) -> int {
    if on {
        1
    } else {
        0
    }
}

/// The symbol for a single pixel: a full block if it is set, a blank if not.
pub open spec fn full_symbol(on: bool) -> char {
    if on {
        '█'
    } else {
        ' '
    }
}

/// The symbol for two pixels, one above the other.
pub open spec fn half_height_symbol(top: bool, bottom: bool) -> char {
    HALF_HEIGHT_SYMBOLS@[bit(top) + 2 * bit(bottom)]
}

/// The symbol for two pixels side by side.
pub open spec fn half_width_symbol(left: bool, right: bool) -> char {
    HALF_WIDTH_SYMBOLS@[bit(left) + 2 * bit(right)]
}

/// The symbol for two by two pixels.
pub open spec fn quadrant_symbol(
    top_left: bool,
    top_right: bool,
    bottom_left: bool,
    bottom_right: bool,
) -> char {
    QUADRANT_SYMBOLS@[bit(top_left) + 2 * bit(top_right) + 4 * bit(bottom_left) + 8 * bit(
        bottom_right,
    )]
}

/// The symbol for two by three pixels.
pub open spec fn sextant_symbol(
    top_left: bool,
    top_right: bool,
    middle_left: bool,
    middle_right: bool,
    bottom_left: bool,
    bottom_right: bool,
) -> char {
    SEXTANT_SYMBOLS@[bit(top_left) + 2 * bit(top_right) + 4 * bit(middle_left) + 8 * bit(
        middle_right,
    ) + 16 * bit(bottom_left) + 32 * bit(bottom_right)]
}

/// The symbol for three stacked pixels: each pixel fills its third of the
/// cell over the whole width.
pub open spec fn third_height_symbol(top: bool, middle: bool, bottom: bool) -> char {
    sextant_symbol(top, top, middle, middle, bottom, bottom)
}

/// The symbol for a single pixel.
pub fn get_symbol_full(pixel: u8) -> (symbol: char)
    ensures
        symbol == full_symbol(pixel > 0),
{
    match pixel {
        0 => ' ',
        _ => '█',
    }
}

/// The symbol for two pixels, one above the other.
pub fn get_symbol_half_height(top: u8, bottom: u8) -> (symbol: char)
    ensures
        symbol == half_height_symbol(top > 0, bottom > 0),
{
    match top {
        0 => match bottom {
            0 => ' ',
            _ => '▄',
        },
        _ => match bottom {
            0 => '▀',
            _ => '█',
        },
    }
}

/// The symbol for two pixels side by side.
pub fn get_symbol_half_width(left: u8, right: u8) -> (symbol: char)
    ensures
        symbol == half_width_symbol(left > 0, right > 0),
{
    match left {
        0 => match right {
            0 => ' ',
            _ => '▐',
        },
        _ => match right {
            0 => '▌',
            _ => '█',
        },
    }
}

/// The symbol for two by two pixels.
pub fn get_symbol_quadrant_size(
    top_left: u8,
    top_right: u8,
    bottom_left: u8,
    bottom_right: u8,
) -> (symbol: char)
    ensures
        symbol == quadrant_symbol(top_left > 0, top_right > 0, bottom_left > 0, bottom_right > 0),
{
    let top_left: usize = if top_left > 0 { 1 } else { 0 };
    let top_right: usize = if top_right > 0 { 1 } else { 0 };
    let bottom_left: usize = if bottom_left > 0 { 1 } else { 0 };
    let bottom_right: usize = if bottom_right > 0 { 1 } else { 0 };
    let character_index: usize = top_left + 2 * top_right + 4 * bottom_left + 8 * bottom_right;
    QUADRANT_SYMBOLS[character_index]
}

/// The symbol for two by three pixels.
pub fn get_symbol_sextantant_size(
    top_left: u8,
    top_right: u8,
    middle_left: u8,
    middle_right: u8,
    bottom_left: u8,
    bottom_right: u8,
) -> (symbol: char)
    ensures
        symbol == sextant_symbol(
            top_left > 0,
            top_right > 0,
            middle_left > 0,
            middle_right > 0,
            bottom_left > 0,
            bottom_right > 0,
        ),
{
    let top_left: usize = if top_left > 0 { 1 } else { 0 };
    let top_right: usize = if top_right > 0 { 1 } else { 0 };
    let middle_left: usize = if middle_left > 0 { 1 } else { 0 };
    let middle_right: usize = if middle_right > 0 { 1 } else { 0 };
    let bottom_left: usize = if bottom_left > 0 { 1 } else { 0 };
    let bottom_right: usize = if bottom_right > 0 { 1 } else { 0 };
    let character_index: usize = top_left + 2 * top_right + 4 * middle_left + 8 * middle_right + 16
        * bottom_left + 32 * bottom_right;
    SEXTANT_SYMBOLS[character_index]
}

/// The symbol for three stacked pixels.
pub fn get_symbol_third_height(top: u8, middle: u8, bottom: u8) -> (symbol: char)
    ensures
        symbol == third_height_symbol(top > 0, middle > 0, bottom > 0),
        symbol == sextant_symbol(top > 0, top > 0, middle > 0, middle > 0, bottom > 0, bottom > 0),
{
    get_symbol_sextantant_size(top, top, middle, middle, bottom, bottom)
}

/// With no pixel set every table gives the blank, with all pixels set the
/// full block.
pub proof fn lemma_blank_and_solid()
    ensures
        full_symbol(false) == ' ',
        full_symbol(true) == '█',
        half_height_symbol(false, false) == ' ',
        half_height_symbol(true, true) == '█',
        half_width_symbol(false, false) == ' ',
        half_width_symbol(true, true) == '█',
        quadrant_symbol(false, false, false, false) == ' ',
        quadrant_symbol(true, true, true, true) == '█',
        third_height_symbol(false, false, false) == ' ',
        third_height_symbol(true, true, true) == '█',
        sextant_symbol(false, false, false, false, false, false) == ' ',
        sextant_symbol(true, true, true, true, true, true) == '█',
{
}

/// Three stacked pixels show as the two by three pixels with each pixel of
/// the three doubled over the width of the cell.
pub proof fn lemma_third_height_doubles(top: bool, middle: bool, bottom: bool)
    ensures
        third_height_symbol(top, middle, bottom) == sextant_symbol(
            top,
            top,
            middle,
            middle,
            bottom,
            bottom,
        ),
{
}

/// The tables agree where their blocks show the same picture: a pixel
/// stretched over two cells of a finer block gives the symbol of the coarser
/// block.
pub proof fn lemma_tables_agree(a: bool, b: bool)
    ensures
        full_symbol(a) == half_height_symbol(a, a),
        full_symbol(a) == half_width_symbol(a, a),
        half_height_symbol(a, b) == quadrant_symbol(a, a, b, b),
        half_width_symbol(a, b) == quadrant_symbol(a, b, a, b),
        half_width_symbol(a, b) == sextant_symbol(a, b, a, b, a, b),
{
}

/// The code point of the symbol at `index` of the table for two by three
/// pixels: the blank, the left and the right half block and the full block
/// come from older blocks of Unicode, the other sixty are the symbols from
/// U+1FB00 on, in the order of their index.
pub open spec fn sextant_code_point(index: int) -> int {
    if index == 0 {
        0x20
    } else if index == 21 {
        0x258c
    } else if index == 42 {
        0x2590
    } else if index == 63 {
        0x2588
    } else if index < 21 {
        0x1fb00 + index - 1
    } else if index < 42 {
        0x1fb00 + index - 2
    } else {
        0x1fb00 + index - 3
    }
}

/// Every entry of the table for two by three pixels is the symbol that
/// Unicode has for its pattern.
pub proof fn lemma_sextant_code_points(index: int)
    requires
        0 <= index < 64,
    ensures
        SEXTANT_SYMBOLS@[index] as int == sextant_code_point(index),
{
}

/// Different patterns of two by two pixels show as different symbols.
pub proof fn lemma_quadrant_symbols_differ(i: int, j: int)
    requires
        0 <= i < 16,
        0 <= j < 16,
        i != j,
    ensures
        QUADRANT_SYMBOLS@[i] != QUADRANT_SYMBOLS@[j],
{
}

/// Different patterns of two by three pixels show as different symbols.
pub proof fn lemma_sextant_symbols_differ(i: int, j: int)
    requires
        0 <= i < 64,
        0 <= j < 64,
        i != j,
    ensures
        SEXTANT_SYMBOLS@[i] != SEXTANT_SYMBOLS@[j],
{
    lemma_sextant_code_points(i);
    lemma_sextant_code_points(j);
}

} // verus!
