//! Drawing one 8x8 bitmap as block symbols.

use vstd::prelude::*;
use ratatui::buffer::Buffer;
use crate::buffer::{grid, set_char};
use crate::grid::{Grid, StyledSymbol, lemma_cell_of_position, lemma_position_of_cell};
use crate::arith::least;
use crate::layout::{cell_height, cell_width, lemma_cell_extent};
use crate::pixel_size::{pixels_per_cell, PixelSize};
use crate::rect::Rect;
use crate::symbols::{
    full_symbol, get_symbol_full, get_symbol_half_height, get_symbol_half_width,
    get_symbol_quadrant_size, get_symbol_sextantant_size, get_symbol_third_height,
    half_height_symbol, half_width_symbol, quadrant_symbol, sextant_symbol, third_height_symbol,
};

verus! {

/// Whether the font pixel in row `row` and column `column` of the bitmap is
/// set. A bitmap has one byte for each of its eight rows, from the top; bit 0
/// of a byte is the leftmost pixel of the row. Outside the bitmap no pixel is
/// set.
pub open spec fn pixel(glyph: [u8; 8], row: int, column: int) -> bool {
    0 <= row < 8 && 0 <= column < 8 && glyph[row] & (1u8 << (column as u8)) != 0
}

/// The symbol for the block of font pixels whose top left pixel is in row
/// `row` and column `column`, with the extent that `size` gives a block.
pub open spec fn block_symbol(glyph: [u8; 8], size: PixelSize, row: int, column: int) -> char {
    match size {
        PixelSize::Full => full_symbol(pixel(glyph, row, column)),
        PixelSize::HalfHeight => half_height_symbol(
            pixel(glyph, row, column),
            pixel(glyph, row + 1, column),
        ),
        PixelSize::HalfWidth => half_width_symbol(
            pixel(glyph, row, column),
            pixel(glyph, row, column + 1),
        ),
        PixelSize::Quadrant => quadrant_symbol(
            pixel(glyph, row, column),
            pixel(glyph, row, column + 1),
            pixel(glyph, row + 1, column),
            pixel(glyph, row + 1, column + 1),
        ),
        PixelSize::ThirdHeight => third_height_symbol(
            pixel(glyph, row, column),
            pixel(glyph, row + 1, column),
            pixel(glyph, row + 2, column),
        ),
        PixelSize::Sextant => sextant_symbol(
            pixel(glyph, row, column),
            pixel(glyph, row, column + 1),
            pixel(glyph, row + 1, column),
            pixel(glyph, row + 1, column + 1),
            pixel(glyph, row + 2, column),
            pixel(glyph, row + 2, column + 1),
        ),
    }
}

/// The symbol that a character shows in the terminal cell `dx` columns right
/// of and `dy` rows below its top left cell.
pub open spec fn glyph_symbol(glyph: [u8; 8], size: PixelSize, dx: int, dy: int) -> char {
    block_symbol(glyph, size, dy * size.step_y(), dx * size.step_x())
}

/// The byte of row `row` with all bits cleared but the one of column
/// `column`: zero if and only if the pixel is not set.
pub fn pixel_at(glyph: &[u8; 8], row: usize, column: usize) -> (bits: u8)
    ensures
        bits == if row < 8 && column < 8 {
            glyph[row as int] & (1u8 << (column as u8))
        } else {
            0
        },
        bits > 0 <==> pixel(*glyph, row as int, column as int),
{
    if row < 8 && column < 8 {
        glyph[row] & (1u8 << (column as u8))
    } else {
        0
    }
}

/// The part of `area` that a character drawn at its top left corner takes.
pub open spec fn footprint(area: Rect, size: PixelSize) -> Rect {
    Rect {
        x: area.x,
        y: area.y,
        width: least(area.width as int, cell_width(size)) as u16,
        height: least(area.height as int, cell_height(size)) as u16,
    }
}

/// The grid with the glyph drawn into `area`: every cell of `area` that the
/// footprint of a character at `size` reaches from the top left corner of
/// `area` shows its block of font pixels, in the style it had. All other
/// cells stay as they are.
pub open spec fn glyph_drawn(g: Grid, area: Rect, glyph: [u8; 8], size: PixelSize) -> Grid {
    Grid {
        area: g.area,
        cells: Seq::new(
            g.cells.len(),
            |i: int|
                {
                    let dx = g.column_of(i) - area.x;
                    let dy = g.row_of(i) - area.y;
                    if area.contains(g.column_of(i), g.row_of(i)) && dx < cell_width(size) && dy
                        < cell_height(size) {
                        StyledSymbol {
                            symbol: seq![glyph_symbol(glyph, size, dx, dy)],
                            style: g.cells[i].style,
                        }
                    } else {
                        g.cells[i]
                    }
                },
        ),
    }
}

/// The grid when the first `rows` rows of terminal cells of the glyph and
/// the first `columns` cells of the next row have been drawn into `area`.
spec fn glyph_drawn_until(
    g: Grid,
    area: Rect,
    glyph: [u8; 8],
    size: PixelSize,
    rows: int,
    columns: int,
) -> Grid {
    Grid {
        area: g.area,
        cells: Seq::new(
            g.cells.len(),
            |i: int|
                {
                    let dx = g.column_of(i) - area.x;
                    let dy = g.row_of(i) - area.y;
                    if dy < rows || (dy == rows && dx < columns) {
                        glyph_drawn(g, area, glyph, size).cells[i]
                    } else {
                        g.cells[i]
                    }
                },
        ),
    }
}

/// A character takes as many terminal cells along an axis as there are steps
/// of the packing factor below eight.
proof fn lemma_steps(size: PixelSize, k: int)
    requires
        k >= 0,
    ensures
        k * size.step_x() < 8 <==> k < cell_width(size),
        k * size.step_y() < 8 <==> k < cell_height(size),
        cell_width(size) == 8 || cell_width(size) == 4,
        cell_height(size) == 8 || cell_height(size) == 4 || cell_height(size) == 3,
{
    let sx = size.step_x();
    let sy = size.step_y();
    lemma_cell_extent(size);
    assert(k * sx == if sx == 1 {
        k
    } else {
        2 * k
    }) by (nonlinear_arith)
        requires
            sx == 1 || sx == 2,
    ;
    assert(k * sy == if sy == 1 {
        k
    } else if sy == 2 {
        2 * k
    } else {
        3 * k
    }) by (nonlinear_arith)
        requires
            sy == 1 || sy == 2 || sy == 3,
    ;
}

/// Draws the glyph into `area` of the buffer, from the top left corner of
/// the area: each terminal cell gets the block symbol for the font pixels
/// that it stands for. Where the area is smaller than the character, the
/// rest of the glyph is left out; the styles of the cells stay. The cells
/// to draw must be cells of the buffer.
pub fn render_glyph(glyph: [u8; 8], area: Rect, buf: &mut Buffer, pixel_size: &PixelSize)
    requires
        grid(*old(buf)).wf(),
        grid(*old(buf)).area.covers(footprint(area, *pixel_size)),
    ensures
        grid(*final(buf)) == glyph_drawn(grid(*old(buf)), area, glyph, *pixel_size),
{
    let (step_x, step_y) = pixels_per_cell(pixel_size);
    let (left, right) = (area.left(), area.right());
    let (top, bottom) = (area.top(), area.bottom());
    let ghost size = *pixel_size;
    let ghost before = grid(*buf);
    let mut row: usize = 0;
    let mut y: u16 = top;
    proof {
        assert(grid(*buf).cells =~= glyph_drawn_until(before, area, glyph, size, 0, 0).cells);
    }
    while row < 8 && y < bottom
        invariant
            before.wf(),
            before.area.covers(footprint(area, size)),
            step_x == size.step_x(),
            step_y == size.step_y(),
            size == *pixel_size,
            left == area.spec_left(),
            right == area.spec_right(),
            top == area.spec_top(),
            bottom == area.spec_bottom(),
            top <= y <= bottom,
            row == (y - top) * step_y,
            row <= 8 + step_y,
            y - top <= cell_height(size),
            grid(*buf) == glyph_drawn_until(before, area, glyph, size, y - top, 0),
        decreases bottom - y,
    {
        let mut column: usize = 0;
        let mut x: u16 = left;
        while column < 8 && x < right
            invariant
                before.wf(),
                before.area.covers(footprint(area, size)),
                step_x == size.step_x(),
                step_y == size.step_y(),
                size == *pixel_size,
                left == area.spec_left(),
                right == area.spec_right(),
                top == area.spec_top(),
                bottom == area.spec_bottom(),
                top <= y < bottom,
                row == (y - top) * step_y,
                row < 8,
                left <= x <= right,
                column == (x - left) * step_x,
                column <= 8 + step_x,
                grid(*buf) == glyph_drawn_until(before, area, glyph, size, y - top, x - left),
            decreases right - x,
        {
            let symbol_character = match pixel_size {
                PixelSize::Full => get_symbol_full(pixel_at(&glyph, row, column)),
                PixelSize::HalfHeight => {
                    let upper = pixel_at(&glyph, row, column);
                    let lower = pixel_at(&glyph, row + 1, column);
                    get_symbol_half_height(upper, lower)
                },
                PixelSize::HalfWidth => {
                    let near = pixel_at(&glyph, row, column);
                    let far = pixel_at(&glyph, row, column + 1);
                    get_symbol_half_width(near, far)
                },
                PixelSize::Quadrant => {
                    let top_left = pixel_at(&glyph, row, column);
                    let top_right = pixel_at(&glyph, row, column + 1);
                    let bottom_left = pixel_at(&glyph, row + 1, column);
                    let bottom_right = pixel_at(&glyph, row + 1, column + 1);
                    get_symbol_quadrant_size(top_left, top_right, bottom_left, bottom_right)
                },
                PixelSize::ThirdHeight => {
                    let upper = pixel_at(&glyph, row, column);
                    let middle = pixel_at(&glyph, row + 1, column);
                    let lower = pixel_at(&glyph, row + 2, column);
                    get_symbol_third_height(upper, middle, lower)
                },
                PixelSize::Sextant => {
                    let top_left = pixel_at(&glyph, row, column);
                    let top_right = pixel_at(&glyph, row, column + 1);
                    let middle_left = pixel_at(&glyph, row + 1, column);
                    let middle_right = pixel_at(&glyph, row + 1, column + 1);
                    let bottom_left = pixel_at(&glyph, row + 2, column);
                    let bottom_right = pixel_at(&glyph, row + 2, column + 1);
                    get_symbol_sextantant_size(
                        top_left,
                        top_right,
                        middle_left,
                        middle_right,
                        bottom_left,
                        bottom_right,
                    )
                },
            };
            let ghost current = grid(*buf);
            proof {
                lemma_steps(size, x - left);
                lemma_steps(size, y - top);
                assert(footprint(area, size).contains(x as int, y as int));
                assert(before.area.contains(x as int, y as int));
                assert(current.wf());
            }
            set_char(buf, x, y, symbol_character);
            proof {
                let dx = x - left;
                let dy = y - top;
                let next = glyph_drawn_until(before, area, glyph, size, dy, dx + 1);
                lemma_steps(size, dx);
                lemma_steps(size, dy);
                lemma_cell_of_position(before, x as int, y as int);
                assert(symbol_character == glyph_symbol(glyph, size, dx, dy)) by {
                    assert(dy * size.step_y() == row);
                    assert(dx * size.step_x() == column);
                }
                assert forall|i: int| 0 <= i < before.cells.len() implies grid(*buf).cells[i]
                    == next.cells[i] by {
                    lemma_position_of_cell(before, i);
                }
                assert(grid(*buf).cells =~= next.cells);
                assert((dx + 1) * step_x == dx * step_x + step_x) by (nonlinear_arith);
            }
            column = column + step_x as usize;
            x = x + 1;
        }
        proof {
            let dx = x - left;
            let dy = y - top;
            lemma_steps(size, dx);
            lemma_steps(size, dy);
            assert(glyph_drawn_until(before, area, glyph, size, dy, dx).cells
                =~= glyph_drawn_until(before, area, glyph, size, dy + 1, 0).cells);
            assert((dy + 1) * step_y == dy * step_y + step_y) by (nonlinear_arith);
        }
        row = row + step_y as usize;
        y = y + 1;
    }
    proof {
        let dy = y - top;
        lemma_steps(size, dy);
        assert(glyph_drawn_until(before, area, glyph, size, dy, 0).cells =~= glyph_drawn(
            before,
            area,
            glyph,
            size,
        ).cells);
    }
}

} // verus!
