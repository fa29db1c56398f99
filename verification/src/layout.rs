//! Partition of an area into the cells of a text grid, one per character.

use vstd::prelude::*;
use crate::arith::{
    div_ceil, least, lemma_div_ceil_steps, lemma_div_ceil_unique, lemma_last_step, lemma_quotient,
};
use crate::pixel_size::{pixels_per_cell, PixelSize};
use crate::rect::Rect;

verus! {

/// Terminal columns that one character takes: eight font pixels, packed.
pub open spec fn cell_width(size: PixelSize) -> int {
    div_ceil(8, size.step_x())
}

/// Terminal rows that one character takes: eight font pixels, packed.
pub open spec fn cell_height(size: PixelSize) -> int {
    div_ceil(8, size.step_y())
}

/// Rows of characters that fit into `area`, the last one possibly cut short.
pub open spec fn layout_rows(area: Rect, size: PixelSize) -> int {
    div_ceil(area.spec_bottom() - area.spec_top(), cell_height(size))
}

/// Characters that fit into one row of `area`, the last one possibly cut short.
pub open spec fn layout_columns(area: Rect, size: PixelSize) -> int {
    div_ceil(area.spec_right() - area.spec_left(), cell_width(size))
}

/// The place of the character in row `row` and column `column` of the text:
/// a full cell at its offset from the area's corner, cut off at the area's
/// right and bottom edges.
pub open spec fn layout_cell(area: Rect, size: PixelSize, row: int, column: int) -> Rect {
    let x = area.spec_left() + column * cell_width(size);
    let y = area.spec_top() + row * cell_height(size);
    Rect {
        x: x as u16,
        y: y as u16,
        width: least(cell_width(size), area.spec_right() - x) as u16,
        height: least(cell_height(size), area.spec_bottom() - y) as u16,
    }
}

/// The footprint of one character, as (columns, rows).
pub fn cell_size(pixel_size: &PixelSize) -> (extent: (u16, u16))
    ensures
        extent.0 == cell_width(*pixel_size),
        extent.1 == cell_height(*pixel_size),
{
    let (step_x, step_y) = pixels_per_cell(pixel_size);
    ((8 + step_x - 1) / step_x, (8 + step_y - 1) / step_y)
}

/// The extent of the layout of `area`, as (rows, columns): how many lines of
/// text and how many characters of a line have a cell.
pub fn layout_size(area: Rect, pixel_size: &PixelSize) -> (counts: (usize, usize))
    ensures
        counts.0 == layout_rows(area, *pixel_size),
        counts.1 == layout_columns(area, *pixel_size),
{
    let (width, height) = cell_size(pixel_size);
    proof {
        lemma_cell_extent(*pixel_size);
    }
    let rows: u32 = ((area.bottom() - area.top()) as u32 + height as u32 - 1) / height as u32;
    let columns: u32 = ((area.right() - area.left()) as u32 + width as u32 - 1) / width as u32;
    (rows as usize, columns as usize)
}

/// The cell for the character at place `column` of line `row` of a text
/// that is drawn into `area`, if the layout has a cell for it.
pub fn layout_at(area: Rect, pixel_size: &PixelSize, row: usize, column: usize) -> (cell: Option<
    Rect,
>)
    ensures
        cell == if row < layout_rows(area, *pixel_size) && column < layout_columns(
            area,
            *pixel_size,
        ) {
            Some(layout_cell(area, *pixel_size, row as int, column as int))
        } else {
            None
        },
{
    let (rows, columns) = layout_size(area, pixel_size);
    if row >= rows || column >= columns {
        return None;
    }
    let (width, height) = cell_size(pixel_size);
    proof {
        lemma_cell_extent(*pixel_size);
        lemma_div_ceil_steps(area.spec_right() - area.spec_left(), width as int, column as int);
        lemma_div_ceil_steps(area.spec_bottom() - area.spec_top(), height as int, row as int);
        assert(column * width >= column && row * height >= row) by (nonlinear_arith)
            requires
                width >= 1,
                height >= 1,
        ;
    }
    let x: u16 = area.left() + column as u16 * width;
    let y: u16 = area.top() + row as u16 * height;
    let clipped_width: u16 = if area.right() - x < width {
        area.right() - x
    } else {
        width
    };
    let clipped_height: u16 = if area.bottom() - y < height {
        area.bottom() - y
    } else {
        height
    };
    Some(Rect::new(x, y, clipped_width, clipped_height))
}

/// Splits `area` into rows of cells, one cell per character of a text, left to
/// right and top to bottom. Every cell has the footprint of a character at
/// `pixel_size`, but for those that touch the right or the bottom edge of the
/// area, which are cut off there. All cells are built at once; `layout_at`
/// hands them out one by one.
pub fn layout(area: Rect, pixel_size: &PixelSize) -> (rows: Vec<Vec<Rect>>)
    ensures
        rows.len() == layout_rows(area, *pixel_size),
        forall|i: int|
            0 <= i < rows.len() ==> (#[trigger] rows[i]).len() == layout_columns(
                area,
                *pixel_size,
            ),
        forall|i: int, j: int|
            0 <= i < rows.len() && 0 <= j < rows[i].len() ==> #[trigger] rows[i][j] == layout_cell(
                area,
                *pixel_size,
                i,
                j,
            ),
{
    let (width, height) = cell_size(pixel_size);
    let (left, right) = (area.left(), area.right());
    let (top, bottom) = (area.top(), area.bottom());
    let ghost size = *pixel_size;
    let mut rows: Vec<Vec<Rect>> = Vec::new();
    let mut y: u16 = top;
    assert(rows.len() * height == 0) by (nonlinear_arith)
        requires
            rows.len() == 0,
    ;
    while y < bottom
        invariant
            width == cell_width(size),
            height == cell_height(size),
            width > 0,
            height > 0,
            left == area.spec_left(),
            right == area.spec_right(),
            top == area.spec_top(),
            bottom == area.spec_bottom(),
            top <= y <= bottom,
            y < bottom ==> y == top + rows.len() * height,
            y == bottom ==> rows.len() * height >= bottom - top,
            rows.len() == 0 || (rows.len() - 1) * height < bottom - top,
            forall|i: int|
                0 <= i < rows.len() ==> (#[trigger] rows[i]).len() == layout_columns(area, size),
            forall|i: int, j: int|
                0 <= i < rows.len() && 0 <= j < rows[i].len() ==> #[trigger] rows[i][j]
                    == layout_cell(area, size, i, j),
        decreases bottom - y,
    {
        let clipped_height: u16 = if bottom - y < height {
            bottom - y
        } else {
            height
        };
        let mut row: Vec<Rect> = Vec::new();
        let mut x: u16 = left;
        assert(row.len() * width == 0) by (nonlinear_arith)
            requires
                row.len() == 0,
        ;
        while x < right
            invariant
                width == cell_width(size),
                height == cell_height(size),
                width > 0,
                left == area.spec_left(),
                right == area.spec_right(),
                top == area.spec_top(),
                bottom == area.spec_bottom(),
                y == top + rows.len() * height,
                y < bottom,
                clipped_height == least(height as int, bottom - y),
                left <= x <= right,
                x < right ==> x == left + row.len() * width,
                x == right ==> row.len() * width >= right - left,
                row.len() == 0 || (row.len() - 1) * width < right - left,
                forall|j: int|
                    0 <= j < row.len() ==> #[trigger] row[j] == layout_cell(
                        area,
                        size,
                        rows.len() as int,
                        j,
                    ),
            decreases right - x,
        {
            let clipped_width: u16 = if right - x < width {
                right - x
            } else {
                width
            };
            assert((row.len() + 1) * width == row.len() * width + width) by (nonlinear_arith);
            row.push(Rect::new(x, y, clipped_width, clipped_height));
            x = x + clipped_width;
        }
        proof {
            lemma_div_ceil_unique(right - left, width as int, row.len() as int);
            assert((rows.len() + 1) * height == rows.len() * height + height) by (nonlinear_arith);
        }
        rows.push(row);
        y = y + clipped_height;
    }
    proof {
        lemma_div_ceil_unique(bottom - top, height as int, rows.len() as int);
    }
    rows
}

/// A character is eight or four columns wide and eight, four or three rows
/// high.
pub proof fn lemma_cell_extent(size: PixelSize)
    ensures
        cell_width(size) == match size {
            PixelSize::Full | PixelSize::HalfHeight | PixelSize::ThirdHeight => 8int,
            PixelSize::HalfWidth | PixelSize::Quadrant | PixelSize::Sextant => 4int,
        },
        cell_height(size) == match size {
            PixelSize::Full | PixelSize::HalfWidth => 8int,
            PixelSize::HalfHeight | PixelSize::Quadrant => 4int,
            PixelSize::ThirdHeight | PixelSize::Sextant => 3int,
        },
{
    assert(div_ceil(8, 1) == 8 && div_ceil(8, 2) == 4 && div_ceil(8, 3) == 3);
}

/// The cells of a layout lie in its area and share it out: a position of the
/// area belongs to the cell of the text row and column that its distance
/// from the corner gives, and to no other.
pub proof fn lemma_layout_cell(area: Rect, size: PixelSize, row: int, column: int)
    requires
        0 <= row < layout_rows(area, size),
        0 <= column < layout_columns(area, size),
    ensures
        !layout_cell(area, size, row, column).is_vacant(),
        area.covers(layout_cell(area, size, row, column)),
        layout_cell(area, size, row, column).x == area.x + column * cell_width(size),
        layout_cell(area, size, row, column).y == area.y + row * cell_height(size),
        forall|x: int, y: int|
            layout_cell(area, size, row, column).contains(x, y) <==> (area.contains(x, y) && (x
                - area.x) / cell_width(size) == column && (y - area.y) / cell_height(size) == row),
{
    let cw = cell_width(size);
    let ch = cell_height(size);
    lemma_cell_extent(size);
    lemma_div_ceil_steps(area.spec_right() - area.spec_left(), cw, column);
    lemma_div_ceil_steps(area.spec_bottom() - area.spec_top(), ch, row);
    assert(column * cw >= 0 && row * ch >= 0) by (nonlinear_arith)
        requires
            column >= 0,
            row >= 0,
            cw > 0,
            ch > 0,
    ;
    let cell = layout_cell(area, size, row, column);
    assert forall|x: int, y: int|
        cell.contains(x, y) <==> (area.contains(x, y) && (x - area.x) / cw == column && (y
            - area.y) / ch == row) by {
        lemma_quotient(x - area.x, cw, column);
        lemma_quotient(y - area.y, ch, row);
    }
}

/// The layout has a cell for a text row and column if and only if the cell
/// begins before the bottom and the right edge of the area.
pub proof fn lemma_layout_has_cell(area: Rect, size: PixelSize, row: int, column: int)
    requires
        0 <= row,
        0 <= column,
    ensures
        row < layout_rows(area, size) <==> area.y + row * cell_height(size) < area.spec_bottom(),
        column < layout_columns(area, size) <==> area.x + column * cell_width(size)
            < area.spec_right(),
{
    lemma_cell_extent(size);
    lemma_div_ceil_steps(area.spec_right() - area.spec_left(), cell_width(size), column);
    lemma_div_ceil_steps(area.spec_bottom() - area.spec_top(), cell_height(size), row);
}

/// A position of the area belongs to a text row and column of the layout.
pub proof fn lemma_layout_covers_area(area: Rect, size: PixelSize, x: int, y: int)
    requires
        area.contains(x, y),
    ensures
        0 <= (x - area.x) / cell_width(size) < layout_columns(area, size),
        0 <= (y - area.y) / cell_height(size) < layout_rows(area, size),
        0 <= (x - area.x) % cell_width(size) < cell_width(size),
        0 <= (y - area.y) % cell_height(size) < cell_height(size),
{
    let cw = cell_width(size);
    let ch = cell_height(size);
    lemma_cell_extent(size);
    let column = (x - area.x) / cw;
    let row = (y - area.y) / ch;
    lemma_quotient(x - area.x, cw, column);
    lemma_quotient(y - area.y, ch, row);
    assert(column >= 0 && row >= 0) by (nonlinear_arith)
        requires
            column * cw + cw > 0,
            row * ch + ch > 0,
            cw > 0,
            ch > 0,
    ;
    lemma_div_ceil_steps(area.spec_right() - area.spec_left(), cw, column);
    lemma_div_ceil_steps(area.spec_bottom() - area.spec_top(), ch, row);
}

/// An area of `width` columns and `height` rows, none of them past the last
/// coordinate, has a column of cells for every full width of a character
/// and one more for a rest, and rows alike. The cells are as large as a
/// character, but the last column is as wide and the last row as high as
/// the rest, where there is one.
pub proof fn lemma_layout_count(area: Rect, size: PixelSize, row: int, column: int)
    requires
        area.x + area.width <= u16::MAX,
        area.y + area.height <= u16::MAX,
        0 <= row < layout_rows(area, size),
        0 <= column < layout_columns(area, size),
    ensures
        layout_columns(area, size) == div_ceil(area.width as int, cell_width(size)),
        layout_rows(area, size) == div_ceil(area.height as int, cell_height(size)),
        layout_cell(area, size, row, column).width == if column == layout_columns(area, size) - 1
            && area.width as int % cell_width(size) != 0 {
            area.width as int % cell_width(size)
        } else {
            cell_width(size)
        },
        layout_cell(area, size, row, column).height == if row == layout_rows(area, size) - 1
            && area.height as int % cell_height(size) != 0 {
            area.height as int % cell_height(size)
        } else {
            cell_height(size)
        },
{
    let cw = cell_width(size);
    let ch = cell_height(size);
    lemma_cell_extent(size);
    lemma_layout_cell(area, size, row, column);
    lemma_last_step(area.width as int, cw, column);
    lemma_last_step(area.height as int, ch, row);
}

} // verus!
