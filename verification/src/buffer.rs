//! The terminal buffer that the text is drawn into, as far as the drawing
//! code needs it.
//!
//! The buffer is `ratatui`'s. Nothing in this file is proved:
//! it states what the calls into `ratatui` do, over a model of the buffer as
//! an area and a row-major sequence of cells.

use vstd::prelude::*;
use ratatui::buffer::Buffer;
use ratatui::style::Style;
use crate::grid::{Grid, StyledSymbol};
use crate::rect::Rect;

verus! {

/// `ratatui::buffer::Buffer`: the cells of a rectangular part of the screen.
#[verifier::external_type_specification]
#[verifier::external_body]
pub struct ExBuffer(ratatui::buffer::Buffer);

/// The area that a buffer stands for: its field `area`.
pub uninterp spec fn buffer_area(buf: Buffer) -> Rect;

/// The cells of a buffer, row by row, as its field `content` holds them:
/// of each cell the string that `Cell::symbol` returns and the style that
/// `Cell::style` returns.
pub uninterp spec fn buffer_cells(buf: Buffer) -> Seq<StyledSymbol>;

/// The style that `Cell::style` returns once `Cell::set_style` has been
/// called with `style` on a cell for which it returned `cell` before.
pub uninterp spec fn restyled(cell: Style, style: Style) -> Style;

/// A buffer as the contracts see it.
pub open spec fn grid(buf: Buffer) -> Grid {
    Grid { area: buffer_area(buf), cells: buffer_cells(buf) }
}

/// Calls `Buffer::set_style`, which calls `Cell::set_style` with `style` on
/// every cell of the buffer that lies in `area`, wherever `area` lies. The
/// symbols stay, and so do the cells outside `area`.
#[verifier::external_body]
pub(crate) fn set_style(buf: &mut Buffer, area: Rect, style: Style)
    requires
        grid(*old(buf)).wf(),
    ensures
        buffer_area(*final(buf)) == buffer_area(*old(buf)),
        buffer_cells(*final(buf)) == Seq::new(
            buffer_cells(*old(buf)).len(),
            |i: int|
                if area.contains(grid(*old(buf)).column_of(i), grid(*old(buf)).row_of(i)) {
                    StyledSymbol {
                        symbol: buffer_cells(*old(buf))[i].symbol,
                        style: restyled(buffer_cells(*old(buf))[i].style, style),
                    }
                } else {
                    buffer_cells(*old(buf))[i]
                },
        ),
{
    let area = ratatui::layout::Rect {
        x: area.x,
        y: area.y,
        width: area.width,
        height: area.height,
    };
    buf.set_style(area, style);
}

/// Calls `Buffer::get_mut` for the cell in column `x` and row `y`, and
/// `Cell::set_char` on it: the cell's symbol becomes the one character, its
/// style stays, and so does every other cell.
#[verifier::external_body]
pub(crate) fn set_char(buf: &mut Buffer, x: u16, y: u16, ch: char)
    requires
        grid(*old(buf)).wf(),
        grid(*old(buf)).area.contains(x as int, y as int),
    ensures
        buffer_area(*final(buf)) == buffer_area(*old(buf)),
        buffer_cells(*final(buf)) == buffer_cells(*old(buf)).update(
            grid(*old(buf)).index_of(x as int, y as int),
            StyledSymbol {
                symbol: seq![ch],
                style: buffer_cells(*old(buf))[grid(*old(buf)).index_of(x as int, y as int)].style,
            },
        ),
{
    buf.get_mut(x, y).set_char(ch);
}

/// Reads the area of the buffer, which `Buffer::area` returns.
#[verifier::external_body]
pub(crate) fn area_of(buf: &Buffer) -> (area: Rect)
    ensures
        area == buffer_area(*buf),
{
    let area = buf.area();
    Rect { x: area.x, y: area.y, width: area.width, height: area.height }
}

/// Counts the cells of the buffer: the length of what `Buffer::content`
/// returns.
#[verifier::external_body]
pub(crate) fn cell_count(buf: &Buffer) -> (count: usize)
    ensures
        count == buffer_cells(*buf).len(),
{
    buf.content().len()
}

} // verus!
