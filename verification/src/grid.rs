//! A rectangular grid of styled symbols: the model of a terminal buffer.

use vstd::prelude::*;
use vstd::arithmetic::div_mod::{lemma_fundamental_div_mod, lemma_fundamental_div_mod_converse};
use ratatui::style::Style;
use crate::buffer::restyled;
use crate::rect::Rect;

verus! {

/// A string of characters together with a style: what one cell of a terminal
/// shows, or one grapheme of a styled line.
pub struct StyledSymbol {
    /// The characters.
    pub symbol: Seq<char>,
    /// Their style.
    pub style: Style,
}

/// The cells of an area of the terminal, row by row from the top, each row
/// from the left.
pub struct Grid {
    /// The part of the terminal that the cells belong to.
    pub area: Rect,
    /// The cells: `area.width` for each of the `area.height` rows.
    pub cells: Seq<StyledSymbol>,
}

impl Grid {
    /// There is one cell for each position of the area, and the index of a
    /// cell fits into 16 bits.
    pub open spec fn wf(self) -> bool {
        self.cells.len() == self.area.width * self.area.height && self.cells.len() <= 0x1_0000
    }

    /// The index of the cell in column `x` and row `y`.
    pub open spec fn index_of(self, x: int, y: int) -> int {
        (y - self.area.y) * self.area.width + (x - self.area.x)
    }

    /// The column of the cell with index `i`.
    pub open spec fn column_of(self, i: int) -> int {
        self.area.x + i % (self.area.width as int)
    }

    /// The row of the cell with index `i`.
    pub open spec fn row_of(self, i: int) -> int {
        self.area.y + i / (self.area.width as int)
    }

    /// The cell in column `x` and row `y`.
    pub open spec fn at(self, x: int, y: int) -> StyledSymbol {
        self.cells[self.index_of(x, y)]
    }

    /// The part of the grid that lies in `area`, as a grid of its own.
    pub open spec fn cropped(self, area: Rect) -> Grid {
        let width = area.spec_right() - area.spec_left();
        let height = area.spec_bottom() - area.spec_top();
        Grid {
            area: Rect { x: area.x, y: area.y, width: width as u16, height: height as u16 },
            cells: Seq::new(
                (width * height) as nat,
                |i: int| self.at(area.x + i % width, area.y + i / width),
            ),
        }
    }

    /// The grid with `style` laid over the style of every cell in `area`.
    pub open spec fn styled(self, area: Rect, style: Style) -> Grid {
        Grid {
            area: self.area,
            cells: Seq::new(
                self.cells.len(),
                |i: int|
                    if area.contains(self.column_of(i), self.row_of(i)) {
                        StyledSymbol {
                            symbol: self.cells[i].symbol,
                            style: restyled(self.cells[i].style, style),
                        }
                    } else {
                        self.cells[i]
                    },
            ),
        }
    }
}

/// A position of the area has a cell of its own, and the cell leads back to
/// the position.
pub proof fn lemma_cell_of_position(g: Grid, x: int, y: int)
    requires
        g.wf(),
        g.area.contains(x, y),
    ensures
        0 <= g.index_of(x, y) < g.cells.len(),
        g.column_of(g.index_of(x, y)) == x,
        g.row_of(g.index_of(x, y)) == y,
{
    let w = g.area.width as int;
    let h = g.area.height as int;
    let c = x - g.area.x;
    let r = y - g.area.y;
    assert(0 <= r * w + c < w * h) by (nonlinear_arith)
        requires
            0 <= c < w,
            0 <= r < h,
    ;
    lemma_fundamental_div_mod_converse(r * w + c, w, r, c);
}

/// A cell has a column and a row within the extent of the area, and they
/// lead back to the cell.
pub proof fn lemma_position_of_cell(g: Grid, i: int)
    requires
        g.wf(),
        0 <= i < g.cells.len(),
    ensures
        g.area.x <= g.column_of(i) < g.area.x + g.area.width,
        g.area.y <= g.row_of(i) < g.area.y + g.area.height,
        g.index_of(g.column_of(i), g.row_of(i)) == i,
{
    let w = g.area.width as int;
    let h = g.area.height as int;
    assert(w > 0) by (nonlinear_arith)
        requires
            0 <= i < w * h,
            w >= 0,
    ;
    lemma_fundamental_div_mod(i, w);
    assert(0 <= i / w < h && 0 <= i % w < w && (i / w) * w + i % w == i) by (nonlinear_arith)
        requires
            0 <= i < w * h,
            w > 0,
            i == w * (i / w) + i % w,
            0 <= i % w < w,
    ;
}

} // verus!
