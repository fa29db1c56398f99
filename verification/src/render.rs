//! What drawing a text does to a grid, and the drawing of one grapheme.

use vstd::prelude::*;
use ratatui::buffer::Buffer;
use crate::buffer::{grid, restyled, set_style};
use crate::font::{basic_glyph, lookup_glyph};
use crate::glyph::{footprint, glyph_drawn, glyph_symbol, render_glyph};
use crate::grid::{lemma_cell_of_position, lemma_position_of_cell, Grid, StyledSymbol};
use crate::arith::lemma_quotient;
use crate::layout::{
    cell_height, cell_width, layout_cell, layout_columns, layout_rows, lemma_cell_extent,
    lemma_layout_cell, lemma_layout_covers_area, lemma_layout_has_cell,
};
use crate::pixel_size::PixelSize;
use crate::rect::{lemma_covers_cells, Rect};
use crate::text::StyledGrapheme;

verus! {

/// The bitmap for a grapheme: that of its first character, if the grapheme
/// has one and the font knows it. Further characters of a grapheme are not
/// drawn.
pub open spec fn glyph_of(symbol: Seq<char>) -> Option<[u8; 8]> {
    if symbol.len() > 0 {
        basic_glyph(symbol[0])
    } else {
        None
    }
}

/// The grid with one grapheme drawn into `area`: all of `area` takes the
/// grapheme's style, and the grapheme's bitmap, if it has one, is drawn on
/// top.
pub open spec fn symbol_drawn(
    g: Grid,
    area: Rect,
    grapheme: StyledSymbol,
    size: PixelSize,
) -> Grid {
    match glyph_of(grapheme.symbol) {
        Some(glyph) => glyph_drawn(g.styled(area, grapheme.style), area, glyph, size),
        None => g.styled(area, grapheme.style),
    }
}

/// What a cell shows once a grapheme has been drawn over it: `dx` and `dy`
/// say where the cell lies in the grapheme's footprint.
pub open spec fn drawn_cell(
    cell: StyledSymbol,
    grapheme: StyledSymbol,
    size: PixelSize,
    dx: int,
    dy: int,
) -> StyledSymbol {
    StyledSymbol {
        symbol: match glyph_of(grapheme.symbol) {
            Some(glyph) => seq![glyph_symbol(glyph, size, dx, dy)],
            None => cell.symbol,
        },
        style: restyled(cell.style, grapheme.style),
    }
}

/// The cell with index `i` once `text` has been drawn into `area`.
///
/// The distance of the cell from the top left corner of `area`, divided by
/// the footprint of a character, gives the line and the place in that line
/// of the one grapheme that can reach the cell, and the remainders give the
/// cell's place in that grapheme's footprint. Where the text has such a
/// grapheme, the cell shows it. A cell outside `area`, below the last line or
/// right of the end of its line stays as it is.
pub open spec fn rendered_cell(
    text: Seq<Seq<StyledSymbol>>,
    size: PixelSize,
    area: Rect,
    g: Grid,
    i: int,
) -> StyledSymbol {
    let x = g.column_of(i) - area.x;
    let y = g.row_of(i) - area.y;
    let line = y / cell_height(size);
    let place = x / cell_width(size);
    if area.contains(g.column_of(i), g.row_of(i)) && line < text.len() && place
        < text[line].len() {
        drawn_cell(
            g.cells[i],
            text[line][place],
            size,
            x % cell_width(size),
            y % cell_height(size),
        )
    } else {
        g.cells[i]
    }
}

/// The grid with `text` drawn into `area`, one grapheme per cell of the
/// layout: line by line from the top, each line from the left.
pub open spec fn rendered(
    text: Seq<Seq<StyledSymbol>>,
    size: PixelSize,
    area: Rect,
    g: Grid,
) -> Grid {
    Grid {
        area: g.area,
        cells: Seq::new(g.cells.len(), |i: int| rendered_cell(text, size, area, g, i)),
    }
}

/// Whether drawing `text` into `area` draws a bitmap for the grapheme at
/// place `j` of line `i`: the text has that grapheme, the layout has a cell
/// for it, and the font has a bitmap.
pub open spec fn draws_glyph(
    text: Seq<Seq<StyledSymbol>>,
    size: PixelSize,
    area: Rect,
    i: int,
    j: int,
) -> bool {
    0 <= i < text.len() && i < layout_rows(area, size) && 0 <= j < text[i].len() && j
        < layout_columns(area, size) && glyph_of(text[i][j].symbol) is Some
}

/// Whether `text` can be drawn into `area` of the grid: the grid has its
/// cells, and every bitmap to draw has the cell of its grapheme within the
/// grid. Where `area` reaches beyond the grid, the text must leave that part
/// empty.
pub open spec fn fits(text: Seq<Seq<StyledSymbol>>, size: PixelSize, area: Rect, g: Grid) -> bool {
    &&& g.wf()
    &&& forall|i: int, j: int| #[trigger]
        draws_glyph(text, size, area, i, j) ==> g.area.covers(layout_cell(area, size, i, j))
}

/// The first character of a string, if it has any.
pub fn first_char(symbol: &str) -> (first: Option<char>)
    ensures
        first == if symbol@.len() > 0 {
            Some(symbol@[0])
        } else {
            None
        },
{
    if symbol.unicode_len() > 0 {
        Some(symbol.get_char(0))
    } else {
        None
    }
}

/// Draws one grapheme into `area` of the buffer: the cells of `area` take the
/// grapheme's style, and show the bitmap of its first character where the
/// font has one. A grapheme without a bitmap leaves the symbols as they are,
/// and its area need not lie in the buffer: the cells outside are passed
/// over.
pub fn render_symbol(
    grapheme: &StyledGrapheme,
    area: Rect,
    buf: &mut Buffer,
    pixel_size: &PixelSize,
)
    requires
        grid(*old(buf)).wf(),
        glyph_of(grapheme@.symbol) is Some ==> grid(*old(buf)).area.covers(
            footprint(area, *pixel_size),
        ),
    ensures
        grid(*final(buf)) == symbol_drawn(grid(*old(buf)), area, grapheme@, *pixel_size),
{
    set_style(buf, area, grapheme.style);
    if let Some(c) = first_char(grapheme.symbol.as_str()) {
        if let Some(glyph) = lookup_glyph(c) {
            render_glyph(glyph, area, buf, pixel_size);
        }
    }
}

/// Any text can be drawn into an area that lies within the grid.
pub proof fn lemma_fits_within(text: Seq<Seq<StyledSymbol>>, size: PixelSize, area: Rect, g: Grid)
    requires
        g.wf(),
        g.area.covers(area),
    ensures
        fits(text, size, area, g),
{
    assert forall|i: int, j: int| #[trigger]
        draws_glyph(text, size, area, i, j) implies g.area.covers(
        layout_cell(area, size, i, j),
    ) by {
        lemma_layout_cell(area, size, i, j);
        lemma_covers_cells(area, layout_cell(area, size, i, j));
        lemma_covers_cells(g.area, area);
        lemma_covers_cells(g.area, layout_cell(area, size, i, j));
    }
}

/// A text that can be drawn into an area can be drawn into any smaller area
/// with the same top left corner.
pub proof fn lemma_fits_truncated(
    text: Seq<Seq<StyledSymbol>>,
    size: PixelSize,
    large: Rect,
    small: Rect,
    g: Grid,
)
    requires
        fits(text, size, large, g),
        small.x == large.x,
        small.y == large.y,
        small.width <= large.width,
        small.height <= large.height,
    ensures
        fits(text, size, small, g),
{
    assert forall|i: int, j: int| #[trigger]
        draws_glyph(text, size, small, i, j) implies g.area.covers(
        layout_cell(small, size, i, j),
    ) by {
        lemma_cell_extent(size);
        lemma_layout_has_cell(small, size, i, j);
        lemma_layout_has_cell(large, size, i, j);
        assert(draws_glyph(text, size, large, i, j));
        lemma_layout_cell(small, size, i, j);
        lemma_layout_cell(large, size, i, j);
        lemma_covers_cells(layout_cell(large, size, i, j), layout_cell(small, size, i, j));
        lemma_covers_cells(g.area, layout_cell(large, size, i, j));
        lemma_covers_cells(g.area, layout_cell(small, size, i, j));
    }
}

/// Drawing touches no cell outside `area`, and none for which the text has
/// no grapheme.
pub proof fn lemma_rest_stays(
    text: Seq<Seq<StyledSymbol>>,
    size: PixelSize,
    area: Rect,
    g: Grid,
    i: int,
)
    requires
        0 <= i < g.cells.len(),
        !area.contains(g.column_of(i), g.row_of(i)) || (g.row_of(i) - area.y) / cell_height(size)
            >= text.len() || (g.column_of(i) - area.x) / cell_width(size) >= text[(g.row_of(i)
            - area.y) / cell_height(size)].len(),
    ensures
        rendered(text, size, area, g).cells[i] == g.cells[i],
{
}

/// Every cell in the footprint of a grapheme takes the style of that
/// grapheme, whether the font has a bitmap for it or not; without a bitmap
/// the cell keeps its symbol. The lines of the text lie in bands as high as
/// a character, the graphemes of a line in columns as wide as one.
pub proof fn lemma_style_spreads(
    text: Seq<Seq<StyledSymbol>>,
    size: PixelSize,
    area: Rect,
    g: Grid,
    i: int,
)
    requires
        0 <= i < g.cells.len(),
        area.contains(g.column_of(i), g.row_of(i)),
        (g.row_of(i) - area.y) / cell_height(size) < text.len(),
        (g.column_of(i) - area.x) / cell_width(size) < text[(g.row_of(i) - area.y) / cell_height(
            size,
        )].len(),
    ensures
        ({
            let line = (g.row_of(i) - area.y) / cell_height(size);
            let place = (g.column_of(i) - area.x) / cell_width(size);
            let cell = rendered(text, size, area, g).cells[i];
            &&& 0 <= line
            &&& 0 <= place
            &&& cell.style == restyled(g.cells[i].style, text[line][place].style)
            &&& glyph_of(text[line][place].symbol) is None ==> cell.symbol == g.cells[i].symbol
        }),
{
    lemma_layout_covers_area(area, size, g.column_of(i), g.row_of(i));
}

/// Drawing a text again changes no symbol: every cell shows what it showed
/// after the first time.
pub proof fn lemma_symbols_settle(
    text: Seq<Seq<StyledSymbol>>,
    size: PixelSize,
    area: Rect,
    g: Grid,
    i: int,
)
    requires
        0 <= i < g.cells.len(),
    ensures
        rendered(text, size, area, rendered(text, size, area, g)).cells[i].symbol == rendered(
            text,
            size,
            area,
            g,
        ).cells[i].symbol,
{
}

/// A smaller area cuts the text off and changes nothing else: a cell of the
/// smaller area shows what it would show if the text had been drawn into a
/// larger area with the same top left corner.
pub proof fn lemma_truncation(
    text: Seq<Seq<StyledSymbol>>,
    size: PixelSize,
    large: Rect,
    small: Rect,
    g: Grid,
    i: int,
)
    requires
        small.x == large.x,
        small.y == large.y,
        small.width <= large.width,
        small.height <= large.height,
        0 <= i < g.cells.len(),
        small.contains(g.column_of(i), g.row_of(i)),
    ensures
        rendered(text, size, small, g).cells[i] == rendered(text, size, large, g).cells[i],
{
}

/// Drawing into a small grid gives what drawing into a large grid and
/// cropping gives: for an area and a smaller one with the same top left
/// corner, the text drawn into the smaller area of the cropped grid is the
/// crop of the text drawn into the larger area.
pub proof fn lemma_truncation_cropped(
    text: Seq<Seq<StyledSymbol>>,
    size: PixelSize,
    large: Rect,
    small: Rect,
    g: Grid,
)
    requires
        g.wf(),
        g.area.covers(large),
        small.x == large.x,
        small.y == large.y,
        small.width <= large.width,
        small.height <= large.height,
    ensures
        g.cropped(small).wf(),
        rendered(text, size, small, g.cropped(small)) == rendered(text, size, large, g).cropped(
            small,
        ),
{
    let crop = g.cropped(small);
    let width = small.spec_right() - small.spec_left();
    let height = small.spec_bottom() - small.spec_top();
    let left = rendered(text, size, small, crop);
    let right = rendered(text, size, large, g).cropped(small);
    assert(0 <= width * height <= g.area.width * g.area.height) by (nonlinear_arith)
        requires
            0 <= width <= g.area.width || height == 0,
            0 <= height <= g.area.height || width == 0,
            0 <= width,
            0 <= height,
    ;
    assert forall|i: int| 0 <= i < crop.cells.len() implies left.cells[i] == right.cells[i] by {
        lemma_position_of_cell(crop, i);
        let x = crop.column_of(i);
        let y = crop.row_of(i);
        assert(small.contains(x, y));
        assert(large.contains(x, y));
        lemma_cell_of_position(g, x, y);
    }
    assert(left.cells =~= right.cells);
}

/// The grid when the first `lines` lines of `text` and the first `places`
/// graphemes of the next line have been drawn.
pub(crate) open spec fn rendered_until(
    text: Seq<Seq<StyledSymbol>>,
    size: PixelSize,
    area: Rect,
    g: Grid,
    lines: int,
    places: int,
) -> Grid {
    Grid {
        area: g.area,
        cells: Seq::new(
            g.cells.len(),
            |i: int|
                {
                    let line = (g.row_of(i) - area.y) / cell_height(size);
                    let place = (g.column_of(i) - area.x) / cell_width(size);
                    if line < lines || (line == lines && place < places) {
                        rendered_cell(text, size, area, g, i)
                    } else {
                        g.cells[i]
                    }
                },
        ),
    }
}

/// A cell whose distance from the corner of `area` gives a line or a place
/// below zero lies outside `area`, and a cell outside `area` stays.
pub(crate) proof fn lemma_stays_outside(
    text: Seq<Seq<StyledSymbol>>,
    size: PixelSize,
    area: Rect,
    g: Grid,
    i: int,
)
    ensures
        (g.row_of(i) - area.y) / cell_height(size) < 0 ==> !area.contains(
            g.column_of(i),
            g.row_of(i),
        ),
        (g.column_of(i) - area.x) / cell_width(size) < 0 ==> !area.contains(
            g.column_of(i),
            g.row_of(i),
        ),
        !area.contains(g.column_of(i), g.row_of(i)) ==> rendered_cell(text, size, area, g, i)
            == g.cells[i],
{
    lemma_cell_extent(size);
    if area.contains(g.column_of(i), g.row_of(i)) {
        lemma_layout_covers_area(area, size, g.column_of(i), g.row_of(i));
    }
}

/// Drawing the grapheme at place `j` of line `i` takes the grid from the
/// state before that grapheme to the state after it.
pub(crate) proof fn lemma_symbol_step(
    text: Seq<Seq<StyledSymbol>>,
    size: PixelSize,
    area: Rect,
    g: Grid,
    i: int,
    j: int,
)
    requires
        0 <= i < text.len(),
        i < layout_rows(area, size),
        0 <= j < text[i].len(),
        j < layout_columns(area, size),
    ensures
        symbol_drawn(
            rendered_until(text, size, area, g, i, j),
            layout_cell(area, size, i, j),
            text[i][j],
            size,
        ) == rendered_until(text, size, area, g, i, j + 1),
{
    let cell = layout_cell(area, size, i, j);
    let current = rendered_until(text, size, area, g, i, j);
    let after = symbol_drawn(current, cell, text[i][j], size);
    let next = rendered_until(text, size, area, g, i, j + 1);
    let cw = cell_width(size);
    let ch = cell_height(size);
    lemma_cell_extent(size);
    lemma_layout_cell(area, size, i, j);
    assert forall|k: int| 0 <= k < g.cells.len() implies after.cells[k] == next.cells[k] by {
        let x = g.column_of(k);
        let y = g.row_of(k);
        lemma_quotient(x - area.x, cw, j);
        lemma_quotient(y - area.y, ch, i);
        lemma_stays_outside(text, size, area, g, k);
        assert(current.column_of(k) == x && current.row_of(k) == y);
        if cell.contains(x, y) {
            assert(x - cell.x == (x - area.x) % cw);
            assert(y - cell.y == (y - area.y) % ch);
        }
    }
    assert(after.cells =~= next.cells);
}

/// When a line has no grapheme left, or the layout no cell for one, the
/// line is done.
pub(crate) proof fn lemma_line_done(
    text: Seq<Seq<StyledSymbol>>,
    size: PixelSize,
    area: Rect,
    g: Grid,
    i: int,
    j: int,
)
    requires
        0 <= i < text.len(),
        j == text[i].len() || j == layout_columns(area, size),
        j <= text[i].len(),
        j <= layout_columns(area, size),
    ensures
        rendered_until(text, size, area, g, i, j) == rendered_until(text, size, area, g, i + 1, 0),
{
    let here = rendered_until(text, size, area, g, i, j);
    let next = rendered_until(text, size, area, g, i + 1, 0);
    assert forall|k: int| 0 <= k < g.cells.len() implies here.cells[k] == next.cells[k] by {
        lemma_stays_outside(text, size, area, g, k);
        if area.contains(g.column_of(k), g.row_of(k)) {
            lemma_layout_covers_area(area, size, g.column_of(k), g.row_of(k));
        }
    }
    assert(here.cells =~= next.cells);
}

/// When the text has no line left, or the layout no row for one, the text is
/// drawn.
pub(crate) proof fn lemma_text_done(
    text: Seq<Seq<StyledSymbol>>,
    size: PixelSize,
    area: Rect,
    g: Grid,
    i: int,
)
    requires
        i == text.len() || i == layout_rows(area, size),
        0 <= i <= text.len(),
        i <= layout_rows(area, size),
    ensures
        rendered_until(text, size, area, g, i, 0) == rendered(text, size, area, g),
{
    let here = rendered_until(text, size, area, g, i, 0);
    let done = rendered(text, size, area, g);
    assert forall|k: int| 0 <= k < g.cells.len() implies here.cells[k] == done.cells[k] by {
        lemma_stays_outside(text, size, area, g, k);
        if area.contains(g.column_of(k), g.row_of(k)) {
            lemma_layout_covers_area(area, size, g.column_of(k), g.row_of(k));
        }
    }
    assert(here.cells =~= done.cells);
}

} // verus!
