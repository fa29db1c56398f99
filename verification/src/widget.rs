//! The widget: lines of text to draw in big characters, and its builder.

use vstd::prelude::*;
use ratatui::buffer::Buffer;
use ratatui::style::Style;
use ratatui::text::Line;
use crate::buffer::{area_of, cell_count, grid};
use crate::grid::StyledSymbol;
use crate::layout::{
    layout_at, layout_cell, layout_columns, layout_rows, layout_size, lemma_layout_cell,
};
use crate::pixel_size::PixelSize;
use crate::rect::Rect;
use crate::font::lookup_glyph;
use crate::render::{
    draws_glyph, first_char, fits, glyph_of, lemma_line_done, lemma_stays_outside,
    lemma_symbol_step, lemma_text_done, render_symbol, rendered, rendered_until,
};
use crate::style::is_default_style;
use crate::text::{line_graphemes, styled_graphemes, StyledGrapheme};

verus! {

/// Lines of text to draw in big characters.
#[derive(Debug, Clone, PartialEq, Eq, Hash)]
pub struct BigText<'a> {
    /// The text, line by line.
    pub lines: Vec<Line<'a>>,
    /// The style that the styles of the lines and their spans are laid over.
    pub style: Style,
    /// How many font pixels a terminal cell shows.
    pub pixel_size: PixelSize,
}

impl<'a> BigText<'a> {
    /// The graphemes of each line, with the styles to draw them in.
    pub open spec fn text(&self) -> Seq<Seq<StyledSymbol>> {
        Seq::new(self.lines@.len(), |i: int| line_graphemes(self.lines@[i], self.style))
    }

    /// Whether the text can be drawn into `area` of the buffer: whether the
    /// buffer has a cell for each position of its area, and no bitmap would
    /// have to be drawn outside the buffer.
    pub fn can_render(&self, area: Rect, buf: &Buffer) -> (possible: bool)
        ensures
            possible == fits(self.text(), self.pixel_size, area, grid(*buf)),
    {
        let whole = area_of(buf);
        let count = cell_count(buf);
        assert(whole.width * whole.height <= 0xffff * 0xffff) by (nonlinear_arith)
            requires
                0 <= whole.width <= 0xffff,
                0 <= whole.height <= 0xffff,
        ;
        let expected: u64 = (whole.width as u64) * (whole.height as u64);
        if count as u64 != expected || expected > 0x1_0000 {
            return false;
        }
        let (rows, columns) = layout_size(area, &self.pixel_size);
        let ghost text = self.text();
        let ghost size = self.pixel_size;
        let mut i: usize = 0;
        while i < self.lines.len() && i < rows
            invariant
                text == self.text(),
                size == self.pixel_size,
                whole == grid(*buf).area,
                grid(*buf).wf(),
                rows == layout_rows(area, size),
                columns == layout_columns(area, size),
                i <= self.lines.len(),
                i <= rows,
                forall|r: int, c: int|
                    r < i && #[trigger] draws_glyph(text, size, area, r, c) ==> whole.covers(
                        layout_cell(area, size, r, c),
                    ),
            decreases self.lines.len() - i,
        {
            let graphemes = styled_graphemes(&self.lines[i], self.style);
            let mut j: usize = 0;
            proof {
                assert(graphemes@.map_values(|g: StyledGrapheme| g@) == text[i as int]);
            }
            while j < graphemes.len() && j < columns
                invariant
                    text == self.text(),
                    size == self.pixel_size,
                    whole == grid(*buf).area,
                    i < self.lines.len(),
                    i < rows,
                    rows == layout_rows(area, size),
                    columns == layout_columns(area, size),
                    graphemes@.map_values(|g: StyledGrapheme| g@) == text[i as int],
                    j <= graphemes.len(),
                    j <= columns,
                    forall|c: int|
                        c < j && #[trigger] draws_glyph(text, size, area, i as int, c)
                            ==> whole.covers(layout_cell(area, size, i as int, c)),
                decreases graphemes.len() - j,
            {
                proof {
                    assert(graphemes@.map_values(|g: StyledGrapheme| g@)[j as int]
                        == graphemes[j as int]@);
                }
                if let Some(c) = first_char(graphemes[j].symbol.as_str()) {
                    if let Some(cell) = layout_at(area, &self.pixel_size, i, j) {
                        if lookup_glyph(c).is_some() && !whole.covers(cell) {
                            assert(draws_glyph(text, size, area, i as int, j as int));
                            return false;
                        }
                    }
                }
                j = j + 1;
            }
            i = i + 1;
        }
        true
    }

    /// Draws the text into `area` of the buffer. Each line takes a row of
    /// character cells and each grapheme one cell of that row, as the layout
    /// of `area` shares them out; lines and graphemes for which `area` has no
    /// cell are left out. No bitmap may fall outside the buffer.
    pub fn render(&self, area: Rect, buf: &mut Buffer)
        requires
            fits(self.text(), self.pixel_size, area, grid(*old(buf))),
        ensures
            grid(*final(buf)) == rendered(self.text(), self.pixel_size, area, grid(*old(buf))),
    {
        let (rows, columns) = layout_size(area, &self.pixel_size);
        let ghost before = grid(*buf);
        let ghost text = self.text();
        let ghost size = self.pixel_size;
        let mut i: usize = 0;
        proof {
            assert(grid(*buf).cells =~= rendered_until(text, size, area, before, 0, 0).cells) by {
                assert forall|k: int| 0 <= k < before.cells.len() implies before.cells[k]
                    == rendered_until(text, size, area, before, 0, 0).cells[k] by {
                    lemma_stays_outside(text, size, area, before, k);
                }
            }
        }
        while i < self.lines.len() && i < rows
            invariant
                fits(text, size, area, before),
                text == self.text(),
                size == self.pixel_size,
                rows == layout_rows(area, size),
                columns == layout_columns(area, size),
                i <= self.lines.len(),
                i <= rows,
                grid(*buf) == rendered_until(text, size, area, before, i as int, 0),
            decreases self.lines.len() - i,
        {
            let graphemes = styled_graphemes(&self.lines[i], self.style);
            let mut j: usize = 0;
            proof {
                assert(graphemes@.map_values(|g: StyledGrapheme| g@) == text[i as int]);
            }
            while j < graphemes.len() && j < columns
                invariant
                    fits(text, size, area, before),
                    text == self.text(),
                    size == self.pixel_size,
                    rows == layout_rows(area, size),
                    columns == layout_columns(area, size),
                    i < self.lines.len(),
                    i < rows,
                    graphemes@.map_values(|g: StyledGrapheme| g@) == text[i as int],
                    j <= graphemes.len(),
                    j <= columns,
                    grid(*buf) == rendered_until(text, size, area, before, i as int, j as int),
                decreases graphemes.len() - j,
            {
                proof {
                    assert(graphemes[j as int]@ == text[i as int][j as int]) by {
                        assert(graphemes@.map_values(|g: StyledGrapheme| g@)[j as int]
                            == graphemes[j as int]@);
                    }
                    if glyph_of(graphemes[j as int]@.symbol) is Some {
                        assert(draws_glyph(text, size, area, i as int, j as int));
                        lemma_layout_cell(area, size, i as int, j as int);
                    }
                }
                if let Some(cell) = layout_at(area, &self.pixel_size, i, j) {
                    render_symbol(&graphemes[j], cell, buf, &self.pixel_size);
                }
                proof {
                    lemma_symbol_step(text, size, area, before, i as int, j as int);
                }
                j = j + 1;
            }
            proof {
                lemma_line_done(text, size, area, before, i as int, j as int);
            }
            i = i + 1;
        }
        proof {
            lemma_text_done(text, size, area, before, i as int);
        }
    }

    /// Draws the text into `area` of the buffer as `render` does, if it can
    /// be drawn there. If not, the buffer stays as it is.
    pub fn try_render(&self, area: Rect, buf: &mut Buffer) -> (drawn: bool)
        ensures
            drawn == fits(self.text(), self.pixel_size, area, grid(*old(buf))),
            drawn ==> grid(*final(buf)) == rendered(
                self.text(),
                self.pixel_size,
                area,
                grid(*old(buf)),
            ),
            !drawn ==> *final(buf) == *old(buf),
    {
        if self.can_render(area, buf) {
            self.render(area, buf);
            true
        } else {
            false
        }
    }
}

/// Why a `BigText` could not be built.
#[derive(Debug, PartialEq, Eq)]
pub enum BigTextBuilderError {
    /// A field that has no default was not set. Holds the name of the field.
    UninitializedField(&'static str),
}

/// The settings of a `BigText`, each set or left open.
#[derive(Debug)]
pub struct BigTextBuilder<'a> {
    /// The text, line by line. It has no default.
    pub lines: Option<Vec<Line<'a>>>,
    /// The style of the widget. Where it is left open, the text is drawn in
    /// the default style.
    pub style: Option<Style>,
    /// The size of a font pixel. Where it is left open, a font pixel takes a
    /// full cell.
    pub pixel_size: Option<PixelSize>,
}

impl<'a> Default for BigTextBuilder<'a> {
    fn default() -> (builder: Self)
        ensures
            builder.lines is None,
            builder.style is None,
            builder.pixel_size is None,
    {
        BigTextBuilder { lines: None, style: None, pixel_size: None }
    }
}

impl<'a> BigTextBuilder<'a> {
    /// Sets the text to display.
    pub fn lines(self, value: Vec<Line<'a>>) -> (builder: Self)
        ensures
            builder.lines == Some(value),
            builder.style == self.style,
            builder.pixel_size == self.pixel_size,
    {
        BigTextBuilder { lines: Some(value), style: self.style, pixel_size: self.pixel_size }
    }

    /// Sets the style of the widget.
    pub fn style(self, value: Style) -> (builder: Self)
        ensures
            builder.lines == self.lines,
            builder.style == Some(value),
            builder.pixel_size == self.pixel_size,
    {
        BigTextBuilder { lines: self.lines, style: Some(value), pixel_size: self.pixel_size }
    }

    /// Sets the size of a font pixel.
    pub fn pixel_size(self, value: PixelSize) -> (builder: Self)
        ensures
            builder.lines == self.lines,
            builder.style == self.style,
            builder.pixel_size == Some(value),
    {
        BigTextBuilder { lines: self.lines, style: self.style, pixel_size: Some(value) }
    }

    /// Builds the widget. The text must have been set, even if to no lines
    /// at all; the style and the size of a font pixel fall back to their
    /// defaults.
    pub fn build(self) -> (result: Result<BigText<'a>, BigTextBuilderError>)
        ensures
            self.lines is None ==> result == Err::<BigText<'a>, BigTextBuilderError>(
                BigTextBuilderError::UninitializedField("lines"),
            ),
            self.lines is Some ==> result is Ok,
            result is Ok ==> ({
                let built = result->Ok_0;
                &&& Some(built.lines) == self.lines
                &&& match self.style {
                    Some(style) => built.style == style,
                    None => is_default_style(built.style),
                }
                &&& built.pixel_size == match self.pixel_size {
                    Some(size) => size,
                    None => PixelSize::Full,
                }
            }),
    {
        let lines = match self.lines {
            Some(lines) => lines,
            None => {
                return Err(BigTextBuilderError::UninitializedField("lines"));
            },
        };
        let style = self.style.unwrap_or_default();
        let pixel_size = self.pixel_size.unwrap_or_default();
        Ok(BigText { lines, style, pixel_size })
    }
}

} // verus!
