//! The text to draw: `ratatui`'s styled lines, taken apart into graphemes.
//!
//! Nothing in this file is proved: it states what the calls into `ratatui`
//! return.

use vstd::prelude::*;
use ratatui::style::Style;
use ratatui::text::Line;
use crate::grid::StyledSymbol;

verus! {

/// `ratatui::text::Line`: a line of text, made of spans with a style each.
#[verifier::external_type_specification]
#[verifier::external_body]
pub struct ExLine<'a>(ratatui::text::Line<'a>);

/// The graphemes that `Line::styled_graphemes` hands out for `line` when it
/// is called with `base`, in their order: the extended grapheme clusters of
/// the line's spans, each with the style that comes of `base`, the line's
/// style and the span's.
pub uninterp spec fn line_graphemes(line: Line, base: Style) -> Seq<StyledSymbol>;

/// One grapheme of a line and the style to show it in.
#[derive(Debug, Clone, PartialEq, Eq, Hash)]
pub struct StyledGrapheme {
    /// The characters of the grapheme.
    pub symbol: String,
    /// The style of the grapheme.
    pub style: Style,
}

impl View for StyledGrapheme {
    type V = StyledSymbol;

    open spec fn view(&self) -> StyledSymbol {
        StyledSymbol { symbol: self.symbol@, style: self.style }
    }
}

/// Calls `Line::styled_graphemes` and collects what it hands out, each
/// grapheme as an owned string with its style.
#[verifier::external_body]
pub(crate) fn styled_graphemes(line: &Line<'_>, base: Style) -> (graphemes: Vec<StyledGrapheme>)
    ensures
        graphemes@.map_values(|g: StyledGrapheme| g@) == line_graphemes(*line, base),
{
    line.styled_graphemes(base).map(
        |g| StyledGrapheme { symbol: g.symbol.to_string(), style: g.style },
    ).collect()
}

} // verus!
