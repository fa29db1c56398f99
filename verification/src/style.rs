//! The style of a symbol: `ratatui`'s, passed on as it comes.
//!
//! Nothing in this file is proved: it states what `ratatui` does with a
//! style.

use vstd::prelude::*;
use ratatui::style::Style;

verus! {

/// `ratatui::style::Style`: colours and modifiers to set or to take away.
#[verifier::external_type_specification]
#[verifier::external_body]
pub struct ExStyle(ratatui::style::Style);

/// Whether `style` is the style that `Style::default` returns.
pub uninterp spec fn is_default_style(style: Style) -> bool;

/// `Style` is `Copy`: its `clone` returns the style itself.
pub assume_specification[ <ratatui::style::Style as Clone>::clone ](style: &Style) -> (copy: Style)
    ensures
        copy == *style,
;

/// `Style::default` returns the one style that sets nothing and takes
/// nothing away.
pub assume_specification[ <ratatui::style::Style as Default>::default ]() -> (style: Style)
    ensures
        is_default_style(style),
        forall|other: Style| is_default_style(other) ==> other == style,
;

} // verus!
