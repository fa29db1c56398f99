//! How many font pixels one terminal cell stands for.

use vstd::prelude::*;

verus! {

/// The number of font pixels that one terminal cell shows, along each axis.
#[derive(Debug, Clone, Copy, PartialEq, Eq, Hash)]
pub enum PixelSize {
    /// One font pixel per cell.
    Full,
    /// Two font pixels per cell, one above the other.
    HalfHeight,
    /// Two font pixels per cell, side by side.
    HalfWidth,
    /// Four font pixels per cell, two by two.
    Quadrant,
    /// Three font pixels per cell, stacked.
    ThirdHeight,
    /// Six font pixels per cell, two wide and three high.
    Sextant,
}

impl PixelSize {
    /// Font pixels per cell along the horizontal axis.
    pub open spec fn step_x(self) -> int {
        match self {
            PixelSize::Full | PixelSize::HalfHeight | PixelSize::ThirdHeight => 1,
            PixelSize::HalfWidth | PixelSize::Quadrant | PixelSize::Sextant => 2,
        }
    }

    /// Font pixels per cell along the vertical axis.
    pub open spec fn step_y(self) -> int {
        match self {
            PixelSize::Full | PixelSize::HalfWidth => 1,
            PixelSize::HalfHeight | PixelSize::Quadrant => 2,
            PixelSize::ThirdHeight | PixelSize::Sextant => 3,
        }
    }
}

impl Default for PixelSize {
    fn default() -> (size: Self)
        ensures
            size == PixelSize::Full,
    {
        PixelSize::Full
    }
}

/// The font pixels that one cell packs, as (horizontal, vertical).
pub fn pixels_per_cell(size: &PixelSize) -> (steps: (u16, u16))
    ensures
        steps.0 == size.step_x(),
        steps.1 == size.step_y(),
{
    match size {
        PixelSize::Full => (1, 1),
        PixelSize::HalfHeight => (1, 2),
        PixelSize::HalfWidth => (2, 1),
        PixelSize::Quadrant => (2, 2),
        PixelSize::ThirdHeight => (1, 3),
        PixelSize::Sextant => (2, 3),
    }
}

} // verus!
