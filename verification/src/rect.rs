//! Rectangles of terminal cells.

use vstd::prelude::*;

verus! {

/// A rectangle of terminal cells: its top left corner and its extent.
///
/// The coordinates of a cell are 16 bit wide, so the right and bottom edges
/// stop at `u16::MAX` where the extent would reach beyond it.
#[derive(Debug, Clone, Copy, PartialEq, Eq, Hash)]
pub struct Rect {
    /// Column of the leftmost cells.
    pub x: u16,
    /// Row of the topmost cells.
    pub y: u16,
    /// Number of columns.
    pub width: u16,
    /// Number of rows.
    pub height: u16,
}

impl Rect {
    /// The first column: `x`.
    pub open spec fn spec_left(self) -> u16 {
        self.x
    }

    /// The first column past the rectangle, at most `u16::MAX`.
    pub open spec fn spec_right(self) -> u16 {
        if self.x + self.width > u16::MAX {
            u16::MAX
        } else {
            (self.x + self.width) as u16
        }
    }

    /// The first row: `y`.
    pub open spec fn spec_top(self) -> u16 {
        self.y
    }

    /// The first row past the rectangle, at most `u16::MAX`.
    pub open spec fn spec_bottom(self) -> u16 {
        if self.y + self.height > u16::MAX {
            u16::MAX
        } else {
            (self.y + self.height) as u16
        }
    }

    /// Whether the cell in column `x` and row `y` belongs to the rectangle.
    pub open spec fn contains(self, x: int, y: int) -> bool {
        self.spec_left() <= x < self.spec_right() && self.spec_top() <= y < self.spec_bottom()
    }

    /// Whether the rectangle has no cell at all.
    pub open spec fn is_vacant(self) -> bool {
        self.spec_left() >= self.spec_right() || self.spec_top() >= self.spec_bottom()
    }

    /// Whether every cell of `inner` is a cell of `self`.
    pub open spec fn spec_covers(self, inner: Rect) -> bool {
        inner.is_vacant() || (self.spec_left() <= inner.spec_left() && inner.spec_right()
            <= self.spec_right() && self.spec_top() <= inner.spec_top() && inner.spec_bottom()
            <= self.spec_bottom())
    }

    /// A rectangle from its corner and extent.
    pub fn new(x: u16, y: u16, width: u16, height: u16) -> (rect: Rect)
        ensures
            rect == (Rect { x, y, width, height }),
    {
        Rect { x, y, width, height }
    }

    #[verifier::when_used_as_spec(spec_left)]
    pub fn left(self) -> (column: u16)
        ensures
            column == self.spec_left(),
    {
        self.x
    }

    #[verifier::when_used_as_spec(spec_right)]
    pub fn right(self) -> (column: u16)
        ensures
            column == self.spec_right(),
    {
        self.x.saturating_add(self.width)
    }

    #[verifier::when_used_as_spec(spec_top)]
    pub fn top(self) -> (row: u16)
        ensures
            row == self.spec_top(),
    {
        self.y
    }

    #[verifier::when_used_as_spec(spec_bottom)]
    pub fn bottom(self) -> (row: u16)
        ensures
            row == self.spec_bottom(),
    {
        self.y.saturating_add(self.height)
    }

    /// Whether every cell of `inner` is a cell of `self`.
    #[verifier::when_used_as_spec(spec_covers)]
    pub fn covers(self, inner: Rect) -> (covered: bool)
        ensures
            covered == self.spec_covers(inner),
    {
        inner.left() >= inner.right() || inner.top() >= inner.bottom() || (self.left()
            <= inner.left() && inner.right() <= self.right() && self.top() <= inner.top()
            && inner.bottom() <= self.bottom())
    }
}

impl Default for Rect {
    fn default() -> (rect: Rect)
        ensures
            rect == (Rect { x: 0, y: 0, width: 0, height: 0 }),
    {
        Rect { x: 0, y: 0, width: 0, height: 0 }
    }
}

/// `covers` says what its name promises: the cells of the inner rectangle are
/// cells of the outer one, and nothing less would do.
pub proof fn lemma_covers_cells(outer: Rect, inner: Rect)
    ensures
        outer.covers(inner) <==> (forall|x: int, y: int|
            inner.contains(x, y) ==> outer.contains(x, y)),
{
    if !inner.is_vacant() {
        let x0 = inner.spec_left() as int;
        let y0 = inner.spec_top() as int;
        let x1 = inner.spec_right() - 1;
        let y1 = inner.spec_bottom() - 1;
        assert(inner.contains(x0, y0));
        assert(inner.contains(x1, y1));
        if forall|x: int, y: int| inner.contains(x, y) ==> outer.contains(x, y) {
            assert(outer.contains(x0, y0));
            assert(outer.contains(x1, y1));
        }
    }
}

} // verus!
