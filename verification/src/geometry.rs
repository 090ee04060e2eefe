//! Points and rectangles on the pixel grid.

use vstd::prelude::*;

verus! {

/// A pixel coordinate: `x` grows to the right, `y` grows downwards, and the
/// top-left pixel of an image is `(0, 0)`.
#[derive(Clone, Copy, Debug, PartialEq, Eq, Structural)]
pub struct Point {
    pub x: i32,
    pub y: i32,
}

/// An axis-aligned rectangle, given by its top-left corner and its extent.
#[derive(Clone, Copy, Debug, PartialEq, Eq, Structural)]
pub struct Rect {
    pub x: i32,
    pub y: i32,
    pub width: u32,
    pub height: u32,
}

impl Rect {
    /// The column of the left edge.
    pub open spec fn left(self) -> int {
        self.x as int
    }

    /// The row of the top edge.
    pub open spec fn top(self) -> int {
        self.y as int
    }

    /// The column of the right edge: the left edge plus the width.
    pub open spec fn right(self) -> int {
        self.x + self.width
    }

    /// The row of the bottom edge: the top edge plus the height.
    pub open spec fn bottom(self) -> int {
        self.y + self.height
    }

    /// Whether `(x, y)` lies strictly between the four edges.
    pub open spec fn encloses(self, x: int, y: int) -> bool {
        self.left() < x < self.right() && self.top() < y < self.bottom()
    }

    /// Whether `(x, y)` lies on the outline of the rectangle: on one of its
    /// four edges, between the corners.
    pub open spec fn on_outline(self, x: int, y: int) -> bool {
        &&& self.left() <= x <= self.right()
        &&& self.top() <= y <= self.bottom()
        &&& (x == self.left() || x == self.right() || y == self.top() || y == self.bottom())
    }
}

} // verus!
