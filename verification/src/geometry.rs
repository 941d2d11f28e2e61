//! Points and axis-aligned rectangles in fixed-point canvas coordinates.

use vstd::prelude::*;

verus! {

/// A point of the canvas.
#[derive(Clone, Copy, Debug, PartialEq, Eq, Structural)]
pub struct Pos2 {
    pub x: i64,
    pub y: i64,
}

/// An axis-aligned rectangle, given by two corners.
#[derive(Clone, Copy, Debug, PartialEq, Eq, Structural)]
pub struct Rect {
    pub min: Pos2,
    pub max: Pos2,
}

impl Pos2 {
    /// The point lies in `[0, x_max] x [0, y_max]`.
    pub open spec fn within(self, x_max: int, y_max: int) -> bool {
        0 <= self.x <= x_max && 0 <= self.y <= y_max
    }
}

impl Rect {
    /// The corners are ordered and both lie in `[0, x_max] x [0, y_max]`.
    pub open spec fn within(self, x_max: int, y_max: int) -> bool {
        0 <= self.min.x <= self.max.x <= x_max && 0 <= self.min.y <= self.max.y <= y_max
    }
}

} // verus!
