//! The fixed-point scale shared by lengths, coordinates and rotations.

use vstd::prelude::*;

verus! {

/// The scalar that stands for 1.0.
pub const ONE: i64 = 65536;

/// The smallest radius a radius-based shape is given.
pub const MIN_RADIUS: i64 = ONE;

/// The radius bound a radius-based kind starts with.
pub const DEFAULT_MAX_RADIUS: i64 = 150 * ONE;

/// The stroke width of every generated shape.
pub const STROKE_WIDTH: i64 = ONE;

/// The largest rotation offset: the greatest scalar below pi / 3.
pub const ROTATION_MAX: i64 = 68629;

} // verus!
