//! Colours with straight (not premultiplied) alpha.

use vstd::prelude::*;

verus! {

/// The largest value a generated colour channel takes: short of white, so
/// that a shape stands out on a light background.
pub const CHANNEL_MAX: u8 = 200;

/// The opacity of every generated colour.
pub const ALPHA: u8 = 100;

/// Red, green, blue and opacity, each out of 255.
#[derive(Clone, Copy, Debug, PartialEq, Eq, Structural)]
pub struct Color {
    pub r: u8,
    pub g: u8,
    pub b: u8,
    pub a: u8,
}

impl Color {
    /// The colour is one that generation can give: no channel above
    /// `CHANNEL_MAX`, opacity `ALPHA`.
    pub open spec fn is_generated(self) -> bool {
        self.r <= CHANNEL_MAX && self.g <= CHANNEL_MAX && self.b <= CHANNEL_MAX && self.a == ALPHA
    }
}

} // verus!
