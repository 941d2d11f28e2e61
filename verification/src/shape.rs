//! The kinds of shape that can be asked for, and the shapes drawn.

use crate::color::Color;
use crate::gen_util::{is_random_regular_polygon, radius_ceiling, radius_floor};
use crate::geometry::{Pos2, Rect};
use crate::scalar::{MIN_RADIUS, STROKE_WIDTH};
use vstd::prelude::*;

verus! {

/// What can be asked for.
#[derive(Clone, Copy, Debug, PartialEq, Eq, Hash, Structural)]
pub enum ShapeKind {
    Rectangle,
    Circle,
    Triangle,
    EquilateralTriangle,
    Hexagon,
}

/// A shape ready to be painted. Triangles, equilateral triangles and
/// hexagons are all polygons: they differ in how their vertices were drawn.
#[derive(Clone, Debug, PartialEq, Eq)]
pub enum DrawableShape {
    Rect { rect: Rect, fill: Color, stroke_color: Color, stroke_width: i64 },
    Circle { center: Pos2, radius: i64, fill: Color, stroke_color: Color, stroke_width: i64 },
    Polygon { vertices: Vec<Pos2>, closed: bool, fill: Color, stroke_color: Color, stroke_width: i64 },
}

/// The three forms a drawn shape takes.
#[derive(Clone, Copy, Debug, PartialEq, Eq, Structural)]
pub enum Variant {
    Rect,
    Circle,
    Polygon,
}

impl ShapeKind {
    /// The form in which a shape of this kind is stored.
    pub open spec fn variant(self) -> Variant {
        match self {
            ShapeKind::Rectangle => Variant::Rect,
            ShapeKind::Circle => Variant::Circle,
            _ => Variant::Polygon,
        }
    }

    /// Whether a shape of this kind is drawn from a radius.
    pub open spec fn has_radius(self) -> bool {
        self == ShapeKind::Circle || self == ShapeKind::EquilateralTriangle || self
            == ShapeKind::Hexagon
    }
}

impl DrawableShape {
    /// The form of this shape.
    pub open spec fn variant(self) -> Variant {
        match self {
            DrawableShape::Rect { .. } => Variant::Rect,
            DrawableShape::Circle { .. } => Variant::Circle,
            DrawableShape::Polygon { .. } => Variant::Polygon,
        }
    }

    /// The colour the shape is filled with.
    pub open spec fn fill(self) -> Color {
        match self {
            DrawableShape::Rect { fill, .. } => fill,
            DrawableShape::Circle { fill, .. } => fill,
            DrawableShape::Polygon { fill, .. } => fill,
        }
    }

    /// The colour of the outline.
    pub open spec fn stroke_color(self) -> Color {
        match self {
            DrawableShape::Rect { stroke_color, .. } => stroke_color,
            DrawableShape::Circle { stroke_color, .. } => stroke_color,
            DrawableShape::Polygon { stroke_color, .. } => stroke_color,
        }
    }

    /// The width of the outline.
    pub open spec fn stroke_width(self) -> int {
        match self {
            DrawableShape::Rect { stroke_width, .. } => stroke_width as int,
            DrawableShape::Circle { stroke_width, .. } => stroke_width as int,
            DrawableShape::Polygon { stroke_width, .. } => stroke_width as int,
        }
    }

    /// Fill and outline share one generated colour, and the outline has the
    /// fixed width.
    pub open spec fn painted(self) -> bool {
        &&& self.fill().is_generated()
        &&& self.stroke_color() == self.fill()
        &&& self.stroke_width() == STROKE_WIDTH
    }

    /// The geometry is one that a shape of `kind` can be drawn with on a
    /// canvas of `w` by `h`, `max_rad` being the kind's radius bound.
    pub open spec fn placed(self, kind: ShapeKind, max_rad: int, w: int, h: int) -> bool {
        match kind {
            ShapeKind::Rectangle => self matches DrawableShape::Rect { rect, .. } && rect.within(
                w,
                h,
            ),
            ShapeKind::Circle => self matches DrawableShape::Circle { center, radius, .. } && {
                &&& radius_floor(MIN_RADIUS as int) <= radius <= radius_ceiling(max_rad, w, h)
                &&& radius <= center.x <= w - radius
                &&& radius <= center.y <= h - radius
            },
            ShapeKind::Triangle => self matches DrawableShape::Polygon { vertices, closed, .. }
                && {
                &&& closed
                &&& vertices@.len() == 3
                &&& forall|i: int| 0 <= i < 3 ==> (#[trigger] vertices@[i]).within(w, h)
            },
            ShapeKind::EquilateralTriangle => self matches DrawableShape::Polygon {
                vertices,
                closed,
                ..
            } && closed && is_random_regular_polygon(vertices@, MIN_RADIUS as int, max_rad, w, h, 3),
            ShapeKind::Hexagon => self matches DrawableShape::Polygon { vertices, closed, .. }
                && closed && is_random_regular_polygon(
                vertices@,
                MIN_RADIUS as int,
                max_rad,
                w,
                h,
                6,
            ),
        }
    }

    /// The shape is one that synthesis can give for `kind`.
    pub open spec fn is_instance_of(self, kind: ShapeKind, max_rad: int, w: int, h: int) -> bool {
        self.painted() && self.placed(kind, max_rad, w, h)
    }
}

/// A shape that synthesis gives for a kind has the kind's form.
pub proof fn lemma_instance_variant(
    shape: DrawableShape,
    kind: ShapeKind,
    max_rad: int,
    w: int,
    h: int,
)
    requires
        shape.is_instance_of(kind, max_rad, w, h),
    ensures
        shape.variant() == kind.variant(),
{
}

} // verus!
