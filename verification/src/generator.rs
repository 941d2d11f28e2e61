//! What is asked for of each kind of shape, and the shapes drawn from it.

use crate::color::Color;
use crate::gen_util::{
    gen_random_f32, gen_random_polygon, gen_random_pos2, gen_random_rect,
    gen_random_regular_polygon, gen_random_rgb_color, lemma_radius_in_range, radius_error,
    radius_range, GenError,
};
use crate::geometry::{Pos2, Rect};
use crate::scalar::{DEFAULT_MAX_RADIUS, MIN_RADIUS, STROKE_WIDTH};
use crate::shape::{lemma_instance_variant, DrawableShape, ShapeKind};
use vstd::prelude::*;

verus! {

/// How many shapes of every kind a generator starts with.
pub const DEFAULT_COUNT: u32 = 3;

/// What is asked for of one kind of shape.
#[derive(Clone, Debug, PartialEq, Eq)]
pub struct ShapeConfig {
    /// How many shapes of the kind a pass draws.
    pub count: u32,
    /// The largest radius, for the kinds drawn from a radius.
    pub max_radius: Option<i64>,
    /// The kind's name, for display.
    pub label: String,
}

/// Why a change to the configuration was refused.
#[derive(Clone, Copy, Debug, PartialEq, Eq, Structural)]
pub enum ConfigError {
    /// The count is negative.
    NegativeCount,
    /// The kind is not drawn from a radius.
    NoRadius,
    /// The radius lies below `MIN_RADIUS`.
    RadiusBelowMinimum,
}

impl ShapeConfig {
    /// The radius bound that shapes are drawn with: the configured one, or
    /// `MIN_RADIUS` where none is configured.
    pub open spec fn radius_bound(self) -> int {
        match self.max_radius {
            Some(r) => r as int,
            None => MIN_RADIUS as int,
        }
    }

    /// The radius bound that shapes are drawn with.
    pub fn bound(&self) -> (r: i64)
        ensures
            r == self.radius_bound(),
    {
        match self.max_radius {
            Some(r) => r,
            None => MIN_RADIUS,
        }
    }
}

/// The configuration of the five kinds, and the shapes of the last pass.
pub struct ShapeGenerator {
    rectangle: ShapeConfig,
    circle: ShapeConfig,
    triangle: ShapeConfig,
    equilateral_triangle: ShapeConfig,
    hexagon: ShapeConfig,
    shapes: Vec<DrawableShape>,
}

/// `count` times `kind`.
pub open spec fn repeat(kind: ShapeKind, count: nat) -> Seq<ShapeKind> {
    Seq::new(count, |i: int| kind)
}

impl ShapeGenerator {
    /// What is asked for of `kind`.
    pub closed spec fn config_of(&self, kind: ShapeKind) -> ShapeConfig {
        match kind {
            ShapeKind::Rectangle => self.rectangle,
            ShapeKind::Circle => self.circle,
            ShapeKind::Triangle => self.triangle,
            ShapeKind::EquilateralTriangle => self.equilateral_triangle,
            ShapeKind::Hexagon => self.hexagon,
        }
    }

    /// The shapes of the last pass, in the order drawn.
    pub closed spec fn collection(&self) -> Seq<DrawableShape> {
        self.shapes@
    }

    /// Each kind drawn from a radius has a radius bound of at least
    /// `MIN_RADIUS`, each other kind has none, and each kind has its name.
    pub open spec fn wf(&self) -> bool {
        &&& forall|kind: ShapeKind|
            match (#[trigger] self.config_of(kind)).max_radius {
                Some(r) => kind.has_radius() && r >= MIN_RADIUS,
                None => !kind.has_radius(),
            }
        &&& self.config_of(ShapeKind::Rectangle).label@ == "rectangle"@
        &&& self.config_of(ShapeKind::Circle).label@ == "circle"@
        &&& self.config_of(ShapeKind::Triangle).label@ == "triangle"@
        &&& self.config_of(ShapeKind::EquilateralTriangle).label@ == "equilateral triangle"@
        &&& self.config_of(ShapeKind::Hexagon).label@ == "hexagon"@
    }

    /// Why no shape of `kind` can be drawn on a canvas of `w` by `h`, if
    /// none can: a canvas with a negative side holds nothing, and a kind
    /// drawn from a radius needs a radius that fits.
    pub open spec fn synthesis_error(&self, kind: ShapeKind, w: int, h: int) -> Option<GenError> {
        if kind.has_radius() {
            radius_error(MIN_RADIUS as int, self.config_of(kind).radius_bound(), w, h)
        } else if w < 0 || h < 0 {
            Some(GenError::EmptyRange)
        } else {
            None
        }
    }

    /// The kinds that a pass draws for `kind`: as many as its count says,
    /// or none where no shape of the kind can be drawn.
    pub open spec fn block(&self, kind: ShapeKind, w: int, h: int) -> Seq<ShapeKind> {
        if self.synthesis_error(kind, w, h) is None {
            repeat(kind, self.config_of(kind).count as nat)
        } else {
            Seq::empty()
        }
    }

    /// The kinds that a pass draws, in order: kind by kind as the
    /// enumeration lists them.
    pub open spec fn plan(&self, w: int, h: int) -> Seq<ShapeKind> {
        self.block(ShapeKind::Rectangle, w, h) + self.block(ShapeKind::Circle, w, h) + self.block(
            ShapeKind::Triangle,
            w,
            h,
        ) + self.block(ShapeKind::EquilateralTriangle, w, h) + self.block(ShapeKind::Hexagon, w, h)
    }

    /// `shapes` is what a pass on a canvas of `w` by `h` can give: one shape
    /// for each entry of the plan, of that entry's kind.
    pub open spec fn is_generation(&self, shapes: Seq<DrawableShape>, w: int, h: int) -> bool {
        &&& shapes.len() == self.plan(w, h).len()
        &&& forall|i: int|
            0 <= i < shapes.len() ==> (#[trigger] shapes[i]).is_instance_of(
                self.plan(w, h)[i],
                self.config_of(self.plan(w, h)[i]).radius_bound(),
                w,
                h,
            )
    }

    /// A generator that asks for `DEFAULT_COUNT` shapes of each kind, with
    /// the radius bound `DEFAULT_MAX_RADIUS` where the kind has one, and
    /// that holds no shapes yet.
    pub fn new() -> (g: Self)
        ensures
            g.wf(),
            g.collection() == Seq::<DrawableShape>::empty(),
            forall|kind: ShapeKind|
                (#[trigger] g.config_of(kind)).count == DEFAULT_COUNT && g.config_of(
                    kind,
                ).max_radius == if kind.has_radius() {
                    Some(DEFAULT_MAX_RADIUS)
                } else {
                    None
                },
    {
        ShapeGenerator {
            rectangle: ShapeConfig {
                count: DEFAULT_COUNT,
                max_radius: None,
                label: "rectangle".to_owned(),
            },
            circle: ShapeConfig {
                count: DEFAULT_COUNT,
                max_radius: Some(DEFAULT_MAX_RADIUS),
                label: "circle".to_owned(),
            },
            triangle: ShapeConfig {
                count: DEFAULT_COUNT,
                max_radius: None,
                label: "triangle".to_owned(),
            },
            equilateral_triangle: ShapeConfig {
                count: DEFAULT_COUNT,
                max_radius: Some(DEFAULT_MAX_RADIUS),
                label: "equilateral triangle".to_owned(),
            },
            hexagon: ShapeConfig {
                count: DEFAULT_COUNT,
                max_radius: Some(DEFAULT_MAX_RADIUS),
                label: "hexagon".to_owned(),
            },
            shapes: Vec::new(),
        }
    }

    /// What is asked for of `kind`.
    pub fn config(&self, kind: ShapeKind) -> (c: &ShapeConfig)
        ensures
            *c == self.config_of(kind),
    {
        match kind {
            ShapeKind::Rectangle => &self.rectangle,
            ShapeKind::Circle => &self.circle,
            ShapeKind::Triangle => &self.triangle,
            ShapeKind::EquilateralTriangle => &self.equilateral_triangle,
            ShapeKind::Hexagon => &self.hexagon,
        }
    }

    /// The shapes of the last pass, in the order drawn.
    pub fn shapes(&self) -> (s: &Vec<DrawableShape>)
        ensures
            s@ == self.collection(),
    {
        &self.shapes
    }

    /// Asks for `n` shapes of `kind`. A negative `n` is refused and changes
    /// nothing.
    pub fn set_count(&mut self, kind: ShapeKind, n: i32) -> (res: Result<(), ConfigError>)
        ensures
            n < 0 ==> res == Err::<(), ConfigError>(ConfigError::NegativeCount) && *final(self)
                == *old(self),
            n >= 0 ==> res == Ok::<(), ConfigError>(()),
            n >= 0 ==> final(self).config_of(kind) == (ShapeConfig {
                count: n as u32,
                ..old(self).config_of(kind)
            }),
            forall|other: ShapeKind|
                other != kind ==> final(self).config_of(other) == old(self).config_of(other),
            final(self).collection() == old(self).collection(),
            old(self).wf() ==> final(self).wf(),
    {
        if n < 0 {
            return Err(ConfigError::NegativeCount);
        }
        let count: u32 = n as u32;
        match kind {
            ShapeKind::Rectangle => {
                self.rectangle.count = count;
            },
            ShapeKind::Circle => {
                self.circle.count = count;
            },
            ShapeKind::Triangle => {
                self.triangle.count = count;
            },
            ShapeKind::EquilateralTriangle => {
                self.equilateral_triangle.count = count;
            },
            ShapeKind::Hexagon => {
                self.hexagon.count = count;
            },
        }
        proof {
            if old(self).wf() {
                assert forall|k: ShapeKind|
                    match (#[trigger] self.config_of(k)).max_radius {
                        Some(r) => k.has_radius() && r >= MIN_RADIUS,
                        None => !k.has_radius(),
                    } by {
                    assert(self.config_of(k).max_radius == old(self).config_of(k).max_radius);
                }
            }
        }
        Ok(())
    }

    /// Sets the radius bound of `kind` to `r`. A kind that has no radius
    /// bound gets none, and a bound below `MIN_RADIUS` is refused; either
    /// way nothing changes.
    pub fn set_max_radius(&mut self, kind: ShapeKind, r: i64) -> (res: Result<(), ConfigError>)
        ensures
            res == if old(self).config_of(kind).max_radius is None {
                Err::<(), ConfigError>(ConfigError::NoRadius)
            } else if r < MIN_RADIUS {
                Err::<(), ConfigError>(ConfigError::RadiusBelowMinimum)
            } else {
                Ok::<(), ConfigError>(())
            },
            res is Err ==> *final(self) == *old(self),
            res is Ok ==> final(self).config_of(kind) == (ShapeConfig {
                max_radius: Some(r),
                ..old(self).config_of(kind)
            }),
            forall|other: ShapeKind|
                other != kind ==> final(self).config_of(other) == old(self).config_of(other),
            final(self).collection() == old(self).collection(),
            old(self).wf() ==> final(self).wf(),
    {
        if self.config(kind).max_radius.is_none() {
            return Err(ConfigError::NoRadius);
        }
        if r < MIN_RADIUS {
            return Err(ConfigError::RadiusBelowMinimum);
        }
        match kind {
            ShapeKind::Rectangle => {
                self.rectangle.max_radius = Some(r);
            },
            ShapeKind::Circle => {
                self.circle.max_radius = Some(r);
            },
            ShapeKind::Triangle => {
                self.triangle.max_radius = Some(r);
            },
            ShapeKind::EquilateralTriangle => {
                self.equilateral_triangle.max_radius = Some(r);
            },
            ShapeKind::Hexagon => {
                self.hexagon.max_radius = Some(r);
            },
        }
        proof {
            if old(self).wf() {
                assert forall|k: ShapeKind|
                    match (#[trigger] self.config_of(k)).max_radius {
                        Some(r) => k.has_radius() && r >= MIN_RADIUS,
                        None => !k.has_radius(),
                    } by {
                    if k != kind {
                        assert(self.config_of(k) == old(self).config_of(k));
                    } else {
                        assert(old(self).config_of(k).max_radius is Some);
                    }
                }
            }
        }
        Ok(())
    }
}

impl ShapeGenerator {
    /// One shape of `kind` for a canvas of `w` by `h`, filled and outlined
    /// in one freshly drawn colour.
    ///
    /// A rectangle has both corners on the canvas. A circle has a radius
    /// between `MIN_RADIUS` and the kind's radius bound, cut down to what
    /// fits, and lies on the canvas as a whole. A triangle has three
    /// vertices anywhere on the canvas. An equilateral triangle and a
    /// hexagon are regular polygons within such a circle. Where the canvas
    /// has a negative side, or no radius fits, nothing is drawn and the
    /// reason is returned.
    pub fn synthesize_one(&self, kind: ShapeKind, w: i64, h: i64) -> (res: Result<
        DrawableShape,
        GenError,
    >)
        ensures
            match self.synthesis_error(kind, w as int, h as int) {
                Some(e) => res == Err::<DrawableShape, GenError>(e),
                None => res is Ok && res->Ok_0.is_instance_of(
                    kind,
                    self.config_of(kind).radius_bound(),
                    w as int,
                    h as int,
                ),
            },
    {
        let color: Color = gen_random_rgb_color();
        match kind {
            ShapeKind::Rectangle => {
                if w < 0 || h < 0 {
                    return Err(GenError::EmptyRange);
                }
                let rect: Rect = gen_random_rect(w, h);
                Ok(
                    DrawableShape::Rect {
                        rect,
                        fill: color,
                        stroke_color: color,
                        stroke_width: STROKE_WIDTH,
                    },
                )
            },
            ShapeKind::Circle => {
                let bound: i64 = self.circle.bound();
                match radius_range(MIN_RADIUS, bound, w, h) {
                    Err(e) => Err(e),
                    Ok((lo, hi)) => {
                        let radius: i64 = gen_random_f32(lo, hi);
                        proof {
                            lemma_radius_in_range(
                                MIN_RADIUS as int,
                                bound as int,
                                w as int,
                                h as int,
                                radius as int,
                            );
                        }
                        let center: Pos2 = gen_random_pos2(radius, w - radius, radius, h - radius);
                        Ok(
                            DrawableShape::Circle {
                                center,
                                radius,
                                fill: color,
                                stroke_color: color,
                                stroke_width: STROKE_WIDTH,
                            },
                        )
                    },
                }
            },
            ShapeKind::Triangle => {
                if w < 0 || h < 0 {
                    return Err(GenError::EmptyRange);
                }
                let vertices: Vec<Pos2> = gen_random_polygon(w, h, 3);
                Ok(
                    DrawableShape::Polygon {
                        vertices,
                        closed: true,
                        fill: color,
                        stroke_color: color,
                        stroke_width: STROKE_WIDTH,
                    },
                )
            },
            ShapeKind::EquilateralTriangle => {
                let bound: i64 = self.equilateral_triangle.bound();
                match gen_random_regular_polygon(MIN_RADIUS, bound, w, h, 3) {
                    Err(e) => Err(e),
                    Ok(vertices) => Ok(
                        DrawableShape::Polygon {
                            vertices,
                            closed: true,
                            fill: color,
                            stroke_color: color,
                            stroke_width: STROKE_WIDTH,
                        },
                    ),
                }
            },
            ShapeKind::Hexagon => {
                let bound: i64 = self.hexagon.bound();
                match gen_random_regular_polygon(MIN_RADIUS, bound, w, h, 6) {
                    Err(e) => Err(e),
                    Ok(vertices) => Ok(
                        DrawableShape::Polygon {
                            vertices,
                            closed: true,
                            fill: color,
                            stroke_color: color,
                            stroke_width: STROKE_WIDTH,
                        },
                    ),
                }
            },
        }
    }

    /// Draws the shapes of one kind and appends them to the collection.
    fn append_kind(&mut self, kind: ShapeKind, w: i64, h: i64)
        ensures
            forall|k: ShapeKind| final(self).config_of(k) == old(self).config_of(k),
            final(self).collection().len() == old(self).collection().len() + old(self).block(
                kind,
                w as int,
                h as int,
            ).len(),
            forall|i: int|
                0 <= i < old(self).collection().len() ==> final(self).collection()[i] == old(
                    self,
                ).collection()[i],
            forall|i: int|
                old(self).collection().len() <= i < final(self).collection().len() ==> (
                #[trigger] final(self).collection()[i]).is_instance_of(
                    kind,
                    old(self).config_of(kind).radius_bound(),
                    w as int,
                    h as int,
                ),
    {
        let count: u32 = self.config(kind).count;
        let mut done: u32 = 0;
        while done < count
            invariant
                done <= count,
                count == old(self).config_of(kind).count,
                forall|k: ShapeKind| self.config_of(k) == old(self).config_of(k),
                old(self).synthesis_error(kind, w as int, h as int) is None
                    ==> self.collection().len() == old(self).collection().len() + done,
                old(self).synthesis_error(kind, w as int, h as int) is Some
                    ==> self.collection().len() == old(self).collection().len(),
                forall|i: int|
                    0 <= i < old(self).collection().len() ==> self.collection()[i] == old(
                        self,
                    ).collection()[i],
                forall|i: int|
                    old(self).collection().len() <= i < self.collection().len() ==> (
                    #[trigger] self.collection()[i]).is_instance_of(
                        kind,
                        old(self).config_of(kind).radius_bound(),
                        w as int,
                        h as int,
                    ),
            decreases count - done,
        {
            let drawn: Result<DrawableShape, GenError> = self.synthesize_one(kind, w, h);
            match drawn {
                Ok(shape) => {
                    self.shapes.push(shape);
                },
                Err(_) => {},
            }
            done = done + 1;
        }
    }

    /// Replaces the collection by a fresh pass for a canvas of `w` by `h`.
    ///
    /// The pass goes through the kinds as the enumeration lists them and
    /// draws as many shapes of each as its count says. A kind of which no
    /// shape can be drawn on this canvas is passed over for this pass. The
    /// configuration stays as it is.
    pub fn regenerate(&mut self, w: i64, h: i64)
        ensures
            forall|k: ShapeKind| final(self).config_of(k) == old(self).config_of(k),
            final(self).is_generation(final(self).collection(), w as int, h as int),
    {
        self.shapes.clear();
        self.append_kind(ShapeKind::Rectangle, w, h);
        self.append_kind(ShapeKind::Circle, w, h);
        self.append_kind(ShapeKind::Triangle, w, h);
        self.append_kind(ShapeKind::EquilateralTriangle, w, h);
        self.append_kind(ShapeKind::Hexagon, w, h);
        proof {
            let wi = w as int;
            let hi = h as int;
            assert(self.block(ShapeKind::Rectangle, wi, hi) == old(self).block(
                ShapeKind::Rectangle,
                wi,
                hi,
            ));
            assert(self.block(ShapeKind::Circle, wi, hi) == old(self).block(
                ShapeKind::Circle,
                wi,
                hi,
            ));
            assert(self.block(ShapeKind::Triangle, wi, hi) == old(self).block(
                ShapeKind::Triangle,
                wi,
                hi,
            ));
            assert(self.block(ShapeKind::EquilateralTriangle, wi, hi) == old(self).block(
                ShapeKind::EquilateralTriangle,
                wi,
                hi,
            ));
            assert(self.block(ShapeKind::Hexagon, wi, hi) == old(self).block(
                ShapeKind::Hexagon,
                wi,
                hi,
            ));
        }
    }
}

impl Default for ShapeGenerator {
    /// The generator that `new` gives.
    fn default() -> (g: Self)
        ensures
            g.wf(),
            g.collection() == Seq::<DrawableShape>::empty(),
            forall|kind: ShapeKind|
                (#[trigger] g.config_of(kind)).count == DEFAULT_COUNT && g.config_of(
                    kind,
                ).max_radius == if kind.has_radius() {
                    Some(DEFAULT_MAX_RADIUS)
                } else {
                    None
                },
    {
        ShapeGenerator::new()
    }
}

/// A pass gives as many shapes as the counts of the kinds that can be drawn
/// add up to.
pub proof fn lemma_generation_length(g: ShapeGenerator, shapes: Seq<DrawableShape>, w: int, h: int)
    requires
        g.is_generation(shapes, w, h),
    ensures
        shapes.len() == g.block(ShapeKind::Rectangle, w, h).len() + g.block(
            ShapeKind::Circle,
            w,
            h,
        ).len() + g.block(ShapeKind::Triangle, w, h).len() + g.block(
            ShapeKind::EquilateralTriangle,
            w,
            h,
        ).len() + g.block(ShapeKind::Hexagon, w, h).len(),
        forall|kind: ShapeKind|
            g.block(kind, w, h).len() == if g.synthesis_error(kind, w, h) is None {
                g.config_of(kind).count as int
            } else {
                0
            },
{
}

/// On a canvas that holds a circle of radius `MIN_RADIUS`, a well-formed
/// generator can draw every kind, so a pass gives as many shapes as all the
/// counts add up to.
pub proof fn lemma_canvas_holds_every_kind(g: ShapeGenerator, w: int, h: int)
    requires
        g.wf(),
        2 * MIN_RADIUS <= w,
        2 * MIN_RADIUS <= h,
    ensures
        forall|kind: ShapeKind| g.synthesis_error(kind, w, h) is None,
        g.plan(w, h).len() == g.config_of(ShapeKind::Rectangle).count + g.config_of(
            ShapeKind::Circle,
        ).count + g.config_of(ShapeKind::Triangle).count + g.config_of(
            ShapeKind::EquilateralTriangle,
        ).count + g.config_of(ShapeKind::Hexagon).count,
{
    assert forall|kind: ShapeKind| g.synthesis_error(kind, w, h) is None by {
        let config = g.config_of(kind);
        if kind.has_radius() {
            assert(config.max_radius is Some);
            assert(config.radius_bound() >= MIN_RADIUS);
        }
    }
}

/// Two passes with the same configuration on the same canvas give as many
/// shapes, and shapes of the same form at each place.
pub proof fn lemma_same_structure(
    first: ShapeGenerator,
    second: ShapeGenerator,
    w: int,
    h: int,
)
    requires
        forall|kind: ShapeKind| first.config_of(kind) == second.config_of(kind),
        first.is_generation(first.collection(), w, h),
        second.is_generation(second.collection(), w, h),
    ensures
        first.collection().len() == second.collection().len(),
        forall|i: int|
            0 <= i < first.collection().len() ==> first.collection()[i].variant()
                == second.collection()[i].variant(),
{
    assert(first.plan(w, h) == second.plan(w, h));
    assert forall|i: int| 0 <= i < first.collection().len() implies first.collection()[i].variant()
        == second.collection()[i].variant() by {
        let kind = first.plan(w, h)[i];
        lemma_instance_variant(
            first.collection()[i],
            kind,
            first.config_of(kind).radius_bound(),
            w,
            h,
        );
        lemma_instance_variant(
            second.collection()[i],
            kind,
            second.config_of(kind).radius_bound(),
            w,
            h,
        );
    }
}

} // verus!
