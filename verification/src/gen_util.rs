//! Random scalars, points, rectangles, polygons and colours within given
//! bounds.
//!
//! Every draw comes from the calling thread's generator, so two calls with
//! the same arguments differ; the contracts state what holds of each draw.

use crate::color::{Color, ALPHA, CHANNEL_MAX};
use crate::geometry::{Pos2, Rect};
use crate::polygon::{
    lemma_vertex_distance, lemma_vertex_in_box, regular_polygon, regular_polygon_points, vertex,
    vertex_distance_squared, vertex_x, vertex_y,
};
use crate::scalar::ROTATION_MAX;
use crate::trig::TRIG_ONE;
use vstd::prelude::*;

verus! {

/// Why no radius-based shape can be drawn.
#[derive(Clone, Copy, Debug, PartialEq, Eq, Structural)]
pub enum GenError {
    /// The radius bound is zero or negative.
    RadiusNotPositive,
    /// No value lies in the range to draw from.
    EmptyRange,
}

/// Draws from the thread's generator with `rand::Rng::gen_range` on the
/// inclusive range `lo..=hi`; the draw lies in that range. An empty range
/// makes the outside call panic, so it is left out.
#[verifier::external_body]
fn uniform_inclusive(lo: i64, hi: i64) -> (r: i64)
    requires
        lo <= hi,
    ensures
        lo <= r <= hi,
{
    rand::Rng::gen_range(&mut rand::thread_rng(), lo..=hi)
}

/// A scalar drawn from the closed interval `[start, end]`.
pub fn gen_random_f32(start: i64, end: i64) -> (r: i64)
    requires
        start <= end,
    ensures
        start <= r <= end,
{
    uniform_inclusive(start, end)
}

/// A point whose coordinates are drawn one after the other, x from
/// `[x_start, x_end]` and y from `[y_start, y_end]`.
pub fn gen_random_pos2(x_start: i64, x_end: i64, y_start: i64, y_end: i64) -> (p: Pos2)
    requires
        x_start <= x_end,
        y_start <= y_end,
    ensures
        x_start <= p.x <= x_end,
        y_start <= p.y <= y_end,
{
    let x: i64 = gen_random_f32(x_start, x_end);
    let y: i64 = gen_random_f32(y_start, y_end);
    Pos2 { x, y }
}

/// A rectangle within `[0, x_range] x [0, y_range]`: the first corner is
/// drawn from the whole area, the second from what lies right of and below
/// the first.
pub fn gen_random_rect(x_range: i64, y_range: i64) -> (rect: Rect)
    requires
        0 <= x_range,
        0 <= y_range,
    ensures
        rect.within(x_range as int, y_range as int),
{
    let first: Pos2 = gen_random_pos2(0, x_range, 0, y_range);
    let second: Pos2 = gen_random_pos2(first.x, x_range, first.y, y_range);
    Rect { min: first, max: second }
}

/// `sides` points, each drawn from `[0, x_max] x [0, y_max]`, in the order
/// drawn; none for `sides <= 0`. Nothing keeps the outline from crossing
/// itself.
pub fn gen_random_polygon(x_max: i64, y_max: i64, sides: i32) -> (points: Vec<Pos2>)
    requires
        sides > 0 ==> 0 <= x_max && 0 <= y_max,
    ensures
        points@.len() == if sides > 0 {
            sides as int
        } else {
            0
        },
        forall|i: int| 0 <= i < points@.len() ==> (#[trigger] points@[i]).within(x_max as int, y_max as int),
{
    let mut points: Vec<Pos2> = Vec::new();
    let mut i: i32 = 0;
    while i < sides
        invariant
            0 <= i,
            i <= sides || i == 0,
            sides > 0 ==> 0 <= x_max && 0 <= y_max,
            points@.len() == i,
            forall|j: int|
                0 <= j < points@.len() ==> (#[trigger] points@[j]).within(
                    x_max as int,
                    y_max as int,
                ),
        decreases sides - i,
    {
        let p: Pos2 = gen_random_pos2(0, x_max, 0, y_max);
        points.push(p);
        i = i + 1;
    }
    points
}

/// A colour with red, green and blue each drawn from `[0, CHANNEL_MAX]`
/// and the fixed opacity `ALPHA`.
pub fn gen_random_rgb_color() -> (color: Color)
    ensures
        color.is_generated(),
{
    let r: i64 = uniform_inclusive(0, CHANNEL_MAX as i64);
    let g: i64 = uniform_inclusive(0, CHANNEL_MAX as i64);
    let b: i64 = uniform_inclusive(0, CHANNEL_MAX as i64);
    Color { r: r as u8, g: g as u8, b: b as u8, a: ALPHA }
}

/// The smallest radius drawn: `min_rad`, or zero where that is negative.
pub open spec fn radius_floor(min_rad: int) -> int {
    if min_rad > 0 {
        min_rad
    } else {
        0
    }
}

/// The largest radius drawn: `max_rad`, or half the shorter side of the
/// area where a larger circle would not fit into it.
pub open spec fn radius_ceiling(max_rad: int, x_max: int, y_max: int) -> int {
    let half = if x_max <= y_max {
        x_max / 2
    } else {
        y_max / 2
    };
    if max_rad <= half {
        max_rad
    } else {
        half
    }
}

/// Why no radius can be drawn for a circle within `[0, x_max] x [0, y_max]`,
/// if none can.
pub open spec fn radius_error(min_rad: int, max_rad: int, x_max: int, y_max: int) -> Option<
    GenError,
> {
    if max_rad <= 0 {
        Some(GenError::RadiusNotPositive)
    } else if radius_floor(min_rad) > radius_ceiling(max_rad, x_max, y_max) {
        Some(GenError::EmptyRange)
    } else {
        None
    }
}

/// A circle of a radius in the range drawn from is no smaller than asked
/// for, no larger than allowed, and fits into the area.
pub proof fn lemma_radius_in_range(min_rad: int, max_rad: int, x_max: int, y_max: int, r: int)
    requires
        radius_floor(min_rad) <= r <= radius_ceiling(max_rad, x_max, y_max),
    ensures
        0 <= r,
        min_rad <= r <= max_rad,
        r <= x_max - r,
        r <= y_max - r,
{
}

/// The range that a radius is drawn from: from `radius_floor` to
/// `radius_ceiling`, or the reason why there is none.
pub fn radius_range(min_rad: i64, max_rad: i64, x_max: i64, y_max: i64) -> (res: Result<
    (i64, i64),
    GenError,
>)
    ensures
        match radius_error(min_rad as int, max_rad as int, x_max as int, y_max as int) {
            Some(e) => res == Err::<(i64, i64), GenError>(e),
            None => res == Ok::<(i64, i64), GenError>(
                (
                    radius_floor(min_rad as int) as i64,
                    radius_ceiling(max_rad as int, x_max as int, y_max as int) as i64,
                ),
            ),
        },
{
    if max_rad <= 0 {
        return Err(GenError::RadiusNotPositive);
    }
    if x_max < 0 || y_max < 0 {
        return Err(GenError::EmptyRange);
    }
    let lo: i64 = if min_rad > 0 {
        min_rad
    } else {
        0
    };
    let half: i64 = if x_max <= y_max {
        x_max / 2
    } else {
        y_max / 2
    };
    let hi: i64 = if max_rad <= half {
        max_rad
    } else {
        half
    };
    if lo > hi {
        Err(GenError::EmptyRange)
    } else {
        Ok((lo, hi))
    }
}

/// The square of the distance between two points.
pub open spec fn distance_squared(a: Pos2, b: Pos2) -> int {
    (a.x - b.x) * (a.x - b.x) + (a.y - b.y) * (a.y - b.y)
}

/// A squared distance is that of the radius up to rounding: not larger, and
/// smaller by at most `4 * radius + 2 * radius^2 / TRIG_ONE`.
pub open spec fn near_radius(d: int, radius: int) -> bool {
    d <= radius * radius && TRIG_ONE * (radius * radius - d) <= 4 * radius * TRIG_ONE + 2 * radius
        * radius
}

/// Each of `points` is as far from `center` as `radius`, up to rounding.
pub open spec fn all_near_radius(points: Seq<Pos2>, center: Pos2, radius: int) -> bool {
    forall|i: int|
        0 <= i < points.len() ==> near_radius(
            #[trigger] distance_squared(points[i], center),
            radius,
        )
}

/// `radius`, `center` and `rot` are values that a regular polygon within
/// `[0, x_max] x [0, y_max]` can be drawn with: the radius from the range
/// that `radius_floor` and `radius_ceiling` give, the centre such that the
/// circle of that radius stays within the area, the rotation offset from
/// `[0, ROTATION_MAX]`.
pub open spec fn is_regular_draw(
    center: Pos2,
    radius: int,
    rot: int,
    min_rad: int,
    max_rad: int,
    x_max: int,
    y_max: int,
) -> bool {
    &&& radius_floor(min_rad) <= radius <= radius_ceiling(max_rad, x_max, y_max)
    &&& radius <= center.x <= x_max - radius
    &&& radius <= center.y <= y_max - radius
    &&& 0 <= rot <= ROTATION_MAX
}

/// `points` are the vertices of a regular polygon of `sides` sides for
/// some admissible draw of centre, radius and rotation offset.
pub open spec fn is_random_regular_polygon(
    points: Seq<Pos2>,
    min_rad: int,
    max_rad: int,
    x_max: int,
    y_max: int,
    sides: int,
) -> bool {
    exists|center: Pos2, radius: int, rot: int|
        is_regular_draw(center, radius, rot, min_rad, max_rad, x_max, y_max) && points
            == #[trigger] regular_polygon(center, radius, rot, sides)
}

/// What holds of the vertices of a regular polygon for an admissible draw:
/// there are `sides` of them, each lies within the area, and each is as far
/// from the centre as the radius up to rounding, the radius being one that
/// was asked for.
pub proof fn lemma_regular_draw(
    center: Pos2,
    radius: int,
    rot: int,
    min_rad: int,
    max_rad: int,
    x_max: int,
    y_max: int,
    sides: int,
)
    requires
        is_regular_draw(center, radius, rot, min_rad, max_rad, x_max, y_max),
        x_max <= i64::MAX,
        y_max <= i64::MAX,
    ensures
        min_rad <= radius <= max_rad,
        0 <= radius,
        regular_polygon(center, radius, rot, sides).len() == if sides > 0 {
            sides
        } else {
            0
        },
        forall|i: int|
            0 <= i < sides ==> (#[trigger] regular_polygon(center, radius, rot, sides)[i]).within(
                x_max,
                y_max,
            ),
        forall|i: int|
            0 <= i < sides ==> near_radius(
                distance_squared(#[trigger] regular_polygon(center, radius, rot, sides)[i], center),
                radius,
            ),
{
    lemma_radius_in_range(min_rad, max_rad, x_max, y_max, radius);
    let poly = regular_polygon(center, radius, rot, sides);
    assert forall|i: int| 0 <= i < sides implies (#[trigger] poly[i]).within(x_max, y_max)
        && near_radius(distance_squared(poly[i], center), radius) by {
        lemma_vertex_in_box(center, radius, rot, sides, i);
        lemma_vertex_distance(center, radius, rot, sides, i);
        assert(poly[i] == vertex(center, radius, rot, sides, i));
        assert(poly[i].x == vertex_x(center, radius, rot, sides, i));
        assert(poly[i].y == vertex_y(center, radius, rot, sides, i));
        assert(distance_squared(poly[i], center) == vertex_distance_squared(
            center,
            radius,
            rot,
            sides,
            i,
        ));
    }
}

/// What holds of every regular polygon that can be drawn: it has `sides`
/// vertices, each within the area, and there are a centre and a radius,
/// the radius between `min_rad` and `max_rad`, such that each vertex is as
/// far from the centre as the radius up to rounding.
pub proof fn lemma_random_regular_polygon(
    points: Seq<Pos2>,
    min_rad: i64,
    max_rad: i64,
    x_max: i64,
    y_max: i64,
    sides: i32,
)
    requires
        is_random_regular_polygon(
            points,
            min_rad as int,
            max_rad as int,
            x_max as int,
            y_max as int,
            sides as int,
        ),
    ensures
        points.len() == if sides > 0 {
            sides as int
        } else {
            0
        },
        forall|i: int|
            0 <= i < points.len() ==> (#[trigger] points[i]).within(x_max as int, y_max as int),
        exists|center: Pos2, radius: int|
            min_rad <= radius <= max_rad && 0 <= radius && #[trigger] all_near_radius(
                points,
                center,
                radius,
            ),
{
    let (center, radius, rot) = choose|center: Pos2, radius: int, rot: int|
        is_regular_draw(
            center,
            radius,
            rot,
            min_rad as int,
            max_rad as int,
            x_max as int,
            y_max as int,
        ) && points == #[trigger] regular_polygon(center, radius, rot, sides as int);
    lemma_regular_draw(
        center,
        radius,
        rot,
        min_rad as int,
        max_rad as int,
        x_max as int,
        y_max as int,
        sides as int,
    );
    assert(all_near_radius(points, center, radius));
}

/// The vertices of a regular polygon of `sides` sides whose circle lies
/// within `[0, x_max] x [0, y_max]`.
///
/// A rotation offset is drawn from `[0, ROTATION_MAX]`, then a radius, then
/// a centre such that the circle stays within the area. The radius comes
/// from `[min_rad, max_rad]`, cut down to what is not negative and fits
/// into the area; where `max_rad` is not positive or nothing is left of the
/// range, nothing is drawn and the reason is returned.
pub fn gen_random_regular_polygon(
    min_rad: i64,
    max_rad: i64,
    x_max: i64,
    y_max: i64,
    sides: i32,
) -> (res: Result<Vec<Pos2>, GenError>)
    ensures
        match radius_error(min_rad as int, max_rad as int, x_max as int, y_max as int) {
            Some(e) => res == Err::<Vec<Pos2>, GenError>(e),
            None => res is Ok && is_random_regular_polygon(
                res->Ok_0@,
                min_rad as int,
                max_rad as int,
                x_max as int,
                y_max as int,
                sides as int,
            ),
        },
        res matches Ok(points) ==> {
            &&& points@.len() == if sides > 0 {
                sides as int
            } else {
                0
            }
            &&& forall|i: int|
                0 <= i < points@.len() ==> (#[trigger] points@[i]).within(
                    x_max as int,
                    y_max as int,
                )
        },
{
    match radius_range(min_rad, max_rad, x_max, y_max) {
        Err(e) => Err(e),
        Ok((lo, hi)) => {
            let rot: i64 = gen_random_f32(0, ROTATION_MAX);
            let r: i64 = gen_random_f32(lo, hi);
            proof {
                lemma_radius_in_range(
                    min_rad as int,
                    max_rad as int,
                    x_max as int,
                    y_max as int,
                    r as int,
                );
            }
            let c: Pos2 = gen_random_pos2(r, x_max - r, r, y_max - r);
            let points: Vec<Pos2> = regular_polygon_points(c, r, rot, sides);
            proof {
                assert(is_regular_draw(
                    c,
                    r as int,
                    rot as int,
                    min_rad as int,
                    max_rad as int,
                    x_max as int,
                    y_max as int,
                ));
                lemma_regular_draw(
                    c,
                    r as int,
                    rot as int,
                    min_rad as int,
                    max_rad as int,
                    x_max as int,
                    y_max as int,
                    sides as int,
                );
            }
            Ok(points)
        },
    }
}

} // verus!
