//! Vertices of a regular polygon around a centre.
//!
//! Vertex `i` of `sides` stands at the fraction `(i + rot) / sides` of a full
//! turn, measured from the positive y axis towards the positive x axis, at
//! the polygon's radius from its centre.

use crate::geometry::Pos2;
use crate::scalar::ONE;
use crate::trig::{
    cos_of, lemma_half_turn, lemma_unit_norm, sin_of, unit_vector, Direction, TRIG_ONE,
};
use vstd::prelude::*;

verus! {

/// The number of binary-angle steps in a full turn.
pub const TURN: u128 = 0x1_0000_0000;

/// The binary angle of vertex `i`: the fraction `(i + rot) / sides` of a
/// turn, rounded down to a step and taken within one turn. `rot` is a
/// fixed-point scalar.
pub open spec fn vertex_angle(i: int, rot: int, sides: int) -> int {
    ((i * ONE + rot) * TURN / (sides * ONE)) % (TURN as int)
}

/// `radius` times a sine or cosine, rounded towards zero.
pub open spec fn scaled(radius: int, comp: int) -> int {
    if comp >= 0 {
        radius * comp / (TRIG_ONE as int)
    } else {
        -(radius * (-comp) / (TRIG_ONE as int))
    }
}

/// The x coordinate of vertex `i`: the centre's, moved by the radius times
/// the sine of the vertex angle.
pub open spec fn vertex_x(center: Pos2, radius: int, rot: int, sides: int, i: int) -> int {
    center.x + scaled(radius, sin_of(vertex_angle(i, rot, sides)))
}

/// The y coordinate of vertex `i`: the centre's, moved by the radius times
/// the cosine of the vertex angle.
pub open spec fn vertex_y(center: Pos2, radius: int, rot: int, sides: int, i: int) -> int {
    center.y + scaled(radius, cos_of(vertex_angle(i, rot, sides)))
}

/// Vertex `i` of the polygon.
pub open spec fn vertex(center: Pos2, radius: int, rot: int, sides: int, i: int) -> Pos2 {
    Pos2 {
        x: vertex_x(center, radius, rot, sides, i) as i64,
        y: vertex_y(center, radius, rot, sides, i) as i64,
    }
}

/// The polygon's vertices in increasing order of `i`; none for `sides <= 0`.
pub open spec fn regular_polygon(center: Pos2, radius: int, rot: int, sides: int) -> Seq<Pos2> {
    Seq::new(
        if sides > 0 {
            sides as nat
        } else {
            0
        },
        |i: int| vertex(center, radius, rot, sides, i),
    )
}

/// The circle around `center` stays within the range of a coordinate.
pub open spec fn placeable(center: Pos2, radius: int) -> bool {
    &&& 0 <= radius
    &&& i64::MIN <= center.x - radius
    &&& center.x + radius <= i64::MAX
    &&& i64::MIN <= center.y - radius
    &&& center.y + radius <= i64::MAX
}

/// A scaled component is no longer than the radius.
pub proof fn lemma_scaled_bound(radius: int, comp: int)
    requires
        0 <= radius,
        -TRIG_ONE <= comp <= TRIG_ONE,
    ensures
        -radius <= scaled(radius, comp) <= radius,
        comp >= 0 ==> 0 <= scaled(radius, comp),
        comp <= 0 ==> scaled(radius, comp) <= 0,
{
    let m = if comp >= 0 {
        comp
    } else {
        -comp
    };
    assert(0 <= radius * m <= radius * 0x4000_0000) by (nonlinear_arith)
        requires
            0 <= radius,
            0 <= m <= 0x4000_0000,
    ;
    assert(comp == 0 ==> radius * comp == 0) by (nonlinear_arith);
}

/// Every vertex lies within the square that bounds the polygon's circle.
pub proof fn lemma_vertex_in_box(center: Pos2, radius: int, rot: int, sides: int, i: int)
    requires
        0 <= radius,
        0 <= i < sides,
    ensures
        center.x - radius <= vertex_x(center, radius, rot, sides, i) <= center.x + radius,
        center.y - radius <= vertex_y(center, radius, rot, sides, i) <= center.y + radius,
{
    let a = vertex_angle(i, rot, sides);
    lemma_vertex_angle_range(i, rot, sides);
    lemma_unit_norm(a);
    lemma_scaled_bound(radius, sin_of(a));
    lemma_scaled_bound(radius, cos_of(a));
}

/// A vertex angle is a binary angle.
pub proof fn lemma_vertex_angle_range(i: int, rot: int, sides: int)
    ensures
        0 <= vertex_angle(i, rot, sides) < TURN,
{
}

/// The square of the distance between vertex `i` and the centre.
pub open spec fn vertex_distance_squared(
    center: Pos2,
    radius: int,
    rot: int,
    sides: int,
    i: int,
) -> int {
    let dx = vertex_x(center, radius, rot, sides, i) - center.x;
    let dy = vertex_y(center, radius, rot, sides, i) - center.y;
    dx * dx + dy * dy
}

/// A product rounded down to a multiple of `t`: how far its square falls
/// short of the product's square.
proof fn lemma_rounded_square(p: int, w: int, t: int)
    requires
        0 < t,
        0 <= w <= p,
        p < w + t,
    ensures
        w * w <= p * p,
        p * p - 2 * (p * t) <= w * w,
{
    assert(w * w <= p * p) by (nonlinear_arith)
        requires
            0 <= w <= p,
    ;
    if p >= t {
        assert((p - t) * (p - t) <= w * w) by (nonlinear_arith)
            requires
                0 <= p - t <= w,
        ;
        assert((p - t) * (p - t) == p * p - 2 * (p * t) + t * t) by (nonlinear_arith);
        assert(0 <= t * t) by (nonlinear_arith);
    } else {
        assert(p * p <= p * t) by (nonlinear_arith)
            requires
                0 <= p < t,
        ;
        assert(0 <= p * t) by (nonlinear_arith)
            requires
                0 <= p,
                0 < t,
        ;
        assert(0 <= w * w) by (nonlinear_arith);
    }
}

/// The offset that a radius and a near-unit vector give: its squared
/// length, scaled by `t`^2, against the squared radius.
proof fn lemma_offset_length(r: int, s: int, c: int, u: int, v: int, t: int)
    requires
        0 < t,
        0 <= r,
        0 <= s <= t,
        0 <= c <= t,
        t * t - 2 * t <= s * s + c * c <= t * t,
        u == r * s / t,
        v == r * c / t,
    ensures
        u * u + v * v <= r * r,
        t * (r * r - (u * u + v * v)) <= 4 * r * t + 2 * r * r,
{
    let p = r * s;
    let q = r * c;
    let wu = t * u;
    let wv = t * v;
    assert(0 <= p && 0 <= q && p <= r * t && q <= r * t) by (nonlinear_arith)
        requires
            0 <= r,
            0 <= s <= t,
            0 <= c <= t,
            p == r * s,
            q == r * c,
    ;
    vstd::arithmetic::div_mod::lemma_fundamental_div_mod(p, t);
    vstd::arithmetic::div_mod::lemma_fundamental_div_mod(q, t);
    vstd::arithmetic::div_mod::lemma_mod_bound(p, t);
    vstd::arithmetic::div_mod::lemma_mod_bound(q, t);
    assert(0 <= u && 0 <= v) by (nonlinear_arith)
        requires
            0 < t,
            0 <= p,
            0 <= q,
            u == p / t,
            v == q / t,
    ;
    assert(0 <= wu && 0 <= wv) by (nonlinear_arith)
        requires
            0 < t,
            0 <= u,
            0 <= v,
            wu == t * u,
            wv == t * v,
    ;
    lemma_rounded_square(p, wu, t);
    lemma_rounded_square(q, wv, t);
    let n = s * s + c * c;
    let r2 = r * r;
    let d2 = u * u + v * v;
    let tt = t * t;
    assert(0 <= r2) by (nonlinear_arith)
        requires
            r2 == r * r,
    ;
    assert(p * p + q * q == r2 * n) by (nonlinear_arith)
        requires
            p == r * s,
            q == r * c,
            n == s * s + c * c,
            r2 == r * r,
    ;
    assert(wu * wu + wv * wv == tt * d2) by (nonlinear_arith)
        requires
            wu == t * u,
            wv == t * v,
            d2 == u * u + v * v,
            tt == t * t,
    ;
    assert(r2 * n <= r2 * tt && r2 * tt - 2 * (r2 * t) <= r2 * n) by (nonlinear_arith)
        requires
            0 <= r2,
            tt - 2 * t <= n <= tt,
    ;
    assert(p * t <= r * tt && q * t <= r * tt) by (nonlinear_arith)
        requires
            0 < t,
            p <= r * t,
            q <= r * t,
            tt == t * t,
    ;
    assert(0 < tt) by (nonlinear_arith)
        requires
            0 < t,
            tt == t * t,
    ;
    // the upper bound
    assert(tt * d2 <= tt * r2) by (nonlinear_arith)
        requires
            tt * d2 <= r2 * tt,
    ;
    assert(d2 <= r2) by (nonlinear_arith)
        requires
            0 < tt,
            tt * d2 <= tt * r2,
    ;
    // the lower bound
    let e = t * (r2 - d2);
    let f = 2 * r2 + 4 * (r * t);
    assert(t * e == r2 * tt - tt * d2) by (nonlinear_arith)
        requires
            e == t * (r2 - d2),
            tt == t * t,
    ;
    assert(t * f == 2 * (r2 * t) + 4 * (r * tt)) by (nonlinear_arith)
        requires
            f == 2 * r2 + 4 * (r * t),
            tt == t * t,
    ;
    assert(e <= f) by (nonlinear_arith)
        requires
            0 < t,
            t * e <= t * f,
    ;
    assert(4 * r * t == 4 * (r * t) && 2 * r * r == 2 * (r * r)) by (nonlinear_arith);
}

/// Every vertex is as far from the centre as the radius, up to rounding:
/// never farther, and nearer by a squared distance of at most
/// `4 * radius + 2 * radius^2 / TRIG_ONE`.
pub proof fn lemma_vertex_distance(center: Pos2, radius: int, rot: int, sides: int, i: int)
    requires
        0 <= radius,
        0 <= i < sides,
    ensures
        vertex_distance_squared(center, radius, rot, sides, i) <= radius * radius,
        TRIG_ONE * (radius * radius - vertex_distance_squared(center, radius, rot, sides, i)) <= 4
            * radius * TRIG_ONE + 2 * radius * radius,
{
    let a = vertex_angle(i, rot, sides);
    lemma_unit_norm(a);
    let s = if sin_of(a) >= 0 {
        sin_of(a)
    } else {
        -sin_of(a)
    };
    let c = if cos_of(a) >= 0 {
        cos_of(a)
    } else {
        -cos_of(a)
    };
    let t = TRIG_ONE as int;
    let u = radius * s / t;
    let v = radius * c / t;
    let dx = scaled(radius, sin_of(a));
    let dy = scaled(radius, cos_of(a));
    assert(s * s == sin_of(a) * sin_of(a)) by (nonlinear_arith)
        requires
            s == sin_of(a) || s == -sin_of(a),
    ;
    assert(c * c == cos_of(a) * cos_of(a)) by (nonlinear_arith)
        requires
            c == cos_of(a) || c == -cos_of(a),
    ;
    assert(dx == u || dx == -u);
    assert(dy == v || dy == -v);
    assert(dx * dx == u * u) by (nonlinear_arith)
        requires
            dx == u || dx == -u,
    ;
    assert(dy * dy == v * v) by (nonlinear_arith)
        requires
            dy == v || dy == -v,
    ;
    lemma_offset_length(radius, s, c, u, v, t);
}

/// In a polygon with an even number of sides, the vertex half way round
/// lies opposite: as far from the centre, in the other direction.
pub proof fn lemma_opposite_vertex(center: Pos2, radius: int, rot: int, sides: int, i: int)
    requires
        0 < sides,
        sides % 2 == 0,
        0 <= i,
        0 <= rot,
    ensures
        vertex_x(center, radius, rot, sides, i + sides / 2) - center.x == -(vertex_x(
            center,
            radius,
            rot,
            sides,
            i,
        ) - center.x),
        vertex_y(center, radius, rot, sides, i + sides / 2) - center.y == -(vertex_y(
            center,
            radius,
            rot,
            sides,
            i,
        ) - center.y),
{
    let half = sides / 2;
    let whole = sides * ONE;
    let here = (i * ONE + rot) * TURN;
    let there = ((i + half) * ONE + rot) * TURN;
    assert(0 < whole) by (nonlinear_arith)
        requires
            0 < sides,
            whole == sides * ONE,
    ;
    assert(there == 0x8000_0000 * whole + here) by (nonlinear_arith)
        requires
            sides == 2 * half,
            whole == sides * ONE,
            here == (i * ONE + rot) * TURN,
            there == ((i + half) * ONE + rot) * TURN,
            TURN == 0x1_0000_0000,
    ;
    vstd::arithmetic::div_mod::lemma_fundamental_div_mod(here, whole);
    vstd::arithmetic::div_mod::lemma_mod_bound(here, whole);
    let q = here / whole;
    assert(there == whole * (q + 0x8000_0000) + here % whole) by (nonlinear_arith)
        requires
            there == 0x8000_0000 * whole + here,
            here == whole * q + here % whole,
    ;
    vstd::arithmetic::div_mod::lemma_fundamental_div_mod_converse(
        there,
        whole,
        q + 0x8000_0000,
        here % whole,
    );
    assert(there / whole == q + 0x8000_0000);
    let a = vertex_angle(i, rot, sides);
    let b = vertex_angle(i + half, rot, sides);
    assert(b == (a + 0x8000_0000) % 0x1_0000_0000);
    lemma_half_turn(a);
    assert(radius * 0 == 0) by (nonlinear_arith);
}

/// Twice the signed area that the corner at `b` spans between the edge
/// from `a` and the edge to `c`: its sign tells which way the outline turns.
pub open spec fn turn(a: Pos2, b: Pos2, c: Pos2) -> int {
    (b.x - a.x) * (c.y - b.y) - (b.y - a.y) * (c.x - b.x)
}

/// An outline of three vertices turns the same way, and as much, at each
/// of them: it cannot fail to be convex.
pub proof fn lemma_triangle_turns(a: Pos2, b: Pos2, c: Pos2)
    ensures
        turn(a, b, c) == turn(b, c, a),
        turn(b, c, a) == turn(c, a, b),
{
    assert(turn(a, b, c) == turn(b, c, a) && turn(b, c, a) == turn(c, a, b)) by (nonlinear_arith)
        requires
            turn(a, b, c) == (b.x - a.x) * (c.y - b.y) - (b.y - a.y) * (c.x - b.x),
            turn(b, c, a) == (c.x - b.x) * (a.y - c.y) - (c.y - b.y) * (a.x - c.x),
            turn(c, a, b) == (a.x - c.x) * (b.y - a.y) - (a.y - c.y) * (b.x - a.x),
    ;
}

fn scale(radius: i64, comp: i64) -> (r: i64)
    requires
        0 <= radius,
        -TRIG_ONE <= comp <= TRIG_ONE,
    ensures
        r == scaled(radius as int, comp as int),
        -radius <= r <= radius,
{
    proof {
        lemma_scaled_bound(radius as int, comp as int);
    }
    let m: u128 = if comp >= 0 {
        comp as u128
    } else {
        (-comp) as u128
    };
    assert(0 <= radius * m <= radius * 0x4000_0000) by (nonlinear_arith)
        requires
            0 <= radius,
            0 <= m <= 0x4000_0000,
    ;
    let q: u128 = (radius as u128) * m / (TRIG_ONE as u128);
    if comp >= 0 {
        q as i64
    } else {
        -(q as i64)
    }
}

fn angle_of_vertex(i: i32, rot: i64, sides: i32) -> (a: u32)
    requires
        0 <= i < sides,
        0 <= rot,
    ensures
        a == vertex_angle(i as int, rot as int, sides as int),
{
    assert(0 <= i * ONE <= 0x7fff_ffff * 65536 && 0 < sides * ONE <= 0x7fff_ffff * 65536)
        by (nonlinear_arith)
        requires
            0 <= i < sides <= 0x7fff_ffff,
            ONE == 65536,
    ;
    let turns: u128 = (i as u128) * (ONE as u128) + (rot as u128);
    let whole: u128 = (sides as u128) * (ONE as u128);
    assert(turns * TURN <= 0x1_0000_0000_0000_0000 * 0x1_0000_0000) by (nonlinear_arith)
        requires
            0 <= turns <= 0x1_0000_0000_0000_0000,
            TURN == 0x1_0000_0000,
    ;
    let steps: u128 = turns * TURN / whole;
    (steps % TURN) as u32
}

/// The vertices of the regular polygon with the given centre, radius,
/// rotation offset and number of sides.
pub fn regular_polygon_points(center: Pos2, radius: i64, rot: i64, sides: i32) -> (points: Vec<
    Pos2,
>)
    requires
        placeable(center, radius as int),
        0 <= rot,
    ensures
        points@ == regular_polygon(center, radius as int, rot as int, sides as int),
{
    let mut points: Vec<Pos2> = Vec::new();
    let mut i: i32 = 0;
    while i < sides
        invariant
            0 <= i,
            i <= sides || i == 0,
            placeable(center, radius as int),
            0 <= rot,
            points@.len() == i,
            forall|j: int|
                0 <= j < i ==> points@[j] == vertex(
                    center,
                    radius as int,
                    rot as int,
                    sides as int,
                    j,
                ),
        decreases sides - i,
    {
        let a: u32 = angle_of_vertex(i, rot, sides);
        let d: Direction = unit_vector(a);
        proof {
            lemma_unit_norm(a as int);
        }
        let dx: i64 = scale(radius, d.sin);
        let dy: i64 = scale(radius, d.cos);
        points.push(Pos2 { x: center.x + dx, y: center.y + dy });
        i = i + 1;
    }
    assert(points@ =~= regular_polygon(center, radius as int, rot as int, sides as int));
    points
}

} // verus!
