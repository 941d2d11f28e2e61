//! Fixed-point sine and cosine of a binary angle.
//!
//! An angle is a `u32` that counts 1/2^32nds of a full turn. Sine and cosine
//! are scaled by [`TRIG_ONE`]. The smaller of the two comes from a polynomial,
//! the larger from a square root, so that the pair is a unit vector up to
//! rounding.

use vstd::prelude::*;

verus! {

/// The value that stands for 1.0 in a sine or cosine.
pub const TRIG_ONE: u64 = 0x4000_0000;

/// The number of binary-angle steps in one eighth of a turn.
pub const OCTANT: u64 = 0x2000_0000;

/// pi / 4 in radians, scaled by `TRIG_ONE` and rounded down.
pub const QUARTER_PI: u64 = 843314856;

/// Sine and cosine of one angle, each scaled by `TRIG_ONE`.
#[derive(Clone, Copy, Debug, PartialEq, Eq, Structural)]
pub struct Direction {
    pub sin: i64,
    pub cos: i64,
}

/// `r` is the integer part of the square root of `n`.
pub open spec fn is_floor_sqrt(n: int, r: int) -> bool {
    0 <= r && r * r <= n < (r + 1) * (r + 1)
}

/// The integer part of the square root of `n`.
pub open spec fn floor_sqrt(n: int) -> int {
    choose|r: int| is_floor_sqrt(n, r)
}

/// At most one number is the integer part of a square root.
pub proof fn lemma_floor_sqrt_unique(n: int, a: int, b: int)
    requires
        is_floor_sqrt(n, a),
        is_floor_sqrt(n, b),
    ensures
        a == b,
{
    if a < b {
        assert((a + 1) * (a + 1) <= b * b) by (nonlinear_arith)
            requires
                0 <= a,
                a + 1 <= b,
        ;
    } else if b < a {
        assert((b + 1) * (b + 1) <= a * a) by (nonlinear_arith)
            requires
                0 <= b,
                b + 1 <= a,
        ;
    }
}

/// The integer part of the square root of `n`, by bisection.
pub fn isqrt(n: u64) -> (r: u64)
    ensures
        is_floor_sqrt(n as int, r as int),
        r == floor_sqrt(n as int),
{
    let mut lo: u64 = 0;
    let mut hi: u64 = 0x1_0000_0000;
    while hi - lo > 1
        invariant
            lo < hi <= 0x1_0000_0000,
            lo * lo <= n,
            n < hi * hi,
        decreases hi - lo,
    {
        let mid: u64 = lo + (hi - lo) / 2;
        assert(mid * mid <= 0xffff_ffff * 0xffff_ffff) by (nonlinear_arith)
            requires
                0 <= mid <= 0xffff_ffff,
        ;
        if mid * mid <= n {
            lo = mid;
        } else {
            hi = mid;
        }
    }
    proof {
        assert(hi == lo + 1);
        lemma_floor_sqrt_unique(n as int, lo as int, floor_sqrt(n as int));
    }
    lo
}

/// `a * b / TRIG_ONE` for two values in `[0, TRIG_ONE]` lies between 0 and
/// the smaller of them.
pub proof fn lemma_scaled_product(a: int, b: int)
    requires
        0 <= a <= TRIG_ONE,
        0 <= b <= TRIG_ONE,
    ensures
        0 <= a * b / (TRIG_ONE as int) <= a,
        a * b / (TRIG_ONE as int) <= b,
        0 <= a * b <= TRIG_ONE * TRIG_ONE,
{
    assert(0 <= a * b && a * b <= a * 0x4000_0000 && a * b <= b * 0x4000_0000 && a * b
        <= 0x4000_0000 * 0x4000_0000) by (nonlinear_arith)
        requires
            0 <= a <= 0x4000_0000,
            0 <= b <= 0x4000_0000,
    ;
}

/// One step of the nested polynomial: `1 - x2 * t / d`, scaled.
pub open spec fn horner_step(x2: int, t: int, d: int) -> int {
    TRIG_ONE - (x2 * t / (TRIG_ONE as int)) / d
}

/// The sine of `x` radians, `x` scaled by `TRIG_ONE` and within `[0, 1]`:
/// the Taylor polynomial of degree nine in nested form, each product
/// rounded down.
pub open spec fn sin_poly(x: int) -> int {
    let x2 = x * x / (TRIG_ONE as int);
    let t4 = horner_step(x2, TRIG_ONE as int, 72);
    let t3 = horner_step(x2, t4, 42);
    let t2 = horner_step(x2, t3, 20);
    let t1 = horner_step(x2, t2, 6);
    x * t1 / (TRIG_ONE as int)
}

/// A step of the polynomial stays within `[0, TRIG_ONE]`.
pub proof fn lemma_horner_step(x2: int, t: int, d: int)
    requires
        0 <= x2 <= TRIG_ONE,
        0 <= t <= TRIG_ONE,
        d == 6 || d == 20 || d == 42 || d == 72,
    ensures
        0 <= horner_step(x2, t, d) <= TRIG_ONE,
{
    lemma_scaled_product(x2, t);
}

/// The polynomial sine of an angle in `[0, 1]` lies between 0 and the angle.
pub proof fn lemma_sin_poly_bounds(x: int)
    requires
        0 <= x <= TRIG_ONE,
    ensures
        0 <= sin_poly(x) <= x,
{
    let x2 = x * x / (TRIG_ONE as int);
    lemma_scaled_product(x, x);
    let t4 = horner_step(x2, TRIG_ONE as int, 72);
    lemma_horner_step(x2, TRIG_ONE as int, 72);
    let t3 = horner_step(x2, t4, 42);
    lemma_horner_step(x2, t4, 42);
    let t2 = horner_step(x2, t3, 20);
    lemma_horner_step(x2, t3, 20);
    let t1 = horner_step(x2, t2, 6);
    lemma_horner_step(x2, t2, 6);
    lemma_scaled_product(x, t1);
}

fn horner(x2: u64, t: u64, d: u64) -> (r: u64)
    requires
        x2 <= TRIG_ONE,
        t <= TRIG_ONE,
        d == 6 || d == 20 || d == 42 || d == 72,
    ensures
        r == horner_step(x2 as int, t as int, d as int),
        r <= TRIG_ONE,
{
    proof {
        lemma_scaled_product(x2 as int, t as int);
    }
    TRIG_ONE - (x2 * t / TRIG_ONE) / d
}

/// The polynomial sine of `x`.
pub fn sin_fixed(x: u64) -> (s: u64)
    requires
        x <= TRIG_ONE,
    ensures
        s == sin_poly(x as int),
        s <= x,
{
    proof {
        lemma_scaled_product(x as int, x as int);
        lemma_sin_poly_bounds(x as int);
    }
    let x2: u64 = x * x / TRIG_ONE;
    let t4: u64 = horner(x2, TRIG_ONE, 72);
    let t3: u64 = horner(x2, t4, 42);
    let t2: u64 = horner(x2, t3, 20);
    let t1: u64 = horner(x2, t2, 6);
    proof {
        lemma_scaled_product(x as int, t1 as int);
    }
    x * t1 / TRIG_ONE
}

/// The polynomial sine lies between the first two and the first three terms
/// of the sine's series, up to rounding: with `x2` for the rounded square of
/// `x`, it is more than `x - x^3 / 6 - 1` and at most
/// `x - x * x2 / 6 + x * x2^2 / 120 + x / TRIG_ONE`, each term scaled.
pub proof fn lemma_sin_poly_enclosure(x: int)
    requires
        0 <= x <= TRIG_ONE,
    ensures
        6 * (TRIG_ONE * TRIG_ONE) * (sin_poly(x) + 1) > 6 * (TRIG_ONE * TRIG_ONE) * x - x * x * x,
        ({
            let x2 = x * x / (TRIG_ONE as int);
            120 * (TRIG_ONE * TRIG_ONE) * sin_poly(x) <= x * (120 * (TRIG_ONE * TRIG_ONE) - 20 * x2
                * TRIG_ONE + x2 * x2 + 120 * TRIG_ONE)
        }),
{
    let t: int = 0x4000_0000;
    let x2 = x * x / t;
    lemma_scaled_product(x, x);
    let t4 = horner_step(x2, t, 72);
    lemma_horner_step(x2, t, 72);
    let t3 = horner_step(x2, t4, 42);
    lemma_horner_step(x2, t4, 42);
    let t2 = horner_step(x2, t3, 20);
    lemma_horner_step(x2, t3, 20);
    let t1 = horner_step(x2, t2, 6);
    lemma_horner_step(x2, t2, 6);
    let s = sin_poly(x);
    assert(s == x * t1 / t);
    lemma_scaled_product(x2, t3);
    lemma_scaled_product(x2, t2);
    lemma_scaled_product(x, t1);
    let inner2 = x2 * t3 / t;
    let inner1 = x2 * t2 / t;
    // both steps give at least what a factor of one would
    assert(20 * t2 >= 20 * t - x2);
    assert(6 * t1 >= 6 * t - x2);
    // and the last step at most what the step before allows
    assert(t * inner1 >= x2 * t2 - t + 1);
    assert(6 * t1 <= 6 * t - inner1 + 5);
    let xx = x * x;
    let xt1 = x * t1;
    assert(t * x2 <= xx);
    assert(t * s <= xt1 && xt1 < t * s + t);
    // the lower bound
    assert(6 * xt1 >= 6 * t * x - x * x2) by (nonlinear_arith)
        requires
            6 * t1 >= 6 * t - x2,
            0 <= x,
            xt1 == x * t1,
    ;
    assert(t * (x * x2) <= x * xx) by (nonlinear_arith)
        requires
            0 <= x,
            t * x2 <= xx,
    ;
    assert(6 * (t * t) * (s + 1) > 6 * (t * t) * x - x * xx) by (nonlinear_arith)
        requires
            0 < t,
            xt1 < t * s + t,
            6 * xt1 >= 6 * t * x - x * x2,
            t * (x * x2) <= x * xx,
    ;
    assert(x * xx == x * x * x) by (nonlinear_arith)
        requires
            xx == x * x,
    ;
    // the upper bound
    let x2t2 = x2 * t2;
    assert(20 * x2t2 >= 20 * (x2 * t) - x2 * x2) by (nonlinear_arith)
        requires
            20 * t2 >= 20 * t - x2,
            0 <= x2,
            x2t2 == x2 * t2,
    ;
    let bound = 120 * (t * t) - 20 * (x2 * t) + x2 * x2 + 120 * t;
    assert(120 * (t * t1) <= bound) by (nonlinear_arith)
        requires
            0 < t,
            6 * t1 <= 6 * t - inner1 + 5,
            t * inner1 >= x2t2 - t + 1,
            20 * x2t2 >= 20 * (x2 * t) - x2 * x2,
            bound == 120 * (t * t) - 20 * (x2 * t) + x2 * x2 + 120 * t,
    ;
    assert(120 * (t * t) * s <= x * bound) by (nonlinear_arith)
        requires
            0 < t,
            0 <= x,
            t * s <= xt1,
            xt1 == x * t1,
            120 * (t * t1) <= bound,
    ;
    assert(20 * x2 * t == 20 * (x2 * t)) by (nonlinear_arith);
}

/// A quarter of a turn further on, the sine is what the cosine was and the
/// cosine what the sine was, negated.
pub proof fn lemma_quarter_turn(angle: int)
    requires
        0 <= angle < 0x1_0000_0000,
    ensures
        sin_of((angle + 0x4000_0000) % 0x1_0000_0000) == cos_of(angle),
        cos_of((angle + 0x4000_0000) % 0x1_0000_0000) == -sin_of(angle),
{
    let turned = (angle + 0x4000_0000) % 0x1_0000_0000;
    let k = angle / (OCTANT as int);
    let kt = turned / (OCTANT as int);
    assert(kt == (k + 2) % 8);
    assert(turned % (OCTANT as int) == angle % (OCTANT as int));
    assert(reduced(turned) == reduced(angle));
}

/// Half a turn further on, sine and cosine are negated.
pub proof fn lemma_half_turn(angle: int)
    requires
        0 <= angle < 0x1_0000_0000,
    ensures
        sin_of((angle + 0x8000_0000) % 0x1_0000_0000) == -sin_of(angle),
        cos_of((angle + 0x8000_0000) % 0x1_0000_0000) == -cos_of(angle),
{
    let quarter = (angle + 0x4000_0000) % 0x1_0000_0000;
    lemma_quarter_turn(angle);
    lemma_quarter_turn(quarter);
    assert((quarter + 0x4000_0000) % 0x1_0000_0000 == (angle + 0x8000_0000) % 0x1_0000_0000);
}

/// Every natural number has an integer square root.
pub proof fn lemma_floor_sqrt_exists(n: nat)
    ensures
        is_floor_sqrt(n as int, floor_sqrt(n as int)),
    decreases n,
{
    if n == 0 {
        assert(is_floor_sqrt(0, 0));
    } else {
        lemma_floor_sqrt_exists((n - 1) as nat);
        let r = floor_sqrt(n - 1);
        if (r + 1) * (r + 1) <= n {
            assert((r + 2) * (r + 2) > (r + 1) * (r + 1)) by (nonlinear_arith)
                requires
                    0 <= r,
            ;
            assert(is_floor_sqrt(n as int, r + 1));
        } else {
            assert(is_floor_sqrt(n as int, r));
        }
    }
}

/// The distance of a binary angle from the axis its octant leans on, in
/// binary-angle steps: the angle's offset within an even octant, the rest
/// of the octant within an odd one.
pub open spec fn reduced(angle: int) -> int {
    let k = angle / (OCTANT as int);
    let f = angle % (OCTANT as int);
    if k % 2 == 1 {
        OCTANT - f
    } else {
        f
    }
}

/// A reduced angle in radians, scaled by `TRIG_ONE`.
pub open spec fn octant_radians(g: int) -> int {
    g * QUARTER_PI / (OCTANT as int)
}

/// The smaller of sine and cosine in magnitude: the polynomial sine of the
/// reduced angle.
pub open spec fn minor(angle: int) -> int {
    sin_poly(octant_radians(reduced(angle)))
}

/// The larger of sine and cosine in magnitude: what the smaller one leaves
/// of the unit circle.
pub open spec fn major(angle: int) -> int {
    floor_sqrt(TRIG_ONE * TRIG_ONE - minor(angle) * minor(angle))
}

/// The sine of a binary angle, scaled by `TRIG_ONE`.
pub open spec fn sin_of(angle: int) -> int {
    let k = angle / (OCTANT as int);
    if k == 0 || k == 3 {
        minor(angle)
    } else if k == 1 || k == 2 {
        major(angle)
    } else if k == 4 || k == 7 {
        -minor(angle)
    } else {
        -major(angle)
    }
}

/// The cosine of a binary angle, scaled by `TRIG_ONE`.
pub open spec fn cos_of(angle: int) -> int {
    let k = angle / (OCTANT as int);
    if k == 0 || k == 7 {
        major(angle)
    } else if k == 1 || k == 6 {
        minor(angle)
    } else if k == 2 || k == 5 {
        -minor(angle)
    } else {
        -major(angle)
    }
}

/// The two magnitudes of an angle: both within `[0, TRIG_ONE]`, and the sum
/// of their squares at most `TRIG_ONE`^2 and short of it by at most
/// 2 * `TRIG_ONE`.
pub proof fn lemma_minor_major(angle: int)
    requires
        0 <= angle < 0x1_0000_0000,
    ensures
        0 <= reduced(angle) <= OCTANT,
        0 <= octant_radians(reduced(angle)) <= QUARTER_PI,
        0 <= minor(angle) <= QUARTER_PI,
        0 <= major(angle) <= TRIG_ONE,
        is_floor_sqrt(TRIG_ONE * TRIG_ONE - minor(angle) * minor(angle), major(angle)),
        TRIG_ONE * TRIG_ONE - 2 * TRIG_ONE <= minor(angle) * minor(angle) + major(angle) * major(
            angle,
        ) <= TRIG_ONE * TRIG_ONE,
{
    let g = reduced(angle);
    let x = octant_radians(g);
    assert(0 <= g * 843314856 <= 0x2000_0000 * 843314856);
    lemma_sin_poly_bounds(x);
    let m = minor(angle);
    lemma_scaled_product(m, m);
    let n = TRIG_ONE * TRIG_ONE - m * m;
    lemma_floor_sqrt_exists(n as nat);
    let big = major(angle);
    assert(big <= 0x4000_0000) by (nonlinear_arith)
        requires
            0 <= big,
            big * big <= 0x4000_0000 * 0x4000_0000,
    ;
    assert((big + 1) * (big + 1) == big * big + 2 * big + 1) by (nonlinear_arith);
}

/// Sine and cosine of an angle form a unit vector up to rounding: each lies
/// within `[-TRIG_ONE, TRIG_ONE]`, and the sum of their squares is at most
/// `TRIG_ONE`^2 and short of it by at most 2 * `TRIG_ONE`.
pub proof fn lemma_unit_norm(angle: int)
    requires
        0 <= angle < 0x1_0000_0000,
    ensures
        -TRIG_ONE <= sin_of(angle) <= TRIG_ONE,
        -TRIG_ONE <= cos_of(angle) <= TRIG_ONE,
        TRIG_ONE * TRIG_ONE - 2 * TRIG_ONE <= sin_of(angle) * sin_of(angle) + cos_of(angle)
            * cos_of(angle) <= TRIG_ONE * TRIG_ONE,
{
    lemma_minor_major(angle);
    let m = minor(angle);
    let big = major(angle);
    let s = sin_of(angle);
    let c = cos_of(angle);
    assert(s * s + c * c == m * m + big * big) by (nonlinear_arith)
        requires
            (s == m || s == -m) && (c == big || c == -big) || (s == big || s == -big) && (c == m
                || c == -m),
    ;
}

/// Sine and cosine of a binary angle.
pub fn unit_vector(angle: u32) -> (d: Direction)
    ensures
        d.sin == sin_of(angle as int),
        d.cos == cos_of(angle as int),
{
    let a: u64 = angle as u64;
    let k: u64 = a / OCTANT;
    let f: u64 = a % OCTANT;
    let g: u64 = if k % 2 == 1 {
        OCTANT - f
    } else {
        f
    };
    proof {
        lemma_minor_major(angle as int);
    }
    let x: u64 = g * QUARTER_PI / OCTANT;
    let m: u64 = sin_fixed(x);
    proof {
        lemma_scaled_product(m as int, m as int);
    }
    let big: u64 = isqrt(TRIG_ONE * TRIG_ONE - m * m);
    let s: i64 = m as i64;
    let c: i64 = big as i64;
    if k == 0 {
        Direction { sin: s, cos: c }
    } else if k == 1 {
        Direction { sin: c, cos: s }
    } else if k == 2 {
        Direction { sin: c, cos: -s }
    } else if k == 3 {
        Direction { sin: s, cos: -c }
    } else if k == 4 {
        Direction { sin: -s, cos: -c }
    } else if k == 5 {
        Direction { sin: -c, cos: -s }
    } else if k == 6 {
        Direction { sin: -c, cos: s }
    } else {
        Direction { sin: -s, cos: c }
    }
}

} // verus!
