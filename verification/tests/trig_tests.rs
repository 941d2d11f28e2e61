use random_shapes::geometry::Pos2;
use random_shapes::polygon::regular_polygon_points;
use random_shapes::scalar::{ONE, ROTATION_MAX};
use random_shapes::trig::{isqrt, sin_fixed, unit_vector, Direction, QUARTER_PI, TRIG_ONE};

#[test]
fn isqrt_gives_integer_part_of_root() {
    assert_eq!(isqrt(0), 0);
    assert_eq!(isqrt(1), 1);
    assert_eq!(isqrt(2), 1);
    assert_eq!(isqrt(15), 3);
    assert_eq!(isqrt(16), 4);
    assert_eq!(isqrt(17), 4);
    assert_eq!(isqrt(1 << 60), 1 << 30);
    assert_eq!(isqrt((1 << 60) - 1), (1 << 30) - 1);
    assert_eq!(isqrt(u64::MAX), 4294967295);
}

#[test]
fn isqrt_brackets_its_argument() {
    let mut n: u64 = 3;
    while n < (1 << 62) {
        let r = isqrt(n) as u128;
        assert!(r * r <= n as u128);
        assert!((r + 1) * (r + 1) > n as u128);
        n = n * 3 + 1;
    }
}

#[test]
fn sin_fixed_exact_values() {
    assert_eq!(sin_fixed(0), 0);
    assert_eq!(sin_fixed(QUARTER_PI), 759250127);
    assert_eq!(sin_fixed(TRIG_ONE / 2), 514779252);
    assert_eq!(sin_fixed(TRIG_ONE), 903522617);
}

#[test]
fn sin_fixed_is_close_to_the_sine() {
    let mut x: u64 = 0;
    while x <= QUARTER_PI {
        let got = sin_fixed(x) as f64 / TRIG_ONE as f64;
        let want = (x as f64 / TRIG_ONE as f64).sin();
        assert!((got - want).abs() < 1e-8, "x = {}", x);
        x += 1_000_003;
    }
}

#[test]
fn unit_vector_on_the_axes() {
    let one = TRIG_ONE as i64;
    assert_eq!(unit_vector(0), Direction { sin: 0, cos: one });
    assert_eq!(unit_vector(1 << 30), Direction { sin: one, cos: 0 });
    assert_eq!(unit_vector(1 << 31), Direction { sin: 0, cos: -one });
    assert_eq!(unit_vector(3 << 30), Direction { sin: -one, cos: 0 });
}

#[test]
fn unit_vector_exact_values() {
    assert_eq!(unit_vector(1 << 29), Direction { sin: 759250122, cos: 759250127 });
    assert_eq!(unit_vector(3 << 29), Direction { sin: 759250127, cos: -759250122 });
    assert_eq!(unit_vector(u32::MAX), Direction { sin: -1, cos: 1073741823 });
    assert_eq!(unit_vector(357913941), Direction { sin: 536870911, cos: 929887697 });
    assert_eq!(unit_vector(715827882), Direction { sin: 929887696, cos: 536870912 });
}

#[test]
fn unit_vector_is_close_to_sine_and_cosine() {
    let mut a: u64 = 0;
    while a < (1 << 32) {
        let d = unit_vector(a as u32);
        let theta = a as f64 / 4294967296.0 * 2.0 * std::f64::consts::PI;
        let s = d.sin as f64 / TRIG_ONE as f64;
        let c = d.cos as f64 / TRIG_ONE as f64;
        assert!((s - theta.sin()).abs() < 1e-8, "angle {}", a);
        assert!((c - theta.cos()).abs() < 1e-8, "angle {}", a);
        a += 1_234_567;
    }
}

#[test]
fn unit_vector_has_unit_length_up_to_rounding() {
    let t = TRIG_ONE as i128;
    let mut a: u64 = 0;
    while a < (1 << 32) {
        let d = unit_vector(a as u32);
        let n = d.sin as i128 * d.sin as i128 + d.cos as i128 * d.cos as i128;
        assert!(n <= t * t);
        assert!(n >= t * t - 2 * t);
        a += 7_654_321;
    }
}

#[test]
fn square_without_rotation_stands_on_the_axes() {
    let c = Pos2 { x: 1000 * ONE, y: 1000 * ONE };
    let v = regular_polygon_points(c, 100 * ONE, 0, 4);
    assert_eq!(
        v,
        vec![
            Pos2 { x: 65536000, y: 72089600 },
            Pos2 { x: 72089600, y: 65536000 },
            Pos2 { x: 65536000, y: 58982400 },
            Pos2 { x: 58982400, y: 65536000 },
        ]
    );
}

#[test]
fn square_rotated_by_half_a_step() {
    let c = Pos2 { x: 1000 * ONE, y: 1000 * ONE };
    let v = regular_polygon_points(c, 100 * ONE, ONE / 2, 4);
    assert_eq!(
        v,
        vec![
            Pos2 { x: 70170094, y: 70170095 },
            Pos2 { x: 70170095, y: 60901906 },
            Pos2 { x: 60901906, y: 60901905 },
            Pos2 { x: 60901905, y: 70170094 },
        ]
    );
}

#[test]
fn hexagon_without_rotation() {
    let c = Pos2 { x: 500 * ONE, y: 400 * ONE };
    let v = regular_polygon_points(c, 100 * ONE, 0, 6);
    assert_eq!(
        v,
        vec![
            Pos2 { x: 32768000, y: 32768000 },
            Pos2 { x: 38443584, y: 29491200 },
            Pos2 { x: 38443584, y: 22937601 },
            Pos2 { x: 32768000, y: 19660800 },
            Pos2 { x: 27092416, y: 22937600 },
            Pos2 { x: 27092416, y: 29491199 },
        ]
    );
}

#[test]
fn triangle_at_the_largest_rotation() {
    let c = Pos2 { x: 500 * ONE, y: 400 * ONE };
    let v = regular_polygon_points(c, 100 * ONE, ROTATION_MAX, 3);
    assert_eq!(
        v,
        vec![
            Pos2 { x: 38092508, y: 22393500 },
            Pos2 { x: 26796750, y: 23513691 },
            Pos2 { x: 33414742, y: 32736010 },
        ]
    );
}

#[test]
fn polygon_of_radius_one_and_zero() {
    let c = Pos2 { x: 10, y: 10 };
    assert_eq!(
        regular_polygon_points(c, 1, 0, 3),
        vec![Pos2 { x: 10, y: 11 }, Pos2 { x: 10, y: 10 }, Pos2 { x: 10, y: 10 }]
    );
    assert_eq!(regular_polygon_points(c, 0, 5, 3), vec![c, c, c]);
}

#[test]
fn polygon_without_sides_is_empty() {
    let c = Pos2 { x: 10, y: 10 };
    assert_eq!(regular_polygon_points(c, 5, 0, 0), vec![]);
    assert_eq!(regular_polygon_points(c, 5, 0, -3), vec![]);
}

#[test]
fn polygon_follows_sine_and_cosine() {
    let c = Pos2 { x: 500 * ONE, y: 400 * ONE };
    let r = 123 * ONE + 4567;
    let rot = 40000;
    let sides = 7;
    let v = regular_polygon_points(c, r, rot, sides);
    assert_eq!(v.len(), 7);
    for i in 0..7 {
        let angle = (i as f64 + rot as f64 / ONE as f64) * 2.0 * std::f64::consts::PI / 7.0;
        let x = c.x as f64 + r as f64 * angle.sin();
        let y = c.y as f64 + r as f64 * angle.cos();
        assert!((v[i].x as f64 - x).abs() < 2.0, "vertex {}", i);
        assert!((v[i].y as f64 - y).abs() < 2.0, "vertex {}", i);
    }
}

#[test]
fn polygon_vertices_are_near_the_radius() {
    let c = Pos2 { x: 0, y: 0 };
    let t = TRIG_ONE as i128;
    for sides in 3..20 {
        for k in 0..50 {
            let r: i64 = 1 + k * 7919 * ONE;
            let v = regular_polygon_points(c, r, (k * 1000) % ROTATION_MAX, sides);
            for p in v.iter() {
                let d = p.x as i128 * p.x as i128 + p.y as i128 * p.y as i128;
                let rr = r as i128 * r as i128;
                assert!(d <= rr);
                assert!(t * (rr - d) <= 4 * r as i128 * t + 2 * rr);
            }
        }
    }
}

#[test]
fn hexagon_vertices_lie_opposite_each_other() {
    for k in 0..200 {
        let c = Pos2 { x: 500 * ONE + k, y: 400 * ONE - 3 * k };
        let r = ONE + k * 4999;
        let v = regular_polygon_points(c, r, (k * 977) % (ROTATION_MAX + 1), 6);
        for i in 0..3 {
            assert_eq!(v[i + 3].x - c.x, -(v[i].x - c.x));
            assert_eq!(v[i + 3].y - c.y, -(v[i].y - c.y));
        }
    }
}

#[test]
fn quarter_turn_swaps_sine_and_cosine() {
    let mut a: u64 = 0;
    while a < (1 << 32) {
        let d = unit_vector(a as u32);
        let q = unit_vector(((a + (1 << 30)) % (1 << 32)) as u32);
        assert_eq!(q.sin, d.cos);
        assert_eq!(q.cos, -d.sin);
        a += 9_999_991;
    }
}
