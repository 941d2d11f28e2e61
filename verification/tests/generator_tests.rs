use random_shapes::generator::{ConfigError, ShapeGenerator, DEFAULT_COUNT};
use random_shapes::gen_util::GenError;
use random_shapes::scalar::{DEFAULT_MAX_RADIUS, MIN_RADIUS, ONE, STROKE_WIDTH};
use random_shapes::shape::{DrawableShape, ShapeKind};

const KINDS: [ShapeKind; 5] = [
    ShapeKind::Rectangle,
    ShapeKind::Circle,
    ShapeKind::Triangle,
    ShapeKind::EquilateralTriangle,
    ShapeKind::Hexagon,
];

fn with_counts(counts: [i32; 5]) -> ShapeGenerator {
    let mut g = ShapeGenerator::new();
    for i in 0..5 {
        assert_eq!(g.set_count(KINDS[i], counts[i]), Ok(()));
    }
    g
}

fn form(shape: &DrawableShape) -> u8 {
    match shape {
        DrawableShape::Rect { .. } => 0,
        DrawableShape::Circle { .. } => 1,
        DrawableShape::Polygon { .. } => 2,
    }
}

#[test]
fn scalars_have_their_values() {
    assert_eq!(ONE, 65536);
    assert_eq!(MIN_RADIUS, 65536);
    assert_eq!(DEFAULT_MAX_RADIUS, 9830400);
    assert_eq!(STROKE_WIDTH, 65536);
}

#[test]
fn new_generator_has_the_defaults() {
    let g = ShapeGenerator::new();
    assert!(g.shapes().is_empty());
    let labels = ["rectangle", "circle", "triangle", "equilateral triangle", "hexagon"];
    let radii = [None, Some(150 * ONE), None, Some(150 * ONE), Some(150 * ONE)];
    for i in 0..5 {
        let c = g.config(KINDS[i]);
        assert_eq!(c.count, 3);
        assert_eq!(c.count, DEFAULT_COUNT);
        assert_eq!(c.max_radius, radii[i]);
        assert_eq!(c.label, labels[i]);
    }
}

#[test]
fn default_generator_is_the_new_one() {
    let g = ShapeGenerator::default();
    let n = ShapeGenerator::new();
    assert!(g.shapes().is_empty());
    for kind in KINDS {
        assert_eq!(g.config(kind), n.config(kind));
    }
}

#[test]
fn two_rectangles_and_nothing_else() {
    let mut g = with_counts([2, 0, 0, 0, 0]);
    g.regenerate(850 * ONE, 600 * ONE);
    assert_eq!(g.shapes().len(), 2);
    for s in g.shapes().iter() {
        assert!(matches!(s, DrawableShape::Rect { .. }));
    }
}

#[test]
fn all_counts_zero_give_no_shapes() {
    let mut g = with_counts([0, 0, 0, 0, 0]);
    g.regenerate(850 * ONE, 600 * ONE);
    assert!(g.shapes().is_empty());
}

#[test]
fn negative_count_is_refused_and_changes_nothing() {
    let mut g = ShapeGenerator::new();
    assert_eq!(g.set_count(ShapeKind::Circle, 7), Ok(()));
    assert_eq!(g.set_count(ShapeKind::Circle, -1), Err(ConfigError::NegativeCount));
    assert_eq!(g.config(ShapeKind::Circle).count, 7);
    assert_eq!(g.set_count(ShapeKind::Hexagon, i32::MIN), Err(ConfigError::NegativeCount));
    assert_eq!(g.config(ShapeKind::Hexagon).count, 3);
}

#[test]
fn set_count_changes_one_kind_only() {
    let mut g = ShapeGenerator::new();
    assert_eq!(g.set_count(ShapeKind::Triangle, 100), Ok(()));
    assert_eq!(g.set_count(ShapeKind::Rectangle, 0), Ok(()));
    assert_eq!(g.set_count(ShapeKind::Hexagon, i32::MAX), Ok(()));
    assert_eq!(g.config(ShapeKind::Rectangle).count, 0);
    assert_eq!(g.config(ShapeKind::Circle).count, 3);
    assert_eq!(g.config(ShapeKind::Triangle).count, 100);
    assert_eq!(g.config(ShapeKind::EquilateralTriangle).count, 3);
    assert_eq!(g.config(ShapeKind::Hexagon).count, 2147483647);
    assert_eq!(g.config(ShapeKind::Triangle).label, "triangle");
    assert_eq!(g.config(ShapeKind::Hexagon).max_radius, Some(DEFAULT_MAX_RADIUS));
}

#[test]
fn set_max_radius_keeps_to_the_floor() {
    let mut g = ShapeGenerator::new();
    assert_eq!(g.set_max_radius(ShapeKind::Circle, 40 * ONE), Ok(()));
    assert_eq!(g.config(ShapeKind::Circle).max_radius, Some(40 * ONE));
    assert_eq!(g.set_max_radius(ShapeKind::Circle, MIN_RADIUS), Ok(()));
    assert_eq!(g.config(ShapeKind::Circle).max_radius, Some(MIN_RADIUS));
    assert_eq!(
        g.set_max_radius(ShapeKind::Hexagon, MIN_RADIUS - 1),
        Err(ConfigError::RadiusBelowMinimum)
    );
    assert_eq!(g.set_max_radius(ShapeKind::Hexagon, -5), Err(ConfigError::RadiusBelowMinimum));
    assert_eq!(g.config(ShapeKind::Hexagon).max_radius, Some(DEFAULT_MAX_RADIUS));
    assert_eq!(g.config(ShapeKind::EquilateralTriangle).max_radius, Some(DEFAULT_MAX_RADIUS));
}

#[test]
fn set_max_radius_is_refused_for_kinds_without_radius() {
    let mut g = ShapeGenerator::new();
    assert_eq!(g.set_max_radius(ShapeKind::Rectangle, 40 * ONE), Err(ConfigError::NoRadius));
    assert_eq!(g.set_max_radius(ShapeKind::Triangle, 0), Err(ConfigError::NoRadius));
    assert_eq!(g.config(ShapeKind::Rectangle).max_radius, None);
    assert_eq!(g.config(ShapeKind::Triangle).max_radius, None);
}

#[test]
fn thousand_circles_stay_within_radius_and_canvas() {
    let mut g = with_counts([0, 1000, 0, 0, 0]);
    assert_eq!(g.set_max_radius(ShapeKind::Circle, 40 * ONE), Ok(()));
    let side = 100 * ONE;
    g.regenerate(side, side);
    assert_eq!(g.shapes().len(), 1000);
    let mut radii_differ = false;
    for s in g.shapes().iter() {
        match s {
            DrawableShape::Circle { center, radius, fill, stroke_color, stroke_width } => {
                assert!(ONE <= *radius && *radius <= 40 * ONE);
                assert!(*radius <= center.x && center.x <= side - *radius);
                assert!(*radius <= center.y && center.y <= side - *radius);
                assert_eq!(fill, stroke_color);
                assert_eq!(*stroke_width, ONE);
                assert!(fill.r <= 200 && fill.g <= 200 && fill.b <= 200);
                assert_eq!(fill.a, 100);
                radii_differ = radii_differ || *radius != ONE;
            }
            _ => panic!("not a circle"),
        }
    }
    assert!(radii_differ);
}

#[test]
fn two_passes_have_the_same_structure() {
    let mut g = with_counts([4, 1, 0, 2, 5]);
    g.regenerate(850 * ONE, 600 * ONE);
    let first: Vec<u8> = g.shapes().iter().map(form).collect();
    let before = g.shapes().clone();
    g.regenerate(850 * ONE, 600 * ONE);
    let second: Vec<u8> = g.shapes().iter().map(form).collect();
    assert_eq!(first.len(), 12);
    assert_eq!(first, second);
    assert_ne!(&before, g.shapes());
}

#[test]
fn pass_goes_kind_by_kind() {
    let mut g = with_counts([1, 2, 3, 4, 5]);
    g.regenerate(850 * ONE, 600 * ONE);
    let forms: Vec<u8> = g.shapes().iter().map(form).collect();
    assert_eq!(forms, vec![0, 1, 1, 2, 2, 2, 2, 2, 2, 2, 2, 2, 2, 2, 2]);
    let sides: Vec<usize> = g
        .shapes()
        .iter()
        .map(|s| match s {
            DrawableShape::Polygon { vertices, .. } => vertices.len(),
            _ => 0,
        })
        .collect();
    assert_eq!(sides, vec![0, 0, 0, 3, 3, 3, 3, 3, 3, 3, 6, 6, 6, 6, 6]);
}

#[test]
fn pass_replaces_the_collection() {
    let mut g = with_counts([3, 3, 3, 3, 3]);
    g.regenerate(850 * ONE, 600 * ONE);
    assert_eq!(g.shapes().len(), 15);
    assert_eq!(g.set_count(ShapeKind::Circle, 0), Ok(()));
    assert_eq!(g.shapes().len(), 15);
    g.regenerate(850 * ONE, 600 * ONE);
    assert_eq!(g.shapes().len(), 12);
    for kind in KINDS {
        assert_eq!(g.config(kind).count, if kind == ShapeKind::Circle { 0 } else { 3 });
    }
}

#[test]
fn every_shape_lies_on_the_canvas() {
    let w = 850 * ONE;
    let h = 600 * ONE;
    let mut g = with_counts([50, 50, 50, 50, 50]);
    g.regenerate(w, h);
    assert_eq!(g.shapes().len(), 250);
    for s in g.shapes().iter() {
        match s {
            DrawableShape::Rect { rect, fill, stroke_color, stroke_width } => {
                assert!(0 <= rect.min.x && rect.min.x <= rect.max.x && rect.max.x <= w);
                assert!(0 <= rect.min.y && rect.min.y <= rect.max.y && rect.max.y <= h);
                assert_eq!(fill, stroke_color);
                assert_eq!(*stroke_width, STROKE_WIDTH);
            }
            DrawableShape::Circle { center, radius, fill, stroke_color, stroke_width } => {
                assert!(MIN_RADIUS <= *radius && *radius <= 150 * ONE);
                assert!(*radius <= center.x && center.x <= w - *radius);
                assert!(*radius <= center.y && center.y <= h - *radius);
                assert_eq!(fill, stroke_color);
                assert_eq!(*stroke_width, STROKE_WIDTH);
            }
            DrawableShape::Polygon { vertices, closed, fill, stroke_color, stroke_width } => {
                assert!(*closed);
                assert!(vertices.len() == 3 || vertices.len() == 6);
                for p in vertices.iter() {
                    assert!(0 <= p.x && p.x <= w);
                    assert!(0 <= p.y && p.y <= h);
                }
                assert_eq!(fill, stroke_color);
                assert_eq!(*stroke_width, STROKE_WIDTH);
            }
        }
    }
}

#[test]
fn empty_canvas_holds_points_only() {
    let mut g = with_counts([2, 2, 2, 2, 2]);
    g.regenerate(0, 0);
    let forms: Vec<u8> = g.shapes().iter().map(form).collect();
    assert_eq!(forms, vec![0, 0, 2, 2]);
    for s in g.shapes().iter() {
        match s {
            DrawableShape::Rect { rect, .. } => {
                assert_eq!((rect.min.x, rect.min.y, rect.max.x, rect.max.y), (0, 0, 0, 0));
            }
            DrawableShape::Polygon { vertices, .. } => {
                assert_eq!(vertices.len(), 3);
                assert!(vertices.iter().all(|p| p.x == 0 && p.y == 0));
            }
            _ => panic!("a circle on an empty canvas"),
        }
    }
}

#[test]
fn negative_canvas_holds_nothing() {
    let mut g = with_counts([2, 2, 2, 2, 2]);
    g.regenerate(-1, 600 * ONE);
    assert!(g.shapes().is_empty());
    g.regenerate(850 * ONE, i64::MIN);
    assert!(g.shapes().is_empty());
}

#[test]
fn narrow_canvas_passes_over_what_does_not_fit() {
    let mut g = with_counts([1, 1, 1, 1, 1]);
    g.regenerate(2 * ONE - 1, 600 * ONE);
    let forms: Vec<u8> = g.shapes().iter().map(form).collect();
    assert_eq!(forms, vec![0, 2]);
    g.regenerate(2 * ONE, 600 * ONE);
    assert_eq!(g.shapes().len(), 5);
}

#[test]
fn synthesize_one_gives_the_form_of_the_kind() {
    let g = ShapeGenerator::new();
    let w = 850 * ONE;
    let h = 600 * ONE;
    assert_eq!(g.synthesize_one(ShapeKind::Rectangle, w, h).map(|s| form(&s)), Ok(0));
    assert_eq!(g.synthesize_one(ShapeKind::Circle, w, h).map(|s| form(&s)), Ok(1));
    assert_eq!(g.synthesize_one(ShapeKind::Triangle, w, h).map(|s| form(&s)), Ok(2));
    assert_eq!(g.synthesize_one(ShapeKind::EquilateralTriangle, w, h).map(|s| form(&s)), Ok(2));
    assert_eq!(g.synthesize_one(ShapeKind::Hexagon, w, h).map(|s| form(&s)), Ok(2));
    assert!(g.shapes().is_empty());
}

#[test]
fn synthesize_one_reports_why_it_draws_nothing() {
    let g = ShapeGenerator::new();
    assert_eq!(g.synthesize_one(ShapeKind::Rectangle, -1, 5), Err(GenError::EmptyRange));
    assert_eq!(g.synthesize_one(ShapeKind::Triangle, 5, -1), Err(GenError::EmptyRange));
    assert_eq!(g.synthesize_one(ShapeKind::Circle, 0, 0), Err(GenError::EmptyRange));
    assert_eq!(g.synthesize_one(ShapeKind::EquilateralTriangle, ONE, ONE), Err(GenError::EmptyRange));
    assert_eq!(g.synthesize_one(ShapeKind::Hexagon, 10 * ONE, ONE), Err(GenError::EmptyRange));
}

#[test]
fn circle_radius_is_cut_to_the_canvas() {
    let g = ShapeGenerator::new();
    for _ in 0..500 {
        match g.synthesize_one(ShapeKind::Circle, 200 * ONE, 100 * ONE) {
            Ok(DrawableShape::Circle { center, radius, .. }) => {
                assert!(ONE <= radius && radius <= 50 * ONE);
                assert!(radius <= center.x && center.x <= 200 * ONE - radius);
                assert!(radius <= center.y && center.y <= 100 * ONE - radius);
            }
            _ => panic!("no circle"),
        }
    }
}
