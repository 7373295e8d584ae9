//! Tests of the shape variants: support points, areas and centroids.
//! Coordinates are fixed-point ticks: `1_000_000` is the real number one.

use gjk2d::shapes::{Circle, Polygon};
use gjk2d::vec2::Vec2;

fn unit_square_5() -> Polygon {
    Polygon::new(vec![
        Vec2::new(0, 0),
        Vec2::new(5_000_000, 0),
        Vec2::new(5_000_000, 5_000_000),
        Vec2::new(0, 5_000_000),
    ])
}

#[test]
fn test_circle_support() {
    let a = Circle::new(Vec2::new(1_000_000, 1_000_000), 1_000_000);
    assert_eq!(a.support(&Vec2::new(1_000_000, 0)), Vec2::new(2_000_000, 1_000_000));
}

#[test]
fn circle_test_circle_center() {
    let a = Circle::new(Vec2::new(1_000_000, 1_000_000), 1_000_000);
    assert_eq!(a.center(), Vec2::new(1_000_000, 1_000_000));
}

#[test]
fn shape_test_circle_center() {
    let a = Circle::new(Vec2::new(1_000_000, 1_000_000), 1_000_000);
    assert_eq!(a.center(), Vec2::new(1_000_000, 1_000_000));
}

#[test]
fn circle_test_circle_area() {
    // pi to fixed-point precision: the unit circle's area equals the
    // scaled pi constant exactly.
    let a = Circle::new(Vec2::new(1_000_000, 1_000_000), 1_000_000);
    assert_eq!(a.area(), 3_141_593);
}

#[test]
fn shape_test_circle_area() {
    let a = Circle::new(Vec2::new(1_000_000, 1_000_000), 1_000_000);
    assert_eq!(a.area(), 3_141_593);
}

#[test]
fn circle_area_within_float_tolerance_of_pi() {
    // the fixed-point area of the unit circle differs from pi by less
    // than one tick
    let a = Circle::new(Vec2::new(0, 0), 1_000_000);
    let pi_ticks = 3_141_592.653_589_793_f64;
    assert!((a.area() as f64 - pi_ticks).abs() <= 1.0);
}

#[test]
fn test_polygon_support() {
    let a = unit_square_5();
    assert_eq!(
        a.support(&Vec2::new(1_000_000, 1_000_000)),
        Vec2::new(5_000_000, 5_000_000)
    );
}

#[test]
fn polygon_test_polygon_area() {
    assert_eq!(unit_square_5().area(), 25_000_000);
}

#[test]
fn shape_test_polygon_area() {
    assert_eq!(unit_square_5().area(), 25_000_000);
}

#[test]
fn polygon_test_polygon_center() {
    assert_eq!(unit_square_5().center(), Vec2::new(2_500_000, 2_500_000));
}

#[test]
fn shape_test_polygon_center() {
    assert_eq!(unit_square_5().center(), Vec2::new(2_500_000, 2_500_000));
}

#[test]
fn polygon_area_sign_encodes_winding() {
    // the same square with clockwise vertex order has negative signed
    // area; the centroid is unaffected
    let cw = Polygon::new(vec![
        Vec2::new(0, 0),
        Vec2::new(0, 5_000_000),
        Vec2::new(5_000_000, 5_000_000),
        Vec2::new(5_000_000, 0),
    ]);
    assert_eq!(cw.area(), -25_000_000);
    assert_eq!(cw.center(), Vec2::new(2_500_000, 2_500_000));
}

#[test]
fn triangle_area_and_center() {
    // triangle (0,0), (6,0), (0,6): area 18, centroid (2, 2)
    let t = Polygon::new(vec![
        Vec2::new(0, 0),
        Vec2::new(6_000_000, 0),
        Vec2::new(0, 6_000_000),
    ]);
    assert_eq!(t.area(), 18_000_000);
    assert_eq!(t.center(), Vec2::new(2_000_000, 2_000_000));
}

#[test]
fn polygon_support_keeps_first_maximum() {
    // both right-hand vertices maximize the projection onto (1, 0); the
    // scan keeps the first one
    let a = unit_square_5();
    assert_eq!(a.support(&Vec2::new(1_000_000, 0)), Vec2::new(5_000_000, 0));
}

#[test]
fn degenerate_polygon_has_no_centroid() {
    // collinear vertices give zero signed area: the centroid formula is
    // undefined and the shape is rejected for collision queries
    let flat = Polygon::new(vec![
        Vec2::new(0, 0),
        Vec2::new(1_000_000, 0),
        Vec2::new(2_000_000, 0),
    ]);
    assert!(!flat.center_defined());
    assert!(unit_square_5().center_defined());
}

#[test]
fn zero_radius_circle_support_is_center() {
    let a = Circle::new(Vec2::new(3_000_000, -4_000_000), 0);
    assert_eq!(
        a.support(&Vec2::new(0, 7_000_000)),
        Vec2::new(3_000_000, -4_000_000)
    );
    assert_eq!(a.area(), 0);
}
