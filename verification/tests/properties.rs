//! Concrete instances of the library's stated properties: symmetry of the
//! intersection test, agreement between the test and the penetration
//! query, and separation by the returned vector.

use gjk2d::gjk::{compute_penetration, test_intersect};
use gjk2d::shapes::{Circle, Polygon, Shapes};
use gjk2d::vec2::Vec2;

fn square(x0: i64, y0: i64, x1: i64, y1: i64) -> Shapes {
    Shapes::Polygon(Polygon::new(vec![
        Vec2::new(x0, y0),
        Vec2::new(x1, y0),
        Vec2::new(x1, y1),
        Vec2::new(x0, y1),
    ]))
}

fn circle(x: i64, y: i64, r: i64) -> Shapes {
    Shapes::Circle(Circle::new(Vec2::new(x, y), r))
}

#[test]
fn intersect_test_is_symmetric() {
    let pairs = [
        (square(0, 0, 5_000_000, 5_000_000), square(2_000_000, 2_000_000, 7_000_000, 7_000_000)),
        (square(0, 0, 5_000_000, 5_000_000), square(10_000_000, 10_000_000, 15_000_000, 15_000_000)),
        (square(0, 0, 5_000_000, 5_000_000), circle(6_000_000, 6_000_000, 1_500_000)),
        (circle(1_000_000, 1_000_000, 1_000_000), circle(2_000_000, 2_000_000, 1_500_000)),
        (circle(1_000_000, 1_000_000, 1_000_000), circle(6_000_000, 6_000_000, 1_000_000)),
    ];
    for (a, b) in pairs.iter() {
        assert_eq!(test_intersect(a, b), test_intersect(b, a));
    }
}

#[test]
fn no_intersection_means_no_penetration() {
    let pairs = [
        (square(0, 0, 5_000_000, 5_000_000), square(10_000_000, 10_000_000, 15_000_000, 15_000_000)),
        (square(10_000_000, 10_000_000, 15_000_000, 15_000_000), circle(6_000_000, 6_000_000, 1_500_000)),
        (circle(1_000_000, 1_000_000, 1_000_000), circle(6_000_000, 6_000_000, 1_000_000)),
    ];
    for (a, b) in pairs.iter() {
        assert_eq!(test_intersect(a, b), false);
        assert_eq!(compute_penetration(a, b), None);
    }
}

#[test]
fn penetration_vector_separates_squares() {
    // the returned vector points from the first shape toward the second:
    // translating the first shape by its negation resolves the overlap,
    // up to boundary contact of zero depth
    let a = square(0, 0, 5_000_000, 5_000_000);
    let b = square(3_000_000, 4_000_000, 8_000_000, 9_000_000);
    let v = compute_penetration(&a, &b).unwrap();
    assert_eq!(v, Vec2::new(0, 1_000_000));
    let moved = square(-v.x, -v.y, 5_000_000 - v.x, 5_000_000 - v.y);
    match compute_penetration(&moved, &b) {
        None => (),
        Some(rest) => {
            assert!(rest.x.abs() <= 200 && rest.y.abs() <= 200);
        },
    }
}

#[test]
fn penetration_vector_separates_circles() {
    let a = circle(1_000_000, 1_000_000, 1_000_000);
    let b = circle(2_000_000, 2_000_000, 1_500_000);
    let v = compute_penetration(&a, &b).unwrap();
    let moved = circle(1_000_000 - v.x, 1_000_000 - v.y, 1_000_000);
    match compute_penetration(&moved, &b) {
        None => (),
        Some(rest) => {
            assert!(rest.x.abs() <= 200 && rest.y.abs() <= 200);
        },
    }
}

#[test]
fn penetration_vector_separates_square_from_circle() {
    let a = square(0, 0, 5_000_000, 5_000_000);
    let c = circle(6_000_000, 6_000_000, 1_500_000);
    let v = compute_penetration(&a, &c).unwrap();
    let moved = square(-v.x, -v.y, 5_000_000 - v.x, 5_000_000 - v.y);
    match compute_penetration(&moved, &c) {
        None => (),
        Some(rest) => {
            assert!(rest.x.abs() <= 200 && rest.y.abs() <= 200);
        },
    }
}
