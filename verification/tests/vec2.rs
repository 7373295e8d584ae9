//! Tests of the fixed-point vector primitive.  Coordinates are in ticks of
//! `1 / UNIT`, so `1_000_000` stands for the real number one.

use gjk2d::num::UNIT;
use gjk2d::vec2::Vec2;

#[test]
fn vec2_test_ops() {
    assert_eq!(
        Vec2::new(1_000_000, 3_000_000).add(&Vec2::new(2_000_000, -2_000_000)),
        Vec2::new(3_000_000, 1_000_000)
    );
    assert_eq!(
        Vec2::new(1_000_000, 3_000_000).sub(&Vec2::new(2_000_000, -2_000_000)),
        Vec2::new(-1_000_000, 5_000_000)
    );
    assert_eq!(
        Vec2::new(1_000_000, 3_000_000).mul_comp(&Vec2::new(2_000_000, -2_000_000)),
        Vec2::new(2_000_000, -6_000_000)
    );
    assert_eq!(
        Vec2::new(1_000_000, 3_000_000).div_comp(&Vec2::new(2_000_000, -2_000_000)),
        Vec2::new(500_000, -1_500_000)
    );
    assert_eq!(
        Vec2::new(1_000_000, 3_000_000).mul(4),
        Vec2::new(4_000_000, 12_000_000)
    );
    assert_eq!(
        Vec2::new(1_000_000, 3_000_000).div(4),
        Vec2::new(250_000, 750_000)
    );
    assert_eq!(
        Vec2::new(1_000_000, 3_000_000).neg(),
        Vec2::new(-1_000_000, -3_000_000)
    );
}

#[test]
fn vec2_test_splat() {
    assert_eq!(Vec2::splat(1_000_000), Vec2::new(1_000_000, 1_000_000));
}

#[test]
fn vec2_test_x() {
    assert_eq!(Vec2::new(1_000_000, 2_000_000).x, 1_000_000);
}

#[test]
fn vec2_test_y() {
    assert_eq!(Vec2::new(1_000_000, 2_000_000).y, 2_000_000);
}

#[test]
fn vec2_test_len() {
    assert_eq!(Vec2::new(UNIT, 0).len(), UNIT);
}

#[test]
fn vec2_test_len_sq() {
    assert_eq!(Vec2::new(UNIT, 0).len_sq(), (UNIT as i128) * (UNIT as i128));
}

#[test]
fn vec2_test_normalize() {
    // 1 / sqrt(2) is 0.70710678...; the fixed-point unit vector truncates
    // to 0.707106 on each component.
    assert_eq!(
        Vec2::new(2_000_000, 2_000_000).normalize(),
        Vec2::new(707_106, 707_106)
    );
}

#[test]
fn vec2_test_lerp() {
    assert_eq!(
        Vec2::lerp(&Vec2::new(0, 0), &Vec2::new(1_000_000, 1_000_000), UNIT / 2),
        Vec2::new(500_000, 500_000)
    );
}

#[test]
fn vec2_test_dot() {
    assert_eq!(
        Vec2::dot(&Vec2::new(2_000_000, 3_000_000), &Vec2::new(5_000_000, 6_000_000)),
        28_000_000_000_000
    );
}

#[test]
fn vec2_test_cross() {
    assert_eq!(
        Vec2::cross(&Vec2::new(2_000_000, 3_000_000), &Vec2::new(5_000_000, 6_000_000)),
        -3_000_000_000_000
    );
}

#[test]
fn vec2_set_len_exact() {
    // (3, 4) has length 5 exactly; rescaling to length 10 is exact.
    assert_eq!(
        Vec2::new(3_000_000, 4_000_000).set_len(10_000_000),
        Vec2::new(6_000_000, 8_000_000)
    );
    assert_eq!(Vec2::new(3_000_000, 4_000_000).len(), 5_000_000);
}

#[test]
fn vec2_lerp_endpoints() {
    let a = Vec2::new(-2_000_000, 7_000_000);
    let b = Vec2::new(4_000_000, -1_000_000);
    assert_eq!(Vec2::lerp(&a, &b, 0), a);
    assert_eq!(Vec2::lerp(&a, &b, UNIT), b);
}
