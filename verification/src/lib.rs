//! Collision detection for convex 2D shapes.
//!
//! The library decides whether two convex shapes overlap
//! (Gilbert–Johnson–Keerthi, GJK) and, when they do, computes the
//! minimum-translation vector that separates them (Expanding Polytope
//! Algorithm, EPA).
//!
//! All geometry is carried in fixed-point coordinates: an `i64` component
//! counts units of `1 / UNIT`, so the integer `UNIT` stands for the real
//! number one.  Every operation is exact integer arithmetic except where a
//! square root or a division forces a documented truncation.

pub mod gjk;
pub mod num;
pub mod shapes;
pub mod vec2;
