//! Convex shapes: circles and polygons, with the support function,
//! signed area and centroid that the collision queries consume.
//!
//! The closed sum type `Shapes` dispatches over the two variants, so the
//! collision engine works on heterogeneous pairs through one interface.

use vstd::prelude::*;

use crate::num::{div_trunc, div_trunc_i128, iabs, lemma_div_trunc_mag, PI_UNITS, UNIT};
use crate::vec2::{
    gadd, gcross, gdiv, gdot, gscale, gset_len, gvec, gvec_bounded, gvec_zero, GVec, Vec2,
    VEC_LIMIT,
};
use crate::vec2::{lemma_mul_commutes, lemma_product_bound};
use vstd::arithmetic::mul::lemma_mul_inequality;

verus! {

/// Every coordinate of a shape (and a circle's radius) is bounded by this
/// constant, so that the collision queries stay within machine range.
/// At the default scale it still admits coordinates beyond a thousand
/// real-number units.
pub const COORD_LIMIT: i64 = 0x4000_0000;

/// Cap on the vertex count of a polygon, so that the shoelace and centroid
/// accumulators stay within machine range.
pub const MAX_VERTICES: usize = 100_000;

/// Mathematical model of a shape.
pub ghost enum GShape {
    Circle { center: GVec, radius: int },
    Polygon { verts: Seq<GVec> },
}

/// Well-formed shape: valid construction (radius at least zero, at least
/// three vertices) and coordinates within `COORD_LIMIT`.
pub open spec fn shape_wf(s: GShape) -> bool {
    match s {
        GShape::Circle { center, radius } => 0 <= radius <= COORD_LIMIT as int && gvec_bounded(
            center,
            COORD_LIMIT as int,
        ),
        GShape::Polygon { verts } => 3 <= verts.len() <= MAX_VERTICES as int && forall|k: int|
            0 <= k < verts.len() ==> gvec_bounded(#[trigger] verts[k], COORD_LIMIT as int),
    }
}

/// The centroid of the shape exists and is itself within `COORD_LIMIT`.
/// A polygon of zero signed area has no centroid (the formula divides by
/// the area), and a degenerate self-intersecting vertex list can place the
/// formula's value outside the machine range; for any simple polygon the
/// centroid lies inside the convex hull of its vertices, so this holds of
/// every shape the collision queries are meant for.
pub open spec fn shape_center_ok(s: GShape) -> bool {
    match s {
        GShape::Circle { .. } => true,
        GShape::Polygon { verts } => poly_twice_area(verts) != 0 && gvec_bounded(
            poly_center(verts),
            COORD_LIMIT as int,
        ),
    }
}

/// The vertex among the first `n` with the greatest projection onto `d`;
/// ties keep the earliest vertex, as the scan meets it first.
pub open spec fn poly_support_upto(verts: Seq<GVec>, d: GVec, n: int) -> GVec
    recommends
        1 <= n <= verts.len(),
    decreases n,
{
    if n <= 1 {
        verts[0]
    } else {
        let best = poly_support_upto(verts, d, n - 1);
        if gdot(verts[n - 1], d) > gdot(best, d) {
            verts[n - 1]
        } else {
            best
        }
    }
}

/// The support vertex of the whole polygon.
pub open spec fn poly_support(verts: Seq<GVec>, d: GVec) -> GVec {
    poly_support_upto(verts, d, verts.len() as int)
}

/// `poly_support_upto` scans the first `n` vertices: it returns one of
/// them, and none of them projects further onto `d`.
proof fn lemma_poly_support_upto_maximal(verts: Seq<GVec>, d: GVec, n: int)
    requires
        1 <= n <= verts.len(),
    ensures
        exists|k: int| 0 <= k < n && poly_support_upto(verts, d, n) == verts[k],
        forall|k: int|
            0 <= k < n ==> gdot(#[trigger] verts[k], d) <= gdot(poly_support_upto(verts, d, n), d),
    decreases n,
{
    if n == 1 {
        assert(poly_support_upto(verts, d, 1) == verts[0]);
    } else {
        lemma_poly_support_upto_maximal(verts, d, n - 1);
    }
}

/// The support point of a polygon is one of its vertices, and no vertex
/// projects further onto the direction: the support function maximizes
/// the directional dot product over the shape.
pub proof fn lemma_poly_support_maximal(verts: Seq<GVec>, d: GVec)
    requires
        verts.len() >= 1,
    ensures
        exists|k: int| 0 <= k < verts.len() && poly_support(verts, d) == verts[k],
        forall|k: int|
            0 <= k < verts.len() ==> gdot(#[trigger] verts[k], d) <= gdot(
                poly_support(verts, d),
                d,
            ),
{
    lemma_poly_support_upto_maximal(verts, d, verts.len() as int);
}

/// The vertex preceding `verts[j]` in cyclic order.
pub open spec fn prev_vertex(verts: Seq<GVec>, j: int) -> GVec
    recommends
        0 <= j < verts.len(),
{
    if j == 0 {
        verts[verts.len() - 1]
    } else {
        verts[j - 1]
    }
}

/// Shoelace sum over the first `n` edges: twice the signed area once
/// `n == verts.len()`.  Positive for counter-clockwise winding.
pub open spec fn poly_cross_sum_upto(verts: Seq<GVec>, n: int) -> int
    decreases n,
{
    if n <= 0 {
        0
    } else {
        poly_cross_sum_upto(verts, n - 1) + gcross(prev_vertex(verts, n - 1), verts[n - 1])
    }
}

/// Twice the signed area of the polygon, in squared fixed-point ticks.
pub open spec fn poly_twice_area(verts: Seq<GVec>) -> int {
    poly_cross_sum_upto(verts, verts.len() as int)
}

/// Centroid numerator: the cross-weighted sum of edge endpoint pairs over
/// the first `n` edges.
pub open spec fn poly_centroid_sum_upto(verts: Seq<GVec>, n: int) -> GVec
    decreases n,
{
    if n <= 0 {
        gvec_zero()
    } else {
        gadd(
            poly_centroid_sum_upto(verts, n - 1),
            gscale(
                gadd(prev_vertex(verts, n - 1), verts[n - 1]),
                gcross(prev_vertex(verts, n - 1), verts[n - 1]),
            ),
        )
    }
}

/// The polygon centroid: the weighted vertex sum divided by six times the
/// signed area (three times the shoelace sum), each component truncated.
pub open spec fn poly_center(verts: Seq<GVec>) -> GVec
    recommends
        poly_twice_area(verts) != 0,
{
    gdiv(poly_centroid_sum_upto(verts, verts.len() as int), 3 * poly_twice_area(verts))
}

/// Signed area of the shape, in fixed-point ticks (real area times `UNIT`),
/// truncated toward zero.
pub open spec fn spec_area(s: GShape) -> int {
    match s {
        GShape::Circle { radius, .. } => div_trunc(
            PI_UNITS as int * (radius * radius),
            UNIT as int * UNIT as int,
        ),
        GShape::Polygon { verts } => div_trunc(poly_twice_area(verts), 2 * UNIT as int),
    }
}

/// Centroid of the shape.
pub open spec fn spec_center(s: GShape) -> GVec
    recommends
        shape_center_ok(s),
{
    match s {
        GShape::Circle { center, .. } => center,
        GShape::Polygon { verts } => poly_center(verts),
    }
}

/// Support point of the shape in direction `d`: a point of the shape with
/// maximal projection onto `d`.  For the circle the boundary point along
/// `d` (up to fixed-point truncation); for the polygon the first vertex
/// with the greatest projection.
pub open spec fn spec_support(s: GShape, d: GVec) -> GVec
    recommends
        d != gvec_zero(),
{
    match s {
        GShape::Circle { center, radius } => gadd(center, gset_len(d, radius)),
        GShape::Polygon { verts } => poly_support(verts, d),
    }
}

/// A circle given by its center and radius.
#[derive(Clone, Copy, Debug)]
pub struct Circle {
    center: Vec2,
    radius: i64,
}

impl View for Circle {
    type V = GShape;

    closed spec fn view(&self) -> GShape {
        GShape::Circle { center: self.center@, radius: self.radius as int }
    }
}

impl Circle {
    pub fn new(center: Vec2, radius: i64) -> (r: Circle)
        requires
            0 <= radius <= COORD_LIMIT,
            gvec_bounded(center@, COORD_LIMIT as int),
        ensures
            r@ == (GShape::Circle { center: center@, radius: radius as int }),
            shape_wf(r@),
    {
        Circle { center, radius }
    }

    pub fn center(&self) -> (r: Vec2)
        ensures
            r@ == spec_center(self@),
    {
        self.center
    }

    /// Area of the disc: pi times the squared radius, truncated.
    pub fn area(&self) -> (r: i64)
        requires
            shape_wf(self@),
        ensures
            r as int == spec_area(self@),
    {
        proof {
            lemma_product_bound(self.radius as int, self.radius as int, 0x4000_0000, 0x4000_0000);
            lemma_product_bound(PI_UNITS as int, self.radius as int * self.radius as int,
                3_141_593, 0x1000_0000_0000_0000);
            lemma_div_trunc_mag(PI_UNITS as int * (self.radius as int * self.radius as int),
                UNIT as int * UNIT as int, 4_000_000_000_000);
        }
        let rr = (self.radius as i128) * (self.radius as i128);
        let num = (PI_UNITS as i128) * rr;
        let q = div_trunc_i128(num, (UNIT as i128) * (UNIT as i128));
        q as i64
    }

    /// Support point: the center displaced by the radius along `dir`.
    pub fn support(&self, dir: &Vec2) -> (r: Vec2)
        requires
            shape_wf(self@),
            dir@ != gvec_zero(),
            gvec_bounded(dir@, VEC_LIMIT as int),
        ensures
            r@ == spec_support(self@, dir@),
            gvec_bounded(r@, 2 * COORD_LIMIT as int),
    {
        let offset = dir.set_len(self.radius);
        self.center.add(&offset)
    }
}

/// A convex polygon given by its vertices in boundary order (either
/// winding).
#[derive(Clone, Debug)]
pub struct Polygon {
    vertices: Vec<Vec2>,
}

impl View for Polygon {
    type V = GShape;

    closed spec fn view(&self) -> GShape {
        GShape::Polygon { verts: self.vertices@.map_values(|v: Vec2| v@) }
    }
}

impl Polygon {
    pub fn new(v: Vec<Vec2>) -> (r: Polygon)
        requires
            3 <= v@.len() <= MAX_VERTICES,
            forall|k: int| 0 <= k < v@.len() ==> gvec_bounded(#[trigger] v@[k]@, COORD_LIMIT as int),
        ensures
            r@ == (GShape::Polygon { verts: v@.map_values(|q: Vec2| q@) }),
            shape_wf(r@),
    {
        Polygon { vertices: v }
    }

    /// First vertex with the greatest projection onto `dir`.
    pub fn support(&self, dir: &Vec2) -> (r: Vec2)
        requires
            shape_wf(self@),
            gvec_bounded(dir@, VEC_LIMIT as int),
        ensures
            r@ == spec_support(self@, dir@),
            gvec_bounded(r@, COORD_LIMIT as int),
    {
        let ghost verts = self@->Polygon_verts;
        let n = self.vertices.len();
        let mut best = self.vertices[0];
        proof {
            assert(best@ == verts[0]);
        }
        let mut best_dot = Vec2::dot(&best, dir);
        let mut i: usize = 1;
        while i < n
            invariant
                1 <= i <= n,
                n == verts.len(),
                verts == self.vertices@.map_values(|v: Vec2| v@),
                shape_wf(self@),
                self@ == (GShape::Polygon { verts }),
                gvec_bounded(dir@, VEC_LIMIT as int),
                best@ == poly_support_upto(verts, dir@, i as int),
                gvec_bounded(best@, COORD_LIMIT as int),
                best_dot == gdot(best@, dir@),
            decreases n - i,
        {
            proof {
                assert(self.vertices@[i as int]@ == verts[i as int]);
            }
            let d = Vec2::dot(&self.vertices[i], dir);
            if d > best_dot {
                best = self.vertices[i];
                best_dot = d;
            }
            i += 1;
        }
        best
    }

    /// Signed area by the shoelace formula, in fixed-point ticks (real
    /// area times `UNIT`), truncated toward zero; positive for
    /// counter-clockwise winding.
    pub fn area(&self) -> (r: i64)
        requires
            shape_wf(self@),
        ensures
            r as int == spec_area(self@),
    {
        let ghost verts = self@->Polygon_verts;
        let n = self.vertices.len();
        let mut sum: i128 = 0;
        let mut i: usize = n - 1;
        let mut j: usize = 0;
        while j < n
            invariant
                j <= n,
                n == verts.len(),
                3 <= n <= MAX_VERTICES,
                verts == self.vertices@.map_values(|v: Vec2| v@),
                shape_wf(self@),
                self@ == (GShape::Polygon { verts }),
                i == (if j == 0 { n - 1 } else { j - 1 }),
                sum == poly_cross_sum_upto(verts, j as int),
                iabs(sum as int) <= j * 0x2000_0000_0000_0000,
            decreases n - j,
        {
            proof {
                assert(self.vertices@[i as int]@ == verts[i as int]);
                assert(self.vertices@[j as int]@ == verts[j as int]);
                lemma_product_bound(verts[i as int].x, verts[j as int].y, 0x4000_0000,
                    0x4000_0000);
                lemma_product_bound(verts[i as int].y, verts[j as int].x, 0x4000_0000,
                    0x4000_0000);
            }
            let c = Vec2::cross(&self.vertices[i], &self.vertices[j]);
            sum = sum + c;
            i = j;
            j += 1;
        }
        proof {
            lemma_div_trunc_mag(sum as int, 2 * UNIT as int, 200_000_000_000_000_000);
        }
        let q = div_trunc_i128(sum, 2 * (UNIT as i128));
        q as i64
    }

    /// Accumulates the shoelace sum and the centroid numerator in one
    /// pass over the edges.
    fn centroid_sums(&self) -> (r: (i128, i128, i128))
        requires
            shape_wf(self@),
        ensures
            ({
                let verts = self@->Polygon_verts;
                &&& r.0 == poly_twice_area(verts)
                &&& r.1 == poly_centroid_sum_upto(verts, verts.len() as int).x
                &&& r.2 == poly_centroid_sum_upto(verts, verts.len() as int).y
                &&& iabs(r.0 as int) <= 100_000 * 0x2000_0000_0000_0000
                &&& iabs(r.1 as int) <= 100_000 * 0x1000_0000_0000_0000_0000_0000
                &&& iabs(r.2 as int) <= 100_000 * 0x1000_0000_0000_0000_0000_0000
            }),
    {
        let ghost verts = self@->Polygon_verts;
        let n = self.vertices.len();
        let mut sum: i128 = 0;
        let mut cx: i128 = 0;
        let mut cy: i128 = 0;
        let mut i: usize = n - 1;
        let mut j: usize = 0;
        while j < n
            invariant
                j <= n,
                n == verts.len(),
                3 <= n <= MAX_VERTICES,
                verts == self.vertices@.map_values(|v: Vec2| v@),
                shape_wf(self@),
                self@ == (GShape::Polygon { verts }),
                i == (if j == 0 { n - 1 } else { j - 1 }),
                sum == poly_cross_sum_upto(verts, j as int),
                cx == poly_centroid_sum_upto(verts, j as int).x,
                cy == poly_centroid_sum_upto(verts, j as int).y,
                iabs(sum as int) <= j * 0x2000_0000_0000_0000,
                iabs(cx as int) <= j * 0x1000_0000_0000_0000_0000_0000,
                iabs(cy as int) <= j * 0x1000_0000_0000_0000_0000_0000,
            decreases n - j,
        {
            proof {
                assert(self.vertices@[i as int]@ == verts[i as int]);
                assert(self.vertices@[j as int]@ == verts[j as int]);
                lemma_product_bound(verts[i as int].x, verts[j as int].y, 0x4000_0000,
                    0x4000_0000);
                lemma_product_bound(verts[i as int].y, verts[j as int].x, 0x4000_0000,
                    0x4000_0000);
            }
            let c = Vec2::cross(&self.vertices[i], &self.vertices[j]);
            let ex = (self.vertices[i].x as i128) + (self.vertices[j].x as i128);
            let ey = (self.vertices[i].y as i128) + (self.vertices[j].y as i128);
            proof {
                lemma_product_bound(ex as int, c as int, 0x8000_0000, 0x2000_0000_0000_0000);
                lemma_product_bound(ey as int, c as int, 0x8000_0000, 0x2000_0000_0000_0000);
                lemma_mul_commutes(ex as int, c as int);
                lemma_mul_commutes(ey as int, c as int);
            }
            sum = sum + c;
            cx = cx + ex * c;
            cy = cy + ey * c;
            i = j;
            j += 1;
        }
        (sum, cx, cy)
    }

    /// Centroid by the cross-weighted vertex formula.
    pub fn center(&self) -> (r: Vec2)
        requires
            shape_wf(self@),
            shape_center_ok(self@),
        ensures
            r@ == spec_center(self@),
    {
        let (sum, cx, cy) = self.centroid_sums();
        let denom = 3 * sum;
        let qx = div_trunc_i128(cx, denom);
        let qy = div_trunc_i128(cy, denom);
        Vec2 { x: qx as i64, y: qy as i64 }
    }

    /// Whether the centroid formula is defined and lands inside the
    /// supported coordinate range: the runtime test for
    /// `shape_center_ok`, which the collision queries require.
    pub fn center_defined(&self) -> (r: bool)
        requires
            shape_wf(self@),
        ensures
            r == shape_center_ok(self@),
    {
        let (sum, cx, cy) = self.centroid_sums();
        if sum == 0 {
            return false;
        }
        let denom = 3 * sum;
        let qx = div_trunc_i128(cx, denom);
        let qy = div_trunc_i128(cy, denom);
        let lim = COORD_LIMIT as i128;
        -lim <= qx && qx <= lim && -lim <= qy && qy <= lim
    }
}

/// A convex shape: one of the two supported variants.
#[derive(Clone, Debug)]
pub enum Shapes {
    Circle(Circle),
    Polygon(Polygon),
}

impl View for Shapes {
    type V = GShape;

    open spec fn view(&self) -> GShape {
        match self {
            Shapes::Circle(c) => c@,
            Shapes::Polygon(p) => p@,
        }
    }
}

impl Shapes {
    /// Support point of the shape in direction `dir`.
    pub fn support(&self, dir: &Vec2) -> (r: Vec2)
        requires
            shape_wf(self@),
            dir@ != gvec_zero(),
            gvec_bounded(dir@, VEC_LIMIT as int),
        ensures
            r@ == spec_support(self@, dir@),
            gvec_bounded(r@, 2 * COORD_LIMIT as int),
    {
        match self {
            Shapes::Circle(c) => c.support(dir),
            Shapes::Polygon(p) => p.support(dir),
        }
    }

    /// Signed area, in fixed-point ticks.
    pub fn area(&self) -> (r: i64)
        requires
            shape_wf(self@),
        ensures
            r as int == spec_area(self@),
    {
        match self {
            Shapes::Circle(c) => c.area(),
            Shapes::Polygon(p) => p.area(),
        }
    }

    /// Centroid.
    pub fn center(&self) -> (r: Vec2)
        requires
            shape_wf(self@),
            shape_center_ok(self@),
        ensures
            r@ == spec_center(self@),
            gvec_bounded(r@, COORD_LIMIT as int),
    {
        match self {
            Shapes::Circle(c) => c.center(),
            Shapes::Polygon(p) => p.center(),
        }
    }

    /// Whether the shape's centroid is defined and within the supported
    /// range: the runtime test for `shape_center_ok`, which the collision
    /// queries require of both shapes.
    pub fn center_defined(&self) -> (r: bool)
        requires
            shape_wf(self@),
        ensures
            r == shape_center_ok(self@),
    {
        match self {
            Shapes::Circle(_) => true,
            Shapes::Polygon(p) => p.center_defined(),
        }
    }
}

} // verus!
