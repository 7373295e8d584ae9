//! The 2D vector primitive and its mathematical model.
//!
//! `Vec2` carries fixed-point coordinates; `GVec` is the same vector over
//! the unbounded integers, and every contract of the library speaks of
//! `GVec` values through the view `v@`.

use vstd::arithmetic::div_mod::{
    lemma_div_is_ordered, lemma_div_multiples_vanish, lemma_div_pos_is_pos,
};
use vstd::arithmetic::mul::lemma_mul_inequality;
use vstd::prelude::*;

use crate::num::{div_trunc, div_trunc_i128, iabs, isqrt_spec, isqrt_u128, lemma_div_trunc_mag, UNIT};
use crate::num::{lemma_isqrt_bounds, lemma_isqrt_monotonic, lemma_isqrt_unique};

verus! {

/// Components of `Vec2` must stay within this bound wherever a length or a
/// scaled division is taken, so that squares and products fit the machine.
pub const VEC_LIMIT: i64 = 0x4000_0000_0000_0000;

/// Mathematical 2-vector over the unbounded integers.
pub ghost struct GVec {
    pub x: int,
    pub y: int,
}

/// Constructs a model vector.
pub open spec fn gvec(x: int, y: int) -> GVec {
    GVec { x, y }
}

/// The zero vector.
pub open spec fn gvec_zero() -> GVec {
    gvec(0, 0)
}

/// Componentwise sum.
pub open spec fn gadd(a: GVec, b: GVec) -> GVec {
    gvec(a.x + b.x, a.y + b.y)
}

/// Componentwise difference.
pub open spec fn gsub(a: GVec, b: GVec) -> GVec {
    gvec(a.x - b.x, a.y - b.y)
}

/// Negation.
pub open spec fn gneg(a: GVec) -> GVec {
    gvec(-a.x, -a.y)
}

/// Componentwise scaling by an integer.
pub open spec fn gscale(a: GVec, s: int) -> GVec {
    gvec(a.x * s, a.y * s)
}

/// Componentwise product of two fixed-point vectors: each component is
/// `a * b / UNIT`, truncated, so that the result carries the product of
/// the real numbers the operands stand for.
pub open spec fn gmul(a: GVec, b: GVec) -> GVec {
    gvec(
        div_trunc(a.x * b.x, UNIT as int),
        div_trunc(a.y * b.y, UNIT as int),
    )
}

/// Componentwise quotient of two fixed-point vectors: each component is
/// `a * UNIT / b`, truncated.
pub open spec fn gdiv_each(a: GVec, b: GVec) -> GVec
    recommends
        b.x != 0,
        b.y != 0,
{
    gvec(
        div_trunc(a.x * UNIT as int, b.x),
        div_trunc(a.y * UNIT as int, b.y),
    )
}

/// Componentwise truncating division by an integer.
pub open spec fn gdiv(a: GVec, s: int) -> GVec
    recommends
        s != 0,
{
    gvec(div_trunc(a.x, s), div_trunc(a.y, s))
}

/// Dot product.
pub open spec fn gdot(a: GVec, b: GVec) -> int {
    a.x * b.x + a.y * b.y
}

/// The scalar z-component of the 3D cross product.
pub open spec fn gcross(a: GVec, b: GVec) -> int {
    a.x * b.y - a.y * b.x
}

/// Counter-clockwise quarter turn.
pub open spec fn gperp(a: GVec) -> GVec {
    gvec(-a.y, a.x)
}

/// Squared euclidean length.
pub open spec fn glen_sq(a: GVec) -> int {
    gdot(a, a)
}

/// Truncated euclidean length.
pub open spec fn glen(a: GVec) -> int {
    isqrt_spec(glen_sq(a))
}

/// The vector rescaled so that its length is (up to truncation) `l`: each
/// component is `l * c / glen(a)` rounded toward zero.
pub open spec fn gset_len(a: GVec, l: int) -> GVec
    recommends
        a != gvec_zero(),
{
    gvec(div_trunc(l * a.x, glen(a)), div_trunc(l * a.y, glen(a)))
}

/// Linear interpolation `a + t * (b - a) / UNIT`, with `t` a fixed-point
/// fraction between 0 and `UNIT`.
pub open spec fn glerp(a: GVec, b: GVec, t: int) -> GVec {
    gvec(
        a.x + div_trunc(t * (b.x - a.x), UNIT as int),
        a.y + div_trunc(t * (b.y - a.y), UNIT as int),
    )
}

/// Both components bounded by `b` in magnitude.
pub open spec fn gvec_bounded(a: GVec, b: int) -> bool {
    iabs(a.x) <= b && iabs(a.y) <= b
}

/// A 2D point or direction in fixed-point coordinates.
#[derive(Clone, Copy, Debug, PartialEq, Eq, Structural)]
pub struct Vec2 {
    pub x: i64,
    pub y: i64,
}

impl View for Vec2 {
    type V = GVec;

    open spec fn view(&self) -> GVec {
        gvec(self.x as int, self.y as int)
    }
}

impl Vec2 {
    /// Creates a new Vec2.
    pub fn new(x: i64, y: i64) -> (r: Vec2)
        ensures
            r@ == gvec(x as int, y as int),
    {
        Vec2 { x, y }
    }

    /// Creates a new Vec2 with the same value for x and y.
    pub fn splat(v: i64) -> (r: Vec2)
        ensures
            r@ == gvec(v as int, v as int),
    {
        Vec2 { x: v, y: v }
    }

    /// Squared length, exact.
    pub fn len_sq(&self) -> (r: i128)
        requires
            gvec_bounded(self@, VEC_LIMIT as int),
        ensures
            r == glen_sq(self@),
    {
        proof {
            lemma_square_bound(self@.x, VEC_LIMIT as int);
            lemma_square_bound(self@.y, VEC_LIMIT as int);
        }
        (self.x as i128) * (self.x as i128) + (self.y as i128) * (self.y as i128)
    }

    /// Truncated length.
    pub fn len(&self) -> (r: i64)
        requires
            gvec_bounded(self@, VEC_LIMIT as int),
        ensures
            r == glen(self@),
            r >= 0,
    {
        let sq = self.len_sq();
        proof {
            lemma_square_bound(self@.x, VEC_LIMIT as int);
            lemma_square_bound(self@.y, VEC_LIMIT as int);
            lemma_isqrt_bounds(glen_sq(self@));
            let r = isqrt_spec(glen_sq(self@));
            if r >= 0x8000_0000_0000_0000 {
                assert(r * r >= 0x8000_0000_0000_0000 * 0x8000_0000_0000_0000)
                    by (nonlinear_arith)
                    requires
                        r >= 0x8000_0000_0000_0000,
                ;
            }
        }
        isqrt_u128(sq as u128) as i64
    }

    /// The vector rescaled to length `l` (each component `l * c / len`,
    /// rounded toward zero).
    pub fn set_len(&self, l: i64) -> (r: Vec2)
        requires
            self@ != gvec_zero(),
            gvec_bounded(self@, VEC_LIMIT as int),
            l != i64::MIN,
        ensures
            r@ == gset_len(self@, l as int),
            gvec_bounded(r@, iabs(l as int)),
    {
        let len = self.len();
        proof {
            lemma_len_positive(self@);
            lemma_component_le_len(self@);
            lemma_product_bound(l as int, self@.x, 0x8000_0000_0000_0000, VEC_LIMIT as int);
            lemma_product_bound(l as int, self@.y, 0x8000_0000_0000_0000, VEC_LIMIT as int);
            lemma_div_trunc_scale_bound(l as int, self@.x, glen(self@));
            lemma_div_trunc_scale_bound(l as int, self@.y, glen(self@));
        }
        let qx = div_trunc_i128((l as i128) * (self.x as i128), len as i128);
        let qy = div_trunc_i128((l as i128) * (self.y as i128), len as i128);
        Vec2 { x: qx as i64, y: qy as i64 }
    }

    /// Rescale to length `UNIT`: a fixed-point unit vector.
    pub fn normalize(&self) -> (r: Vec2)
        requires
            self@ != gvec_zero(),
            gvec_bounded(self@, VEC_LIMIT as int),
        ensures
            r@ == gset_len(self@, UNIT as int),
            gvec_bounded(r@, UNIT as int),
    {
        self.set_len(UNIT)
    }

    /// Linear interpolation from `v` to `w`; `t` runs from 0 to `UNIT`.
    pub fn lerp(v: &Vec2, w: &Vec2, t: i64) -> (r: Vec2)
        requires
            0 <= t <= UNIT,
            gvec_bounded(v@, 0x2000_0000_0000_0000),
            gvec_bounded(w@, 0x2000_0000_0000_0000),
        ensures
            r@ == glerp(v@, w@, t as int),
    {
        let dx: i128 = (w.x as i128) - (v.x as i128);
        let dy: i128 = (w.y as i128) - (v.y as i128);
        proof {
            lemma_product_bound(t as int, dx as int, UNIT as int, 0x4000_0000_0000_0000);
            lemma_product_bound(t as int, dy as int, UNIT as int, 0x4000_0000_0000_0000);
            lemma_mul_commutes(t as int, dx as int);
            lemma_mul_commutes(t as int, dy as int);
            lemma_div_trunc_scale_bound(dx as int, t as int, UNIT as int);
            lemma_div_trunc_scale_bound(dy as int, t as int, UNIT as int);
        }
        let qx = div_trunc_i128((t as i128) * dx, UNIT as i128);
        let qy = div_trunc_i128((t as i128) * dy, UNIT as i128);
        Vec2 { x: v.x + (qx as i64), y: v.y + (qy as i64) }
    }

    /// Dot product, exact.
    pub fn dot(v: &Vec2, w: &Vec2) -> (r: i128)
        requires
            gvec_bounded(v@, VEC_LIMIT as int),
            gvec_bounded(w@, VEC_LIMIT as int),
        ensures
            r == gdot(v@, w@),
    {
        proof {
            lemma_product_bound(v@.x, w@.x, VEC_LIMIT as int, VEC_LIMIT as int);
            lemma_product_bound(v@.y, w@.y, VEC_LIMIT as int, VEC_LIMIT as int);
        }
        (v.x as i128) * (w.x as i128) + (v.y as i128) * (w.y as i128)
    }

    /// Cross product (z-component), exact.
    pub fn cross(v: &Vec2, w: &Vec2) -> (r: i128)
        requires
            gvec_bounded(v@, VEC_LIMIT as int),
            gvec_bounded(w@, VEC_LIMIT as int),
        ensures
            r == gcross(v@, w@),
    {
        proof {
            lemma_product_bound(v@.x, w@.y, VEC_LIMIT as int, VEC_LIMIT as int);
            lemma_product_bound(v@.y, w@.x, VEC_LIMIT as int, VEC_LIMIT as int);
        }
        (v.x as i128) * (w.y as i128) - (v.y as i128) * (w.x as i128)
    }

    /// Componentwise sum.
    pub fn add(&self, other: &Vec2) -> (r: Vec2)
        requires
            i64::MIN <= self@.x + other@.x <= i64::MAX,
            i64::MIN <= self@.y + other@.y <= i64::MAX,
        ensures
            r@ == gadd(self@, other@),
    {
        Vec2 { x: self.x + other.x, y: self.y + other.y }
    }

    /// Componentwise difference.
    pub fn sub(&self, other: &Vec2) -> (r: Vec2)
        requires
            i64::MIN <= self@.x - other@.x <= i64::MAX,
            i64::MIN <= self@.y - other@.y <= i64::MAX,
        ensures
            r@ == gsub(self@, other@),
    {
        Vec2 { x: self.x - other.x, y: self.y - other.y }
    }

    /// Negation.
    pub fn neg(&self) -> (r: Vec2)
        requires
            self@.x != i64::MIN as int,
            self@.y != i64::MIN as int,
        ensures
            r@ == gneg(self@),
    {
        Vec2 { x: -self.x, y: -self.y }
    }

    /// Scaling by an integer factor.
    pub fn mul(&self, s: i64) -> (r: Vec2)
        requires
            i64::MIN <= self@.x * s <= i64::MAX,
            i64::MIN <= self@.y * s <= i64::MAX,
        ensures
            r@ == gscale(self@, s as int),
    {
        let rx = (self.x as i128) * (s as i128);
        let ry = (self.y as i128) * (s as i128);
        Vec2 { x: rx as i64, y: ry as i64 }
    }

    /// Componentwise fixed-point product.
    pub fn mul_comp(&self, other: &Vec2) -> (r: Vec2)
        requires
            gvec_bounded(self@, 0x100_0000_0000),
            gvec_bounded(other@, 0x100_0000_0000),
        ensures
            r@ == gmul(self@, other@),
    {
        proof {
            lemma_product_bound(self@.x, other@.x, 0x100_0000_0000, 0x100_0000_0000);
            lemma_product_bound(self@.y, other@.y, 0x100_0000_0000, 0x100_0000_0000);
            lemma_div_trunc_mag(self@.x * other@.x, UNIT as int, 0x4000_0000_0000_0000);
            lemma_div_trunc_mag(self@.y * other@.y, UNIT as int, 0x4000_0000_0000_0000);
        }
        let qx = div_trunc_i128((self.x as i128) * (other.x as i128), UNIT as i128);
        let qy = div_trunc_i128((self.y as i128) * (other.y as i128), UNIT as i128);
        Vec2 { x: qx as i64, y: qy as i64 }
    }

    /// Componentwise fixed-point quotient.
    pub fn div_comp(&self, other: &Vec2) -> (r: Vec2)
        requires
            gvec_bounded(self@, 0x100_0000_0000),
            other@.x != 0,
            other@.y != 0,
        ensures
            r@ == gdiv_each(self@, other@),
    {
        proof {
            lemma_product_bound(self@.x, UNIT as int, 0x100_0000_0000, UNIT as int);
            lemma_product_bound(self@.y, UNIT as int, 0x100_0000_0000, UNIT as int);
            lemma_div_each_fits(self@.x * UNIT as int, other@.x);
            lemma_div_each_fits(self@.y * UNIT as int, other@.y);
        }
        let qx = div_trunc_i128((self.x as i128) * (UNIT as i128), other.x as i128);
        let qy = div_trunc_i128((self.y as i128) * (UNIT as i128), other.y as i128);
        Vec2 { x: qx as i64, y: qy as i64 }
    }

    /// Componentwise truncating division by an integer.
    pub fn div(&self, s: i64) -> (r: Vec2)
        requires
            s != 0,
            self@.x != i64::MIN as int,
            self@.y != i64::MIN as int,
        ensures
            r@ == gdiv(self@, s as int),
    {
        let qx = div_trunc_i128(self.x as i128, s as i128);
        let qy = div_trunc_i128(self.y as i128, s as i128);
        Vec2 { x: qx as i64, y: qy as i64 }
    }
}

/// A numerator within `2^60` divided by a nonzero integer stays within
/// `2^60`.
proof fn lemma_div_each_fits(a: int, b: int)
    requires
        b != 0,
        iabs(a) <= 0x1000_0000_0000_0000,
    ensures
        iabs(div_trunc(a, b)) <= 0x1000_0000_0000_0000,
{
    vstd::arithmetic::div_mod::lemma_div_is_ordered(iabs(a), 0x1000_0000_0000_0000, iabs(b));
    vstd::arithmetic::div_mod::lemma_div_pos_is_pos(iabs(a), iabs(b));
    assert(0x1000_0000_0000_0000int / iabs(b) <= 0x1000_0000_0000_0000) by (nonlinear_arith)
        requires
            iabs(b) >= 1,
    ;
}

pub proof fn lemma_square_nonneg(a: int)
    ensures
        a * a >= 0,
{
    assert(a * a >= 0) by (nonlinear_arith);
}

pub proof fn lemma_square_bound(a: int, b: int)
    requires
        iabs(a) <= b,
    ensures
        0 <= a * a <= b * b,
{
    assert(0 <= a * a <= b * b) by (nonlinear_arith)
        requires
            -b <= a <= b,
    ;
}

/// Magnitude bounds on the factors bound the product on both sides.
pub proof fn lemma_product_bound(a: int, b: int, ca: int, cb: int)
    requires
        iabs(a) <= ca,
        iabs(b) <= cb,
    ensures
        -(ca * cb) <= a * b <= ca * cb,
        iabs(a * b) <= ca * cb,
{
    assert(-(ca * cb) <= a * b <= ca * cb) by (nonlinear_arith)
        requires
            -ca <= a <= ca,
            -cb <= b <= cb,
    ;
}

pub proof fn lemma_mul_commutes(a: int, b: int)
    ensures
        a * b == b * a,
{
    assert(a * b == b * a) by (nonlinear_arith);
}

/// `|a * b| == |a| * |b|`.
pub proof fn lemma_iabs_mul(a: int, b: int)
    ensures
        iabs(a * b) == iabs(a) * iabs(b),
{
    if a >= 0 && b >= 0 {
        assert(a * b >= 0) by (nonlinear_arith)
            requires
                a >= 0,
                b >= 0,
        ;
    } else if a >= 0 && b < 0 {
        assert(a * b <= 0 && a * (-b) == -(a * b)) by (nonlinear_arith)
            requires
                a >= 0,
                b < 0,
        ;
    } else if a < 0 && b >= 0 {
        assert(a * b <= 0 && (-a) * b == -(a * b)) by (nonlinear_arith)
            requires
                a < 0,
                b >= 0,
        ;
    } else {
        assert(a * b >= 0 && (-a) * (-b) == a * b) by (nonlinear_arith)
            requires
                a < 0,
                b < 0,
        ;
    }
}

/// A nonzero vector has a positive truncated length.
pub proof fn lemma_len_positive(a: GVec)
    requires
        a != gvec_zero(),
    ensures
        glen(a) >= 1,
        glen_sq(a) >= 1,
{
    lemma_square_nonneg(a.x);
    lemma_square_nonneg(a.y);
    assert(a.x != 0 || a.y != 0);
    assert(a.x * a.x + a.y * a.y >= 1) by (nonlinear_arith)
        requires
            a.x != 0 || a.y != 0,
    ;
    lemma_isqrt_monotonic(1, glen_sq(a));
    lemma_isqrt_unique(1, 1);
}

/// Each component of a vector is bounded by the vector's truncated length.
pub proof fn lemma_component_le_len(a: GVec)
    ensures
        iabs(a.x) <= glen(a),
        iabs(a.y) <= glen(a),
{
    lemma_square_nonneg(a.x);
    lemma_square_nonneg(a.y);
    lemma_iabs_mul(a.x, a.x);
    lemma_iabs_mul(a.y, a.y);
    assert(iabs(a.x) * iabs(a.x) < (iabs(a.x) + 1) * (iabs(a.x) + 1)) by (nonlinear_arith)
        requires
            iabs(a.x) >= 0,
    ;
    assert(iabs(a.y) * iabs(a.y) < (iabs(a.y) + 1) * (iabs(a.y) + 1)) by (nonlinear_arith)
        requires
            iabs(a.y) >= 0,
    ;
    lemma_isqrt_unique(a.x * a.x, iabs(a.x));
    lemma_isqrt_unique(a.y * a.y, iabs(a.y));
    lemma_isqrt_monotonic(a.x * a.x, glen_sq(a));
    lemma_isqrt_monotonic(a.y * a.y, glen_sq(a));
}

/// Scaling a component that is itself below the divisor keeps the quotient
/// below the scale factor: `|l * x / len| <= |l|` whenever `|x| <= len`.
pub proof fn lemma_div_trunc_scale_bound(l: int, x: int, len: int)
    requires
        len >= 1,
        iabs(x) <= len,
    ensures
        iabs(div_trunc(l * x, len)) <= iabs(l),
{
    let la = iabs(l);
    let xa = iabs(x);
    lemma_iabs_mul(l, x);
    lemma_mul_inequality(xa, len, la);
    lemma_mul_commutes(la, xa);
    lemma_mul_commutes(la, len);
    lemma_div_is_ordered(la * xa, len * la, len);
    lemma_div_multiples_vanish(la, len);
    lemma_div_pos_is_pos(la * xa, len);
}

/// Negating both arguments preserves the dot product.
pub proof fn lemma_gdot_neg(a: GVec, b: GVec)
    ensures
        gdot(gneg(a), gneg(b)) == gdot(a, b),
{
    assert((-a.x) * (-b.x) == a.x * b.x) by (nonlinear_arith);
    assert((-a.y) * (-b.y) == a.y * b.y) by (nonlinear_arith);
}

/// Negating both arguments preserves the cross product.
pub proof fn lemma_gcross_neg(a: GVec, b: GVec)
    ensures
        gcross(gneg(a), gneg(b)) == gcross(a, b),
{
    assert((-a.x) * (-b.y) == a.x * b.y) by (nonlinear_arith);
    assert((-a.y) * (-b.x) == a.y * b.x) by (nonlinear_arith);
}

} // verus!
