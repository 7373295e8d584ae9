//! The collision queries: the GJK intersection test and the EPA
//! penetration-vector refinement.
//!
//! GJK walks a simplex of at most three points through Minkowski-difference
//! space until the simplex encloses the origin (the shapes intersect) or a
//! support point fails to pass the origin (they do not).  EPA then expands
//! the terminal simplex into a polytope and converges on the
//! minimum-translation vector.
//!
//! Every step of both algorithms is mirrored by a spec-level recurrence
//! over the mathematical model, and the executable code is proved to follow
//! it exactly.  Both loops carry an explicit iteration cap, so every query
//! terminates; when EPA exhausts its cap the best estimate so far is
//! returned (a deliberate bounded-iteration policy), and when GJK exhausts
//! its cap the query conservatively reports no intersection.

use vstd::prelude::*;

use crate::num::{div_trunc, iabs, UNIT};
use crate::shapes::{shape_center_ok, shape_wf, spec_center, spec_support, GShape, Shapes};
use crate::vec2::{
    gadd, gcross, gdiv, gdot, gneg, gperp, gscale, gset_len, gsub, gvec, gvec_bounded, gvec_zero,
    GVec, Vec2,
};
use crate::num::{div_trunc_i128, lemma_div_trunc_mag};
use crate::vec2::lemma_product_bound;

verus! {

/// Iteration cap of the GJK loop.  In exact arithmetic the simplex walk
/// converges long before this on ordinary inputs; the cap makes
/// termination unconditional, and a query that exhausts it reports no
/// intersection.
pub const GJK_MAX_ITERATIONS: usize = 64;

/// Iteration cap of the EPA loop; on exhaustion the best estimate so far
/// is returned.
pub const EPA_MAX_ITERATIONS: usize = 32;

/// Convergence tolerance of EPA, in fixed-point ticks: the loop stops when
/// an expansion improves the support distance by no more than this.
pub const EPA_TOLERANCE: i64 = 100;

/// Outcome of one step of the GJK simplex walk.
#[derive(Clone, Copy, Debug, PartialEq, Eq, Structural)]
pub enum EvolveResult {
    Intersection,
    StillEvolving,
    NoIntersection,
}

/// A point of the Minkowski difference stays within this bound for
/// well-formed shapes: it is a difference of two support points.
pub open spec fn mink_bounded(p: GVec) -> bool {
    gvec_bounded(p, 0x1_0000_0000)
}

/// Every search direction the simplex walk produces stays within this
/// bound: it is a centroid difference or a perpendicular of a difference
/// of Minkowski points.
pub open spec fn dir_bounded(d: GVec) -> bool {
    gvec_bounded(d, 0x4_0000_0000)
}

/// A shape the collision queries accept: well-formed, with a centroid.
pub open spec fn query_ok(s: GShape) -> bool {
    shape_wf(s) && shape_center_ok(s)
}

/// Support point of the Minkowski difference `a - b` in direction `d`.
pub open spec fn mink_support(a: GShape, b: GShape, d: GVec) -> GVec
    recommends
        d != gvec_zero(),
{
    gsub(spec_support(a, d), spec_support(b, gneg(d)))
}

/// `p` when `s >= 0`, `-p` when `s < 0`.
pub open spec fn sign_dir(s: int, p: GVec) -> GVec {
    if s < 0 {
        gneg(p)
    } else {
        p
    }
}

/// Direction of the vector triple product `(u x v) x w`, which equals
/// `gcross(u, v) * gperp(w)`.  Only the sign of the scalar factor is kept,
/// which preserves the ray and keeps coordinates small; when the scalar is
/// zero this falls back to the perpendicular of `w` itself.
pub open spec fn triple_dir(u: GVec, v: GVec, w: GVec) -> GVec {
    sign_dir(gcross(u, v), gperp(w))
}

/// State carried by the GJK walk: the simplex, the current search
/// direction, and the step outcome.
pub ghost struct GjkStep {
    pub result: EvolveResult,
    pub simplex: Seq<GVec>,
    pub dir: GVec,
}

/// Tail of every non-terminal step: append the support point in the new
/// direction and decide whether it passed the origin.  A support point
/// exactly level with the origin counts as progress, so shapes in
/// boundary contact are reported as intersecting (with a penetration of
/// zero depth).  A degenerate zero direction ends the walk with no
/// intersection: a support point along the zero vector is undefined
/// (normalizing it would divide by zero), so the walk stops instead.
pub open spec fn spec_finish_step(a: GShape, b: GShape, simplex: Seq<GVec>, dir: GVec) -> GjkStep {
    if dir == gvec_zero() {
        GjkStep { result: EvolveResult::NoIntersection, simplex, dir }
    } else {
        let p = mink_support(a, b, dir);
        GjkStep {
            result: if gdot(dir, p) >= 0 {
                EvolveResult::StillEvolving
            } else {
                EvolveResult::NoIntersection
            },
            simplex: simplex.push(p),
            dir,
        }
    }
}

/// One step of the GJK walk, by simplex size:
/// - size 0: search from the centroid of `a` toward the centroid of `b`;
/// - size 1: search the opposite way;
/// - size 2: search perpendicular to the segment, toward the origin;
/// - size 3: if the origin lies outside edge `ab` or `ac`, drop the vertex
///   opposite that edge and search past it; otherwise the origin is inside
///   the triangle and the shapes intersect.
pub open spec fn spec_evolve(a: GShape, b: GShape, simplex: Seq<GVec>, dir: GVec) -> GjkStep
    recommends
        simplex.len() <= 3,
{
    if simplex.len() == 0 {
        spec_finish_step(a, b, simplex, gsub(spec_center(b), spec_center(a)))
    } else if simplex.len() == 1 {
        spec_finish_step(a, b, simplex, gneg(dir))
    } else if simplex.len() == 2 {
        let pb = simplex[1];
        let pc = simplex[0];
        let cb = gsub(pb, pc);
        let c0 = gneg(pc);
        spec_finish_step(a, b, simplex, triple_dir(cb, c0, cb))
    } else if simplex.len() == 3 {
        let pa = simplex[2];
        let pb = simplex[1];
        let pc = simplex[0];
        let a0 = gneg(pa);
        let ab = gsub(pb, pa);
        let ac = gsub(pc, pa);
        let ab_perp = triple_dir(ac, ab, ab);
        let ac_perp = triple_dir(ab, ac, ac);
        if gdot(ab_perp, a0) > 0 {
            spec_finish_step(a, b, simplex.remove(0), ab_perp)
        } else if gdot(ac_perp, a0) > 0 {
            spec_finish_step(a, b, simplex.remove(1), ac_perp)
        } else {
            GjkStep { result: EvolveResult::Intersection, simplex, dir }
        }
    } else {
        GjkStep { result: EvolveResult::NoIntersection, simplex, dir }
    }
}

/// The GJK walk from a given state, with at most `fuel` steps left.
pub open spec fn spec_gjk_run(a: GShape, b: GShape, simplex: Seq<GVec>, dir: GVec, fuel: nat)
    -> GjkStep
    decreases fuel,
{
    if fuel == 0 {
        GjkStep { result: EvolveResult::NoIntersection, simplex, dir }
    } else {
        let st = spec_evolve(a, b, simplex, dir);
        if st.result is StillEvolving {
            spec_gjk_run(a, b, st.simplex, st.dir, (fuel - 1) as nat)
        } else {
            st
        }
    }
}

/// The full GJK query: the walk from the empty simplex.
pub open spec fn spec_gjk(a: GShape, b: GShape) -> GjkStep {
    spec_gjk_run(a, b, Seq::empty(), gvec_zero(), GJK_MAX_ITERATIONS as nat)
}

/// Whether GJK reports the two shapes as intersecting.
pub open spec fn spec_intersects(a: GShape, b: GShape) -> bool {
    spec_gjk(a, b).result is Intersection
}

/// Simplex sizes stay at most 3 through the walk, and a walk that reports
/// an intersection ends with a full 3-point simplex.
pub proof fn lemma_gjk_run_props(a: GShape, b: GShape, simplex: Seq<GVec>, dir: GVec, fuel: nat)
    requires
        simplex.len() <= 3,
    ensures
        spec_gjk_run(a, b, simplex, dir, fuel).simplex.len() <= 3,
        spec_gjk_run(a, b, simplex, dir, fuel).result is Intersection ==> spec_gjk_run(
            a,
            b,
            simplex,
            dir,
            fuel,
        ).simplex.len() == 3,
    decreases fuel,
{
    if fuel > 0 {
        let st = spec_evolve(a, b, simplex, dir);
        assert(st.simplex.len() <= 3);
        assert(st.result is Intersection ==> st.simplex.len() == 3);
        if st.result is StillEvolving {
            lemma_gjk_run_props(a, b, st.simplex, st.dir, (fuel - 1) as nat);
        }
    }
}

/// Invariant of the executable GJK state.
pub open spec fn gjk_state_wf(simplex: Seq<GVec>, dir: GVec) -> bool {
    &&& simplex.len() <= 3
    &&& forall|k: int| 0 <= k < simplex.len() ==> mink_bounded(#[trigger] simplex[k])
    &&& dir_bounded(dir)
}

/// Support point of the Minkowski difference of two shapes.
fn support_mink(a: &Shapes, b: &Shapes, d: &Vec2) -> (r: Vec2)
    requires
        shape_wf(a@),
        shape_wf(b@),
        d@ != gvec_zero(),
        gvec_bounded(d@, 0x4_0000_0000),
    ensures
        r@ == mink_support(a@, b@, d@),
        mink_bounded(r@),
{
    let nd = d.neg();
    let sa = a.support(d);
    let sb = b.support(&nd);
    sa.sub(&sb)
}

/// The oriented perpendicular `triple_dir(u, v, w)`: the perpendicular of
/// `w` turned toward the side the vector triple product `(u x v) x w`
/// selects.
fn oriented_perp(u: &Vec2, v: &Vec2, w: &Vec2) -> (r: Vec2)
    requires
        gvec_bounded(u@, 0x4_0000_0000),
        gvec_bounded(v@, 0x4_0000_0000),
        gvec_bounded(w@, 0x4_0000_0000),
    ensures
        r@ == triple_dir(u@, v@, w@),
        gvec_bounded(r@, 0x4_0000_0000),
{
    let s = Vec2::cross(u, v);
    let p = Vec2::new(-w.y, w.x);
    if s < 0 {
        p.neg()
    } else {
        p
    }
}

/// The stateful GJK engine: the growing simplex and the current search
/// direction.
pub struct GJK {
    vertices: Vec<Vec2>,
    direction: Vec2,
}

impl GJK {
    /// The simplex, as a mathematical sequence.
    pub closed spec fn simplex(&self) -> Seq<GVec> {
        self.vertices@.map_values(|v: Vec2| v@)
    }

    /// The current search direction.
    pub closed spec fn search_dir(&self) -> GVec {
        self.direction@
    }

    pub fn new() -> (r: GJK)
        ensures
            r.simplex() == Seq::<GVec>::empty(),
            r.search_dir() == gvec_zero(),
            gjk_state_wf(r.simplex(), r.search_dir()),
    {
        let r = GJK { vertices: Vec::new(), direction: Vec2::new(0, 0) };
        proof {
            assert(r.simplex() =~= Seq::<GVec>::empty());
        }
        r
    }

    /// One step of the simplex walk, exactly as `spec_evolve` describes it.
    pub fn evolve_simplex(&mut self, shape_a: &Shapes, shape_b: &Shapes) -> (r: EvolveResult)
        requires
            query_ok(shape_a@),
            query_ok(shape_b@),
            gjk_state_wf(old(self).simplex(), old(self).search_dir()),
        ensures
            ({
                let st = spec_evolve(shape_a@, shape_b@, old(self).simplex(), old(
                    self,
                ).search_dir());
                r == st.result && final(self).simplex() == st.simplex && final(self).search_dir()
                    == st.dir
            }),
            gjk_state_wf(final(self).simplex(), final(self).search_dir()),
    {
        let ghost old_simplex = self.simplex();
        let n = self.vertices.len();
        if n == 0 {
            let ca = shape_a.center();
            let cb = shape_b.center();
            self.direction = cb.sub(&ca);
        } else if n == 1 {
            self.direction = self.direction.neg();
        } else if n == 2 {
            let pb = self.vertices[1];
            let pc = self.vertices[0];
            proof {
                assert(self.vertices@[1]@ == old_simplex[1]);
                assert(self.vertices@[0]@ == old_simplex[0]);
            }
            let cb = pb.sub(&pc);
            let c0 = pc.neg();
            self.direction = oriented_perp(&cb, &c0, &cb);
        } else if n == 3 {
            let pa = self.vertices[2];
            let pb = self.vertices[1];
            let pc = self.vertices[0];
            proof {
                assert(self.vertices@[2]@ == old_simplex[2]);
                assert(self.vertices@[1]@ == old_simplex[1]);
                assert(self.vertices@[0]@ == old_simplex[0]);
            }
            let a0 = pa.neg();
            let ab = pb.sub(&pa);
            let ac = pc.sub(&pa);
            let ab_perp = oriented_perp(&ac, &ab, &ab);
            let ac_perp = oriented_perp(&ab, &ac, &ac);
            if Vec2::dot(&ab_perp, &a0) > 0 {
                // the origin is outside edge ab: drop the oldest vertex
                self.vertices.remove(0);
                self.direction = ab_perp;
                proof {
                    assert(self.simplex() =~= old_simplex.remove(0));
                }
            } else if Vec2::dot(&ac_perp, &a0) > 0 {
                // the origin is outside edge ac: drop the middle vertex
                self.vertices.remove(1);
                self.direction = ac_perp;
                proof {
                    assert(self.simplex() =~= old_simplex.remove(1));
                }
            } else {
                // the origin is inside both edges, hence inside the triangle
                return EvolveResult::Intersection;
            }
        } else {
            // unreachable: the state invariant keeps the simplex at 0..=3
            // vertices
            proof {
                assert(false);
            }
            return EvolveResult::NoIntersection;
        }
        // append a support point in the new direction, unless the
        // direction degenerated to zero
        if self.direction.x == 0 && self.direction.y == 0 {
            return EvolveResult::NoIntersection;
        }
        let ghost pre_push = self.simplex();
        let p = support_mink(shape_a, shape_b, &self.direction);
        let d = Vec2::dot(&self.direction, &p);
        self.vertices.push(p);
        proof {
            assert(self.simplex() =~= pre_push.push(p@));
        }
        if d >= 0 {
            EvolveResult::StillEvolving
        } else {
            EvolveResult::NoIntersection
        }
    }

    /// Drives the simplex walk to a terminal state and reports whether the
    /// shapes intersect.  On an intersection the terminal simplex is kept
    /// for the EPA refinement.
    pub fn test(&mut self, a: &Shapes, b: &Shapes) -> (r: bool)
        requires
            query_ok(a@),
            query_ok(b@),
        ensures
            r == spec_intersects(a@, b@),
            r ==> final(self).simplex() == spec_gjk(a@, b@).simplex
                && final(self).simplex().len() == 3,
            gjk_state_wf(final(self).simplex(), final(self).search_dir()),
    {
        self.vertices = Vec::new();
        self.direction = Vec2::new(0, 0);
        proof {
            assert(self.simplex() =~= Seq::<GVec>::empty());
        }
        let mut result = EvolveResult::StillEvolving;
        let mut it: usize = 0;
        while result == EvolveResult::StillEvolving && it < GJK_MAX_ITERATIONS
            invariant
                query_ok(a@),
                query_ok(b@),
                it <= GJK_MAX_ITERATIONS,
                gjk_state_wf(self.simplex(), self.search_dir()),
                result == EvolveResult::StillEvolving ==> spec_gjk(a@, b@) == spec_gjk_run(
                    a@,
                    b@,
                    self.simplex(),
                    self.search_dir(),
                    (GJK_MAX_ITERATIONS - it) as nat,
                ),
                result != EvolveResult::StillEvolving ==> {
                    let g = spec_gjk(a@, b@);
                    result == g.result && self.simplex() == g.simplex && self.search_dir() == g.dir
                },
            decreases GJK_MAX_ITERATIONS - it,
        {
            let ghost pre_simplex = self.simplex();
            let ghost pre_dir = self.search_dir();
            result = self.evolve_simplex(a, b);
            it += 1;
            proof {
                let fuel = (GJK_MAX_ITERATIONS - (it - 1)) as nat;
                assert(spec_gjk_run(a@, b@, pre_simplex, pre_dir, fuel) == if spec_evolve(
                    a@,
                    b@,
                    pre_simplex,
                    pre_dir,
                ).result is StillEvolving {
                    spec_gjk_run(
                        a@,
                        b@,
                        spec_evolve(a@, b@, pre_simplex, pre_dir).simplex,
                        spec_evolve(a@, b@, pre_simplex, pre_dir).dir,
                        (fuel - 1) as nat,
                    )
                } else {
                    spec_evolve(a@, b@, pre_simplex, pre_dir)
                });
            }
        }
        proof {
            lemma_gjk_run_props(a@, b@, Seq::empty(), gvec_zero(), GJK_MAX_ITERATIONS as nat);
        }
        result == EvolveResult::Intersection
    }

    /// Finds the polytope edge closest to the origin: for each consecutive
    /// vertex pair, the outward normal (by the fixed winding) is normalized
    /// and its signed distance from the origin taken; the edge of least
    /// distance wins, earliest first.  Degenerate zero-length edges are
    /// skipped; `None` only when every edge is degenerate.
    fn find_closest_edge(&self, cw: bool) -> (r: Option<Edge>)
        requires
            forall|k: int| 0 <= k < self.simplex().len() ==> mink_bounded(
                #[trigger] self.simplex()[k],
            ),
        ensures
            match r {
                Option::None => spec_closest_edge(self.simplex(), cw) is None,
                Option::Some(e) => {
                    &&& spec_closest_edge(self.simplex(), cw) == Option::Some(
                        GEdge { distance: e.distance as int, normal: e.normal@, index: e.index as int },
                    )
                    &&& 0 <= e.index < self.simplex().len()
                    &&& e.normal@ != gvec_zero()
                    &&& gvec_bounded(e.normal@, UNIT as int)
                    &&& iabs(e.distance as int) <= 0x2_0000_0000
                },
            },
    {
        let ghost pts = self.simplex();
        let n = self.vertices.len();
        let mut best: Option<Edge> = Option::None;
        let mut i: usize = 0;
        while i < n
            invariant
                i <= n,
                n == pts.len(),
                pts == self.vertices@.map_values(|v: Vec2| v@),
                forall|k: int| 0 <= k < pts.len() ==> mink_bounded(#[trigger] pts[k]),
                match best {
                    Option::None => closest_edge_upto(pts, cw, i as int) is None,
                    Option::Some(e) => {
                        &&& closest_edge_upto(pts, cw, i as int) == Option::Some(
                            GEdge {
                                distance: e.distance as int,
                                normal: e.normal@,
                                index: e.index as int,
                            },
                        )
                        &&& 0 <= e.index < n
                        &&& e.normal@ != gvec_zero()
                        &&& gvec_bounded(e.normal@, UNIT as int)
                        &&& iabs(e.distance as int) <= 0x2_0000_0000
                    },
                },
            decreases n - i,
        {
            let mut j = i + 1;
            if j >= n {
                j = 0;
            }
            proof {
                assert(self.vertices@[i as int]@ == pts[i as int]);
                assert(self.vertices@[j as int]@ == pts[j as int]);
            }
            let edge = self.vertices[j].sub(&self.vertices[i]);
            if !(edge.x == 0 && edge.y == 0) {
                let perp = if cw {
                    Vec2::new(-edge.y, edge.x)
                } else {
                    Vec2::new(edge.y, -edge.x)
                };
                let norm = perp.normalize();
                if !(norm.x == 0 && norm.y == 0) {
                    let dist = dot_scaled(&norm, &self.vertices[i]);
                    let replace = match &best {
                        Option::None => true,
                        Option::Some(e) => dist < e.distance,
                    };
                    if replace {
                        best = Option::Some(Edge::new(dist, norm, j));
                    }
                }
            }
            i += 1;
        }
        best
    }

    /// The full collision query: GJK, then EPA on the terminal simplex.
    /// Returns the minimum-translation vector separating the shapes, or
    /// `None` exactly when they do not intersect.
    pub fn intersect(&mut self, a: &Shapes, b: &Shapes) -> (r: Option<Vec2>)
        requires
            query_ok(a@),
            query_ok(b@),
        ensures
            (r is Some) == spec_intersects(a@, b@),
            match r {
                Option::Some(v) => spec_penetration(a@, b@) == Option::Some(v@),
                Option::None => spec_penetration(a@, b@) is None,
            },
    {
        if !self.test(a, b) {
            return Option::None;
        }
        let v0 = self.vertices[0];
        let v1 = self.vertices[1];
        let v2 = self.vertices[2];
        proof {
            assert(self.vertices@[0]@ == self.simplex()[0]);
            assert(self.vertices@[1]@ == self.simplex()[1]);
            assert(self.vertices@[2]@ == self.simplex()[2]);
            lemma_product_bound(
                v1@.x - v0@.x,
                v1@.y + v0@.y,
                0x2_0000_0000,
                0x2_0000_0000,
            );
            lemma_product_bound(
                v2@.x - v1@.x,
                v2@.y + v1@.y,
                0x2_0000_0000,
                0x2_0000_0000,
            );
            lemma_product_bound(
                v0@.x - v2@.x,
                v0@.y + v2@.y,
                0x2_0000_0000,
                0x2_0000_0000,
            );
        }
        let e0 = ((v1.x as i128) - (v0.x as i128)) * ((v1.y as i128) + (v0.y as i128));
        let e1 = ((v2.x as i128) - (v1.x as i128)) * ((v2.y as i128) + (v1.y as i128));
        let e2 = ((v0.x as i128) - (v2.x as i128)) * ((v0.y as i128) + (v2.y as i128));
        let cw = e0 + e1 + e2 >= 0;
        proof {
            assert(cw == spec_winding_cw(self.simplex()));
        }
        let mut intersection = Vec2::new(0, 0);
        let mut it: usize = 0;
        while it < EPA_MAX_ITERATIONS
            invariant
                query_ok(a@),
                query_ok(b@),
                it <= EPA_MAX_ITERATIONS,
                spec_intersects(a@, b@),
                forall|k: int| 0 <= k < self.simplex().len() ==> mink_bounded(
                    #[trigger] self.simplex()[k],
                ),
                spec_penetration(a@, b@) == Option::Some(
                    spec_epa_run(
                        a@,
                        b@,
                        self.simplex(),
                        cw,
                        intersection@,
                        (EPA_MAX_ITERATIONS - it) as nat,
                    ),
                ),
            decreases EPA_MAX_ITERATIONS - it,
        {
            let edge_opt = self.find_closest_edge(cw);
            match edge_opt {
                Option::None => {
                    return Option::Some(intersection);
                },
                Option::Some(edge) => {
                    let sup = support_mink(a, b, &edge.normal);
                    proof {
                        lemma_product_bound(sup@.x, edge.normal@.x, 0x1_0000_0000, UNIT as int);
                        lemma_product_bound(sup@.y, edge.normal@.y, 0x1_0000_0000, UNIT as int);
                        lemma_div_trunc_mag(
                            gdot(sup@, edge.normal@),
                            UNIT as int,
                            0x2_0000_0000,
                        );
                    }
                    let dq = Vec2::dot(&sup, &edge.normal);
                    let dist = div_trunc_i128(dq, UNIT as i128) as i64;
                    intersection = scale_unit(&edge.normal, dist);
                    let diff = dist - edge.distance;
                    if -EPA_TOLERANCE <= diff && diff <= EPA_TOLERANCE {
                        return Option::Some(intersection);
                    }
                    let ghost pre = self.simplex();
                    self.vertices.insert(edge.index, sup);
                    proof {
                        assert(self.simplex() =~= pre.insert(edge.index as int, sup@));
                        assert forall|k: int| 0 <= k < self.simplex().len() implies mink_bounded(
                            #[trigger] self.simplex()[k],
                        ) by {
                            if k < edge.index {
                                assert(self.simplex()[k] == pre[k]);
                            } else if k > edge.index {
                                assert(self.simplex()[k] == pre[k - 1]);
                            }
                        }
                    }
                    it += 1;
                },
            }
        }
        Option::Some(intersection)
    }
}

/// The polytope edge closest to the origin, as EPA records it.
struct Edge {
    distance: i64,
    normal: Vec2,
    index: usize,
}

impl Edge {
    fn new(distance: i64, normal: Vec2, index: usize) -> (r: Edge)
        ensures
            r.distance == distance,
            r.normal == normal,
            r.index == index,
    {
        Edge { distance, normal, index }
    }
}

/// Model of an EPA edge record.
pub ghost struct GEdge {
    pub distance: int,
    pub normal: GVec,
    pub index: int,
}

/// Outward perpendicular of an edge vector under the given winding.
pub open spec fn epa_perp(e: GVec, cw: bool) -> GVec {
    if cw {
        gvec(-e.y, e.x)
    } else {
        gvec(e.y, -e.x)
    }
}

/// The closest edge among those leaving vertices `0 .. n`, scanned in
/// order, strict improvement only (the earliest minimum wins).  Degenerate
/// edges are skipped.
pub open spec fn closest_edge_upto(pts: Seq<GVec>, cw: bool, n: int) -> Option<GEdge>
    recommends
        n <= pts.len(),
    decreases n,
{
    if n <= 0 {
        Option::None
    } else {
        let prev = closest_edge_upto(pts, cw, n - 1);
        let i = n - 1;
        let j: int = if i + 1 >= pts.len() {
            0
        } else {
            i + 1
        };
        let e = gsub(pts[j], pts[i]);
        let norm = gset_len(epa_perp(e, cw), UNIT as int);
        if e == gvec_zero() || norm == gvec_zero() {
            prev
        } else {
            let dist = div_trunc(gdot(norm, pts[i]), UNIT as int);
            match prev {
                Option::None => Option::Some(GEdge { distance: dist, normal: norm, index: j }),
                Option::Some(pe) => if dist < pe.distance {
                    Option::Some(GEdge { distance: dist, normal: norm, index: j })
                } else {
                    prev
                },
            }
        }
    }
}

/// The closest edge of the whole polytope.
pub open spec fn spec_closest_edge(pts: Seq<GVec>, cw: bool) -> Option<GEdge> {
    closest_edge_upto(pts, cw, pts.len() as int)
}

/// Winding of the terminal simplex, fixed once at EPA start: clockwise
/// when the shoelace-style sum over its three edges is at least zero.
pub open spec fn spec_winding_cw(pts: Seq<GVec>) -> bool
    recommends
        pts.len() == 3,
{
    (pts[1].x - pts[0].x) * (pts[1].y + pts[0].y) + (pts[2].x - pts[1].x) * (pts[2].y + pts[1].y)
        + (pts[0].x - pts[2].x) * (pts[0].y + pts[2].y) >= 0
}

/// The EPA refinement from a given polytope, with `fuel` expansions left:
/// expand along the closest edge's normal until the support distance stops
/// improving by more than `EPA_TOLERANCE`, then return the normal scaled
/// by that distance.  On fuel exhaustion the best estimate so far is
/// returned.
pub open spec fn spec_epa_run(
    a: GShape,
    b: GShape,
    pts: Seq<GVec>,
    cw: bool,
    best: GVec,
    fuel: nat,
) -> GVec
    decreases fuel,
{
    if fuel == 0 {
        best
    } else {
        match spec_closest_edge(pts, cw) {
            Option::None => best,
            Option::Some(edge) => {
                let sup = mink_support(a, b, edge.normal);
                let dist = div_trunc(gdot(sup, edge.normal), UNIT as int);
                let pen = gdiv(gscale(edge.normal, dist), UNIT as int);
                if iabs(dist - edge.distance) <= EPA_TOLERANCE as int {
                    pen
                } else {
                    spec_epa_run(a, b, pts.insert(edge.index, sup), cw, pen, (fuel - 1) as nat)
                }
            },
        }
    }
}

/// The penetration vector of the whole query: `None` exactly when GJK
/// reports no intersection, otherwise the EPA result on the terminal
/// simplex.
pub open spec fn spec_penetration(a: GShape, b: GShape) -> Option<GVec> {
    let g = spec_gjk(a, b);
    if g.result is Intersection {
        Option::Some(
            spec_epa_run(
                a,
                b,
                g.simplex,
                spec_winding_cw(g.simplex),
                gvec_zero(),
                EPA_MAX_ITERATIONS as nat,
            ),
        )
    } else {
        Option::None
    }
}

/// Dot product scaled down by `UNIT`: the signed projection of `w` onto
/// the unit-scale vector `v`.
fn dot_scaled(v: &Vec2, w: &Vec2) -> (r: i64)
    requires
        gvec_bounded(v@, UNIT as int),
        gvec_bounded(w@, 0x1_0000_0000),
    ensures
        r as int == div_trunc(gdot(v@, w@), UNIT as int),
        iabs(r as int) <= 0x2_0000_0000,
{
    proof {
        lemma_product_bound(v@.x, w@.x, UNIT as int, 0x1_0000_0000);
        lemma_product_bound(v@.y, w@.y, UNIT as int, 0x1_0000_0000);
        lemma_div_trunc_mag(gdot(v@, w@), UNIT as int, 0x2_0000_0000);
    }
    let d = Vec2::dot(v, w);
    let q = div_trunc_i128(d, UNIT as i128);
    q as i64
}

/// The unit-scale vector `v` scaled by `s` fixed-point ticks: each
/// component `v * s / UNIT`, truncated.
fn scale_unit(v: &Vec2, s: i64) -> (r: Vec2)
    requires
        gvec_bounded(v@, UNIT as int),
        iabs(s as int) <= 0x2_0000_0000,
    ensures
        r@ == gdiv(gscale(v@, s as int), UNIT as int),
        gvec_bounded(r@, 0x2_0000_0000),
{
    proof {
        lemma_product_bound(v@.x, s as int, UNIT as int, 0x2_0000_0000);
        lemma_product_bound(v@.y, s as int, UNIT as int, 0x2_0000_0000);
        lemma_div_trunc_mag(v@.x * (s as int), UNIT as int, 0x2_0000_0000);
        lemma_div_trunc_mag(v@.y * (s as int), UNIT as int, 0x2_0000_0000);
    }
    let qx = div_trunc_i128((v.x as i128) * (s as i128), UNIT as i128);
    let qy = div_trunc_i128((v.y as i128) * (s as i128), UNIT as i128);
    Vec2 { x: qx as i64, y: qy as i64 }
}

/// Whether the two convex shapes intersect.
pub fn test_intersect(a: &Shapes, b: &Shapes) -> (r: bool)
    requires
        query_ok(a@),
        query_ok(b@),
    ensures
        r == spec_intersects(a@, b@),
{
    let mut engine = GJK::new();
    engine.test(a, b)
}

/// The minimum-translation vector separating the two shapes, or `None`
/// exactly when they do not intersect.
pub fn compute_penetration(a: &Shapes, b: &Shapes) -> (r: Option<Vec2>)
    requires
        query_ok(a@),
        query_ok(b@),
    ensures
        (r is Some) == spec_intersects(a@, b@),
        match r {
            Option::Some(v) => spec_penetration(a@, b@) == Option::Some(v@),
            Option::None => spec_penetration(a@, b@) is None,
        },
{
    let mut engine = GJK::new();
    engine.intersect(a, b)
}

/// Pointwise negation of a point sequence.
pub open spec fn gneg_seq(s: Seq<GVec>) -> Seq<GVec> {
    s.map_values(|p: GVec| gneg(p))
}

/// The oriented perpendicular commutes with negating all three arguments.
proof fn lemma_triple_dir_neg(u: GVec, v: GVec, w: GVec)
    ensures
        triple_dir(gneg(u), gneg(v), gneg(w)) == gneg(triple_dir(u, v, w)),
{
    crate::vec2::lemma_gcross_neg(u, v);
}

/// Negating the simplex and the direction negates the appended support
/// point and leaves the step outcome unchanged.
proof fn lemma_finish_step_neg(a: GShape, b: GShape, s: Seq<GVec>, d: GVec)
    ensures
        ({
            let st1 = spec_finish_step(a, b, s, d);
            let st2 = spec_finish_step(b, a, gneg_seq(s), gneg(d));
            st2.result == st1.result && st2.simplex == gneg_seq(st1.simplex) && st2.dir == gneg(
                st1.dir,
            )
        }),
{
    if d == gvec_zero() {
        assert(gneg(d) == gvec_zero());
    } else {
        assert(gneg(d) != gvec_zero());
        let p = mink_support(a, b, d);
        let p2 = mink_support(b, a, gneg(d));
        assert(gneg(gneg(d)) == d);
        assert(p2 == gneg(p));
        crate::vec2::lemma_gdot_neg(d, p);
        assert(gneg_seq(s.push(p)) =~= gneg_seq(s).push(gneg(p)));
    }
}

/// One GJK step behaves identically on `(b, a)` with the negated state:
/// the Minkowski difference of the swapped pair is the pointwise negation
/// of the first pair's, and every test in the step is invariant under
/// negating both of its operands.
proof fn lemma_evolve_neg(a: GShape, b: GShape, s: Seq<GVec>, d: GVec)
    ensures
        ({
            let st1 = spec_evolve(a, b, s, d);
            let st2 = spec_evolve(b, a, gneg_seq(s), gneg(d));
            st2.result == st1.result && st2.simplex == gneg_seq(st1.simplex) && st2.dir == gneg(
                st1.dir,
            )
        }),
{
    let s2 = gneg_seq(s);
    assert(s2.len() == s.len());
    if s.len() == 0 {
        assert(gsub(spec_center(a), spec_center(b)) == gneg(
            gsub(spec_center(b), spec_center(a)),
        ));
        lemma_finish_step_neg(a, b, s, gsub(spec_center(b), spec_center(a)));
    } else if s.len() == 1 {
        assert(gneg(gneg(d)) == gneg(gneg(d)));
        lemma_finish_step_neg(a, b, s, gneg(d));
    } else if s.len() == 2 {
        let pb = s[1];
        let pc = s[0];
        let cb = gsub(pb, pc);
        let c0 = gneg(pc);
        assert(s2[1] == gneg(pb));
        assert(s2[0] == gneg(pc));
        assert(gsub(s2[1], s2[0]) == gneg(cb));
        assert(gneg(s2[0]) == gneg(c0));
        lemma_triple_dir_neg(cb, c0, cb);
        lemma_finish_step_neg(a, b, s, triple_dir(cb, c0, cb));
    } else if s.len() == 3 {
        let pa = s[2];
        let pb = s[1];
        let pc = s[0];
        let a0 = gneg(pa);
        let ab = gsub(pb, pa);
        let ac = gsub(pc, pa);
        let ab_perp = triple_dir(ac, ab, ab);
        let ac_perp = triple_dir(ab, ac, ac);
        assert(s2[2] == gneg(pa));
        assert(s2[1] == gneg(pb));
        assert(s2[0] == gneg(pc));
        assert(gsub(s2[1], s2[2]) == gneg(ab));
        assert(gsub(s2[0], s2[2]) == gneg(ac));
        assert(gneg(s2[2]) == gneg(a0));
        lemma_triple_dir_neg(ac, ab, ab);
        lemma_triple_dir_neg(ab, ac, ac);
        crate::vec2::lemma_gdot_neg(ab_perp, a0);
        crate::vec2::lemma_gdot_neg(ac_perp, a0);
        if gdot(ab_perp, a0) > 0 {
            assert(gneg_seq(s.remove(0)) =~= s2.remove(0));
            lemma_finish_step_neg(a, b, s.remove(0), ab_perp);
        } else if gdot(ac_perp, a0) > 0 {
            assert(gneg_seq(s.remove(1)) =~= s2.remove(1));
            lemma_finish_step_neg(a, b, s.remove(1), ac_perp);
        }
    }
}

/// The whole GJK walk behaves identically on the swapped pair with the
/// negated state.
proof fn lemma_gjk_run_neg(a: GShape, b: GShape, s: Seq<GVec>, d: GVec, fuel: nat)
    ensures
        ({
            let r1 = spec_gjk_run(a, b, s, d, fuel);
            let r2 = spec_gjk_run(b, a, gneg_seq(s), gneg(d), fuel);
            r2.result == r1.result && r2.simplex == gneg_seq(r1.simplex) && r2.dir == gneg(r1.dir)
        }),
    decreases fuel,
{
    if fuel > 0 {
        lemma_evolve_neg(a, b, s, d);
        let st = spec_evolve(a, b, s, d);
        if st.result is StillEvolving {
            lemma_gjk_run_neg(a, b, st.simplex, st.dir, (fuel - 1) as nat);
        }
    }
}

/// The intersection test is symmetric: for all convex shape pairs,
/// `test_intersect(a, b)` and `test_intersect(b, a)` agree.
pub proof fn lemma_intersect_symmetric(a: GShape, b: GShape)
    ensures
        spec_intersects(a, b) == spec_intersects(b, a),
{
    assert(gneg_seq(Seq::empty()) =~= Seq::<GVec>::empty());
    assert(gneg(gvec_zero()) == gvec_zero());
    lemma_gjk_run_neg(a, b, Seq::empty(), gvec_zero(), GJK_MAX_ITERATIONS as nat);
}

/// A pair that does not intersect has no penetration vector, and a pair
/// that does always gets one: `compute_penetration` returns `Some` exactly
/// on the pairs `test_intersect` reports as intersecting.
pub proof fn lemma_penetration_iff_intersects(a: GShape, b: GShape)
    ensures
        (spec_penetration(a, b) is Some) == spec_intersects(a, b),
        !spec_intersects(a, b) ==> spec_penetration(a, b) is None,
{
}

} // verus!
