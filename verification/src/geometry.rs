//! Geometry kernel: rays, axis-aligned bounds with the slab test, the
//! single-sided ray/triangle intersection predicate, and barycentric
//! surface interpolation — all with exact integer and rational results.

use vstd::prelude::*;
use crate::COORD_LIMIT;
use crate::rat::{Rat, le_frac, ge_frac, lemma_le_frac_from_le, lemma_ge_frac_from_le, lemma_frac_between};
use crate::vec3::{Vec3, dot_int, in_range, t3, t3_sub, t3_dot, t3_cross, lemma_dot_bound, lemma_cross_bound, lemma_mul_bound};

verus! {

/// Largest denominator a barycentric coordinate may carry; exactly the
/// largest determinant a grid triangle and a grid ray can produce.
pub const BARY_DEN_LIMIT: i128 = 0x3000_0000;

/// Largest component magnitude a bounding box may carry: scene
/// coordinates plus one, so that the empty box's sentinel corners fit.
pub const BOX_LIMIT: i128 = 257;

#[derive(Clone, Copy, PartialEq, Eq, Structural, Debug)]
pub struct Ray {
    pub origin: Vec3,
    pub direction: Vec3,
}

impl Ray {
    /// Scene rays: endpoints on the coordinate grid and a direction that
    /// is not the zero vector.
    pub open spec fn wf(self) -> bool {
        &&& in_range(self.origin, COORD_LIMIT as int)
        &&& in_range(self.direction, 2 * COORD_LIMIT as int)
        &&& !(self.direction.x == 0 && self.direction.y == 0 && self.direction.z == 0)
    }
}

#[derive(Clone, Copy, PartialEq, Eq, Structural, Debug)]
pub struct Bounds {
    pub min: Vec3,
    pub max: Vec3,
}

/// Both corners lie on the (slightly widened) box grid.
pub open spec fn bounds_in_range(b: Bounds) -> bool {
    &&& in_range(b.min, BOX_LIMIT as int)
    &&& in_range(b.max, BOX_LIMIT as int)
}

/// The box `b` contains the grid point `v`.
pub open spec fn bounds_contains_vec(b: Bounds, v: Vec3) -> bool {
    &&& b.min.x <= v.x <= b.max.x
    &&& b.min.y <= v.y <= b.max.y
    &&& b.min.z <= v.z <= b.max.z
}

/// Everything inside `inner` is inside `outer` (componentwise corner
/// ordering, which is how box unions nest).
pub open spec fn bounds_subset(inner: Bounds, outer: Bounds) -> bool {
    &&& outer.min.x <= inner.min.x && inner.max.x <= outer.max.x
    &&& outer.min.y <= inner.min.y && inner.max.y <= outer.max.y
    &&& outer.min.z <= inner.min.z && inner.max.z <= outer.max.z
}

/// The point at parameter `tn / td` along `ray` (scaled through by `td`)
/// lies inside the box `b`.
pub open spec fn ray_box_at(b: Bounds, ray: Ray, tn: int, td: int) -> bool {
    &&& td * b.min.x <= td * ray.origin.x + tn * ray.direction.x <= td * b.max.x
    &&& td * b.min.y <= td * ray.origin.y + tn * ray.direction.y <= td * b.max.y
    &&& td * b.min.z <= td * ray.origin.z + tn * ray.direction.z <= td * b.max.z
}

/// Some point of the box lies on the forward half of the ray.
pub open spec fn ray_hits_box(b: Bounds, ray: Ray) -> bool {
    exists|tn: int, td: int| td > 0 && tn >= 0 && #[trigger] ray_box_at(b, ray, tn, td)
}

/// Componentwise minimum of one coordinate over the first `n` points,
/// starting from the empty box's sentinel.
pub open spec fn points_min(s: Seq<Vec3>, n: int, f: spec_fn(Vec3) -> int) -> int
    decreases n,
{
    if n <= 0 {
        BOX_LIMIT as int
    } else {
        int_min(points_min(s, n - 1, f), f(s[n - 1]))
    }
}

/// Componentwise maximum of one coordinate over the first `n` points,
/// starting from the empty box's sentinel.
pub open spec fn points_max(s: Seq<Vec3>, n: int, f: spec_fn(Vec3) -> int) -> int
    decreases n,
{
    if n <= 0 {
        -BOX_LIMIT as int
    } else {
        int_max(points_max(s, n - 1, f), f(s[n - 1]))
    }
}

pub open spec fn int_min(a: int, b: int) -> int {
    if a <= b { a } else { b }
}

pub open spec fn int_max(a: int, b: int) -> int {
    if a <= b { b } else { a }
}

fn min_i128(a: i128, b: i128) -> (r: i128)
    ensures
        r == int_min(a as int, b as int),
{
    if a <= b { a } else { b }
}

fn max_i128(a: i128, b: i128) -> (r: i128)
    ensures
        r == int_max(a as int, b as int),
{
    if a <= b { b } else { a }
}

impl Bounds {
    /// The empty box: corners crossed just past the coordinate grid, so
    /// that a union with any scene point simply adopts that point.
    pub fn empty() -> (r: Bounds)
        ensures
            r == Bounds::empty_spec(),
            r.min.x == BOX_LIMIT && r.min.y == BOX_LIMIT && r.min.z == BOX_LIMIT,
            r.max.x == -BOX_LIMIT && r.max.y == -BOX_LIMIT && r.max.z == -BOX_LIMIT,
            forall|v: Vec3| !bounds_contains_vec(r, v),
            bounds_in_range(r),
    {
        Bounds {
            min: Vec3 { x: BOX_LIMIT, y: BOX_LIMIT, z: BOX_LIMIT },
            max: Vec3 { x: -BOX_LIMIT, y: -BOX_LIMIT, z: -BOX_LIMIT },
        }
    }

    /// Grow the box to take in the point `p`.
    pub fn union_point(self, p: Vec3) -> (r: Bounds)
        requires
            bounds_in_range(self),
            in_range(p, COORD_LIMIT as int),
        ensures
            r.min.x == int_min(self.min.x as int, p.x as int),
            r.min.y == int_min(self.min.y as int, p.y as int),
            r.min.z == int_min(self.min.z as int, p.z as int),
            r.max.x == int_max(self.max.x as int, p.x as int),
            r.max.y == int_max(self.max.y as int, p.y as int),
            r.max.z == int_max(self.max.z as int, p.z as int),
            bounds_in_range(r),
            bounds_contains_vec(r, p),
            forall|v: Vec3| bounds_contains_vec(self, v) ==> bounds_contains_vec(r, v),
    {
        Bounds {
            min: Vec3 {
                x: min_i128(self.min.x, p.x),
                y: min_i128(self.min.y, p.y),
                z: min_i128(self.min.z, p.z),
            },
            max: Vec3 {
                x: max_i128(self.max.x, p.x),
                y: max_i128(self.max.y, p.y),
                z: max_i128(self.max.z, p.z),
            },
        }
    }

    /// The smallest box around two boxes, as the union step of a
    /// bottom-up hierarchy build.
    pub fn union(self, other: Bounds) -> (r: Bounds)
        requires
            bounds_in_range(self),
            bounds_in_range(other),
        ensures
            bounds_in_range(r),
            bounds_subset(self, r),
            bounds_subset(other, r),
            r.min.x == int_min(self.min.x as int, other.min.x as int),
            r.min.y == int_min(self.min.y as int, other.min.y as int),
            r.min.z == int_min(self.min.z as int, other.min.z as int),
            r.max.x == int_max(self.max.x as int, other.max.x as int),
            r.max.y == int_max(self.max.y as int, other.max.y as int),
            r.max.z == int_max(self.max.z as int, other.max.z as int),
    {
        Bounds {
            min: Vec3 {
                x: min_i128(self.min.x, other.min.x),
                y: min_i128(self.min.y, other.min.y),
                z: min_i128(self.min.z, other.min.z),
            },
            max: Vec3 {
                x: max_i128(self.max.x, other.max.x),
                y: max_i128(self.max.y, other.max.y),
                z: max_i128(self.max.z, other.max.z),
            },
        }
    }

    /// The tight box around a triangle's three corners.
    pub fn around_triangle(p1: Vec3, p2: Vec3, p3: Vec3) -> (r: Bounds)
        requires
            in_range(p1, COORD_LIMIT as int),
            in_range(p2, COORD_LIMIT as int),
            in_range(p3, COORD_LIMIT as int),
        ensures
            bounds_in_range(r),
            bounds_contains_vec(r, p1),
            bounds_contains_vec(r, p2),
            bounds_contains_vec(r, p3),
            r.min.x == int_min(p1.x as int, int_min(p2.x as int, p3.x as int)),
            r.min.y == int_min(p1.y as int, int_min(p2.y as int, p3.y as int)),
            r.min.z == int_min(p1.z as int, int_min(p2.z as int, p3.z as int)),
            r.max.x == int_max(p1.x as int, int_max(p2.x as int, p3.x as int)),
            r.max.y == int_max(p1.y as int, int_max(p2.y as int, p3.y as int)),
            r.max.z == int_max(p1.z as int, int_max(p2.z as int, p3.z as int)),
    {
        Bounds {
            min: Vec3 {
                x: min_i128(p1.x, min_i128(p2.x, p3.x)),
                y: min_i128(p1.y, min_i128(p2.y, p3.y)),
                z: min_i128(p1.z, min_i128(p2.z, p3.z)),
            },
            max: Vec3 {
                x: max_i128(p1.x, max_i128(p2.x, p3.x)),
                y: max_i128(p1.y, max_i128(p2.y, p3.y)),
                z: max_i128(p1.z, max_i128(p2.z, p3.z)),
            },
        }
    }

    /// The smallest box around a list of points: its corners are
    /// exactly the componentwise extrema of the points (so no smaller
    /// box contains them all), and an empty list yields the empty box.
    pub fn around_points(points: &Vec<Vec3>) -> (r: Bounds)
        requires
            forall|i: int| 0 <= i < points@.len() ==> in_range(#[trigger] points@[i], COORD_LIMIT as int),
        ensures
            bounds_in_range(r),
            forall|i: int| 0 <= i < points@.len() ==> bounds_contains_vec(r, #[trigger] points@[i]),
            r.min.x == points_min(points@, points@.len() as int, |v: Vec3| v.x as int),
            r.min.y == points_min(points@, points@.len() as int, |v: Vec3| v.y as int),
            r.min.z == points_min(points@, points@.len() as int, |v: Vec3| v.z as int),
            r.max.x == points_max(points@, points@.len() as int, |v: Vec3| v.x as int),
            r.max.y == points_max(points@, points@.len() as int, |v: Vec3| v.y as int),
            r.max.z == points_max(points@, points@.len() as int, |v: Vec3| v.z as int),
            points@.len() == 0 ==> r == Bounds::empty_spec(),
    {
        let mut result = Bounds::empty();
        let mut k: usize = 0;
        while k < points.len()
            invariant
                0 <= k <= points@.len(),
                forall|i: int| 0 <= i < points@.len() ==> in_range(#[trigger] points@[i], COORD_LIMIT as int),
                bounds_in_range(result),
                forall|i: int| 0 <= i < k ==> bounds_contains_vec(result, #[trigger] points@[i]),
                result.min.x == points_min(points@, k as int, |v: Vec3| v.x as int),
                result.min.y == points_min(points@, k as int, |v: Vec3| v.y as int),
                result.min.z == points_min(points@, k as int, |v: Vec3| v.z as int),
                result.max.x == points_max(points@, k as int, |v: Vec3| v.x as int),
                result.max.y == points_max(points@, k as int, |v: Vec3| v.y as int),
                result.max.z == points_max(points@, k as int, |v: Vec3| v.z as int),
            decreases points@.len() - k,
        {
            result = result.union_point(points[k]);
            k = k + 1;
        }
        result
    }

    /// The value `empty()` returns.
    pub open spec fn empty_spec() -> Bounds {
        Bounds {
            min: Vec3 { x: BOX_LIMIT, y: BOX_LIMIT, z: BOX_LIMIT },
            max: Vec3 {
                x: (-BOX_LIMIT) as i128,
                y: (-BOX_LIMIT) as i128,
                z: (-BOX_LIMIT) as i128,
            },
        }
    }

    /// Componentwise extent of the box, used to pick a split axis.
    pub fn extent(&self) -> (r: Vec3)
        requires
            bounds_in_range(*self),
        ensures
            r.x == self.max.x - self.min.x,
            r.y == self.max.y - self.min.y,
            r.z == self.max.z - self.min.z,
    {
        Vec3 {
            x: self.max.x - self.min.x,
            y: self.max.y - self.min.y,
            z: self.max.z - self.min.z,
        }
    }

    /// Whether the box contains a grid point.
    pub fn contains_point(&self, p: &Vec3) -> (r: bool)
        ensures
            r == bounds_contains_vec(*self, *p),
    {
        self.min.x <= p.x && p.x <= self.max.x
            && self.min.y <= p.y && p.y <= self.max.y
            && self.min.z <= p.z && p.z <= self.max.z
    }
}

/// One axis's contribution to the slab test: the set of ray parameters
/// whose point lies between that axis's two box planes.
#[derive(Clone, Copy)]
enum AxisSpan {
    Void,
    Whole,
    Within(Rat, Rat),
}

/// The fraction `tn / td` (with `td > 0`) lies in the span.
spec fn span_contains(s: AxisSpan, tn: int, td: int) -> bool {
    match s {
        AxisSpan::Void => false,
        AxisSpan::Whole => true,
        AxisSpan::Within(lo, hi) => le_frac(lo, tn, td) && ge_frac(hi, tn, td),
    }
}

spec fn span_wf(s: AxisSpan) -> bool {
    match s {
        AxisSpan::Void => true,
        AxisSpan::Whole => true,
        AxisSpan::Within(lo, hi) => lo.wf() && hi.wf(),
    }
}

/// The exact parameter span of one slab: all `t` with
/// `minc <= oc + t * dc <= maxc`.
fn axis_span(minc: i128, maxc: i128, oc: i128, dc: i128) -> (s: AxisSpan)
    requires
        -BOX_LIMIT <= minc <= BOX_LIMIT,
        -BOX_LIMIT <= maxc <= BOX_LIMIT,
        -COORD_LIMIT <= oc <= COORD_LIMIT,
        -2 * COORD_LIMIT <= dc <= 2 * COORD_LIMIT,
    ensures
        span_wf(s),
        s is Whole ==> dc == 0,
        forall|tn: int, td: int|
            td > 0 ==> (#[trigger] span_contains(s, tn, td)
                <==> (td * minc <= td * oc + tn * dc && td * oc + tn * dc <= td * maxc)),
{
    if dc > 0 {
        let s = AxisSpan::Within(Rat::new(minc - oc, dc), Rat::new(maxc - oc, dc));
        proof {
            assert forall|tn: int, td: int| td > 0 implies
                (#[trigger] span_contains(s, tn, td)
                    <==> (td * minc <= td * oc + tn * dc && td * oc + tn * dc <= td * maxc)) by {
                assert((minc - oc) * td == td * minc - td * oc) by (nonlinear_arith);
                assert((maxc - oc) * td == td * maxc - td * oc) by (nonlinear_arith);
            }
        }
        s
    } else if dc < 0 {
        let s = AxisSpan::Within(Rat::new(oc - maxc, -dc), Rat::new(oc - minc, -dc));
        proof {
            assert forall|tn: int, td: int| td > 0 implies
                (#[trigger] span_contains(s, tn, td)
                    <==> (td * minc <= td * oc + tn * dc && td * oc + tn * dc <= td * maxc)) by {
                assert((oc - maxc) * td == td * oc - td * maxc) by (nonlinear_arith);
                assert((oc - minc) * td == td * oc - td * minc) by (nonlinear_arith);
                assert(tn * (-dc) == -(tn * dc)) by (nonlinear_arith);
            }
        }
        s
    } else {
        if minc <= oc && oc <= maxc {
            let s = AxisSpan::Whole;
            proof {
                assert forall|tn: int, td: int| td > 0 implies
                    (#[trigger] span_contains(s, tn, td)
                        <==> (td * minc <= td * oc + tn * dc && td * oc + tn * dc <= td * maxc)) by {
                    assert(tn * 0 == 0) by (nonlinear_arith);
                    assert(td * minc <= td * oc && td * oc <= td * maxc) by (nonlinear_arith)
                        requires td > 0 && minc <= oc && oc <= maxc;
                }
            }
            s
        } else {
            let s = AxisSpan::Void;
            proof {
                assert forall|tn: int, td: int| td > 0 implies
                    (#[trigger] span_contains(s, tn, td)
                        <==> (td * minc <= td * oc + tn * dc && td * oc + tn * dc <= td * maxc)) by {
                    assert(tn * 0 == 0) by (nonlinear_arith);
                    assert(!(td * minc <= td * oc && td * oc <= td * maxc)) by (nonlinear_arith)
                        requires td > 0 && !(minc <= oc && oc <= maxc);
                }
            }
            s
        }
    }
}

/// Intersection of two axis spans.
fn span_meet(a: AxisSpan, b: AxisSpan) -> (s: AxisSpan)
    requires
        span_wf(a),
        span_wf(b),
    ensures
        span_wf(s),
        s is Whole ==> (a is Whole && b is Whole),
        forall|tn: int, td: int|
            td > 0 ==> (#[trigger] span_contains(s, tn, td)
                <==> (span_contains(a, tn, td) && span_contains(b, tn, td))),
{
    match (a, b) {
        (AxisSpan::Void, _) => AxisSpan::Void,
        (_, AxisSpan::Void) => AxisSpan::Void,
        (AxisSpan::Whole, other) => other,
        (other, AxisSpan::Whole) => other,
        (AxisSpan::Within(lo1, hi1), AxisSpan::Within(lo2, hi2)) => {
            let lo = if lo1.le(lo2) { lo2 } else { lo1 };
            let hi = if hi1.le(hi2) { hi1 } else { hi2 };
            let s = AxisSpan::Within(lo, hi);
            proof {
                assert forall|tn: int, td: int| td > 0 implies
                    (#[trigger] span_contains(s, tn, td)
                        <==> (span_contains(a, tn, td) && span_contains(b, tn, td))) by {
                    if lo1.le_value(lo2) {
                        if le_frac(lo2, tn, td) {
                            lemma_le_frac_from_le(lo1, lo2, tn, td);
                        }
                    } else {
                        crate::rat::lemma_rat_order(lo1, lo2);
                        if le_frac(lo1, tn, td) {
                            lemma_le_frac_from_le(lo2, lo1, tn, td);
                        }
                    }
                    if hi1.le_value(hi2) {
                        if ge_frac(hi1, tn, td) {
                            lemma_ge_frac_from_le(hi1, hi2, tn, td);
                        }
                    } else {
                        crate::rat::lemma_rat_order(hi1, hi2);
                        if ge_frac(hi2, tn, td) {
                            lemma_ge_frac_from_le(hi2, hi1, tn, td);
                        }
                    }
                }
            }
            s
        }
    }
}

impl Bounds {
    /// Slab test: the exact parameter interval along which `ray` passes
    /// through the box, or `None` when no forward part of the ray does.
    ///
    /// On `Some((tmin, tmax))`: a ray parameter `tn / td` lies between
    /// the returned rationals exactly when the ray's point at that
    /// parameter is inside the box; the box is reported hit exactly when
    /// some parameter `t >= 0` does so.
    pub fn does_intersect(&self, ray: &Ray) -> (r: Option<(Rat, Rat)>)
        requires
            bounds_in_range(*self),
            ray.wf(),
        ensures
            r.is_some() <==> ray_hits_box(*self, *ray),
            r matches Some(itv) ==> {
                &&& itv.0.wf()
                &&& itv.1.wf()
                &&& itv.0.le_value(itv.1)
                &&& itv.1.num >= 0
                &&& forall|tn: int, td: int|
                    td > 0 ==> (#[trigger] ray_box_at(*self, *ray, tn, td)
                        <==> (le_frac(itv.0, tn, td) && ge_frac(itv.1, tn, td)))
            },
    {
        let sx = axis_span(self.min.x, self.max.x, ray.origin.x, ray.direction.x);
        let sy = axis_span(self.min.y, self.max.y, ray.origin.y, ray.direction.y);
        let sz = axis_span(self.min.z, self.max.z, ray.origin.z, ray.direction.z);
        let sxy = span_meet(sx, sy);
        let s = span_meet(sxy, sz);

        proof {
            assert forall|tn: int, td: int| td > 0 implies
                (#[trigger] span_contains(s, tn, td) <==> ray_box_at(*self, *ray, tn, td)) by {
                assert(span_contains(sx, tn, td)
                    <==> (td * self.min.x <= td * ray.origin.x + tn * ray.direction.x
                        && td * ray.origin.x + tn * ray.direction.x <= td * self.max.x));
            }
        }

        match s {
            AxisSpan::Void => {
                proof {
                    assert forall|tn: int, td: int|
                        !(td > 0 && tn >= 0 && #[trigger] ray_box_at(*self, *ray, tn, td)) by {
                        if td > 0 {
                            assert(!span_contains(AxisSpan::Void, tn, td));
                        }
                    }
                    assert(!ray_hits_box(*self, *ray));
                }
                None
            },
            AxisSpan::Whole => {
                // a span can only be the whole line on all three axes at
                // once, which would make the direction the zero vector
                proof {
                    assert(false);
                }
                None
            },
            AxisSpan::Within(lo, hi) => {
                proof {
                    assert forall|tn: int, td: int| td > 0 implies
                        (#[trigger] ray_box_at(*self, *ray, tn, td)
                            <==> (le_frac(lo, tn, td) && ge_frac(hi, tn, td))) by {
                        assert(span_contains(s, tn, td) <==> ray_box_at(*self, *ray, tn, td));
                    }
                }
                if hi.is_non_negative() && lo.le(hi) {
                    proof {
                        // witness a forward parameter inside the interval
                        if lo.num >= 0 {
                            assert(le_frac(lo, lo.num as int, lo.den as int)) by (nonlinear_arith);
                            assert(ge_frac(hi, lo.num as int, lo.den as int)) by (nonlinear_arith)
                                requires lo.wf() && hi.wf() && lo.le_value(hi);
                            assert(span_contains(s, lo.num as int, lo.den as int));
                            assert(ray_box_at(*self, *ray, lo.num as int, lo.den as int));
                        } else {
                            assert(le_frac(lo, 0, 1)) by (nonlinear_arith)
                                requires lo.wf() && lo.num < 0;
                            assert(ge_frac(hi, 0, 1)) by (nonlinear_arith)
                                requires hi.wf() && hi.num >= 0;
                            assert(span_contains(s, 0, 1));
                            assert(ray_box_at(*self, *ray, 0, 1));
                        }
                    }
                    Some((lo, hi))
                } else {
                    proof {
                        assert forall|tn: int, td: int|
                            !(td > 0 && tn >= 0 && #[trigger] ray_box_at(*self, *ray, tn, td)) by {
                            if td > 0 && tn >= 0 && ray_box_at(*self, *ray, tn, td) {
                                assert(span_contains(s, tn, td));
                                if hi.num < 0 {
                                    assert(tn * hi.den >= 0) by (nonlinear_arith)
                                        requires tn >= 0 && hi.den > 0;
                                    assert(hi.num * td < 0) by (nonlinear_arith)
                                        requires hi.num < 0 && td > 0;
                                } else {
                                    lemma_frac_between(lo, hi, tn, td);
                                }
                            }
                        }
                    }
                    None
                }
            },
        }
    }
}

/// The slab interval brackets zero exactly when the box contains the
/// ray's origin: the interval is consistent with `contains_point`.
pub proof fn lemma_interval_brackets_origin(b: Bounds, ray: Ray, tmin: Rat, tmax: Rat)
    requires
        tmin.wf(),
        tmax.wf(),
        forall|tn: int, td: int|
            td > 0 ==> (#[trigger] ray_box_at(b, ray, tn, td)
                <==> (le_frac(tmin, tn, td) && ge_frac(tmax, tn, td))),
    ensures
        bounds_contains_vec(b, ray.origin) <==> (tmin.num <= 0 && tmax.num >= 0),
{
    assert(ray_box_at(b, ray, 0, 1) <==> (le_frac(tmin, 0, 1) && ge_frac(tmax, 0, 1)));
    assert(bounds_contains_vec(b, ray.origin) ==> ray_box_at(b, ray, 0, 1)) by (nonlinear_arith);
    assert(ray_box_at(b, ray, 0, 1) ==> bounds_contains_vec(b, ray.origin)) by (nonlinear_arith);
}

// ---------------------------------------------------------------------
// Ray/triangle intersection
//
// The test is single-sided and solves the hit exactly: with edges
// E1 = p2 - p1 and E2 = p3 - p1 it finds, by Cramer's rule, the
// parameters (t, u, v) with  origin + t*direction = p1 + u*E1 + v*E2,
// every one an exact rational over the common determinant. The ray hits
// the triangle when the determinant is positive (the direction faces
// against the normal), t is positive (the origin is strictly in front of
// the supporting plane), and the barycentric weights pass the edge
// tests. Two edge tests are inclusive and one (the weight of `p2`) is
// strict — the tie-break that keeps shared edges of watertight meshes
// from being hit twice.

/// Normal of the triangle, `(p2 - p1) x (p3 - p1)`.
pub open spec fn tri_normal(p1: Vec3, p2: Vec3, p3: Vec3) -> (int, int, int) {
    t3_cross(t3_sub(t3(p2), t3(p1)), t3_sub(t3(p3), t3(p1)))
}

/// The common denominator of the hit solution: `-direction . normal`,
/// positive exactly when the ray faces the triangle's front side.
pub open spec fn tri_det(p1: Vec3, p2: Vec3, p3: Vec3, ray: Ray) -> int {
    -t3_dot(t3(ray.direction), tri_normal(p1, p2, p3))
}

/// Numerator of the plane-hit parameter `t`.
pub open spec fn tri_t_num(p1: Vec3, p2: Vec3, p3: Vec3, ray: Ray) -> int {
    t3_dot(t3_sub(t3(ray.origin), t3(p1)), tri_normal(p1, p2, p3))
}

/// Numerator of the barycentric weight of `p2`.
pub open spec fn tri_u_num(p1: Vec3, p2: Vec3, p3: Vec3, ray: Ray) -> int {
    t3_dot(
        t3(ray.direction),
        t3_cross(t3_sub(t3(p3), t3(p1)), t3_sub(t3(ray.origin), t3(p1))),
    )
}

/// Numerator of the barycentric weight of `p3`.
pub open spec fn tri_v_num(p1: Vec3, p2: Vec3, p3: Vec3, ray: Ray) -> int {
    t3_dot(
        t3(ray.direction),
        t3_cross(t3_sub(t3(ray.origin), t3(p1)), t3_sub(t3(p2), t3(p1))),
    )
}

/// Numerator of the barycentric weight of `p1`.
pub open spec fn tri_w_num(p1: Vec3, p2: Vec3, p3: Vec3, ray: Ray) -> int {
    tri_det(p1, p2, p3, ray) - tri_u_num(p1, p2, p3, ray) - tri_v_num(p1, p2, p3, ray)
}

/// The single-sided hit predicate: front-facing, origin in front of the
/// plane, and the point inside all three edges (weight of `p2` strictly).
pub open spec fn tri_intersects(p1: Vec3, p2: Vec3, p3: Vec3, ray: Ray) -> bool {
    &&& tri_det(p1, p2, p3, ray) > 0
    &&& tri_t_num(p1, p2, p3, ray) > 0
    &&& tri_u_num(p1, p2, p3, ray) > 0
    &&& tri_v_num(p1, p2, p3, ray) >= 0
    &&& tri_w_num(p1, p2, p3, ray) >= 0
}

/// The hit point is the barycentric combination of the corners: per
/// axis, scaled through by the determinant,
/// `det * origin + t_num * direction == w * p1 + u * p2 + v * p3`.
pub open spec fn tri_hit_equation(p1: Vec3, p2: Vec3, p3: Vec3, ray: Ray) -> bool {
    &&& tri_det(p1, p2, p3, ray) * ray.origin.x + tri_t_num(p1, p2, p3, ray) * ray.direction.x
        == tri_w_num(p1, p2, p3, ray) * p1.x + tri_u_num(p1, p2, p3, ray) * p2.x
            + tri_v_num(p1, p2, p3, ray) * p3.x
    &&& tri_det(p1, p2, p3, ray) * ray.origin.y + tri_t_num(p1, p2, p3, ray) * ray.direction.y
        == tri_w_num(p1, p2, p3, ray) * p1.y + tri_u_num(p1, p2, p3, ray) * p2.y
            + tri_v_num(p1, p2, p3, ray) * p3.y
    &&& tri_det(p1, p2, p3, ray) * ray.origin.z + tri_t_num(p1, p2, p3, ray) * ray.direction.z
        == tri_w_num(p1, p2, p3, ray) * p1.z + tri_u_num(p1, p2, p3, ray) * p2.z
            + tri_v_num(p1, p2, p3, ray) * p3.z
}

/// One component of the double-cross expansion
/// `p x (q x r) == q * (p . r) - r * (p . q)`.
proof fn lemma_double_cross_axis(
    p1: int, p2: int, p3: int,
    q1: int, q2: int, q3: int,
    r1: int, r2: int, r3: int,
)
    ensures
        p2 * (q1 * r2 - q2 * r1) - p3 * (q3 * r1 - q1 * r3)
            == q1 * (p1 * r1 + p2 * r2 + p3 * r3) - r1 * (p1 * q1 + p2 * q2 + p3 * q3),
{
    broadcast use vstd::arithmetic::mul::group_mul_is_commutative_and_distributive;
    broadcast use vstd::arithmetic::mul::lemma_mul_is_associative;
}

/// Rotating a scalar triple product: `p . (q x r) == (q x p)... r`,
/// written out by components.
proof fn lemma_triple_product_rotate(
    p1: int, p2: int, p3: int,
    q1: int, q2: int, q3: int,
    r1: int, r2: int, r3: int,
)
    ensures
        p1 * (q2 * r3 - q3 * r2) + p2 * (q3 * r1 - q1 * r3) + p3 * (q1 * r2 - q2 * r1)
            == (r2 * p3 - r3 * p2) * q1 + (r3 * p1 - r1 * p3) * q2 + (r1 * p2 - r2 * p1) * q3,
{
    broadcast use vstd::arithmetic::mul::group_mul_is_commutative_and_distributive;
    broadcast use vstd::arithmetic::mul::lemma_mul_is_associative;
}

/// Swapping two vectors of a scalar triple product flips its sign,
/// written out by components.
proof fn lemma_triple_product_flip(
    p1: int, p2: int, p3: int,
    q1: int, q2: int, q3: int,
    r1: int, r2: int, r3: int,
)
    ensures
        (p2 * q3 - p3 * q2) * r1 + (p3 * q1 - p1 * q3) * r2 + (p1 * q2 - p2 * q1) * r3
            == -((r2 * q3 - r3 * q2) * p1 + (r3 * q1 - r1 * q3) * p2 + (r1 * q2 - r2 * q1) * p3),
{
    broadcast use vstd::arithmetic::mul::group_mul_is_commutative_and_distributive;
    broadcast use vstd::arithmetic::mul::lemma_mul_is_associative;
}

/// Cramer's rule for one component: the solution numerators built from
/// triple products reassemble the right-hand side `x`. Shown by writing
/// `(x cross d) cross (a cross b)` out both ways.
proof fn lemma_cramer_axis(
    x1: int, x2: int, x3: int,
    d1: int, d2: int, d3: int,
    a1: int, a2: int, a3: int,
    b1: int, b2: int, b3: int,
)
    ensures
        (-(d1 * (a2 * b3 - a3 * b2) + d2 * (a3 * b1 - a1 * b3) + d3 * (a1 * b2 - a2 * b1))) * x1
            + (x1 * (a2 * b3 - a3 * b2) + x2 * (a3 * b1 - a1 * b3) + x3 * (a1 * b2 - a2 * b1)) * d1
            - (d1 * (b2 * x3 - b3 * x2) + d2 * (b3 * x1 - b1 * x3) + d3 * (b1 * x2 - b2 * x1)) * a1
            - (d1 * (x2 * a3 - x3 * a2) + d2 * (x3 * a1 - x1 * a3) + d3 * (x1 * a2 - x2 * a1)) * b1
            == 0,
{
    let m1 = x2 * d3 - x3 * d2;
    let m2 = x3 * d1 - x1 * d3;
    let m3 = x1 * d2 - x2 * d1;
    let c1 = a2 * b3 - a3 * b2;
    let c2 = a3 * b1 - a1 * b3;
    let c3 = a1 * b2 - a2 * b1;

    // c x (x x d), first component, expanded both ways
    lemma_double_cross_axis(c1, c2, c3, x1, x2, x3, d1, d2, d3);
    assert(c2 * m3 - c3 * m2
        == x1 * (c1 * d1 + c2 * d2 + c3 * d3) - d1 * (c1 * x1 + c2 * x2 + c3 * x3));
    // m x (a x b), first component, expanded both ways
    lemma_double_cross_axis(m1, m2, m3, a1, a2, a3, b1, b2, b3);
    assert(m2 * c3 - m3 * c2
        == a1 * (m1 * b1 + m2 * b2 + m3 * b3) - b1 * (m1 * a1 + m2 * a2 + m3 * a3));

    // the two expansions describe opposite vectors
    vstd::arithmetic::mul::lemma_mul_is_commutative(c2, m3);
    vstd::arithmetic::mul::lemma_mul_is_commutative(c3, m2);

    // regroup the two remaining triple products around m = x cross d
    lemma_triple_product_rotate(d1, d2, d3, b1, b2, b3, x1, x2, x3);
    assert(d1 * (b2 * x3 - b3 * x2) + d2 * (b3 * x1 - b1 * x3) + d3 * (b1 * x2 - b2 * x1)
        == m1 * b1 + m2 * b2 + m3 * b3);
    lemma_triple_product_rotate(d1, d2, d3, x1, x2, x3, a1, a2, a3);
    lemma_triple_product_flip(a1, a2, a3, d1, d2, d3, x1, x2, x3);
    assert(d1 * (x2 * a3 - x3 * a2) + d2 * (x3 * a1 - x1 * a3) + d3 * (x1 * a2 - x2 * a1)
        == -(m1 * a1 + m2 * a2 + m3 * a3));

    // and the scaled sums around c = a cross b
    vstd::arithmetic::mul::lemma_mul_unary_negation(d1 * c1 + d2 * c2 + d3 * c3, x1);
    vstd::arithmetic::mul::lemma_mul_is_commutative(d1 * c1 + d2 * c2 + d3 * c3, x1);
    vstd::arithmetic::mul::lemma_mul_is_commutative(c1, d1);
    vstd::arithmetic::mul::lemma_mul_is_commutative(c2, d2);
    vstd::arithmetic::mul::lemma_mul_is_commutative(c3, d3);
    vstd::arithmetic::mul::lemma_mul_is_commutative(x1 * c1 + x2 * c2 + x3 * c3, d1);
    vstd::arithmetic::mul::lemma_mul_is_commutative(c1, x1);
    vstd::arithmetic::mul::lemma_mul_is_commutative(c2, x2);
    vstd::arithmetic::mul::lemma_mul_is_commutative(c3, x3);
    vstd::arithmetic::mul::lemma_mul_is_commutative(m1 * b1 + m2 * b2 + m3 * b3, a1);
    vstd::arithmetic::mul::lemma_mul_unary_negation(m1 * a1 + m2 * a2 + m3 * a3, b1);
    vstd::arithmetic::mul::lemma_mul_is_commutative(m1 * a1 + m2 * a2 + m3 * a3, b1);
}

/// The hit equation holds for every triangle and ray: solving by
/// Cramer's rule really does land the ray's point on the triangle's
/// barycentric combination.
pub proof fn lemma_tri_hit_equation(p1: Vec3, p2: Vec3, p3: Vec3, ray: Ray)
    ensures
        tri_hit_equation(p1, p2, p3, ray),
{
    let x1 = ray.origin.x - p1.x;
    let x2 = ray.origin.y - p1.y;
    let x3 = ray.origin.z - p1.z;
    let d1 = ray.direction.x as int;
    let d2 = ray.direction.y as int;
    let d3 = ray.direction.z as int;
    let a1 = p2.x - p1.x;
    let a2 = p2.y - p1.y;
    let a3 = p2.z - p1.z;
    let b1 = p3.x - p1.x;
    let b2 = p3.y - p1.y;
    let b3 = p3.z - p1.z;

    let det = tri_det(p1, p2, p3, ray);
    let tn = tri_t_num(p1, p2, p3, ray);
    let un = tri_u_num(p1, p2, p3, ray);
    let vn = tri_v_num(p1, p2, p3, ray);

    assert(det == -(d1 * (a2 * b3 - a3 * b2) + d2 * (a3 * b1 - a1 * b3) + d3 * (a1 * b2 - a2 * b1)));
    assert(tn == x1 * (a2 * b3 - a3 * b2) + x2 * (a3 * b1 - a1 * b3) + x3 * (a1 * b2 - a2 * b1));
    assert(un == d1 * (b2 * x3 - b3 * x2) + d2 * (b3 * x1 - b1 * x3) + d3 * (b1 * x2 - b2 * x1));
    assert(vn == d1 * (x2 * a3 - x3 * a2) + d2 * (x3 * a1 - x1 * a3) + d3 * (x1 * a2 - x2 * a1));

    lemma_cramer_axis(x1, x2, x3, d1, d2, d3, a1, a2, a3, b1, b2, b3);
    assert(det * x1 + tn * d1 - un * a1 - vn * b1 == 0);
    assert(det * ray.origin.x + tn * ray.direction.x
        == (det - un - vn) * p1.x + un * p2.x + vn * p3.x) by (nonlinear_arith)
        requires
            det * (ray.origin.x - p1.x) + tn * ray.direction.x
                - un * (p2.x - p1.x) - vn * (p3.x - p1.x) == 0;

    lemma_cramer_axis(x2, x3, x1, d2, d3, d1, a2, a3, a1, b2, b3, b1);
    assert(det * x2 + tn * d2 - un * a2 - vn * b2 == 0);
    assert(det * ray.origin.y + tn * ray.direction.y
        == (det - un - vn) * p1.y + un * p2.y + vn * p3.y) by (nonlinear_arith)
        requires
            det * (ray.origin.y - p1.y) + tn * ray.direction.y
                - un * (p2.y - p1.y) - vn * (p3.y - p1.y) == 0;

    lemma_cramer_axis(x3, x1, x2, d3, d1, d2, a3, a1, a2, b3, b1, b2);
    assert(det * x3 + tn * d3 - un * a3 - vn * b3 == 0);
    assert(det * ray.origin.z + tn * ray.direction.z
        == (det - un - vn) * p1.z + un * p2.z + vn * p3.z) by (nonlinear_arith)
        requires
            det * (ray.origin.z - p1.z) + tn * ray.direction.z
                - un * (p2.z - p1.z) - vn * (p3.z - p1.z) == 0;
}

/// Barycentric coordinates of a hit, exact over a common denominator.
/// `b1 + b2 + b3 == den`: the weights sum to one.
#[derive(Clone, Copy, PartialEq, Eq, Structural, Debug)]
pub struct Bary {
    pub b1: i128,
    pub b2: i128,
    pub b3: i128,
    pub den: i128,
}

impl Bary {
    pub open spec fn wf(self) -> bool {
        &&& 0 < self.den <= BARY_DEN_LIMIT
        &&& 0 <= self.b1
        &&& 0 <= self.b2
        &&& 0 <= self.b3
        &&& self.b1 + self.b2 + self.b3 == self.den
    }
}

/// Single-sided exact ray/triangle intersection.
///
/// Returns the hit parameter `t` and the barycentric weights of
/// `(p1, p2, p3)`, all as exact rationals over the determinant, or
/// `None` exactly when the ray faces away from the front side, starts
/// on or behind the supporting plane, or falls outside an edge.
pub fn triangle_intersect(p1: &Vec3, p2: &Vec3, p3: &Vec3, ray: &Ray) -> (r: Option<(Rat, Bary)>)
    requires
        in_range(*p1, COORD_LIMIT as int),
        in_range(*p2, COORD_LIMIT as int),
        in_range(*p3, COORD_LIMIT as int),
        in_range(ray.origin, COORD_LIMIT as int),
        in_range(ray.direction, 2 * COORD_LIMIT as int),
    ensures
        r.is_some() <==> tri_intersects(*p1, *p2, *p3, *ray),
        r matches Some(h) ==> {
            &&& h.0.wf()
            &&& h.0.num == tri_t_num(*p1, *p2, *p3, *ray)
            &&& h.0.den == tri_det(*p1, *p2, *p3, *ray)
            &&& h.0.num > 0
            &&& h.1.wf()
            &&& h.1.b1 == tri_w_num(*p1, *p2, *p3, *ray)
            &&& h.1.b2 == tri_u_num(*p1, *p2, *p3, *ray)
            &&& h.1.b3 == tri_v_num(*p1, *p2, *p3, *ray)
            &&& h.1.den == tri_det(*p1, *p2, *p3, *ray)
            &&& tri_hit_equation(*p1, *p2, *p3, *ray)
        },
{
    let e1 = p2.sub(*p1);
    let e2 = p3.sub(*p1);
    let n = e1.cross(e2);
    proof {
        lemma_cross_bound(n, e1, e2, 512, 512);
    }

    let ddotn = ray.direction.dot(n);
    proof {
        lemma_dot_bound(ray.direction, n, 512, 524288);
    }
    if ddotn >= 0 {
        return None;
    }
    let det = -ddotn;

    let x = ray.origin.sub(*p1);
    let t_num = x.dot(n);
    proof {
        lemma_dot_bound(x, n, 512, 524288);
    }
    if t_num <= 0 {
        return None;
    }

    let exc = e2.cross(x);
    proof {
        lemma_cross_bound(exc, e2, x, 512, 512);
    }
    let u_num = ray.direction.dot(exc);
    proof {
        lemma_dot_bound(ray.direction, exc, 512, 524288);
    }

    let xca = x.cross(e1);
    proof {
        lemma_cross_bound(xca, x, e1, 512, 512);
    }
    let v_num = ray.direction.dot(xca);
    proof {
        lemma_dot_bound(ray.direction, xca, 512, 524288);
    }

    let w_num = det - u_num - v_num;

    if u_num > 0 && v_num >= 0 && w_num >= 0 {
        proof {
            lemma_tri_hit_equation(*p1, *p2, *p3, *ray);
        }
        Some((
            Rat::new(t_num, det),
            Bary { b1: w_num, b2: u_num, b3: v_num, den: det },
        ))
    } else {
        None
    }
}

/// Convex combinations with non-negative weights stay inside the range
/// of their points, scaled by the weight total.
proof fn lemma_convex_combination_bounds(
    w: int, u: int, v: int,
    x1: int, x2: int, x3: int,
    lo: int, hi: int,
)
    by (nonlinear_arith)
    requires
        w >= 0,
        u >= 0,
        v >= 0,
        lo <= x1 <= hi,
        lo <= x2 <= hi,
        lo <= x3 <= hi,
    ensures
        (w + u + v) * lo <= w * x1 + u * x2 + v * x3 <= (w + u + v) * hi,
{
}

/// A hit triangle pins the ray inside any box around its corners: the
/// hit point is a convex combination of the corners, so the slab test
/// on such a box cannot miss. This is what makes hierarchy pruning
/// sound.
pub proof fn lemma_tri_hit_in_box(p1: Vec3, p2: Vec3, p3: Vec3, ray: Ray, b: Bounds)
    requires
        tri_intersects(p1, p2, p3, ray),
        bounds_contains_vec(b, p1),
        bounds_contains_vec(b, p2),
        bounds_contains_vec(b, p3),
    ensures
        ray_box_at(b, ray, tri_t_num(p1, p2, p3, ray), tri_det(p1, p2, p3, ray)),
        ray_hits_box(b, ray),
{
    lemma_tri_hit_equation(p1, p2, p3, ray);
    let det = tri_det(p1, p2, p3, ray);
    let tn = tri_t_num(p1, p2, p3, ray);
    let un = tri_u_num(p1, p2, p3, ray);
    let vn = tri_v_num(p1, p2, p3, ray);
    let wn = tri_w_num(p1, p2, p3, ray);

    lemma_convex_combination_bounds(wn, un, vn, p1.x as int, p2.x as int, p3.x as int, b.min.x as int, b.max.x as int);
    lemma_convex_combination_bounds(wn, un, vn, p1.y as int, p2.y as int, p3.y as int, b.min.y as int, b.max.y as int);
    lemma_convex_combination_bounds(wn, un, vn, p1.z as int, p2.z as int, p3.z as int, b.min.z as int, b.max.z as int);
    assert(wn + un + vn == det);
    assert(ray_box_at(b, ray, tn, det));
}

/// Scaled centroid of a triangle: the corner sum, three times the mean,
/// which keeps centroids on the integer grid; componentwise orderings
/// of centroids, which is all the hierarchy build reads, are unchanged.
/// Every corner contributes: the centroid of three distinct corners
/// differs from three times any single one of them.
pub fn triangle_centroid(p1: &Vec3, p2: &Vec3, p3: &Vec3) -> (r: Vec3)
    requires
        in_range(*p1, COORD_LIMIT as int),
        in_range(*p2, COORD_LIMIT as int),
        in_range(*p3, COORD_LIMIT as int),
    ensures
        r.x == p1.x + p2.x + p3.x,
        r.y == p1.y + p2.y + p3.y,
        r.z == p1.z + p2.z + p3.z,
        in_range(r, 3 * COORD_LIMIT as int),
{
    Vec3 {
        x: p1.x + p2.x + p3.x,
        y: p1.y + p2.y + p3.y,
        z: p1.z + p2.z + p3.z,
    }
}


// ---------------------------------------------------------------------
// Surface interpolation

/// A rational point or direction: integer vector over a positive
/// denominator.
#[derive(Clone, Copy, PartialEq, Eq, Structural, Debug)]
pub struct RatVec3 {
    pub v: Vec3,
    pub den: i128,
}

impl RatVec3 {
    pub open spec fn wf(self) -> bool {
        0 < self.den
    }

    /// The rational vector denotes exactly the grid vector `w`.
    pub open spec fn eq_vec(self, w: Vec3) -> bool {
        &&& self.v.x == self.den * w.x
        &&& self.v.y == self.den * w.y
        &&& self.v.z == self.den * w.z
    }
}

/// An interpolated surface sample: position, normal and tangent as
/// exact rationals. The normal is the plain barycentric blend (not
/// normalised — it keeps its direction exactly); the tangent is
/// orthogonalised against the normal, also exactly.
#[derive(Clone, Copy, PartialEq, Eq, Structural, Debug)]
pub struct SurfacePoint {
    pub position: RatVec3,
    pub normal: RatVec3,
    pub tangent: RatVec3,
    pub uv: crate::scene::TexCoord,
}

/// Barycentric blend of one scalar attribute.
pub open spec fn blend(b: Bary, c1: int, c2: int, c3: int) -> int {
    b.b1 * c1 + b.b2 * c2 + b.b3 * c3
}

/// Numerator of the blended texture coordinate: the three vertex
/// fractions brought over their common denominator and weighted.
pub open spec fn uv_blend_num(
    b: Bary,
    n1: int, d1: int,
    n2: int, d2: int,
    n3: int, d3: int,
) -> int {
    b.b1 * n1 * (d2 * d3) + b.b2 * n2 * (d1 * d3) + b.b3 * n3 * (d1 * d2)
}

/// Denominator of the blended texture coordinate.
pub open spec fn uv_blend_den(b: Bary, d1: int, d2: int, d3: int) -> int {
    b.den * ((d1 * d2) * d3)
}

/// A non-negatively weighted scalar stays within the weighted bound.
proof fn lemma_weighted_bound(w: int, c: int, cm: int)
    by (nonlinear_arith)
    requires
        w >= 0,
        -cm <= c <= cm,
    ensures
        -(w * cm) <= w * c <= w * cm,
{
}

/// Weights that sum to the denominator blend a constant to exactly the
/// denominator times that constant.
proof fn lemma_blend_constant(b1: int, b2: int, b3: int, den: int, c: int)
    by (nonlinear_arith)
    requires
        b1 + b2 + b3 == den,
    ensures
        b1 * c + b2 * c + b3 * c == den * c,
{
}

/// Products of three factors may rotate their grouping.
proof fn lemma_mul_rotate(a: int, b: int, c: int)
    ensures
        (a * b) * c == (a * c) * b,
{
    broadcast use vstd::arithmetic::mul::group_mul_is_commutative_and_distributive;
    broadcast use vstd::arithmetic::mul::lemma_mul_is_associative;
}

/// A dot product of two uniformly scaled vectors is the squared scale
/// times the dot product.
proof fn lemma_scaled_dot(
    d: int,
    ax: int, ay: int, az: int,
    bx: int, by: int, bz: int,
)
    ensures
        (d * ax) * (d * bx) + (d * ay) * (d * by) + (d * az) * (d * bz)
            == (d * d) * (ax * bx + ay * by + az * bz),
{
    broadcast use vstd::arithmetic::mul::group_mul_is_commutative_and_distributive;
    broadcast use vstd::arithmetic::mul::lemma_mul_is_associative;
}

/// One blended attribute component, bounded by the blend weight total.
fn blend_component(b: &Bary, c1: i128, c2: i128, c3: i128) -> (r: i128)
    requires
        b.wf(),
        -COORD_LIMIT <= c1 <= COORD_LIMIT,
        -COORD_LIMIT <= c2 <= COORD_LIMIT,
        -COORD_LIMIT <= c3 <= COORD_LIMIT,
    ensures
        r == blend(*b, c1 as int, c2 as int, c3 as int),
        -(b.den * COORD_LIMIT) <= r <= b.den * COORD_LIMIT,
{
    proof {
        lemma_weighted_bound(b.b1 as int, c1 as int, COORD_LIMIT as int);
        lemma_weighted_bound(b.b2 as int, c2 as int, COORD_LIMIT as int);
        lemma_weighted_bound(b.b3 as int, c3 as int, COORD_LIMIT as int);
    }
    b.b1 * c1 + b.b2 * c2 + b.b3 * c3
}

/// Blend one texture coordinate exactly over the product denominator.
fn blend_uv(b: &Bary, c1: Rat, c2: Rat, c3: Rat) -> (r: Rat)
    requires
        b.wf(),
        0 < c1.den <= 0x1_0000,
        -0x1_0000_0000 <= c1.num <= 0x1_0000_0000,
        0 < c2.den <= 0x1_0000,
        -0x1_0000_0000 <= c2.num <= 0x1_0000_0000,
        0 < c3.den <= 0x1_0000,
        -0x1_0000_0000 <= c3.num <= 0x1_0000_0000,
    ensures
        r.num == uv_blend_num(
            *b,
            c1.num as int, c1.den as int,
            c2.num as int, c2.den as int,
            c3.num as int, c3.den as int,
        ),
        r.den == uv_blend_den(*b, c1.den as int, c2.den as int, c3.den as int),
        0 < r.den <= crate::texture::TEX_LIMIT,
        -crate::texture::TEX_LIMIT <= r.num <= crate::texture::TEX_LIMIT,
{
    proof {
        lemma_mul_bound(c2.den as int, c3.den as int, 0x1_0000, 0x1_0000);
        lemma_mul_bound(c1.den as int, c3.den as int, 0x1_0000, 0x1_0000);
        lemma_mul_bound(c1.den as int, c2.den as int, 0x1_0000, 0x1_0000);
        lemma_mul_bound(b.b1 as int, c1.num as int, BARY_DEN_LIMIT as int, 0x1_0000_0000);
        lemma_mul_bound(b.b2 as int, c2.num as int, BARY_DEN_LIMIT as int, 0x1_0000_0000);
        lemma_mul_bound(b.b3 as int, c3.num as int, BARY_DEN_LIMIT as int, 0x1_0000_0000);
        lemma_mul_bound(b.b1 * c1.num, (c2.den * c3.den) as int, BARY_DEN_LIMIT * 0x1_0000_0000, 0x1_0000_0000);
        lemma_mul_bound(b.b2 * c2.num, (c1.den * c3.den) as int, BARY_DEN_LIMIT * 0x1_0000_0000, 0x1_0000_0000);
        lemma_mul_bound(b.b3 * c3.num, (c1.den * c2.den) as int, BARY_DEN_LIMIT * 0x1_0000_0000, 0x1_0000_0000);
        assert(0 < (c1.den * c2.den) * c3.den <= 0x1_0000_0000_0000) by (nonlinear_arith)
            requires
                0 < c1.den <= 0x1_0000,
                0 < c2.den <= 0x1_0000,
                0 < c3.den <= 0x1_0000;
        lemma_mul_bound(b.den as int, ((c1.den * c2.den) * c3.den) as int, BARY_DEN_LIMIT as int, 0x1_0000_0000_0000);
        assert(0 < b.den * ((c1.den * c2.den) * c3.den)) by (nonlinear_arith)
            requires 0 < b.den && 0 < (c1.den * c2.den) * c3.den;
    }
    let num = b.b1 * c1.num * (c2.den * c3.den)
        + b.b2 * c2.num * (c1.den * c3.den)
        + b.b3 * c3.num * (c1.den * c2.den);
    let den = b.den * ((c1.den * c2.den) * c3.den);
    Rat { num, den }
}

/// Blend the texture coordinates of three vertices exactly.
pub fn interpolate_uv(
    v1: &crate::scene::Vertex,
    v2: &crate::scene::Vertex,
    v3: &crate::scene::Vertex,
    barycentrics: &Bary,
) -> (r: crate::scene::TexCoord)
    requires
        v1.wf(),
        v2.wf(),
        v3.wf(),
        barycentrics.wf(),
    ensures
        r.wf(),
        r.u.num == uv_blend_num(
            *barycentrics,
            v1.tex_coords.u.num as int, v1.tex_coords.u.den as int,
            v2.tex_coords.u.num as int, v2.tex_coords.u.den as int,
            v3.tex_coords.u.num as int, v3.tex_coords.u.den as int,
        ),
        r.u.den == uv_blend_den(
            *barycentrics,
            v1.tex_coords.u.den as int, v2.tex_coords.u.den as int, v3.tex_coords.u.den as int,
        ),
        r.v.num == uv_blend_num(
            *barycentrics,
            v1.tex_coords.v.num as int, v1.tex_coords.v.den as int,
            v2.tex_coords.v.num as int, v2.tex_coords.v.den as int,
            v3.tex_coords.v.num as int, v3.tex_coords.v.den as int,
        ),
        r.v.den == uv_blend_den(
            *barycentrics,
            v1.tex_coords.v.den as int, v2.tex_coords.v.den as int, v3.tex_coords.v.den as int,
        ),
{
    let u = blend_uv(barycentrics, v1.tex_coords.u, v2.tex_coords.u, v3.tex_coords.u);
    let v = blend_uv(barycentrics, v1.tex_coords.v, v2.tex_coords.v, v3.tex_coords.v);
    crate::scene::TexCoord { u, v }
}

impl SurfacePoint {
    /// Interpolate a surface sample from three vertices and barycentric
    /// weights, exactly:
    /// - the position and normal are the barycentric blends over the
    ///   weights' common denominator;
    /// - the tangent is the blend orthogonalised against the blended
    ///   normal by exact Gram-Schmidt (no normalisation, so directions
    ///   are kept exactly);
    /// - when the three vertices share one normal, the blend returns
    ///   that very normal, and when they also share one tangent already
    ///   orthogonal to it, that very tangent — a flat triangle
    ///   interpolates to its own frame.
    #[verifier::rlimit(60)]
    pub fn interpolate(
        v1: &crate::scene::Vertex,
        v2: &crate::scene::Vertex,
        v3: &crate::scene::Vertex,
        barycentrics: &Bary,
    ) -> (r: SurfacePoint)
        requires
            v1.wf(),
            v2.wf(),
            v3.wf(),
            barycentrics.wf(),
            !(blend(*barycentrics, v1.normal.x as int, v2.normal.x as int, v3.normal.x as int) == 0
                && blend(*barycentrics, v1.normal.y as int, v2.normal.y as int, v3.normal.y as int) == 0
                && blend(*barycentrics, v1.normal.z as int, v2.normal.z as int, v3.normal.z as int) == 0),
        ensures
            r.position.wf() && r.normal.wf() && r.tangent.wf(),
            r.position.den == barycentrics.den,
            r.position.v.x == blend(*barycentrics, v1.position.x as int, v2.position.x as int, v3.position.x as int),
            r.position.v.y == blend(*barycentrics, v1.position.y as int, v2.position.y as int, v3.position.y as int),
            r.position.v.z == blend(*barycentrics, v1.position.z as int, v2.position.z as int, v3.position.z as int),
            r.normal.den == barycentrics.den,
            r.normal.v.x == blend(*barycentrics, v1.normal.x as int, v2.normal.x as int, v3.normal.x as int),
            r.normal.v.y == blend(*barycentrics, v1.normal.y as int, v2.normal.y as int, v3.normal.y as int),
            r.normal.v.z == blend(*barycentrics, v1.normal.z as int, v2.normal.z as int, v3.normal.z as int),
            ({
                let tb = Vec3 {
                    x: blend(*barycentrics, v1.tangent.x as int, v2.tangent.x as int, v3.tangent.x as int) as i128,
                    y: blend(*barycentrics, v1.tangent.y as int, v2.tangent.y as int, v3.tangent.y as int) as i128,
                    z: blend(*barycentrics, v1.tangent.z as int, v2.tangent.z as int, v3.tangent.z as int) as i128,
                };
                let nb = r.normal.v;
                let nn = dot_int(nb, nb);
                let tn = dot_int(tb, nb);
                &&& r.tangent.den == barycentrics.den * nn
                &&& r.tangent.v.x == tb.x * nn - nb.x * tn
                &&& r.tangent.v.y == tb.y * nn - nb.y * tn
                &&& r.tangent.v.z == tb.z * nn - nb.z * tn
            }),
            r.uv.u.num == uv_blend_num(
                *barycentrics,
                v1.tex_coords.u.num as int, v1.tex_coords.u.den as int,
                v2.tex_coords.u.num as int, v2.tex_coords.u.den as int,
                v3.tex_coords.u.num as int, v3.tex_coords.u.den as int,
            ),
            r.uv.u.den == uv_blend_den(
                *barycentrics,
                v1.tex_coords.u.den as int, v2.tex_coords.u.den as int, v3.tex_coords.u.den as int,
            ),
            r.uv.v.num == uv_blend_num(
                *barycentrics,
                v1.tex_coords.v.num as int, v1.tex_coords.v.den as int,
                v2.tex_coords.v.num as int, v2.tex_coords.v.den as int,
                v3.tex_coords.v.num as int, v3.tex_coords.v.den as int,
            ),
            r.uv.v.den == uv_blend_den(
                *barycentrics,
                v1.tex_coords.v.den as int, v2.tex_coords.v.den as int, v3.tex_coords.v.den as int,
            ),
            r.uv.wf(),
            (v1.normal == v2.normal && v2.normal == v3.normal) ==> r.normal.eq_vec(v1.normal),
            (v1.normal == v2.normal && v2.normal == v3.normal
                && v1.tangent == v2.tangent && v2.tangent == v3.tangent
                && dot_int(v1.tangent, v1.normal) == 0) ==> r.tangent.eq_vec(v1.tangent),
    {
        let b = barycentrics;
        let px = blend_component(b, v1.position.x, v2.position.x, v3.position.x);
        let py = blend_component(b, v1.position.y, v2.position.y, v3.position.y);
        let pz = blend_component(b, v1.position.z, v2.position.z, v3.position.z);
        let nx = blend_component(b, v1.normal.x, v2.normal.x, v3.normal.x);
        let ny = blend_component(b, v1.normal.y, v2.normal.y, v3.normal.y);
        let nz = blend_component(b, v1.normal.z, v2.normal.z, v3.normal.z);
        let tx = blend_component(b, v1.tangent.x, v2.tangent.x, v3.tangent.x);
        let ty = blend_component(b, v1.tangent.y, v2.tangent.y, v3.tangent.y);
        let tz = blend_component(b, v1.tangent.z, v2.tangent.z, v3.tangent.z);

        let nb = Vec3 { x: nx, y: ny, z: nz };
        let tb = Vec3 { x: tx, y: ty, z: tz };
        proof {
            assert(b.den * COORD_LIMIT <= BARY_DEN_LIMIT * COORD_LIMIT) by (nonlinear_arith)
                requires 0 < b.den <= BARY_DEN_LIMIT;
        }
        let nn = nb.dot(nb);
        let tn = tb.dot(nb);
        proof {
            lemma_dot_bound(nb, nb, BARY_DEN_LIMIT * COORD_LIMIT as int, BARY_DEN_LIMIT * COORD_LIMIT as int);
            lemma_dot_bound(tb, nb, BARY_DEN_LIMIT * COORD_LIMIT as int, BARY_DEN_LIMIT * COORD_LIMIT as int);
            assert(nn > 0) by (nonlinear_arith)
                requires
                    nn == nb.x * nb.x + nb.y * nb.y + nb.z * nb.z,
                    !(nb.x == 0 && nb.y == 0 && nb.z == 0);
            crate::vec3::lemma_mul_bound(tb.x as int, nn as int, BARY_DEN_LIMIT * COORD_LIMIT as int, 3 * ((BARY_DEN_LIMIT * COORD_LIMIT) * (BARY_DEN_LIMIT * COORD_LIMIT)) as int);
            crate::vec3::lemma_mul_bound(tb.y as int, nn as int, BARY_DEN_LIMIT * COORD_LIMIT as int, 3 * ((BARY_DEN_LIMIT * COORD_LIMIT) * (BARY_DEN_LIMIT * COORD_LIMIT)) as int);
            crate::vec3::lemma_mul_bound(tb.z as int, nn as int, BARY_DEN_LIMIT * COORD_LIMIT as int, 3 * ((BARY_DEN_LIMIT * COORD_LIMIT) * (BARY_DEN_LIMIT * COORD_LIMIT)) as int);
            crate::vec3::lemma_mul_bound(nb.x as int, tn as int, BARY_DEN_LIMIT * COORD_LIMIT as int, 3 * ((BARY_DEN_LIMIT * COORD_LIMIT) * (BARY_DEN_LIMIT * COORD_LIMIT)) as int);
            crate::vec3::lemma_mul_bound(nb.y as int, tn as int, BARY_DEN_LIMIT * COORD_LIMIT as int, 3 * ((BARY_DEN_LIMIT * COORD_LIMIT) * (BARY_DEN_LIMIT * COORD_LIMIT)) as int);
            crate::vec3::lemma_mul_bound(nb.z as int, tn as int, BARY_DEN_LIMIT * COORD_LIMIT as int, 3 * ((BARY_DEN_LIMIT * COORD_LIMIT) * (BARY_DEN_LIMIT * COORD_LIMIT)) as int);
            crate::vec3::lemma_mul_bound(b.den as int, nn as int, BARY_DEN_LIMIT as int, 3 * ((BARY_DEN_LIMIT * COORD_LIMIT) * (BARY_DEN_LIMIT * COORD_LIMIT)) as int);
            assert(b.den * nn > 0) by (nonlinear_arith)
                requires b.den > 0 && nn > 0;
        }
        let gx = tx * nn - nx * tn;
        let gy = ty * nn - ny * tn;
        let gz = tz * nn - nz * tn;

        let uv_u = blend_uv(b, v1.tex_coords.u, v2.tex_coords.u, v3.tex_coords.u);
        let uv_v = blend_uv(b, v1.tex_coords.v, v2.tex_coords.v, v3.tex_coords.v);

        let result = SurfacePoint {
            position: RatVec3 { v: Vec3 { x: px, y: py, z: pz }, den: b.den },
            normal: RatVec3 { v: nb, den: b.den },
            tangent: RatVec3 { v: Vec3 { x: gx, y: gy, z: gz }, den: b.den * nn },
            uv: crate::scene::TexCoord { u: uv_u, v: uv_v },
        };

        proof {
            if v1.normal == v2.normal && v2.normal == v3.normal {
                lemma_blend_constant(b.b1 as int, b.b2 as int, b.b3 as int, b.den as int, v1.normal.x as int);
                lemma_blend_constant(b.b1 as int, b.b2 as int, b.b3 as int, b.den as int, v1.normal.y as int);
                lemma_blend_constant(b.b1 as int, b.b2 as int, b.b3 as int, b.den as int, v1.normal.z as int);
                if v1.tangent == v2.tangent && v2.tangent == v3.tangent
                    && dot_int(v1.tangent, v1.normal) == 0 {
                    lemma_blend_constant(b.b1 as int, b.b2 as int, b.b3 as int, b.den as int, v1.tangent.x as int);
                    lemma_blend_constant(b.b1 as int, b.b2 as int, b.b3 as int, b.den as int, v1.tangent.y as int);
                    lemma_blend_constant(b.b1 as int, b.b2 as int, b.b3 as int, b.den as int, v1.tangent.z as int);
                    // the blends are the shared frame scaled by the
                    // denominator, so their dot product scales by its
                    // square and stays zero
                    lemma_scaled_dot(
                        b.den as int,
                        v1.tangent.x as int, v1.tangent.y as int, v1.tangent.z as int,
                        v1.normal.x as int, v1.normal.y as int, v1.normal.z as int,
                    );
                    assert((b.den * b.den) * (v1.tangent.x * v1.normal.x + v1.tangent.y * v1.normal.y
                        + v1.tangent.z * v1.normal.z) == 0) by (nonlinear_arith)
                        requires v1.tangent.x * v1.normal.x + v1.tangent.y * v1.normal.y
                            + v1.tangent.z * v1.normal.z == 0;
                    assert(tn == 0);
                    // gram-schmidt leaves an already-orthogonal tangent
                    // unchanged, up to the common scale
                    vstd::arithmetic::mul::lemma_mul_by_zero_is_zero(nb.x as int);
                    vstd::arithmetic::mul::lemma_mul_by_zero_is_zero(nb.y as int);
                    vstd::arithmetic::mul::lemma_mul_by_zero_is_zero(nb.z as int);
                    lemma_mul_rotate(b.den as int, v1.tangent.x as int, nn as int);
                    lemma_mul_rotate(b.den as int, v1.tangent.y as int, nn as int);
                    lemma_mul_rotate(b.den as int, v1.tangent.z as int, nn as int);
                    assert(gx == (b.den * nn) * v1.tangent.x);
                    assert(gy == (b.den * nn) * v1.tangent.y);
                    assert(gz == (b.den * nn) * v1.tangent.z);
                }
            }
        }
        result
    }

    /// Interpolate after checking for a degenerate (all-zero) blended
    /// normal: `None` exactly on that degenerate input, which exact
    /// Gram-Schmidt cannot orthogonalise against.
    pub fn try_interpolate(
        v1: &crate::scene::Vertex,
        v2: &crate::scene::Vertex,
        v3: &crate::scene::Vertex,
        barycentrics: &Bary,
    ) -> (r: Option<SurfacePoint>)
        requires
            v1.wf(),
            v2.wf(),
            v3.wf(),
            barycentrics.wf(),
        ensures
            r is None <==> {
                &&& blend(*barycentrics, v1.normal.x as int, v2.normal.x as int, v3.normal.x as int) == 0
                &&& blend(*barycentrics, v1.normal.y as int, v2.normal.y as int, v3.normal.y as int) == 0
                &&& blend(*barycentrics, v1.normal.z as int, v2.normal.z as int, v3.normal.z as int) == 0
            },
            r matches Some(sp) ==> {
                &&& sp.position.den == barycentrics.den
                &&& sp.position.v.x == blend(*barycentrics, v1.position.x as int, v2.position.x as int, v3.position.x as int)
                &&& sp.position.v.y == blend(*barycentrics, v1.position.y as int, v2.position.y as int, v3.position.y as int)
                &&& sp.position.v.z == blend(*barycentrics, v1.position.z as int, v2.position.z as int, v3.position.z as int)
                &&& sp.normal.den == barycentrics.den
                &&& sp.normal.v.x == blend(*barycentrics, v1.normal.x as int, v2.normal.x as int, v3.normal.x as int)
                &&& sp.normal.v.y == blend(*barycentrics, v1.normal.y as int, v2.normal.y as int, v3.normal.y as int)
                &&& sp.normal.v.z == blend(*barycentrics, v1.normal.z as int, v2.normal.z as int, v3.normal.z as int)
                &&& sp.uv.u.num == uv_blend_num(
                    *barycentrics,
                    v1.tex_coords.u.num as int, v1.tex_coords.u.den as int,
                    v2.tex_coords.u.num as int, v2.tex_coords.u.den as int,
                    v3.tex_coords.u.num as int, v3.tex_coords.u.den as int,
                )
                &&& sp.uv.u.den == uv_blend_den(
                    *barycentrics,
                    v1.tex_coords.u.den as int, v2.tex_coords.u.den as int, v3.tex_coords.u.den as int,
                )
                &&& sp.uv.v.num == uv_blend_num(
                    *barycentrics,
                    v1.tex_coords.v.num as int, v1.tex_coords.v.den as int,
                    v2.tex_coords.v.num as int, v2.tex_coords.v.den as int,
                    v3.tex_coords.v.num as int, v3.tex_coords.v.den as int,
                )
                &&& sp.uv.v.den == uv_blend_den(
                    *barycentrics,
                    v1.tex_coords.v.den as int, v2.tex_coords.v.den as int, v3.tex_coords.v.den as int,
                )
                &&& sp.uv.wf()
                &&& sp.position.wf() && sp.normal.wf() && sp.tangent.wf()
            },
    {
        let nx = blend_component(barycentrics, v1.normal.x, v2.normal.x, v3.normal.x);
        let ny = blend_component(barycentrics, v1.normal.y, v2.normal.y, v3.normal.y);
        let nz = blend_component(barycentrics, v1.normal.z, v2.normal.z, v3.normal.z);
        if nx == 0 && ny == 0 && nz == 0 {
            None
        } else {
            Some(SurfacePoint::interpolate(v1, v2, v3, barycentrics))
        }
    }
}

} // verus!
