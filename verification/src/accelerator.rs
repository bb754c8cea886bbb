//! Ray/scene acceleration: the contract shared by the exhaustive scan
//! and the bounding-volume hierarchy, and the notion of closest hit both
//! are held to. A hit record is valid when it reproduces, exactly, the
//! rational solution of the triangle it names, and closest when no
//! triangle of the scene hits at a smaller parameter.

pub mod bvh;
pub mod trivial;

use vstd::prelude::*;
use crate::geometry::{Ray, tri_intersects, tri_det, tri_t_num, tri_u_num, tri_v_num, tri_w_num, Bary};
use crate::rat::{Rat, lemma_le_frac_from_le, lemma_rat_order};
use crate::scene::Vertex;
use crate::COORD_LIMIT;

verus! {

/// Flattened scene geometry: per mesh, its vertices and the index
/// triples that form its triangles.
pub type Geometry = Vec<(Vec<Vertex>, Vec<u32>)>;

/// Well-formed geometry: index lists come in triples, indices stay in
/// range, every vertex sits on the grid, and the sizes leave room for
/// 32-bit mesh and triangle handles.
pub open spec fn geometry_wf(g: Seq<(Vec<Vertex>, Vec<u32>)>) -> bool {
    &&& g.len() <= 0x7fff_ffff
    &&& forall|m: int| 0 <= m < g.len() ==> {
        &&& (#[trigger] g[m]).1@.len() % 3 == 0
        &&& g[m].1@.len() <= 0x7fff_ffff
        &&& g[m].0@.len() <= 0x7fff_ffff
        &&& forall|i: int| 0 <= i < g[m].1@.len() ==> (#[trigger] g[m].1@[i]) < g[m].0@.len()
        &&& forall|i: int| 0 <= i < g[m].0@.len() ==> (#[trigger] g[m].0@[i]).wf()
    }
}

/// Triangle `k` of mesh `m` exists.
pub open spec fn valid_tri(g: Seq<(Vec<Vertex>, Vec<u32>)>, m: int, k: int) -> bool {
    &&& 0 <= m < g.len()
    &&& 0 <= k
    &&& 3 * k + 2 < g[m].1@.len()
}

/// Corner `j` of triangle `k` of mesh `m`.
pub open spec fn tri_vertex(g: Seq<(Vec<Vertex>, Vec<u32>)>, m: int, k: int, j: int) -> Vertex {
    g[m].0@[g[m].1@[3 * k + j] as int]
}

/// The ray hits that triangle (the exact single-sided test).
pub open spec fn tri_hits(g: Seq<(Vec<Vertex>, Vec<u32>)>, m: int, k: int, ray: Ray) -> bool {
    tri_intersects(
        tri_vertex(g, m, k, 0).position,
        tri_vertex(g, m, k, 1).position,
        tri_vertex(g, m, k, 2).position,
        ray,
    )
}

pub open spec fn tri_det_of(g: Seq<(Vec<Vertex>, Vec<u32>)>, m: int, k: int, ray: Ray) -> int {
    tri_det(
        tri_vertex(g, m, k, 0).position,
        tri_vertex(g, m, k, 1).position,
        tri_vertex(g, m, k, 2).position,
        ray,
    )
}

pub open spec fn tri_t_of(g: Seq<(Vec<Vertex>, Vec<u32>)>, m: int, k: int, ray: Ray) -> int {
    tri_t_num(
        tri_vertex(g, m, k, 0).position,
        tri_vertex(g, m, k, 1).position,
        tri_vertex(g, m, k, 2).position,
        ray,
    )
}

/// The rational `t` is at most the hit parameter of that triangle
/// (compared exactly by cross-multiplication; the triangle's
/// denominator is its determinant, positive whenever it hits).
pub open spec fn rat_le_tri(t: Rat, g: Seq<(Vec<Vertex>, Vec<u32>)>, m: int, k: int, ray: Ray) -> bool {
    t.num * tri_det_of(g, m, k, ray) <= tri_t_of(g, m, k, ray) * t.den
}

/// A committed hit: the closest intersection found so far.
#[derive(Clone, Copy, Debug)]
pub struct HitInfo {
    pub t: Rat,
    pub vertices: (Vertex, Vertex, Vertex),
    pub barycentrics: Bary,
    pub mesh: u32,
}

/// `h` reports triangle `(m, k)` faithfully: the triangle exists, the
/// ray hits it, and every field of the record is the triangle's exact
/// solution.
pub open spec fn hit_matches_tri(
    g: Seq<(Vec<Vertex>, Vec<u32>)>,
    ray: Ray,
    h: HitInfo,
    m: int,
    k: int,
) -> bool {
    &&& valid_tri(g, m, k)
    &&& tri_hits(g, m, k, ray)
    &&& h.mesh as int == m
    &&& h.vertices.0 == tri_vertex(g, m, k, 0)
    &&& h.vertices.1 == tri_vertex(g, m, k, 1)
    &&& h.vertices.2 == tri_vertex(g, m, k, 2)
    &&& h.t.wf()
    &&& h.t.num as int == tri_t_of(g, m, k, ray)
    &&& h.t.den as int == tri_det_of(g, m, k, ray)
    &&& h.barycentrics.wf()
    &&& h.barycentrics.b1 as int == tri_w_num(
        tri_vertex(g, m, k, 0).position,
        tri_vertex(g, m, k, 1).position,
        tri_vertex(g, m, k, 2).position,
        ray,
    )
    &&& h.barycentrics.b2 as int == tri_u_num(
        tri_vertex(g, m, k, 0).position,
        tri_vertex(g, m, k, 1).position,
        tri_vertex(g, m, k, 2).position,
        ray,
    )
    &&& h.barycentrics.b3 as int == tri_v_num(
        tri_vertex(g, m, k, 0).position,
        tri_vertex(g, m, k, 1).position,
        tri_vertex(g, m, k, 2).position,
        ray,
    )
    &&& h.barycentrics.den == h.t.den
}

/// The result every accelerator owes its callers: `h` reports some
/// triangle of the scene, and no triangle of the scene is hit at a
/// strictly smaller parameter.
pub open spec fn is_closest_hit(g: Seq<(Vec<Vertex>, Vec<u32>)>, ray: Ray, h: HitInfo) -> bool {
    &&& exists|m: int, k: int| #[trigger] hit_matches_tri(g, ray, h, m, k)
    &&& forall|m: int, k: int|
        valid_tri(g, m, k) && #[trigger] tri_hits(g, m, k, ray) ==> rat_le_tri(h.t, g, m, k, ray)
}

/// The committed record exists and is at most that triangle's
/// parameter.
pub open spec fn hit_t_le_tri(
    r: Option<HitInfo>,
    g: Seq<(Vec<Vertex>, Vec<u32>)>,
    m: int,
    k: int,
    ray: Ray,
) -> bool {
    match r {
        Some(h) => rat_le_tri(h.t, g, m, k, ray),
        None => false,
    }
}

/// No triangle of the scene is hit at all.
pub open spec fn misses_all(g: Seq<(Vec<Vertex>, Vec<u32>)>, ray: Ray) -> bool {
    forall|m: int, k: int| valid_tri(g, m, k) ==> !#[trigger] tri_hits(g, m, k, ray)
}

/// Test one triangle and commit it when it beats the best hit so far.
/// The shared kernel of both the exhaustive scan and the hierarchy's
/// leaf step.
pub(crate) fn consider_triangle(
    geometry: &Geometry,
    mesh: u32,
    k: usize,
    ray: &Ray,
    best: &mut Option<HitInfo>,
)
    requires
        geometry_wf(geometry@),
        valid_tri(geometry@, mesh as int, k as int),
        in_coord_range(*ray),
        *old(best) matches Some(h0) ==> h0.t.wf(),
    ensures
        *final(best) matches Some(h) ==> h.t.wf(),
        *final(best) matches Some(h) ==>
            ((*old(best) matches Some(h0) && h == h0)
                || hit_matches_tri(geometry@, *ray, h, mesh as int, k as int)),
        *old(best) matches Some(h0) ==> (*final(best) matches Some(h) && h.t.le_value(h0.t)),
        *final(best) is None <==> (*old(best) is None && !tri_hits(geometry@, mesh as int, k as int, *ray)),
        tri_hits(geometry@, mesh as int, k as int, *ray) ==> (*final(best) matches Some(h)
            && rat_le_tri(h.t, geometry@, mesh as int, k as int, *ray)),
        !tri_hits(geometry@, mesh as int, k as int, *ray) ==> *final(best) == *old(best),
        *old(best) matches Some(h0) && tri_hits(geometry@, mesh as int, k as int, *ray)
            && h0.t.num * tri_det_of(geometry@, mesh as int, k as int, *ray)
                <= tri_t_of(geometry@, mesh as int, k as int, *ray) * h0.t.den
            ==> *final(best) == *old(best),
        tri_hits(geometry@, mesh as int, k as int, *ray)
            && (*old(best) is None || (*old(best) matches Some(h0)
                && tri_t_of(geometry@, mesh as int, k as int, *ray) * h0.t.den
                    < h0.t.num * tri_det_of(geometry@, mesh as int, k as int, *ray)))
            ==> (*final(best) matches Some(h)
                && hit_matches_tri(geometry@, *ray, h, mesh as int, k as int)),
        *old(best) matches Some(h0) ==> (*final(best) matches Some(h)
            && forall|m2: int, k2: int| #[trigger] rat_le_tri(h0.t, geometry@, m2, k2, *ray)
                && tri_hits(geometry@, m2, k2, *ray) && valid_tri(geometry@, m2, k2)
                ==> rat_le_tri(h.t, geometry@, m2, k2, *ray)),
{
    let idx_base: usize = 3 * k;
    let (vs, is) = &geometry[mesh as usize];
    let i0 = is[idx_base];
    let i1 = is[idx_base + 1];
    let i2 = is[idx_base + 2];
    let v1 = vs[i0 as usize];
    let v2 = vs[i1 as usize];
    let v3 = vs[i2 as usize];

    let hit_test = crate::geometry::triangle_intersect(&v1.position, &v2.position, &v3.position, ray);

    match hit_test {
        Some((t, barycentrics)) => {
            let replace = match *best {
                Some(h0) => t.lt(h0.t),
                None => true,
            };
            proof {
                let ob = *old(best);
                match ob {
                    Some(h0) => {
                        lemma_rat_order(t, h0.t);
                        if !t.lt_value(h0.t) {
                            // keeping the old record: it is no worse
                            // than this triangle's parameter
                            lemma_le_frac_from_le(h0.t, t, t.num as int, t.den as int);
                        }
                    },
                    None => {},
                }
            }
            if replace {
                proof {
                    let ob = *old(best);
                    match ob {
                        Some(h0) => {
                            // the new, smaller parameter inherits every
                            // bound the old one had
                            assert forall|m2: int, k2: int|
                                #[trigger] rat_le_tri(h0.t, geometry@, m2, k2, *ray)
                                    && tri_hits(geometry@, m2, k2, *ray)
                                    && valid_tri(geometry@, m2, k2)
                                implies rat_le_tri(t, geometry@, m2, k2, *ray) by {
                                tri_dets_positive(geometry@, m2, k2, *ray);
                                lemma_le_frac_from_le(
                                    t,
                                    h0.t,
                                    tri_t_of(geometry@, m2, k2, *ray),
                                    tri_det_of(geometry@, m2, k2, *ray),
                                );
                            }
                        },
                        None => {},
                    }
                }
                *best = Some(HitInfo {
                    t,
                    vertices: (v1, v2, v3),
                    barycentrics,
                    mesh,
                });
            }
        },
        None => {},
    }
}

/// Rays whose endpoints sit on the coordinate grid (the triangle test
/// needs no more; a hierarchy additionally needs a nonzero direction).
pub open spec fn in_coord_range(ray: Ray) -> bool {
    &&& crate::vec3::in_range(ray.origin, COORD_LIMIT as int)
    &&& crate::vec3::in_range(ray.direction, 2 * COORD_LIMIT as int)
}

/// A triangle that is hit has a positive determinant.
pub proof fn tri_dets_positive(g: Seq<(Vec<Vertex>, Vec<u32>)>, m: int, k: int, ray: Ray)
    requires
        tri_hits(g, m, k, ray),
    ensures
        tri_det_of(g, m, k, ray) > 0,
        tri_t_of(g, m, k, ray) > 0,
{
}

/// Any two closest hits of the same scene and ray agree on the hit
/// parameter: the hierarchy and the exhaustive scan return the same
/// distance.
pub proof fn lemma_closest_hit_same_t(
    g: Seq<(Vec<Vertex>, Vec<u32>)>,
    ray: Ray,
    h1: HitInfo,
    h2: HitInfo,
)
    requires
        is_closest_hit(g, ray, h1),
        is_closest_hit(g, ray, h2),
    ensures
        h1.t.eq_value(h2.t),
{
    let (m1, k1) = choose|m: int, k: int| #[trigger] hit_matches_tri(g, ray, h1, m, k);
    let (m2, k2) = choose|m: int, k: int| #[trigger] hit_matches_tri(g, ray, h2, m, k);
    assert(rat_le_tri(h1.t, g, m2, k2, ray));
    assert(rat_le_tri(h2.t, g, m1, k1, ray));
    // each parameter is at most the other's witness triangle, and each
    // equals its own witness exactly
    assert(h1.t.le_value(h2.t));
    assert(h2.t.le_value(h1.t));
}

/// When no two distinct triangles are hit at the same parameter, the
/// two closest hits agree on the whole record: same triangle, same
/// vertices, same barycentric coordinates.
pub proof fn lemma_closest_hit_same_triangle(
    g: Seq<(Vec<Vertex>, Vec<u32>)>,
    ray: Ray,
    h1: HitInfo,
    h2: HitInfo,
)
    requires
        is_closest_hit(g, ray, h1),
        is_closest_hit(g, ray, h2),
        forall|m: int, k: int, m2: int, k2: int|
            valid_tri(g, m, k) && valid_tri(g, m2, k2) && !(m == m2 && k == k2)
                && #[trigger] tri_hits(g, m, k, ray) && #[trigger] tri_hits(g, m2, k2, ray)
                ==> tri_t_of(g, m, k, ray) * tri_det_of(g, m2, k2, ray)
                    != tri_t_of(g, m2, k2, ray) * tri_det_of(g, m, k, ray),
    ensures
        h1.mesh == h2.mesh,
        h1.vertices == h2.vertices,
        h1.t == h2.t,
        h1.barycentrics == h2.barycentrics,
{
    let (m1, k1) = choose|m: int, k: int| #[trigger] hit_matches_tri(g, ray, h1, m, k);
    let (m2, k2) = choose|m: int, k: int| #[trigger] hit_matches_tri(g, ray, h2, m, k);
    lemma_closest_hit_same_t(g, ray, h1, h2);
    if !(m1 == m2 && k1 == k2) {
        // distinct triangles would have distinct parameters, against
        // the equality just shown
        assert(h1.t.num * h2.t.den == h2.t.num * h1.t.den);
        assert(false);
    }
}

} // verus!
