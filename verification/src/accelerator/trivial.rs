//! The exhaustive accelerator: a linear scan over every triangle of
//! every mesh. It is the reference the hierarchy is measured against —
//! both return a closest hit in exactly the same sense.

use vstd::prelude::*;
use crate::accelerator::{
    Geometry, HitInfo, consider_triangle, geometry_wf, hit_matches_tri, in_coord_range,
    is_closest_hit, misses_all, rat_le_tri, tri_det_of, tri_hits, tri_t_of, valid_tri,
};
use crate::geometry::Ray;
use crate::rat::lemma_lt_frac_from_lt;

verus! {

/// Triangle `(m2, k2)` comes before `(m, k)` in the scan's
/// mesh-then-triangle order.
pub open spec fn scan_lt(m2: int, k2: int, m: int, k: int) -> bool {
    m2 < m || (m2 == m && k2 < k)
}

pub struct Trivial {
    geometry: Geometry,
}

impl Trivial {
    pub closed spec fn geometry_view(self) -> Seq<(Vec<crate::scene::Vertex>, Vec<u32>)> {
        self.geometry@
    }

    pub closed spec fn wf(self) -> bool {
        geometry_wf(self.geometry@)
    }

    /// Keep the flattened meshes as they come; a scan needs no index.
    pub fn build(geometry: Geometry) -> (r: Trivial)
        requires
            geometry_wf(geometry@),
        ensures
            r.wf(),
            r.geometry_view() == geometry@,
    {
        Trivial { geometry }
    }

    /// Scan every triangle and keep the closest committed hit; among
    /// triangles tied at the closest parameter, the earliest in
    /// mesh-then-triangle order wins (replacement is strict).
    pub fn intersect(&self, ray: &Ray) -> (r: Option<HitInfo>)
        requires
            self.wf(),
            in_coord_range(*ray),
        ensures
            r is None <==> misses_all(self.geometry_view(), *ray),
            r matches Some(h) ==> is_closest_hit(self.geometry_view(), *ray, h),
            r matches Some(h) ==> exists|m: int, k: int|
                #[trigger] hit_matches_tri(self.geometry_view(), *ray, h, m, k)
                    && forall|m2: int, k2: int|
                        valid_tri(self.geometry_view(), m2, k2)
                            && #[trigger] tri_hits(self.geometry_view(), m2, k2, *ray)
                            && scan_lt(m2, k2, m, k)
                            ==> h.t.num * tri_det_of(self.geometry_view(), m2, k2, *ray)
                                < tri_t_of(self.geometry_view(), m2, k2, *ray) * h.t.den,
    {
        let ghost g = self.geometry@;
        let mut info: Option<HitInfo> = None;
        let ghost mut wm: int = 0;
        let ghost mut wk: int = 0;
        let mesh_count = self.geometry.len();
        let mut m: usize = 0;
        while m < mesh_count
            invariant
                geometry_wf(g),
                g == self.geometry@,
                in_coord_range(*ray),
                mesh_count == g.len(),
                0 <= m <= mesh_count,
                info matches Some(h) ==> h.t.wf(),
                info matches Some(h) ==> {
                    &&& hit_matches_tri(g, *ray, h, wm, wk)
                    &&& wm < m
                    &&& forall|m2: int, k2: int|
                        valid_tri(g, m2, k2) && #[trigger] tri_hits(g, m2, k2, *ray)
                            && scan_lt(m2, k2, wm, wk)
                            ==> h.t.num * tri_det_of(g, m2, k2, *ray)
                                < tri_t_of(g, m2, k2, *ray) * h.t.den
                },
                info is None ==> forall|m2: int, k2: int|
                    valid_tri(g, m2, k2) && m2 < m ==> !#[trigger] tri_hits(g, m2, k2, *ray),
                forall|m2: int, k2: int|
                    valid_tri(g, m2, k2) && m2 < m && #[trigger] tri_hits(g, m2, k2, *ray)
                        ==> (info matches Some(h) && rat_le_tri(h.t, g, m2, k2, *ray)),
            decreases mesh_count - m,
        {
            let tri_count = self.geometry[m].1.len() / 3;
            let mut k: usize = 0;
            while k < tri_count
                invariant
                    geometry_wf(g),
                    g == self.geometry@,
                    in_coord_range(*ray),
                    mesh_count == g.len(),
                    0 <= m < mesh_count,
                    tri_count == g[m as int].1@.len() / 3,
                    0 <= k <= tri_count,
                    info matches Some(h) ==> h.t.wf(),
                    info matches Some(h) ==> {
                        &&& hit_matches_tri(g, *ray, h, wm, wk)
                        &&& scan_lt(wm, wk, m as int, k as int)
                        &&& forall|m2: int, k2: int|
                            valid_tri(g, m2, k2) && #[trigger] tri_hits(g, m2, k2, *ray)
                                && scan_lt(m2, k2, wm, wk)
                                ==> h.t.num * tri_det_of(g, m2, k2, *ray)
                                    < tri_t_of(g, m2, k2, *ray) * h.t.den
                    },
                    info is None ==> forall|m2: int, k2: int|
                        valid_tri(g, m2, k2) && (m2 < m || (m2 == m && k2 < k))
                            ==> !#[trigger] tri_hits(g, m2, k2, *ray),
                    forall|m2: int, k2: int|
                        valid_tri(g, m2, k2) && (m2 < m || (m2 == m && k2 < k))
                            && #[trigger] tri_hits(g, m2, k2, *ray)
                            ==> (info matches Some(h) && rat_le_tri(h.t, g, m2, k2, *ray)),
                decreases tri_count - k,
            {
                proof {
                    assert(g[m as int].1@.len() % 3 == 0);
                    assert(3 * k + 2 < g[m as int].1@.len());
                }
                let ghost prev = info;
                consider_triangle(&self.geometry, m as u32, k, ray, &mut info);
                proof {
                    // track which triangle the committed record names:
                    // a strict improvement moves the witness here, a tie
                    // or a miss keeps the earlier one
                    if tri_hits(g, m as int, k as int, *ray) {
                        match prev {
                            None => {
                                wm = m as int;
                                wk = k as int;
                            },
                            Some(h0) => {
                                if tri_t_of(g, m as int, k as int, *ray) * h0.t.den
                                    < h0.t.num * tri_det_of(g, m as int, k as int, *ray) {
                                    // replaced: every earlier hit was at
                                    // least the old record, which the new
                                    // parameter strictly undercuts
                                    let h = info->Some_0;
                                    assert forall|m2: int, k2: int|
                                        valid_tri(g, m2, k2) && #[trigger] tri_hits(g, m2, k2, *ray)
                                            && scan_lt(m2, k2, m as int, k as int)
                                        implies h.t.num * tri_det_of(g, m2, k2, *ray)
                                            < tri_t_of(g, m2, k2, *ray) * h.t.den by {
                                        crate::accelerator::tri_dets_positive(g, m2, k2, *ray);
                                        assert(rat_le_tri(h0.t, g, m2, k2, *ray));
                                        assert(h.t.lt_value(h0.t)) by (nonlinear_arith)
                                            requires
                                                h.t.wf(),
                                                h0.t.wf(),
                                                h.t.num as int == tri_t_of(g, m as int, k as int, *ray),
                                                h.t.den as int == tri_det_of(g, m as int, k as int, *ray),
                                                tri_t_of(g, m as int, k as int, *ray) * h0.t.den
                                                    < h0.t.num * tri_det_of(g, m as int, k as int, *ray);
                                        lemma_lt_frac_from_lt(
                                            h.t,
                                            h0.t,
                                            tri_t_of(g, m2, k2, *ray),
                                            tri_det_of(g, m2, k2, *ray),
                                        );
                                    }
                                    wm = m as int;
                                    wk = k as int;
                                }
                            },
                        }
                    }
                    assert forall|m2: int, k2: int|
                        valid_tri(g, m2, k2) && (m2 < m || (m2 == m && k2 < k + 1))
                            && #[trigger] tri_hits(g, m2, k2, *ray)
                        implies (info matches Some(h) && rat_le_tri(h.t, g, m2, k2, *ray)) by {
                        if m2 == m && k2 == k {
                        } else {
                            assert(prev matches Some(h0) && rat_le_tri(h0.t, g, m2, k2, *ray));
                        }
                    }
                }
                k = k + 1;
            }
            proof {
                // a mesh fully scanned: triangles of mesh m are those
                // with index below its triangle count
                assert forall|m2: int, k2: int|
                    valid_tri(g, m2, k2) && m2 < m + 1 && #[trigger] tri_hits(g, m2, k2, *ray)
                    implies (info matches Some(h) && rat_le_tri(h.t, g, m2, k2, *ray)) by {
                    if m2 == m {
                        assert(3 * k2 + 2 < g[m as int].1@.len());
                        assert(k2 < tri_count);
                    }
                }
                assert forall|m2: int, k2: int|
                    valid_tri(g, m2, k2) && m2 < m + 1 && info is None
                    implies !#[trigger] tri_hits(g, m2, k2, *ray) by {
                    if m2 == m {
                        assert(k2 < tri_count);
                    }
                }
            }
            m = m + 1;
        }
        info
    }
}

} // verus!
