//! Bounding-volume hierarchy over all scene triangles.
//!
//! Build partitions the triangle list recursively: the list is split at
//! its median along the axis of greatest centroid extent, leaves keep
//! one triangle each under its tight box, and every interior node's box
//! encloses both children's. Nodes live in a flat array and name each
//! other by index; children always precede their parent, so the tree
//! carries no cycles and recursion over indices terminates.
//!
//! Traversal prunes a whole subtree when the ray misses its box — sound
//! because a hit point is a convex combination of its triangle's
//! corners, and so can never leave a box that contains them. The result
//! is provably the same closest hit the exhaustive scan returns.

use vstd::prelude::*;
use crate::accelerator::{
    Geometry, HitInfo, consider_triangle, geometry_wf, hit_matches_tri, hit_t_le_tri,
    is_closest_hit, misses_all, rat_le_tri, tri_det_of, tri_hits, tri_t_of, tri_vertex, valid_tri,
};
use crate::geometry::{
    Bounds, Ray, bounds_in_range, bounds_contains_vec, bounds_subset, int_min, int_max,
    lemma_tri_hit_in_box, triangle_centroid,
};
use crate::rat::lemma_le_frac_from_le;
use crate::scene::Vertex;
use crate::COORD_LIMIT;

verus! {

/// A triangle reference: the owning mesh and its three vertex indices.
#[derive(Clone, Copy, Debug)]
pub struct Triangle {
    pub mesh: u32,
    pub indices: [u32; 3],
}

enum BvhNode {
    Interior { bounds: Bounds, left: u32, right: u32 },
    Leaf { bounds: Bounds, triangle: Triangle, slot: u32 },
}

pub struct Bvh {
    root: u32,
    nodes: Vec<BvhNode>,
    geometry: Geometry,
}

spec fn bounds_of(n: BvhNode) -> Bounds {
    match n {
        BvhNode::Interior { bounds, .. } => bounds,
        BvhNode::Leaf { bounds, .. } => bounds,
    }
}

/// The box is exactly the componentwise min/max of the triangle's
/// corners: a tight box.
spec fn tri_bounds_match(b: Bounds, g: Seq<(Vec<Vertex>, Vec<u32>)>, m: int, k: int) -> bool {
    let p1 = tri_vertex(g, m, k, 0).position;
    let p2 = tri_vertex(g, m, k, 1).position;
    let p3 = tri_vertex(g, m, k, 2).position;
    &&& b.min.x == int_min(p1.x as int, int_min(p2.x as int, p3.x as int))
    &&& b.min.y == int_min(p1.y as int, int_min(p2.y as int, p3.y as int))
    &&& b.min.z == int_min(p1.z as int, int_min(p2.z as int, p3.z as int))
    &&& b.max.x == int_max(p1.x as int, int_max(p2.x as int, p3.x as int))
    &&& b.max.y == int_max(p1.y as int, int_max(p2.y as int, p3.y as int))
    &&& b.max.z == int_max(p1.z as int, int_max(p2.z as int, p3.z as int))
}

/// Structural soundness of the node at `i`: leaves name existing
/// triangles under their tight box, interior nodes point down the
/// array at two sound children whose boxes they enclose.
spec fn node_wf(nodes: Seq<BvhNode>, g: Seq<(Vec<Vertex>, Vec<u32>)>, i: int) -> bool
    decreases i,
{
    &&& 0 <= i < nodes.len()
    &&& match nodes[i] {
        BvhNode::Leaf { bounds, triangle, slot } => {
            &&& valid_tri(g, triangle.mesh as int, slot as int)
            &&& triangle.indices@[0] == g[triangle.mesh as int].1@[3 * (slot as int)]
            &&& triangle.indices@[1] == g[triangle.mesh as int].1@[3 * (slot as int) + 1]
            &&& triangle.indices@[2] == g[triangle.mesh as int].1@[3 * (slot as int) + 2]
            &&& tri_bounds_match(bounds, g, triangle.mesh as int, slot as int)
            &&& bounds_in_range(bounds)
        },
        BvhNode::Interior { bounds, left, right } => {
            &&& left < i
            &&& right < i
            &&& node_wf(nodes, g, left as int)
            &&& node_wf(nodes, g, right as int)
            &&& bounds_subset(bounds_of(nodes[left as int]), bounds)
            &&& bounds_subset(bounds_of(nodes[right as int]), bounds)
            &&& bounds_in_range(bounds)
        },
    }
}

/// Triangle `(m, k)` sits in some leaf below node `i`.
spec fn subtree_has(nodes: Seq<BvhNode>, i: int, m: int, k: int) -> bool
    decreases i,
{
    if 0 <= i < nodes.len() {
        match nodes[i] {
            BvhNode::Leaf { triangle, slot, .. } => triangle.mesh as int == m && slot as int == k,
            BvhNode::Interior { left, right, .. } => {
                if left < i && right < i {
                    subtree_has(nodes, left as int, m, k) || subtree_has(nodes, right as int, m, k)
                } else {
                    false
                }
            },
        }
    } else {
        false
    }
}

/// Number of triangles stored below node `i`.
spec fn subtree_count(nodes: Seq<BvhNode>, i: int) -> int
    decreases i,
{
    if 0 <= i < nodes.len() {
        match nodes[i] {
            BvhNode::Leaf { .. } => 1,
            BvhNode::Interior { left, right, .. } => {
                if left < i && right < i {
                    subtree_count(nodes, left as int) + subtree_count(nodes, right as int)
                } else {
                    1
                }
            },
        }
    } else {
        0
    }
}

/// Height of the subtree under node `i`, counting its leaves as one.
spec fn node_depth(nodes: Seq<BvhNode>, i: int) -> int
    decreases i,
{
    if 0 <= i < nodes.len() {
        match nodes[i] {
            BvhNode::Leaf { .. } => 1,
            BvhNode::Interior { left, right, .. } => {
                if left < i && right < i {
                    1 + int_max(node_depth(nodes, left as int), node_depth(nodes, right as int))
                } else {
                    1
                }
            },
        }
    } else {
        0
    }
}

/// Ceiling of the base-two logarithm (zero for counts up to one).
pub open spec fn log2_ceil(n: int) -> int
    decreases n,
{
    if n <= 1 {
        0
    } else {
        1 + log2_ceil((n + 1) / 2)
    }
}

/// The ceiling logarithm is never negative.
proof fn lemma_log2_ceil_nonneg(n: int)
    ensures
        log2_ceil(n) >= 0,
    decreases n,
{
    if n > 1 {
        lemma_log2_ceil_nonneg((n + 1) / 2);
    }
}

/// The ceiling logarithm is monotone.
proof fn lemma_log2_ceil_mono(a: int, b: int)
    requires
        1 <= a <= b,
    ensures
        log2_ceil(a) <= log2_ceil(b),
    decreases b,
{
    if a > 1 {
        lemma_log2_ceil_mono((a + 1) / 2, (b + 1) / 2);
    } else {
        lemma_log2_ceil_nonneg(b);
    }
}

/// Appending nodes to the array disturbs neither soundness nor the
/// triangle population of an existing subtree, nor its size or height.
proof fn lemma_node_wf_prefix(
    n1: Seq<BvhNode>,
    n2: Seq<BvhNode>,
    g: Seq<(Vec<Vertex>, Vec<u32>)>,
    i: int,
)
    requires
        node_wf(n1, g, i),
        n1.len() <= n2.len(),
        forall|j: int| 0 <= j < n1.len() ==> n2[j] == n1[j],
    ensures
        node_wf(n2, g, i),
        forall|m: int, k: int| #[trigger] subtree_has(n2, i, m, k) == subtree_has(n1, i, m, k),
        subtree_count(n2, i) == subtree_count(n1, i),
        node_depth(n2, i) == node_depth(n1, i),
    decreases i,
{
    match n1[i] {
        BvhNode::Leaf { .. } => {
            assert forall|m: int, k: int|
                #[trigger] subtree_has(n2, i, m, k) == subtree_has(n1, i, m, k) by {
                assert(n2[i] == n1[i]);
            }
        },
        BvhNode::Interior { bounds, left, right } => {
            lemma_node_wf_prefix(n1, n2, g, left as int);
            lemma_node_wf_prefix(n1, n2, g, right as int);
            assert(node_wf(n2, g, i));
            assert(n2[i] == n1[i]);
            assert forall|m: int, k: int|
                #[trigger] subtree_has(n2, i, m, k) == subtree_has(n1, i, m, k) by {
                assert(n2[i] == n1[i]);
                assert(subtree_has(n2, left as int, m, k) == subtree_has(n1, left as int, m, k));
                assert(subtree_has(n2, right as int, m, k) == subtree_has(n1, right as int, m, k));
            }
        },
    }
}

/// Every triangle below a sound node exists in the scene, and its
/// corners all lie inside the node's box.
proof fn lemma_subtree_bounds(
    nodes: Seq<BvhNode>,
    g: Seq<(Vec<Vertex>, Vec<u32>)>,
    i: int,
    m: int,
    k: int,
)
    requires
        node_wf(nodes, g, i),
        subtree_has(nodes, i, m, k),
    ensures
        valid_tri(g, m, k),
        bounds_contains_vec(bounds_of(nodes[i]), tri_vertex(g, m, k, 0).position),
        bounds_contains_vec(bounds_of(nodes[i]), tri_vertex(g, m, k, 1).position),
        bounds_contains_vec(bounds_of(nodes[i]), tri_vertex(g, m, k, 2).position),
    decreases i,
{
    match nodes[i] {
        BvhNode::Leaf { .. } => {},
        BvhNode::Interior { bounds, left, right } => {
            if subtree_has(nodes, left as int, m, k) {
                lemma_subtree_bounds(nodes, g, left as int, m, k);
            } else {
                lemma_subtree_bounds(nodes, g, right as int, m, k);
            }
        },
    }
}

/// Some slot of `s[lo..hi)` names triangle `(m, k)`.
spec fn range_has_tri(s: Seq<(u32, u32)>, lo: int, hi: int, m: int, k: int) -> bool {
    exists|l: int| lo <= l < hi && (#[trigger] s[l]).0 as int == m && s[l].1 as int == k
}

/// Every listed pair names an existing triangle.
spec fn order_wf(s: Seq<(u32, u32)>, g: Seq<(Vec<Vertex>, Vec<u32>)>) -> bool {
    forall|l: int| 0 <= l < s.len() ==> valid_tri(g, (#[trigger] s[l]).0 as int, s[l].1 as int)
}

/// Swapping two slots inside `[lo, hi)` does not change which
/// triangles the range names.
proof fn lemma_swap_range_has(s1: Seq<(u32, u32)>, s2: Seq<(u32, u32)>, i: int, j: int, lo: int, hi: int)
    requires
        lo <= i < hi,
        lo <= j < hi,
        0 <= lo,
        hi <= s1.len(),
        s2 == s1.update(i, s1[j]).update(j, s1[i]),
    ensures
        s2.len() == s1.len(),
        forall|l: int| 0 <= l < s1.len() && !(lo <= l < hi) ==> s2[l] == s1[l],
        forall|m: int, k: int| #[trigger] range_has_tri(s2, lo, hi, m, k) == range_has_tri(s1, lo, hi, m, k),
{
    assert forall|m: int, k: int|
        #[trigger] range_has_tri(s2, lo, hi, m, k) == range_has_tri(s1, lo, hi, m, k) by {
        if range_has_tri(s1, lo, hi, m, k) {
            let l = choose|l: int| lo <= l < hi && (#[trigger] s1[l]).0 as int == m && s1[l].1 as int == k;
            if l == i {
                assert(s2[j] == s1[i]);
                assert(range_has_tri(s2, lo, hi, m, k));
            } else if l == j {
                assert(s2[i] == s1[j] || i == j);
                if i == j {
                    assert(s2[j] == s1[i]);
                }
                assert(range_has_tri(s2, lo, hi, m, k));
            } else {
                assert(s2[l] == s1[l]);
                assert(range_has_tri(s2, lo, hi, m, k));
            }
        }
        if range_has_tri(s2, lo, hi, m, k) {
            let l = choose|l: int| lo <= l < hi && (#[trigger] s2[l]).0 as int == m && s2[l].1 as int == k;
            if l == j {
                assert(s1[i] == s2[j]);
                assert(range_has_tri(s1, lo, hi, m, k));
            } else if l == i {
                assert(s2[i] == s1[j] || i == j);
                assert(range_has_tri(s1, lo, hi, m, k));
            } else {
                assert(s2[l] == s1[l]);
                assert(range_has_tri(s1, lo, hi, m, k));
            }
        }
    }
}

/// Two lists equal across `[lo, hi)` name the same triangles there.
proof fn lemma_range_has_frame(s1: Seq<(u32, u32)>, s2: Seq<(u32, u32)>, lo: int, hi: int)
    requires
        0 <= lo,
        hi <= s1.len(),
        hi <= s2.len(),
        forall|l: int| lo <= l < hi ==> s1[l] == s2[l],
    ensures
        forall|m: int, k: int| #[trigger] range_has_tri(s1, lo, hi, m, k) == range_has_tri(s2, lo, hi, m, k),
{
    assert forall|m: int, k: int|
        #[trigger] range_has_tri(s1, lo, hi, m, k) == range_has_tri(s2, lo, hi, m, k) by {
        if range_has_tri(s1, lo, hi, m, k) {
            let l = choose|l: int| lo <= l < hi && (#[trigger] s1[l]).0 as int == m && s1[l].1 as int == k;
            assert(s2[l] == s1[l]);
            assert(range_has_tri(s2, lo, hi, m, k));
        }
        if range_has_tri(s2, lo, hi, m, k) {
            let l = choose|l: int| lo <= l < hi && (#[trigger] s2[l]).0 as int == m && s2[l].1 as int == k;
            assert(s1[l] == s2[l]);
            assert(range_has_tri(s1, lo, hi, m, k));
        }
    }
}

/// A range names a triangle exactly when one of its two halves does.
proof fn lemma_range_has_split(s: Seq<(u32, u32)>, lo: int, mid: int, hi: int)
    requires
        0 <= lo <= mid <= hi <= s.len(),
    ensures
        forall|m: int, k: int| #[trigger] range_has_tri(s, lo, hi, m, k)
            == (range_has_tri(s, lo, mid, m, k) || range_has_tri(s, mid, hi, m, k)),
{
    assert forall|m: int, k: int|
        #[trigger] range_has_tri(s, lo, hi, m, k)
            == (range_has_tri(s, lo, mid, m, k) || range_has_tri(s, mid, hi, m, k)) by {
        if range_has_tri(s, lo, hi, m, k) {
            let l = choose|l: int| lo <= l < hi && (#[trigger] s[l]).0 as int == m && s[l].1 as int == k;
            if l < mid {
                assert(range_has_tri(s, lo, mid, m, k));
            } else {
                assert(range_has_tri(s, mid, hi, m, k));
            }
        }
        if range_has_tri(s, lo, mid, m, k) {
            let l = choose|l: int| lo <= l < mid && (#[trigger] s[l]).0 as int == m && s[l].1 as int == k;
            assert(range_has_tri(s, lo, hi, m, k));
        }
        if range_has_tri(s, mid, hi, m, k) {
            let l = choose|l: int| mid <= l < hi && (#[trigger] s[l]).0 as int == m && s[l].1 as int == k;
            assert(range_has_tri(s, lo, hi, m, k));
        }
    }
}

/// The centroid component of a listed triangle along the chosen axis —
/// the sort key of the median split.
fn centroid_key(geometry: &Geometry, p: (u32, u32), axis: u8) -> (r: i128)
    requires
        geometry_wf(geometry@),
        valid_tri(geometry@, p.0 as int, p.1 as int),
    ensures
        -3 * COORD_LIMIT <= r <= 3 * COORD_LIMIT,
{
    let base: usize = 3 * (p.1 as usize);
    let (vs, is) = &geometry[p.0 as usize];
    let v1 = vs[is[base] as usize];
    let v2 = vs[is[base + 1] as usize];
    let v3 = vs[is[base + 2] as usize];
    let c = triangle_centroid(&v1.position, &v2.position, &v3.position);
    if axis == 0 {
        c.x
    } else if axis == 1 {
        c.y
    } else {
        c.z
    }
}

/// Sort `order[lo..hi)` by centroid along `axis` (selection sort), so
/// that splitting at the middle slot splits at the median. The
/// contract pins what correctness downstream needs: nothing outside
/// the range moves, and the range keeps exactly its triangles.
fn sort_range_by_centroid(
    geometry: &Geometry,
    order: &mut Vec<(u32, u32)>,
    lo: usize,
    hi: usize,
    axis: u8,
)
    requires
        geometry_wf(geometry@),
        lo <= hi <= old(order)@.len(),
        order_wf(old(order)@, geometry@),
    ensures
        final(order)@.len() == old(order)@.len(),
        forall|l: int| 0 <= l < old(order)@.len() && !(lo <= l < hi) ==> final(order)@[l] == old(order)@[l],
        order_wf(final(order)@, geometry@),
        forall|m: int, k: int| #[trigger] range_has_tri(final(order)@, lo as int, hi as int, m, k)
            == range_has_tri(old(order)@, lo as int, hi as int, m, k),
{
    let ghost s0 = order@;
    let mut i: usize = lo;
    while i < hi
        invariant
            geometry_wf(geometry@),
            lo <= i <= hi <= order@.len(),
            order@.len() == s0.len(),
            forall|l: int| 0 <= l < s0.len() && !(lo <= l < hi) ==> order@[l] == s0[l],
            order_wf(order@, geometry@),
            forall|m: int, k: int| #[trigger] range_has_tri(order@, lo as int, hi as int, m, k)
                == range_has_tri(s0, lo as int, hi as int, m, k),
        decreases hi - i,
    {
        let mut best: usize = i;
        let mut j: usize = i + 1;
        let mut best_key = centroid_key(geometry, order[i], axis);
        while j < hi
            invariant
                geometry_wf(geometry@),
                lo <= i < hi <= order@.len(),
                i <= best < hi,
                i < j <= hi,
                order_wf(order@, geometry@),
            decreases hi - j,
        {
            let key = centroid_key(geometry, order[j], axis);
            if key < best_key {
                best = j;
                best_key = key;
            }
            j = j + 1;
        }
        if best != i {
            let ghost before = order@;
            let a = order[i];
            let b = order[best];
            order[i] = b;
            order[best] = a;
            proof {
                lemma_swap_range_has(before, order@, i as int, best as int, lo as int, hi as int);
            }
        }
        i = i + 1;
    }
}

impl Bvh {
    pub closed spec fn geometry_view(self) -> Seq<(Vec<Vertex>, Vec<u32>)> {
        self.geometry@
    }

    /// Number of triangles the hierarchy stores.
    pub closed spec fn tri_count_spec(self) -> int {
        subtree_count(self.nodes@, self.root as int)
    }

    /// Height of the hierarchy (a lone leaf counts one).
    pub closed spec fn depth_of(self) -> int {
        node_depth(self.nodes@, self.root as int)
    }

    /// The hierarchy's structural invariant, established by `build` and
    /// relied on by `intersect`. The node array is private, so the
    /// statement is carried by this named predicate; it says: every
    /// leaf stores an existing triangle under its tight box (the exact
    /// componentwise extrema of the three corners), every interior box
    /// encloses both children's boxes — hence their union — children
    /// precede their parent in the array, and every triangle of the
    /// scene sits in some leaf below the root.
    pub closed spec fn wf(self) -> bool {
        &&& geometry_wf(self.geometry@)
        &&& node_wf(self.nodes@, self.geometry@, self.root as int)
        &&& forall|m: int, k: int| valid_tri(self.geometry@, m, k)
            ==> #[trigger] subtree_has(self.nodes@, self.root as int, m, k)
    }
}

/// Recursive median split over `order[lo..hi)`; emits this subtree's
/// nodes (children before parent) and returns the root's index and
/// box.
fn split_recursive(
    geometry: &Geometry,
    order: &mut Vec<(u32, u32)>,
    lo: usize,
    hi: usize,
    nodes: &mut Vec<BvhNode>,
) -> (ret: (u32, Bounds))
    requires
        geometry_wf(geometry@),
        lo < hi <= old(order)@.len(),
        order_wf(old(order)@, geometry@),
        old(nodes)@.len() + 2 * (hi - lo) <= 0x4000_0000,
    ensures
        final(order)@.len() == old(order)@.len(),
        forall|l: int| 0 <= l < old(order)@.len() && !(lo <= l < hi) ==> final(order)@[l] == old(order)@[l],
        order_wf(final(order)@, geometry@),
        forall|m: int, k: int| #[trigger] range_has_tri(final(order)@, lo as int, hi as int, m, k)
            == range_has_tri(old(order)@, lo as int, hi as int, m, k),
        final(nodes)@.len() == old(nodes)@.len() + 2 * (hi - lo) - 1,
        forall|j: int| 0 <= j < old(nodes)@.len() ==> final(nodes)@[j] == old(nodes)@[j],
        ret.0 as int == final(nodes)@.len() - 1,
        node_wf(final(nodes)@, geometry@, ret.0 as int),
        bounds_of(final(nodes)@[ret.0 as int]) == ret.1,
        forall|m: int, k: int| #[trigger] subtree_has(final(nodes)@, ret.0 as int, m, k)
            == range_has_tri(final(order)@, lo as int, hi as int, m, k),
        subtree_count(final(nodes)@, ret.0 as int) == hi - lo,
        node_depth(final(nodes)@, ret.0 as int) <= log2_ceil(hi - lo) + 1,
    decreases hi - lo,
{
    if hi - lo == 1 {
        let (mesh, tri) = order[lo];
        let base: usize = 3 * (tri as usize);
        let (vs, is) = &geometry[mesh as usize];
        let i0 = is[base];
        let i1 = is[base + 1];
        let i2 = is[base + 2];
        let v1 = vs[i0 as usize];
        let v2 = vs[i1 as usize];
        let v3 = vs[i2 as usize];
        let bounds = Bounds::around_triangle(v1.position, v2.position, v3.position);
        let triangle = Triangle { mesh, indices: [i0, i1, i2] };
        nodes.push(BvhNode::Leaf { bounds, triangle, slot: tri });
        let idx = nodes.len() - 1;
        proof {
            assert(nodes@[idx as int] == BvhNode::Leaf { bounds, triangle, slot: tri });
            assert(node_wf(nodes@, geometry@, idx as int));
            assert forall|m: int, k: int| #[trigger] subtree_has(nodes@, idx as int, m, k)
                == range_has_tri(order@, lo as int, hi as int, m, k) by {
                if subtree_has(nodes@, idx as int, m, k) {
                    assert(order@[lo as int].0 as int == m && order@[lo as int].1 as int == k);
                    assert(range_has_tri(order@, lo as int, hi as int, m, k));
                }
                if range_has_tri(order@, lo as int, hi as int, m, k) {
                    let l = choose|l: int| lo <= l < hi && (#[trigger] order@[l]).0 as int == m
                        && order@[l].1 as int == k;
                    assert(l == lo);
                }
            }
        }
        return (idx as u32, bounds);
    }

    // the axis along which the triangle centroids spread the most
    let mut l: usize = lo;
    let first = order[lo];
    let c0 = centroid_key(geometry, first, 0);
    let c1 = centroid_key(geometry, first, 1);
    let c2 = centroid_key(geometry, first, 2);
    let mut min_x = c0;
    let mut max_x = c0;
    let mut min_y = c1;
    let mut max_y = c1;
    let mut min_z = c2;
    let mut max_z = c2;
    while l < hi
        invariant
            geometry_wf(geometry@),
            lo <= l <= hi <= order@.len(),
            order_wf(order@, geometry@),
            -1536 <= min_x <= 1536,
            -1536 <= max_x <= 1536,
            -1536 <= min_y <= 1536,
            -1536 <= max_y <= 1536,
            -1536 <= min_z <= 1536,
            -1536 <= max_z <= 1536,
        decreases hi - l,
    {
        let p = order[l];
        let kx = centroid_key(geometry, p, 0);
        let ky = centroid_key(geometry, p, 1);
        let kz = centroid_key(geometry, p, 2);
        if kx < min_x { min_x = kx; }
        if kx > max_x { max_x = kx; }
        if ky < min_y { min_y = ky; }
        if ky > max_y { max_y = ky; }
        if kz < min_z { min_z = kz; }
        if kz > max_z { max_z = kz; }
        l = l + 1;
    }
    let ext_x = max_x - min_x;
    let ext_y = max_y - min_y;
    let ext_z = max_z - min_z;
    let axis: u8 = if ext_x >= ext_y && ext_x >= ext_z {
        0
    } else if ext_y >= ext_z {
        1
    } else {
        2
    };

    sort_range_by_centroid(geometry, order, lo, hi, axis);
    let ghost o1 = order@;
    let mid = lo + (hi - lo) / 2;

    let (left_idx, left_bounds) = split_recursive(geometry, order, lo, mid, nodes);
    let ghost o2 = order@;
    let ghost n2 = nodes@;
    let (right_idx, right_bounds) = split_recursive(geometry, order, mid, hi, nodes);
    let ghost o3 = order@;
    let ghost n3 = nodes@;

    let bounds = left_bounds.union(right_bounds);
    nodes.push(BvhNode::Interior { bounds, left: left_idx, right: right_idx });
    let idx = nodes.len() - 1;

    proof {
        // the left subtree survives the right build and the final push
        lemma_node_wf_prefix(n2, nodes@, geometry@, left_idx as int);
        lemma_node_wf_prefix(n3, nodes@, geometry@, right_idx as int);
        assert(bounds_of(nodes@[left_idx as int]) == left_bounds);
        assert(bounds_of(nodes@[right_idx as int]) == right_bounds);
        assert(node_wf(nodes@, geometry@, idx as int));

        // the left half of the order is untouched after the left build
        lemma_range_has_frame(o2, o3, lo as int, mid as int);
        lemma_range_has_split(o3, lo as int, mid as int, hi as int);
        // and both halves kept their triangles through the sort
        lemma_range_has_split(o1, lo as int, mid as int, hi as int);
        lemma_range_has_frame(o1, o2, mid as int, hi as int);

        assert forall|m: int, k: int| #[trigger] subtree_has(nodes@, idx as int, m, k)
            == range_has_tri(order@, lo as int, hi as int, m, k) by {
            assert(subtree_has(nodes@, idx as int, m, k)
                == (subtree_has(nodes@, left_idx as int, m, k)
                    || subtree_has(nodes@, right_idx as int, m, k)));
            assert(subtree_has(nodes@, left_idx as int, m, k)
                == subtree_has(n2, left_idx as int, m, k));
            assert(subtree_has(n2, left_idx as int, m, k)
                == range_has_tri(o2, lo as int, mid as int, m, k));
            assert(range_has_tri(o2, lo as int, mid as int, m, k)
                == range_has_tri(o3, lo as int, mid as int, m, k));
            assert(subtree_has(nodes@, right_idx as int, m, k)
                == subtree_has(n3, right_idx as int, m, k));
            assert(subtree_has(n3, right_idx as int, m, k)
                == range_has_tri(o3, mid as int, hi as int, m, k));
        }
        // the whole range keeps its triangles through sort and both
        // half-builds
        // the two halves carry the counts of their subranges, so the
        // node holds the whole range, one level above a balanced split
        assert(subtree_count(nodes@, left_idx as int) == mid - lo);
        assert(subtree_count(nodes@, right_idx as int) == hi - mid);
        assert(subtree_count(nodes@, idx as int) == hi - lo);
        assert(node_depth(nodes@, idx as int)
            == 1 + int_max(node_depth(nodes@, left_idx as int), node_depth(nodes@, right_idx as int)));
        assert((hi - lo) - (hi - lo) / 2 == ((hi - lo) + 1) / 2
            && 1 <= (hi - lo) / 2 && (hi - lo) / 2 <= ((hi - lo) + 1) / 2) by {
            vstd::arithmetic::div_mod::lemma_fundamental_div_mod((hi - lo) as int, 2);
            vstd::arithmetic::div_mod::lemma_fundamental_div_mod((hi - lo) as int + 1, 2);
        }
        lemma_log2_ceil_mono((hi - lo) / 2, ((hi - lo) + 1) / 2);
        assert(log2_ceil((hi - lo) as int) == 1 + log2_ceil(((hi - lo) + 1) / 2));
        assert(node_depth(nodes@, idx as int) <= log2_ceil((hi - lo) as int) + 1);

        assert forall|m: int, k: int|
            #[trigger] range_has_tri(order@, lo as int, hi as int, m, k)
                == range_has_tri(old(order)@, lo as int, hi as int, m, k) by {
            assert(range_has_tri(o3, lo as int, mid as int, m, k)
                == range_has_tri(o2, lo as int, mid as int, m, k));
            assert(range_has_tri(o2, lo as int, mid as int, m, k)
                == range_has_tri(o1, lo as int, mid as int, m, k));
            assert(range_has_tri(o3, mid as int, hi as int, m, k)
                == range_has_tri(o2, mid as int, hi as int, m, k));
            assert(range_has_tri(o2, mid as int, hi as int, m, k)
                == range_has_tri(o1, mid as int, hi as int, m, k));
            assert(range_has_tri(o1, lo as int, hi as int, m, k)
                == range_has_tri(old(order)@, lo as int, hi as int, m, k));
        }
    }
    (idx as u32, bounds)
}

impl Bvh {
    /// Count of index triples before mesh `m`.
    pub open spec fn tris_before(g: Seq<(Vec<Vertex>, Vec<u32>)>, m: int) -> int
        decreases m,
    {
        if m <= 0 {
            0
        } else {
            Self::tris_before(g, m - 1) + g[m - 1].1@.len() / 3
        }
    }

    /// Total triangle count of the scene.
    pub open spec fn total_tris(g: Seq<(Vec<Vertex>, Vec<u32>)>) -> int {
        Self::tris_before(g, g.len() as int)
    }

    /// Build the hierarchy over every triangle of every mesh. The scene
    /// must hold at least one triangle: an empty scene has no tree.
    pub fn build(geometry: Geometry) -> (r: Bvh)
        requires
            geometry_wf(geometry@),
            1 <= Self::total_tris(geometry@) <= 0x1000_0000,
        ensures
            r.wf(),
            r.geometry_view() == geometry@,
            r.tri_count_spec() == Self::total_tris(geometry@),
            r.depth_of() <= log2_ceil(Self::total_tris(geometry@)) + 1,
    {
        let ghost g = geometry@;
        let mut order: Vec<(u32, u32)> = Vec::new();
        let mesh_count = geometry.len();
        let mut m: usize = 0;
        while m < mesh_count
            invariant
                geometry_wf(g),
                g == geometry@,
                mesh_count == g.len(),
                0 <= m <= mesh_count,
                order@.len() == Self::tris_before(g, m as int),
                Self::tris_before(g, m as int) <= Self::total_tris(g),
                order_wf(order@, g),
                forall|m2: int, k2: int| valid_tri(g, m2, k2) && m2 < m
                    ==> #[trigger] range_has_tri(order@, 0, order@.len() as int, m2, k2),
            decreases mesh_count - m,
        {
            proof {
                Self::lemma_tris_before_monotone(g, m as int + 1, g.len() as int);
            }
            let tri_count = geometry[m].1.len() / 3;
            let mut k: usize = 0;
            while k < tri_count
                invariant
                    geometry_wf(g),
                    g == geometry@,
                    mesh_count == g.len(),
                    0 <= m < mesh_count,
                    tri_count == g[m as int].1@.len() / 3,
                    0 <= k <= tri_count,
                    order@.len() == Self::tris_before(g, m as int) + k,
                    Self::tris_before(g, m as int) + k <= Self::total_tris(g),
                    order_wf(order@, g),
                    forall|m2: int, k2: int| valid_tri(g, m2, k2) && (m2 < m || (m2 == m && k2 < k))
                        ==> #[trigger] range_has_tri(order@, 0, order@.len() as int, m2, k2),
                decreases tri_count - k,
            {
                let ghost before = order@;
                proof {
                    assert(g[m as int].1@.len() % 3 == 0);
                    assert(3 * k + 2 < g[m as int].1@.len());
                    Self::lemma_tris_before_monotone(g, m as int + 1, g.len() as int);
                    assert(Self::tris_before(g, m as int + 1)
                        == Self::tris_before(g, m as int) + g[m as int].1@.len() / 3);
                }
                order.push((m as u32, k as u32));
                proof {
                    assert forall|m2: int, k2: int|
                        valid_tri(g, m2, k2) && (m2 < m || (m2 == m && k2 < k + 1))
                        implies #[trigger] range_has_tri(order@, 0, order@.len() as int, m2, k2) by {
                        if m2 == m && k2 == k {
                            assert(order@[order@.len() - 1].0 as int == m2);
                            assert(order@[order@.len() - 1].1 as int == k2);
                        } else {
                            assert(range_has_tri(before, 0, before.len() as int, m2, k2));
                            let l = choose|l: int| 0 <= l < before.len()
                                && (#[trigger] before[l]).0 as int == m2 && before[l].1 as int == k2;
                            assert(order@[l] == before[l]);
                            assert(range_has_tri(order@, 0, order@.len() as int, m2, k2));
                        }
                    }
                }
                k = k + 1;
            }
            proof {
                assert(Self::tris_before(g, m as int + 1)
                    == Self::tris_before(g, m as int) + g[m as int].1@.len() / 3);
                assert forall|m2: int, k2: int| valid_tri(g, m2, k2) && m2 < m + 1
                    implies #[trigger] range_has_tri(order@, 0, order@.len() as int, m2, k2) by {
                    if m2 == m {
                        assert(3 * k2 + 2 < g[m as int].1@.len());
                        assert(k2 < tri_count);
                    }
                }
            }
            m = m + 1;
        }

        let total = order.len();
        let mut nodes: Vec<BvhNode> = Vec::new();
        let ghost o0 = order@;
        let (root, _) = split_recursive(&geometry, &mut order, 0, total, &mut nodes);

        proof {
            assert forall|m2: int, k2: int| valid_tri(g, m2, k2)
                implies #[trigger] subtree_has(nodes@, root as int, m2, k2) by {
                assert(range_has_tri(o0, 0, o0.len() as int, m2, k2));
            }
        }

        Bvh { root, nodes, geometry }
    }

    /// Triangle counts accumulate mesh by mesh.
    proof fn lemma_tris_before_monotone(g: Seq<(Vec<Vertex>, Vec<u32>)>, m: int, hi: int)
        requires
            0 <= m <= hi,
        ensures
            Self::tris_before(g, m) <= Self::tris_before(g, hi),
        decreases hi - m,
    {
        if m < hi {
            Self::lemma_tris_before_monotone(g, m + 1, hi);
        }
    }

    /// Depth-first traversal with box pruning; keeps the closest
    /// committed hit threaded through `hit`.
    fn intersect_recursive(&self, ray: &Ray, node_idx: u32, hit: &mut Option<HitInfo>)
        requires
            geometry_wf(self.geometry@),
            node_wf(self.nodes@, self.geometry@, node_idx as int),
            ray.wf(),
            *old(hit) matches Some(h0) ==> h0.t.wf(),
        ensures
            *final(hit) matches Some(h) ==> h.t.wf(),
            *final(hit) is None ==> *old(hit) is None,
            *old(hit) matches Some(h0) ==> (*final(hit) matches Some(h) && h.t.le_value(h0.t)),
            *final(hit) matches Some(h) ==> ((*old(hit) matches Some(h0) && h == h0)
                || exists|m: int, k: int| #[trigger] hit_matches_tri(self.geometry@, *ray, h, m, k)
                    && subtree_has(self.nodes@, node_idx as int, m, k)),
            forall|m: int, k: int|
                #[trigger] subtree_has(self.nodes@, node_idx as int, m, k)
                    && tri_hits(self.geometry@, m, k, *ray)
                    ==> hit_t_le_tri(*final(hit), self.geometry@, m, k, *ray),
            forall|m: int, k: int|
                #[trigger] subtree_has(self.nodes@, node_idx as int, m, k)
                    ==> valid_tri(self.geometry@, m, k),
        decreases node_idx,
    {
        let ghost g = self.geometry@;
        let ghost nodes = self.nodes@;
        proof {
            assert forall|m: int, k: int| #[trigger] subtree_has(nodes, node_idx as int, m, k)
                implies valid_tri(g, m, k) by {
                lemma_subtree_bounds(nodes, g, node_idx as int, m, k);
            }
        }
        match &self.nodes[node_idx as usize] {
            BvhNode::Interior { bounds, left, right } => {
                let l_idx = *left;
                let r_idx = *right;
                if bounds.does_intersect(ray).is_some() {
                    let ghost h0 = *hit;
                    self.intersect_recursive(ray, l_idx, hit);
                    let ghost h1 = *hit;
                    self.intersect_recursive(ray, r_idx, hit);
                    proof {
                        assert forall|m: int, k: int|
                            #[trigger] subtree_has(nodes, node_idx as int, m, k)
                                && tri_hits(g, m, k, *ray)
                            implies hit_t_le_tri(*hit, g, m, k, *ray) by {
                            if subtree_has(nodes, l_idx as int, m, k) {
                                // the bound found in the left subtree
                                // carries over: the final record is no
                                // larger than the one the left pass left
                                assert(hit_t_le_tri(h1, g, m, k, *ray));
                                let hm = h1->Some_0;
                                let hf = (*hit)->Some_0;
                                crate::accelerator::tri_dets_positive(g, m, k, *ray);
                                lemma_le_frac_from_le(
                                    hf.t,
                                    hm.t,
                                    tri_t_of(g, m, k, *ray),
                                    tri_det_of(g, m, k, *ray),
                                );
                            } else {
                                assert(subtree_has(nodes, r_idx as int, m, k));
                            }
                        }
                        // the record it started with only ever improves
                        match h0 {
                            Some(hh0) => {
                                let hh1 = h1->Some_0;
                                let hf = (*hit)->Some_0;
                                crate::rat::lemma_rat_le_trans(hf.t, hh1.t, hh0.t);
                            },
                            None => {},
                        }
                        // anything new in the record came from below
                        match *hit {
                            Some(hf) => {
                                match h1 {
                                    Some(h1v) => {
                                        if hf == h1v {
                                            if !(h0 matches Some(hp) && h1v == hp) {
                                                let (m, k) = choose|m: int, k: int|
                                                    #[trigger] hit_matches_tri(g, *ray, h1v, m, k)
                                                        && subtree_has(nodes, l_idx as int, m, k);
                                                assert(subtree_has(nodes, node_idx as int, m, k));
                                                assert(hit_matches_tri(g, *ray, hf, m, k)
                                                    && subtree_has(nodes, node_idx as int, m, k));
                                            }
                                        } else {
                                            let (m, k) = choose|m: int, k: int|
                                                #[trigger] hit_matches_tri(g, *ray, hf, m, k)
                                                    && subtree_has(nodes, r_idx as int, m, k);
                                            assert(subtree_has(nodes, node_idx as int, m, k));
                                            assert(hit_matches_tri(g, *ray, hf, m, k)
                                                && subtree_has(nodes, node_idx as int, m, k));
                                        }
                                    },
                                    None => {
                                        let (m, k) = choose|m: int, k: int|
                                            #[trigger] hit_matches_tri(g, *ray, hf, m, k)
                                                && subtree_has(nodes, r_idx as int, m, k);
                                        assert(subtree_has(nodes, node_idx as int, m, k));
                                        assert(hit_matches_tri(g, *ray, hf, m, k)
                                            && subtree_has(nodes, node_idx as int, m, k));
                                    },
                                }
                            },
                            None => {},
                        }
                    }
                } else {
                    proof {
                        // the ray misses this node's box, so it misses
                        // every triangle stored beneath it
                        assert forall|m: int, k: int|
                            #[trigger] subtree_has(nodes, node_idx as int, m, k)
                            implies !tri_hits(g, m, k, *ray) by {
                            if tri_hits(g, m, k, *ray) {
                                lemma_subtree_bounds(nodes, g, node_idx as int, m, k);
                                lemma_tri_hit_in_box(
                                    tri_vertex(g, m, k, 0).position,
                                    tri_vertex(g, m, k, 1).position,
                                    tri_vertex(g, m, k, 2).position,
                                    *ray,
                                    bounds_of(nodes[node_idx as int]),
                                );
                            }
                        }
                    }
                }
            },
            BvhNode::Leaf { bounds, triangle, slot } => {
                if bounds.does_intersect(ray).is_some() {
                    consider_triangle(&self.geometry, triangle.mesh, *slot as usize, ray, hit);
                    proof {
                        let m = triangle.mesh as int;
                        let k = *slot as int;
                        match *hit {
                            Some(h) => {
                                if !(*old(hit) matches Some(hp) && h == hp) {
                                    assert(hit_matches_tri(g, *ray, h, m, k));
                                    assert(subtree_has(nodes, node_idx as int, m, k));
                                }
                            },
                            None => {},
                        }
                    }
                } else {
                    proof {
                        let m = triangle.mesh as int;
                        let k = *slot as int;
                        if tri_hits(g, m, k, *ray) {
                            lemma_subtree_bounds(nodes, g, node_idx as int, m, k);
                            lemma_tri_hit_in_box(
                                tri_vertex(g, m, k, 0).position,
                                tri_vertex(g, m, k, 1).position,
                                tri_vertex(g, m, k, 2).position,
                                *ray,
                                bounds_of(nodes[node_idx as int]),
                            );
                        }
                    }
                }
            },
        }
    }

    /// Closest hit of the ray against the whole scene — by contract the
    /// very hit the exhaustive scan finds, the pruning being pure
    /// optimisation.
    pub fn intersect(&self, ray: &Ray) -> (r: Option<HitInfo>)
        requires
            self.wf(),
            ray.wf(),
        ensures
            r is None <==> misses_all(self.geometry_view(), *ray),
            r matches Some(h) ==> is_closest_hit(self.geometry_view(), *ray, h),
    {
        let mut info: Option<HitInfo> = None;
        self.intersect_recursive(ray, self.root, &mut info);
        proof {
            let g = self.geometry@;
            if info is None {
                assert forall|m: int, k: int| valid_tri(g, m, k)
                    implies !#[trigger] tri_hits(g, m, k, *ray) by {
                    assert(subtree_has(self.nodes@, self.root as int, m, k));
                    if tri_hits(g, m, k, *ray) {
                        assert(hit_t_le_tri(info, g, m, k, *ray));
                    }
                }
            } else {
                let h = info->Some_0;
                assert forall|m: int, k: int|
                    valid_tri(g, m, k) && #[trigger] tri_hits(g, m, k, *ray)
                    implies rat_le_tri(h.t, g, m, k, *ray) by {
                    assert(subtree_has(self.nodes@, self.root as int, m, k));
                    assert(hit_t_le_tri(info, g, m, k, *ray));
                }
                let (m, k) = choose|m: int, k: int|
                    #[trigger] hit_matches_tri(g, *ray, h, m, k)
                        && subtree_has(self.nodes@, self.root as int, m, k);
                assert(!misses_all(g, *ray));
            }
        }
        info
    }
}

} // verus!
