//! Scene data: vertices, meshes, the transform tree that is flattened
//! into world space, and the built scene that rendering reads.

use vstd::prelude::*;
use rand::Rng;
use crate::COORD_LIMIT;
use crate::accelerator::bvh::Bvh;
use crate::accelerator::{
    Geometry, HitInfo, geometry_wf, hit_matches_tri, is_closest_hit, misses_all,
};
use crate::geometry::{Bary, Ray, SurfacePoint, blend, uv_blend_num, uv_blend_den};
use crate::light::LightSource;
use crate::material::Material;
use crate::rat::Rat;
use crate::texture::TEX_LIMIT;
use crate::vec3::{Vec3, dot_int, in_range, t3};

verus! {

/// A texture coordinate pair; exact rationals, wrapped modulo the image
/// size at sampling time.
#[derive(Clone, Copy, PartialEq, Eq, Structural, Debug)]
pub struct TexCoord {
    pub u: Rat,
    pub v: Rat,
}

impl TexCoord {
    pub open spec fn wf(self) -> bool {
        &&& 0 < self.u.den <= TEX_LIMIT
        &&& -TEX_LIMIT <= self.u.num <= TEX_LIMIT
        &&& 0 < self.v.den <= TEX_LIMIT
        &&& -TEX_LIMIT <= self.v.num <= TEX_LIMIT
    }

    /// The tighter grid vertex attributes keep, so that interpolation
    /// over triangle barycentrics stays exact.
    pub open spec fn vertex_wf(self) -> bool {
        &&& 0 < self.u.den <= 0x1_0000
        &&& -0x1_0000_0000 <= self.u.num <= 0x1_0000_0000
        &&& 0 < self.v.den <= 0x1_0000
        &&& -0x1_0000_0000 <= self.v.num <= 0x1_0000_0000
    }
}

#[derive(Clone, Copy, PartialEq, Eq, Structural, Debug)]
pub struct Vertex {
    pub position: Vec3,
    pub normal: Vec3,
    pub tangent: Vec3,
    pub tex_coords: TexCoord,
}

impl Vertex {
    /// All vertex attributes lie on the scene's coordinate grid.
    pub open spec fn wf(self) -> bool {
        &&& in_range(self.position, COORD_LIMIT as int)
        &&& in_range(self.normal, COORD_LIMIT as int)
        &&& in_range(self.tangent, COORD_LIMIT as int)
        &&& self.tex_coords.vertex_wf()
    }
}

/// One mesh of the scene: vertices, index triples, and its material.
pub struct Mesh {
    pub vertices: Vec<Vertex>,
    pub indices: Vec<u32>,
    pub material: Material,
}

/// An affine map on the grid: three linear rows and a translation.
#[derive(Clone, Copy, PartialEq, Eq, Structural, Debug)]
pub struct Transform {
    pub rx: Vec3,
    pub ry: Vec3,
    pub rz: Vec3,
    pub t: Vec3,
}

/// Largest entry magnitude of a transform's linear part.
pub const TRANSFORM_LIMIT: i128 = 0x1_0000;

impl Transform {
    pub open spec fn wf(self) -> bool {
        &&& in_range(self.rx, TRANSFORM_LIMIT as int)
        &&& in_range(self.ry, TRANSFORM_LIMIT as int)
        &&& in_range(self.rz, TRANSFORM_LIMIT as int)
        &&& in_range(self.t, COORD_LIMIT as int)
    }

    /// The identity map.
    pub fn identity() -> (r: Transform)
        ensures
            r.wf(),
            forall|v: Vec3| #[trigger] affine_image(r, v) == t3(v) && linear_image(r, v) == t3(v),
    {
        let r = Transform {
            rx: Vec3 { x: 1, y: 0, z: 0 },
            ry: Vec3 { x: 0, y: 1, z: 0 },
            rz: Vec3 { x: 0, y: 0, z: 1 },
            t: Vec3 { x: 0, y: 0, z: 0 },
        };
        proof {
            assert forall|v: Vec3|
                #[trigger] affine_image(r, v) == t3(v) && linear_image(r, v) == t3(v) by {
                assert(dot_int(r.rx, v) == 1 * v.x + 0 * v.y + 0 * v.z);
                assert(1 * v.x + 0 * v.y + 0 * v.z == v.x) by (nonlinear_arith);
                assert(dot_int(r.ry, v) == 0 * v.x + 1 * v.y + 0 * v.z);
                assert(0 * v.x + 1 * v.y + 0 * v.z == v.y) by (nonlinear_arith);
                assert(dot_int(r.rz, v) == 0 * v.x + 0 * v.y + 1 * v.z);
                assert(0 * v.x + 0 * v.y + 1 * v.z == v.z) by (nonlinear_arith);
            }
        }
        r
    }

    /// Apply the affine map to a grid point, exactly; the image must
    /// land on the grid again, else the point is rejected.
    pub fn apply(&self, v: &Vec3) -> (r: Option<Vec3>)
        requires
            self.wf(),
            in_range(*v, COORD_LIMIT as int),
        ensures
            r matches Some(w) ==> t3(w) == affine_image(*self, *v) && in_range(w, COORD_LIMIT as int),
            r is None ==> !in_grid(affine_image(*self, *v)),
    {
        proof {
            crate::vec3::lemma_dot_bound(self.rx, *v, TRANSFORM_LIMIT as int, COORD_LIMIT as int);
            crate::vec3::lemma_dot_bound(self.ry, *v, TRANSFORM_LIMIT as int, COORD_LIMIT as int);
            crate::vec3::lemma_dot_bound(self.rz, *v, TRANSFORM_LIMIT as int, COORD_LIMIT as int);
        }
        let x = self.rx.dot(*v) + self.t.x;
        let y = self.ry.dot(*v) + self.t.y;
        let z = self.rz.dot(*v) + self.t.z;
        if -COORD_LIMIT <= x && x <= COORD_LIMIT && -COORD_LIMIT <= y && y <= COORD_LIMIT
            && -COORD_LIMIT <= z && z <= COORD_LIMIT {
            Some(Vec3 { x, y, z })
        } else {
            None
        }
    }

    /// Apply only the linear part to a grid direction (normals and
    /// tangents translate trivially: the translation row is not added);
    /// the image must land on the grid again, else it is rejected.
    pub fn apply_linear(&self, v: &Vec3) -> (r: Option<Vec3>)
        requires
            self.wf(),
            in_range(*v, COORD_LIMIT as int),
        ensures
            r matches Some(w) ==> t3(w) == linear_image(*self, *v) && in_range(w, COORD_LIMIT as int),
            r is None ==> !in_grid(linear_image(*self, *v)),
    {
        proof {
            crate::vec3::lemma_dot_bound(self.rx, *v, TRANSFORM_LIMIT as int, COORD_LIMIT as int);
            crate::vec3::lemma_dot_bound(self.ry, *v, TRANSFORM_LIMIT as int, COORD_LIMIT as int);
            crate::vec3::lemma_dot_bound(self.rz, *v, TRANSFORM_LIMIT as int, COORD_LIMIT as int);
        }
        let x = self.rx.dot(*v);
        let y = self.ry.dot(*v);
        let z = self.rz.dot(*v);
        if -COORD_LIMIT <= x && x <= COORD_LIMIT && -COORD_LIMIT <= y && y <= COORD_LIMIT
            && -COORD_LIMIT <= z && z <= COORD_LIMIT {
            Some(Vec3 { x, y, z })
        } else {
            None
        }
    }
}

/// The image of a grid point under the full affine map.
pub open spec fn affine_image(tr: Transform, v: Vec3) -> (int, int, int) {
    (
        dot_int(tr.rx, v) + tr.t.x,
        dot_int(tr.ry, v) + tr.t.y,
        dot_int(tr.rz, v) + tr.t.z,
    )
}

/// The image of a grid direction under the linear part alone.
pub open spec fn linear_image(tr: Transform, v: Vec3) -> (int, int, int) {
    (dot_int(tr.rx, v), dot_int(tr.ry, v), dot_int(tr.rz, v))
}

/// The triple lies on the coordinate grid.
pub open spec fn in_grid(p: (int, int, int)) -> bool {
    &&& -COORD_LIMIT <= p.0 <= COORD_LIMIT
    &&& -COORD_LIMIT <= p.1 <= COORD_LIMIT
    &&& -COORD_LIMIT <= p.2 <= COORD_LIMIT
}

/// Whether one vertex's mapped attributes all land on the grid: the
/// position under the affine map, the normal and tangent under its
/// linear part.
pub open spec fn vertex_images_in_grid(tr: Transform, v: Vertex) -> bool {
    &&& in_grid(affine_image(tr, v.position))
    &&& in_grid(linear_image(tr, v.normal))
    &&& in_grid(linear_image(tr, v.tangent))
}

/// Every vertex of the list maps onto the grid under `tr`.
pub open spec fn all_images_in_grid(tr: Transform, vs: Seq<Vertex>) -> bool {
    forall|i: int| 0 <= i < vs.len() ==> vertex_images_in_grid(tr, #[trigger] vs[i])
}

/// Apply a transform to every attribute of a mesh, exactly: positions
/// through the affine map, normals and tangents through its linear
/// part only (directions do not translate). `None` exactly when some
/// mapped attribute leaves the grid.
fn transform_mesh(tr: &Transform, mesh: Mesh) -> (r: Option<Mesh>)
    requires
        tr.wf(),
        forall|i: int| 0 <= i < mesh.vertices@.len() ==> (#[trigger] mesh.vertices@[i]).wf(),
    ensures
        r matches Some(out) ==> {
            &&& out.vertices@.len() == mesh.vertices@.len()
            &&& out.indices@ == mesh.indices@
            &&& out.material == mesh.material
            &&& forall|i: int| 0 <= i < out.vertices@.len() ==> {
                &&& (#[trigger] out.vertices@[i]).wf()
                &&& t3(out.vertices@[i].position) == affine_image(*tr, mesh.vertices@[i].position)
                &&& t3(out.vertices@[i].normal) == linear_image(*tr, mesh.vertices@[i].normal)
                &&& t3(out.vertices@[i].tangent) == linear_image(*tr, mesh.vertices@[i].tangent)
                &&& out.vertices@[i].tex_coords == mesh.vertices@[i].tex_coords
            }
        },
        r is None ==> !all_images_in_grid(*tr, mesh.vertices@),
        all_images_in_grid(*tr, mesh.vertices@) ==> r is Some,
{
    let mut out: Vec<Vertex> = Vec::new();
    let mut i: usize = 0;
    let n = mesh.vertices.len();
    while i < n
        invariant
            tr.wf(),
            n == mesh.vertices@.len(),
            i <= n,
            out@.len() == i,
            forall|j: int| 0 <= j < n ==> (#[trigger] mesh.vertices@[j]).wf(),
            forall|j: int| 0 <= j < i ==> {
                &&& (#[trigger] out@[j]).wf()
                &&& t3(out@[j].position) == affine_image(*tr, mesh.vertices@[j].position)
                &&& t3(out@[j].normal) == linear_image(*tr, mesh.vertices@[j].normal)
                &&& t3(out@[j].tangent) == linear_image(*tr, mesh.vertices@[j].tangent)
                &&& out@[j].tex_coords == mesh.vertices@[j].tex_coords
            },
        decreases n - i,
    {
        let v = mesh.vertices[i];
        let p = tr.apply(&v.position);
        let nn = tr.apply_linear(&v.normal);
        let tt = tr.apply_linear(&v.tangent);
        match (p, nn, tt) {
            (Some(position), Some(normal), Some(tangent)) => {
                out.push(Vertex { position, normal, tangent, tex_coords: v.tex_coords });
            },
            _ => {
                proof {
                    assert(!vertex_images_in_grid(*tr, mesh.vertices@[i as int]));
                    assert(!all_images_in_grid(*tr, mesh.vertices@));
                }
                return None;
            },
        }
        i = i + 1;
    }
    let Mesh { vertices: _, indices, material } = mesh;
    Some(Mesh { vertices: out, indices, material })
}

/// A node of the scene graph: a local transform, local meshes, and
/// child nodes. The tree is consumed when flattened.
pub struct Node {
    pub children: Vec<Node>,
    pub transform: Transform,
    pub meshes: Vec<Mesh>,
}

/// `out` is `src` with every position mapped by the affine map, every
/// normal and tangent by its linear part, and all else (indices,
/// material, texture coordinates) unchanged.
pub open spec fn mesh_maps(tr: Transform, src: Mesh, out: Mesh) -> bool {
    &&& out.vertices@.len() == src.vertices@.len()
    &&& out.indices@ == src.indices@
    &&& out.material == src.material
    &&& forall|i: int| 0 <= i < src.vertices@.len() ==> {
        &&& t3((#[trigger] out.vertices@[i]).position) == affine_image(tr, src.vertices@[i].position)
        &&& t3(out.vertices@[i].normal) == linear_image(tr, src.vertices@[i].normal)
        &&& t3(out.vertices@[i].tangent) == linear_image(tr, src.vertices@[i].tangent)
        &&& out.vertices@[i].tex_coords == src.vertices@[i].tex_coords
    }
}

/// `out` is `src`, mesh for mesh in order, each mapped by `tr`.
pub open spec fn list_maps(tr: Transform, src: Seq<Mesh>, out: Seq<Mesh>) -> bool {
    &&& out.len() == src.len()
    &&& forall|i: int| 0 <= i < src.len() ==> mesh_maps(tr, src[i], #[trigger] out[i])
}

/// Concatenation of a list of mesh lists, in order.
pub open spec fn concat_lists(parts: Seq<Seq<Mesh>>) -> Seq<Mesh>
    decreases parts.len(),
{
    if parts.len() == 0 {
        Seq::empty()
    } else {
        concat_lists(parts.drop_last()) + parts.last()
    }
}

/// `out` is the depth-first flatten of the tree under `n`: for each
/// child a flattened part, and `out` is the node's own meshes followed
/// by those parts in order, every mesh mapped by this node's transform.
/// The nesting composes the transforms down each path.
pub open spec fn flattens_to(n: Node, out: Seq<Mesh>) -> bool
    decreases n,
{
    exists|parts: Seq<Seq<Mesh>>| #![trigger parts.len()] {
        &&& parts.len() == n.children@.len()
        &&& (forall|k: int| 0 <= k < parts.len()
            ==> flattens_to(n.children@[k], #[trigger] parts[k]))
        &&& list_maps(n.transform, n.meshes@ + concat_lists(parts), out)
    }
}

/// Exactly when flattening a subtree succeeds: the node's transform is
/// well-formed, every vertex of its own meshes maps onto the grid
/// under it, every child flattens, and everything a child's flatten
/// produces maps onto the grid under this node's transform in turn.
pub open spec fn flatten_ok(n: Node) -> bool
    decreases n,
{
    &&& n.transform.wf()
    &&& forall|i: int| 0 <= i < n.meshes@.len()
        ==> all_images_in_grid(n.transform, (#[trigger] n.meshes@[i]).vertices@)
    &&& forall|k: int| 0 <= k < n.children@.len()
        ==> flatten_ok(#[trigger] n.children@[k])
    &&& forall|k: int, ms: Seq<Mesh>|
        0 <= k < n.children@.len() && #[trigger] flattens_to(n.children@[k], ms)
            ==> forall|j: int| 0 <= j < ms.len()
                ==> all_images_in_grid(n.transform, (#[trigger] ms[j]).vertices@)
}

/// Depth-first flatten of one subtree, in order: the node's own meshes
/// first, then each child's flattened meshes, everything mapped by the
/// node's transform (applied level by level, which composes the path's
/// transforms without ever multiplying matrices). Success is owed on
/// every tree `flatten_ok` admits; `None` otherwise — the transform is
/// not well-formed, or a mapped vertex leaves the grid.
#[verifier::loop_isolation(false)]
fn flatten_node(node: Node) -> (r: Option<Vec<Mesh>>)
    requires
        node.tree_wf(),
    ensures
        r matches Some(ms) ==> {
            &&& forall|i: int| 0 <= i < ms@.len() ==> (#[trigger] ms@[i]).meshes_wf()
            &&& flattens_to(node, ms@)
        },
        flatten_ok(node) ==> r is Some,
    decreases node,
{
    let ghost sm = node.meshes@;
    let ghost kids = node.children@;
    let ghost tr0 = node.transform;
    let Node { children, transform, meshes } = node;
    if !transform_wf_check(&transform) {
        return None;
    }
    proof {
        assert forall|i: int| 0 <= i < meshes@.len() implies (#[trigger] meshes@[i]).vertices_wf() by {
            assert(sm[i].meshes_wf());
        }
        assert forall|i: int| 0 <= i < children@.len() implies (#[trigger] children@[i]).tree_wf() by {
            assert(kids[i].tree_wf());
        }
    }

    let mut result: Vec<Mesh> = Vec::new();
    let ghost mut flat_src: Seq<Mesh> = Seq::empty();

    // the node's own meshes, in order
    let mut ms = meshes;
    while ms.len() > 0
        invariant
            transform.wf(),
            sm == flat_src + ms@,
            forall|i: int| 0 <= i < ms@.len() ==> (#[trigger] ms@[i]).vertices_wf(),
            forall|i: int| 0 <= i < result@.len() ==> (#[trigger] result@[i]).meshes_wf(),
            list_maps(transform, flat_src, result@),
        decreases ms@.len(),
    {
        let ghost before = ms@;
        let mesh = ms.remove(0);
        let ghost msrc = mesh;
        proof {
            assert(flat_src + before =~= (flat_src.push(msrc)) + ms@);
            flat_src = flat_src.push(msrc);
        }
        match transform_mesh(&transform, mesh) {
            Some(m) => {
                result.push(m);
                proof {
                    assert(mesh_maps(transform, msrc, m));
                    assert(list_maps(transform, flat_src, result@));
                }
            },
            None => {
                proof {
                    // a vertex of one of this node's own meshes maps
                    // off the grid, which flatten_ok rules out
                    let at = flat_src.len() - 1;
                    assert(msrc == sm[at]);
                    assert(!all_images_in_grid(transform, sm[at].vertices@));
                }
                return None;
            },
        }
    }
    proof {
        assert(flat_src =~= sm);
    }

    // each child's flattened subtree, lifted through this node's map
    let mut cs = children;
    let ghost mut parts: Seq<Seq<Mesh>> = Seq::empty();
    while cs.len() > 0
        invariant
            transform.wf(),
            parts.len() + cs@.len() == kids.len(),
            cs@ =~= kids.subrange(parts.len() as int, kids.len() as int),
            forall|k: int| 0 <= k < kids.len() ==> (#[trigger] kids[k]).tree_wf(),
            forall|k: int| 0 <= k < parts.len() ==> flattens_to(kids[k], #[trigger] parts[k]),
            flat_src == sm + concat_lists(parts),
            forall|i: int| 0 <= i < result@.len() ==> (#[trigger] result@[i]).meshes_wf(),
            list_maps(transform, flat_src, result@),
        decreases cs@.len(),
    {
        let ghost cs_before = cs@;
        let child = cs.remove(0);
        proof {
            assert(child == kids[parts.len() as int]);
            assert(child.tree_wf());
        }
        let sub = match flatten_node(child) {
            Some(s) => s,
            None => {
                proof {
                    // the child refused, which flatten_ok rules out
                    assert(child == kids[parts.len() as int]);
                    assert(!flatten_ok(child));
                }
                return None;
            },
        };
        let ghost subview = sub@;
        let ghost old_parts = parts;
        proof {
            parts = parts.push(subview);
            assert(parts.drop_last() =~= old_parts);
            assert(concat_lists(parts) == concat_lists(old_parts) + subview);
            assert(sm + concat_lists(parts) =~= (sm + concat_lists(old_parts)) + subview);
        }
        let ghost target_src = sm + concat_lists(parts);

        let mut sub_ms = sub;
        let ghost mut consumed: Seq<Mesh> = Seq::empty();
        while sub_ms.len() > 0
            invariant
                transform.wf(),
                target_src =~= flat_src + sub_ms@,
                subview =~= consumed + sub_ms@,
                forall|i: int| 0 <= i < sub_ms@.len() ==> (#[trigger] sub_ms@[i]).meshes_wf(),
                forall|i: int| 0 <= i < result@.len() ==> (#[trigger] result@[i]).meshes_wf(),
                list_maps(transform, flat_src, result@),
            decreases sub_ms@.len(),
        {
            let ghost before = sub_ms@;
            let mesh = sub_ms.remove(0);
            let ghost msrc = mesh;
            proof {
                assert(flat_src + before =~= (flat_src.push(msrc)) + sub_ms@);
                assert(consumed + before =~= (consumed.push(msrc)) + sub_ms@);
                flat_src = flat_src.push(msrc);
                consumed = consumed.push(msrc);
            }
            match transform_mesh(&transform, mesh) {
                Some(m) => {
                    result.push(m);
                    proof {
                        assert(mesh_maps(transform, msrc, m));
                        assert(list_maps(transform, flat_src, result@));
                    }
                },
                None => {
                    proof {
                        // a vertex of the child's flattened output maps
                        // off the grid under this node's transform,
                        // which flatten_ok rules out
                        let at = consumed.len() - 1;
                        assert(msrc == subview[at]);
                        assert(!all_images_in_grid(transform, subview[at].vertices@));
                        assert(flattens_to(kids[parts.len() - 1], subview));
                    }
                    return None;
                },
            }
        }
        proof {
            assert(flat_src =~= target_src);
        }
    }

    proof {
        assert(parts.len() == kids.len());
        assert(list_maps(tr0, sm + concat_lists(parts), result@));
        assert(flattens_to(node, result@));
    }
    Some(result)
}

impl Node {
    /// Whether every vertex of every mesh of this node is on the grid.
    pub open spec fn vertices_ok(self) -> bool {
        forall|i: int| 0 <= i < self.meshes@.len() ==> (#[trigger] self.meshes@[i]).vertices_wf()
    }

    /// Structural well-formedness of the subtree.
    pub open spec fn tree_wf(self) -> bool
        decreases self,
    {
        &&& self.vertices_ok()
        &&& forall|i: int| 0 <= i < self.children@.len() ==> (#[trigger] self.children@[i]).tree_wf()
    }

    /// Flatten the tree into a flat mesh list, consuming it: exactly
    /// the tree's meshes in depth-first order, each mapped by the
    /// composition of the transforms along its path (`flattens_to`).
    /// Success is owed on every tree `flatten_ok` admits.
    pub fn flatten(self) -> (r: Option<Vec<Mesh>>)
        requires
            self.tree_wf(),
        ensures
            r matches Some(ms) ==> {
                &&& forall|i: int| 0 <= i < ms@.len() ==> (#[trigger] ms@[i]).meshes_wf()
                &&& flattens_to(self, ms@)
            },
            flatten_ok(self) ==> r is Some,
    {
        flatten_node(self)
    }
}

impl Mesh {
    /// Vertices on the grid.
    pub open spec fn vertices_wf(self) -> bool {
        forall|i: int| 0 <= i < self.vertices@.len() ==> (#[trigger] self.vertices@[i]).wf()
    }

    /// Vertices on the grid — the shape a flattened mesh satisfies.
    pub open spec fn meshes_wf(self) -> bool {
        self.vertices_wf()
    }

    /// Index triples in range: what the accelerator requires.
    pub open spec fn indices_wf(self) -> bool {
        &&& self.indices@.len() % 3 == 0
        &&& self.indices@.len() <= 0x7fff_ffff
        &&& self.vertices@.len() <= 0x7fff_ffff
        &&& forall|i: int| 0 <= i < self.indices@.len()
            ==> (#[trigger] self.indices@[i]) < self.vertices@.len()
    }
}

/// Exec check of a transform's well-formedness.
fn transform_wf_check(tr: &Transform) -> (r: bool)
    ensures
        r == tr.wf(),
{
    -TRANSFORM_LIMIT <= tr.rx.x && tr.rx.x <= TRANSFORM_LIMIT
        && -TRANSFORM_LIMIT <= tr.rx.y && tr.rx.y <= TRANSFORM_LIMIT
        && -TRANSFORM_LIMIT <= tr.rx.z && tr.rx.z <= TRANSFORM_LIMIT
        && -TRANSFORM_LIMIT <= tr.ry.x && tr.ry.x <= TRANSFORM_LIMIT
        && -TRANSFORM_LIMIT <= tr.ry.y && tr.ry.y <= TRANSFORM_LIMIT
        && -TRANSFORM_LIMIT <= tr.ry.z && tr.ry.z <= TRANSFORM_LIMIT
        && -TRANSFORM_LIMIT <= tr.rz.x && tr.rz.x <= TRANSFORM_LIMIT
        && -TRANSFORM_LIMIT <= tr.rz.y && tr.rz.y <= TRANSFORM_LIMIT
        && -TRANSFORM_LIMIT <= tr.rz.z && tr.rz.z <= TRANSFORM_LIMIT
        && -COORD_LIMIT <= tr.t.x && tr.t.x <= COORD_LIMIT
        && -COORD_LIMIT <= tr.t.y && tr.t.y <= COORD_LIMIT
        && -COORD_LIMIT <= tr.t.z && tr.t.z <= COORD_LIMIT
}

/// Uniform random index below `n`.
///
/// Relies on `rand::Rng::gen_range` over the half-open range `0..n`:
/// the sampled value is always strictly below `n`.
#[verifier::external_body]
fn sample_index(n: usize) -> (r: usize)
    requires
        n > 0,
    ensures
        r < n,
{
    rand::thread_rng().gen_range(0..n)
}

/// The camera: data only. Generating a ray for a pixel is closed-form
/// floating-point work and stays with the caller.
#[derive(Clone, Copy, PartialEq, Eq, Structural, Debug)]
pub struct Camera {
    pub position: Vec3,
    pub forward: Vec3,
    pub horizontal: Vec3,
    pub vertical: Vec3,
}

/// Everything still to assemble into a scene.
pub struct SceneBuilder {
    pub root: Node,
    pub camera: Camera,
    pub light_sources: Vec<LightSource>,
}

/// A built, immutable scene: the acceleration structure over all
/// triangles, the camera, the lights, and per-mesh materials indexed by
/// the mesh handle hits report.
pub struct Scene {
    pub accelerator: Bvh,
    pub camera: Camera,
    pub light_sources: Vec<LightSource>,
    pub materials: Vec<Material>,
}

impl Scene {
    pub open spec fn geometry_view(self) -> Seq<(Vec<Vertex>, Vec<u32>)> {
        self.accelerator.geometry_view()
    }

    pub open spec fn wf(self) -> bool {
        &&& self.accelerator.wf()
        &&& geometry_wf(self.geometry_view())
        &&& 1 <= self.light_sources@.len() <= 4096
        &&& forall|i: int| 0 <= i < self.light_sources@.len() ==> (#[trigger] self.light_sources@[i]).wf()
        &&& self.materials@.len() == self.geometry_view().len()
        &&& forall|i: int| 0 <= i < self.materials@.len() ==> (#[trigger] self.materials@[i]).wf()
    }

    /// The interpolated surface sample of the closest hit, with the
    /// mesh handle that picks its material. `None` when the ray escapes
    /// the scene, or when the hit's blended normal degenerates to zero
    /// (degenerate geometry is rejected rather than propagated).
    pub fn intersect(&self, ray: &Ray) -> (r: Option<(SurfacePoint, u32)>)
        requires
            self.wf(),
            ray.wf(),
        ensures
            misses_all(self.geometry_view(), *ray) ==> r is None,
            r is None ==> misses_all(self.geometry_view(), *ray)
                || exists|h: HitInfo| #[trigger] is_closest_hit(self.geometry_view(), *ray, h)
                    && hit_normal_degenerate(h),
            r matches Some(p) ==> exists|h: HitInfo|
                #[trigger] is_closest_hit(self.geometry_view(), *ray, h)
                    && p.1 == h.mesh
                    && (p.1 as int) < self.materials@.len()
                    && surface_point_matches(p.0, h),
    {
        match self.accelerator.intersect(ray) {
            Some(info) => {
                proof {
                    let (m, k) = choose|m: int, k: int|
                        #[trigger] hit_matches_tri(self.geometry_view(), *ray, info, m, k);
                    assert(0 <= m < self.geometry_view().len());
                }
                match SurfacePoint::try_interpolate(
                    &info.vertices.0,
                    &info.vertices.1,
                    &info.vertices.2,
                    &info.barycentrics,
                ) {
                    Some(sp) => Some((sp, info.mesh)),
                    None => {
                        proof {
                            assert(is_closest_hit(self.geometry_view(), *ray, info)
                                && hit_normal_degenerate(info));
                        }
                        None
                    },
                }
            },
            None => None,
        }
    }

    /// Pick a light uniformly at random; returns its index and the
    /// probability mass of the pick, exactly one over the light count.
    pub fn pick_light(&self) -> (r: (usize, Rat))
        requires
            self.wf(),
        ensures
            r.0 < self.light_sources@.len(),
            r.1.num == 1,
            r.1.den == self.light_sources@.len(),
            r.1.wf(),
    {
        let idx = sample_index(self.light_sources.len());
        (idx, Rat { num: 1, den: self.light_sources.len() as i128 })
    }

    /// Indices of the lights that contribute when a ray escapes the
    /// scene (all current light kinds do).
    pub fn background_lights(&self) -> (r: Vec<usize>)
        requires
            self.wf(),
        ensures
            r@.len() == self.light_sources@.len(),
            forall|j: int| 0 <= j < r@.len() ==> #[trigger] r@[j] == j,
    {
        let mut out: Vec<usize> = Vec::new();
        let mut i: usize = 0;
        let n = self.light_sources.len();
        while i < n
            invariant
                i <= n,
                n == self.light_sources@.len(),
                out@.len() == i,
                forall|j: int| 0 <= j < i ==> #[trigger] out@[j] == j,
                forall|j: int| 0 <= j < n ==> (#[trigger] self.light_sources@[j]).wf(),
            decreases n - i,
        {
            if self.light_sources[i].is_background() {
                out.push(i);
            }
            i = i + 1;
        }
        out
    }
}

/// The hit's blended normal degenerates to the zero vector, which
/// exact orthogonalisation cannot handle: such hits are rejected.
pub open spec fn hit_normal_degenerate(h: HitInfo) -> bool {
    &&& blend(h.barycentrics, h.vertices.0.normal.x as int, h.vertices.1.normal.x as int,
        h.vertices.2.normal.x as int) == 0
    &&& blend(h.barycentrics, h.vertices.0.normal.y as int, h.vertices.1.normal.y as int,
        h.vertices.2.normal.y as int) == 0
    &&& blend(h.barycentrics, h.vertices.0.normal.z as int, h.vertices.1.normal.z as int,
        h.vertices.2.normal.z as int) == 0
}

/// The surface sample `sp` is the exact interpolation of the hit `h`:
/// position and normal are the barycentric blends of the hit's
/// vertices, the tangent is the blend orthogonalised against that
/// normal, and the texture coordinate is the blended coordinate.
pub open spec fn surface_point_matches(sp: SurfacePoint, h: HitInfo) -> bool {
    let b = h.barycentrics;
    let v1 = h.vertices.0;
    let v2 = h.vertices.1;
    let v3 = h.vertices.2;
    &&& sp.position.den == b.den
    &&& sp.position.v.x == blend(b, v1.position.x as int, v2.position.x as int, v3.position.x as int)
    &&& sp.position.v.y == blend(b, v1.position.y as int, v2.position.y as int, v3.position.y as int)
    &&& sp.position.v.z == blend(b, v1.position.z as int, v2.position.z as int, v3.position.z as int)
    &&& sp.normal.den == b.den
    &&& sp.normal.v.x == blend(b, v1.normal.x as int, v2.normal.x as int, v3.normal.x as int)
    &&& sp.normal.v.y == blend(b, v1.normal.y as int, v2.normal.y as int, v3.normal.y as int)
    &&& sp.normal.v.z == blend(b, v1.normal.z as int, v2.normal.z as int, v3.normal.z as int)
    &&& sp.uv.u.num == uv_blend_num(
        b,
        v1.tex_coords.u.num as int, v1.tex_coords.u.den as int,
        v2.tex_coords.u.num as int, v2.tex_coords.u.den as int,
        v3.tex_coords.u.num as int, v3.tex_coords.u.den as int,
    )
    &&& sp.uv.u.den == uv_blend_den(
        b,
        v1.tex_coords.u.den as int, v2.tex_coords.u.den as int, v3.tex_coords.u.den as int,
    )
    &&& sp.uv.v.num == uv_blend_num(
        b,
        v1.tex_coords.v.num as int, v1.tex_coords.v.den as int,
        v2.tex_coords.v.num as int, v2.tex_coords.v.den as int,
        v3.tex_coords.v.num as int, v3.tex_coords.v.den as int,
    )
    &&& sp.uv.v.den == uv_blend_den(
        b,
        v1.tex_coords.v.den as int, v2.tex_coords.v.den as int, v3.tex_coords.v.den as int,
    )
}

/// Triangle count of the first `n` meshes of a flat list.
pub open spec fn meshes_tris(ms: Seq<Mesh>, n: int) -> int
    decreases n,
{
    if n <= 0 {
        0
    } else {
        meshes_tris(ms, n - 1) + ms[n - 1].indices@.len() / 3
    }
}

/// Prefix triangle counts only grow.
proof fn lemma_meshes_tris_mono(ms: Seq<Mesh>, a: int, b: int)
    requires
        0 <= a <= b,
    ensures
        meshes_tris(ms, a) <= meshes_tris(ms, b),
    decreases b - a,
{
    if a < b {
        lemma_meshes_tris_mono(ms, a, b - 1);
    }
}

/// Exactly when assembling a scene succeeds: the light list is
/// non-empty, bounded and well-formed; the tree flattens; and whatever
/// the flatten produces has well-formed index triples and materials,
/// fits the mesh and triangle caps, and holds at least one triangle.
pub open spec fn build_inputs_ok(b: SceneBuilder) -> bool {
    &&& 1 <= b.light_sources@.len() <= 4096
    &&& forall|i: int| 0 <= i < b.light_sources@.len() ==> (#[trigger] b.light_sources@[i]).wf()
    &&& flatten_ok(b.root)
    &&& forall|ms: Seq<Mesh>| #[trigger] flattens_to(b.root, ms) ==> {
        &&& ms.len() <= 0x7fff_fffe
        &&& (forall|j: int| 0 <= j < ms.len()
            ==> (#[trigger] ms[j]).indices_wf() && ms[j].material.wf())
        &&& 1 <= meshes_tris(ms, ms.len() as int) <= 0x1000_0000
    }
}

impl SceneBuilder {
    /// Assemble the scene: flatten the transform tree, validate every
    /// mesh (index triples in range, at least one triangle, at least
    /// one light — the preconditions the core owes the renderer), build
    /// the accelerator, and split materials off parallel to the meshes.
    /// Success is owed on every input `build_inputs_ok` admits; `None`
    /// when the input violates any of those conditions.
    ///
    /// On success the camera and the lights pass through unchanged, and
    /// the materials sit parallel to the accelerator's meshes: for the
    /// flattened mesh list of the tree, in order, entry `i` of the
    /// geometry is mesh `i`'s vertices and indices, and `materials[i]`
    /// is mesh `i`'s material — the pairing every hit's mesh handle
    /// relies on.
    #[verifier::loop_isolation(false)]
    pub fn build(self) -> (r: Option<Scene>)
        requires
            self.root.tree_wf(),
        ensures
            r matches Some(scene) ==> {
                &&& scene.wf()
                &&& scene.camera == self.camera
                &&& scene.light_sources@ == self.light_sources@
                &&& exists|flat: Seq<Mesh>| #![trigger flattens_to(self.root, flat)] {
                    &&& flattens_to(self.root, flat)
                    &&& flat.len() == scene.materials@.len()
                    &&& flat.len() == scene.geometry_view().len()
                    &&& forall|i: int| 0 <= i < flat.len() ==> {
                        &&& (#[trigger] scene.geometry_view()[i]).0@ == flat[i].vertices@
                        &&& scene.geometry_view()[i].1@ == flat[i].indices@
                        &&& scene.materials@[i] == flat[i].material
                    }
                }
            },
            !(1 <= self.light_sources@.len() <= 4096) ==> r is None,
            build_inputs_ok(self) ==> r is Some,
    {
        if self.light_sources.len() < 1 || self.light_sources.len() > 4096 {
            return None;
        }
        let mut i: usize = 0;
        let n_lights = self.light_sources.len();
        while i < n_lights
            invariant
                i <= n_lights,
                n_lights == self.light_sources@.len(),
                forall|j: int| 0 <= j < i ==> (#[trigger] self.light_sources@[j]).wf(),
            decreases n_lights - i,
        {
            if !light_wf_check(&self.light_sources[i]) {
                return None;
            }
            i = i + 1;
        }

        let meshes = match self.root.flatten() {
            Some(ms) => ms,
            None => {
                return None;
            },
        };
        let ghost original = meshes@;

        let mut geometry: Geometry = Vec::new();
        let mut materials: Vec<Material> = Vec::new();
        let mut total_tris: usize = 0;
        let ghost mut flat: Seq<Mesh> = Seq::empty();
        let mut ms = meshes;
        // consume the flat list front to back, so geometry entry i and
        // material i come from flattened mesh i
        while ms.len() > 0
            invariant
                original =~= flat + ms@,
                forall|j: int| 0 <= j < original.len() ==> (#[trigger] original[j]).meshes_wf(),
                geometry@.len() == materials@.len(),
                geometry@.len() <= 0x7fff_ffff,
                geometry_wf(geometry@),
                forall|j: int| 0 <= j < materials@.len() ==> (#[trigger] materials@[j]).wf(),
                total_tris as int == Bvh::tris_before(geometry@, geometry@.len() as int),
                total_tris as int == meshes_tris(original, flat.len() as int),
                total_tris <= 0x1000_0000,
                flat.len() == geometry@.len(),
                forall|i: int| 0 <= i < flat.len() ==> {
                    &&& (#[trigger] geometry@[i]).0@ == flat[i].vertices@
                    &&& geometry@[i].1@ == flat[i].indices@
                    &&& materials@[i] == flat[i].material
                },
            decreases ms@.len(),
        {
            let ghost ms_before = ms@;
            let mesh = ms.remove(0);
            proof {
                assert(mesh == original[flat.len() as int]);
                assert(original =~= (flat.push(mesh)) + ms@);
                if build_inputs_ok(self) {
                    lemma_meshes_tris_mono(original, (flat.len() + 1) as int, original.len() as int);
                }
            }
            if !mesh_indices_check(&mesh) {
                return None;
            }
            if !material_wf_check(&mesh.material) {
                return None;
            }
            let tris = mesh.indices.len() / 3;
            if geometry.len() >= 0x7fff_ffff || tris > 0x1000_0000
                || total_tris > 0x1000_0000 - tris {
                return None;
            }
            let ghost before = geometry@;
            proof {
                flat = flat.push(mesh);
            }
            materials.push(mesh.material);
            geometry.push((mesh.vertices, mesh.indices));
            total_tris = total_tris + tris;
            proof {
                assert(geometry@.subrange(0, before.len() as int) =~= before);
                lemma_tris_before_push(before, geometry@);
            }
        }
        proof {
            assert(flat =~= original);
        }
        if total_tris < 1 {
            return None;
        }

        let accelerator = Bvh::build(geometry);
        Some(Scene {
            accelerator,
            camera: self.camera,
            light_sources: self.light_sources,
            materials,
        })
    }
}

/// Pushing one mesh extends the triangle count by that mesh's triples.
proof fn lemma_tris_before_push(before: Seq<(Vec<Vertex>, Vec<u32>)>, after: Seq<(Vec<Vertex>, Vec<u32>)>)
    requires
        after.len() == before.len() + 1,
        forall|j: int| 0 <= j < before.len() ==> after[j] == before[j],
    ensures
        Bvh::tris_before(after, after.len() as int)
            == Bvh::tris_before(before, before.len() as int) + after[after.len() - 1].1@.len() / 3,
{
    lemma_tris_before_frame(before, after, before.len() as int);
}

/// Triangle prefix counts only read the shared prefix.
proof fn lemma_tris_before_frame(s1: Seq<(Vec<Vertex>, Vec<u32>)>, s2: Seq<(Vec<Vertex>, Vec<u32>)>, m: int)
    requires
        0 <= m <= s1.len(),
        m <= s2.len(),
        forall|j: int| 0 <= j < m ==> s2[j] == s1[j],
    ensures
        Bvh::tris_before(s2, m) == Bvh::tris_before(s1, m),
    decreases m,
{
    if m > 0 {
        lemma_tris_before_frame(s1, s2, m - 1);
    }
}

/// Exec check of one mesh's index structure.
fn mesh_indices_check(mesh: &Mesh) -> (r: bool)
    ensures
        r == mesh.indices_wf(),
{
    if mesh.indices.len() % 3 != 0 || mesh.indices.len() > 0x7fff_ffff
        || mesh.vertices.len() > 0x7fff_ffff {
        return false;
    }
    let mut i: usize = 0;
    let n = mesh.indices.len();
    while i < n
        invariant
            i <= n,
            n == mesh.indices@.len(),
            forall|j: int| 0 <= j < i ==> (#[trigger] mesh.indices@[j]) < mesh.vertices@.len(),
        decreases n - i,
    {
        if mesh.indices[i] as usize >= mesh.vertices.len() {
            return false;
        }
        i = i + 1;
    }
    true
}

/// Exec check of a light's well-formedness.
fn light_wf_check(l: &LightSource) -> (r: bool)
    ensures
        r == l.wf(),
{
    match l {
        LightSource::Test(_) => true,
        LightSource::Directional(d) => {
            -COORD_LIMIT <= d.neg_direction.x && d.neg_direction.x <= COORD_LIMIT
                && -COORD_LIMIT <= d.neg_direction.y && d.neg_direction.y <= COORD_LIMIT
                && -COORD_LIMIT <= d.neg_direction.z && d.neg_direction.z <= COORD_LIMIT
                && !(d.neg_direction.x == 0 && d.neg_direction.y == 0 && d.neg_direction.z == 0)
                && 0 <= d.irradiance.r && d.irradiance.r <= crate::light::EMISSION_LIMIT
                && 0 <= d.irradiance.g && d.irradiance.g <= crate::light::EMISSION_LIMIT
                && 0 <= d.irradiance.b && d.irradiance.b <= crate::light::EMISSION_LIMIT
        },
        LightSource::SkySphere(s) => s.gamut_check(),
    }
}

/// Exec check of a material's well-formedness.
fn material_wf_check(m: &Material) -> (r: bool)
    ensures
        r == m.wf(),
{
    match m {
        Material::Lambertian(l) => l.gamut_check(),
    }
}

} // verus!
