use pbr_core::accelerator::bvh::Bvh;
use pbr_core::accelerator::trivial::Trivial;
use pbr_core::geometry::Ray;
use pbr_core::light::{LightSource, TestLight, VisibilityTest};
use pbr_core::material::{LambertianMaterial, Material};
use pbr_core::rat::Rat;
use pbr_core::scene::{Camera, Mesh, Node, SceneBuilder, TexCoord, Transform, Vertex};
use pbr_core::spectrum::Spectrum;
use pbr_core::texture::Texture;
use pbr_core::vec3::Vec3;
use pbr_core::integrator::{BounceInput, WEIGHT_SCALE};
use pbr_core::integrator::brute_forcer::BruteForcer;
use pbr_core::integrator::path_tracer::{PathBounceInput, PathTracer};
use pbr_core::loader::GltfLoader;

fn v(x: i128, y: i128, z: i128) -> Vec3 {
    Vec3 { x, y, z }
}

fn uv_zero() -> TexCoord {
    TexCoord { u: Rat { num: 0, den: 1 }, v: Rat { num: 0, den: 1 } }
}

fn vert(p: Vec3) -> Vertex {
    Vertex {
        position: p,
        normal: v(0, 0, 1),
        tangent: v(1, 0, 0),
        tex_coords: uv_zero(),
    }
}

fn quad_geometry() -> Vec<(Vec<Vertex>, Vec<u32>)> {
    // two triangles forming the square [0,8]^2 in the z = 0 plane
    let vertices = vec![
        vert(v(0, 0, 0)),
        vert(v(8, 0, 0)),
        vert(v(0, 8, 0)),
        vert(v(8, 8, 0)),
    ];
    let indices: Vec<u32> = vec![0, 1, 2, 2, 1, 3];
    vec![(vertices, indices)]
}

#[test]
fn bvh_matches_linear_scan() {
    let bvh = Bvh::build(quad_geometry());
    let scan = Trivial::build(quad_geometry());

    let rays = [
        Ray { origin: v(1, 1, 4), direction: v(0, 0, -4) },
        Ray { origin: v(7, 7, 4), direction: v(0, 0, -4) },
        Ray { origin: v(3, 3, 4), direction: v(1, 1, -2) },
        Ray { origin: v(20, 20, 4), direction: v(0, 0, -4) },
        Ray { origin: v(1, 1, -4), direction: v(0, 0, -1) },
    ];

    for ray in rays.iter() {
        let a = bvh.intersect(ray);
        let b = scan.intersect(ray);
        match (a, b) {
            (None, None) => {},
            (Some(x), Some(y)) => {
                // same exact hit distance, and the same triangle
                assert_eq!(x.t.num * y.t.den, y.t.num * x.t.den);
                assert_eq!(x.mesh, y.mesh);
                assert_eq!(x.vertices.0, y.vertices.0);
                assert_eq!(x.vertices.1, y.vertices.1);
                assert_eq!(x.vertices.2, y.vertices.2);
            },
            _ => panic!("the hierarchy and the scan disagree"),
        }
    }
}

#[test]
fn spectrum_black_is_additive_identity() {
    let c = Spectrum::constant(5);
    let sum = Spectrum::black().add(c);
    assert_eq!(sum, c);
}

#[test]
fn spectrum_componentwise_algebra() {
    let a = Spectrum { r: 2, g: 3, b: 4 };
    let b = Spectrum { r: 5, g: 6, b: 7 };
    assert_eq!(a.add(b), b.add(a));
    assert_eq!(a.mul(b), b.mul(a));
    assert_eq!(a.mul(b).mul(a), a.mul(b.mul(a)));
    assert_eq!(a.sub(b), Spectrum { r: -3, g: -3, b: -3 });
    assert_eq!(a.scale(3), Spectrum { r: 6, g: 9, b: 12 });
}

#[test]
fn texture_wraps_coordinates() {
    let data: Vec<u8> = vec![
        10, 0, 0, 20, 0, 0, //
        30, 0, 0, 40, 0, 0,
    ];
    let tex = Texture::from_raw_data(2, 2, &data).unwrap();

    // u = 1.5 lands in the second column, v = 0 in the first row
    let s = tex.sample(&TexCoord {
        u: Rat { num: 3, den: 2 },
        v: Rat { num: 0, den: 1 },
    });
    assert_eq!(s.r, 20);

    // a negative coordinate wraps around instead of clamping
    let s2 = tex.sample(&TexCoord {
        u: Rat { num: -1, den: 2 },
        v: Rat { num: 0, den: 1 },
    });
    assert_eq!(s2.r, 20);
}

#[test]
fn texture_rejects_short_buffer() {
    let data: Vec<u8> = vec![1, 2, 3, 4];
    assert!(Texture::<Spectrum>::from_raw_data(2, 2, &data).is_err());
}

#[test]
fn lambertian_brdf_ignores_directions() {
    let m = LambertianMaterial::flat(Spectrum { r: 100, g: 200, b: 300 });
    let uv = uv_zero();
    let a = m.brdf(&uv, &v(1, 0, 5), &v(0, 1, 5));
    let b = m.brdf(&uv, &v(-3, 2, 1), &v(7, 7, 7));
    assert_eq!(a, b);
    assert_eq!(a, Spectrum { r: 100, g: 200, b: 300 });
    assert!(!m.is_delta(&uv));
}

fn build_test_scene() -> pbr_core::scene::Scene {
    let mesh = Mesh {
        vertices: vec![
            vert(v(0, 0, 0)),
            vert(v(8, 0, 0)),
            vert(v(0, 8, 0)),
        ],
        indices: vec![0, 1, 2],
        material: Material::Lambertian(LambertianMaterial::flat(Spectrum::constant(100))),
    };
    let root = Node {
        children: Vec::new(),
        transform: Transform::identity(),
        meshes: vec![mesh],
    };
    let builder = SceneBuilder {
        root,
        camera: Camera {
            position: v(0, 0, 10),
            forward: v(0, 0, -1),
            horizontal: v(1, 0, 0),
            vertical: v(0, 1, 0),
        },
        light_sources: vec![LightSource::Test(TestLight {})],
    };
    builder.build().expect("a one-triangle scene with one light builds")
}

#[test]
fn scene_builds_and_intersects() {
    let scene = build_test_scene();

    let hit = scene.intersect(&Ray { origin: v(1, 1, 4), direction: v(0, 0, -4) });
    assert!(hit.is_some());
    let (sp, mesh) = hit.unwrap();
    assert_eq!(mesh, 0);
    // the hit sits on the triangle's plane
    assert_eq!(sp.position.v.z, 0);

    let miss = scene.intersect(&Ray { origin: v(20, 20, 4), direction: v(0, 0, -4) });
    assert!(miss.is_none());
}

#[test]
fn pick_light_stays_in_range() {
    let scene = build_test_scene();
    for _ in 0..16 {
        let (idx, pmf) = scene.pick_light();
        assert!(idx < 1);
        assert_eq!(pmf.num, 1);
        assert_eq!(pmf.den, 1);
    }
}

#[test]
fn visibility_blocked_by_geometry() {
    let scene = build_test_scene();

    // shadow ray through the triangle: blocked
    let blocked = VisibilityTest::PointInDirection { p: v(1, 1, 4), d: v(0, 0, -4) };
    assert!(!blocked.eval(&scene));

    // shadow ray away from it: free
    let free = VisibilityTest::PointInDirection { p: v(1, 1, 4), d: v(0, 0, 4) };
    assert!(free.eval(&scene));

    // segment reaching exactly the triangle's surface: the hit is at
    // the target distance, so the segment is free
    let exact = VisibilityTest::PointToPoint { p1: v(1, 1, 4), p2: v(1, 1, 0) };
    assert!(exact.eval(&scene));

    // segment stopping short of the triangle: the only hit lies beyond
    // the target, so nothing occludes the segment
    let short = VisibilityTest::PointToPoint { p1: v(1, 1, 4), p2: v(1, 1, 2) };
    assert!(short.eval(&scene));

    // segment whose target lies beyond the triangle: the occluder sits
    // strictly before the target and blocks it
    let occluded = VisibilityTest::PointToPoint { p1: v(1, 1, 4), p2: v(1, 1, -4) };
    assert!(!occluded.eval(&scene));
}

#[test]
fn brute_forcer_escape_collects_background() {
    let scene = build_test_scene();
    let tracer = BruteForcer::new(1, 1);
    assert_eq!(tracer.depth(), 1);
    assert_eq!(tracer.samples_per_pixel(), 1);

    // a ray escaping along the test light's diagonal picks up its
    // full emission: dot((1,1,1), (1,1,1)) == 3
    let inputs = vec![BounceInput {
        ray: Ray { origin: v(0, 0, 10), direction: v(1, 1, 1) },
        sky_uv: uv_zero(),
        weight: Spectrum::constant(WEIGHT_SCALE),
    }];
    let r = tracer.sample_radiance(&scene, &inputs);
    assert_eq!(r, Spectrum::constant(3));
}

#[test]
fn path_tracer_first_bounce_background_rule() {
    let scene = build_test_scene();
    let tracer = PathTracer::new(2, 1);
    assert_eq!(tracer.samples_per_pixel(), 1);

    // camera ray that escapes immediately: exactly the background sum
    let escape = vec![PathBounceInput {
        ray: Ray { origin: v(0, 0, 10), direction: v(1, 1, 1) },
        sky_uv: uv_zero(),
        weight: Spectrum::constant(WEIGHT_SCALE),
        light_dir: v(1, 1, 1),
        light_sky_uv: uv_zero(),
        light_cos: WEIGHT_SCALE,
        delta_cos: WEIGHT_SCALE,
        shadow_origin: v(0, 0, 10),
    }];
    let r = tracer.sample_radiance(&scene, &escape);
    assert_eq!(r, Spectrum::constant(3));

    // an empty path is black
    let none: Vec<PathBounceInput> = Vec::new();
    let r0 = tracer.sample_radiance(&scene, &none);
    assert_eq!(r0, Spectrum::black());
}

#[test]
fn glb_chunk_table_parses() {
    // header: magic, version 2, total length 36; one chunk of 16
    // bytes, type 0x4e4f534a (a JSON chunk)
    let mut data: Vec<u8> = Vec::new();
    data.extend_from_slice(&[0x67, 0x6c, 0x54, 0x46]); // magic
    data.extend_from_slice(&[2, 0, 0, 0]); // version
    data.extend_from_slice(&[36, 0, 0, 0]); // total length
    data.extend_from_slice(&[16, 0, 0, 0]); // chunk length
    data.extend_from_slice(&[0x4a, 0x53, 0x4f, 0x4e]); // chunk type
    data.extend_from_slice(&[0u8; 16]); // payload

    let chunks = GltfLoader::read_glb_chunks(&data).unwrap();
    assert_eq!(chunks.len(), 1);
    assert_eq!(chunks[0].chunk_type, 0x4e4f534a);
    assert_eq!(chunks[0].length, 16);
    assert_eq!(chunks[0].start_pos, 20);

    // a wrong magic word is rejected
    let mut bad = data.clone();
    bad[0] = 0;
    assert!(GltfLoader::read_glb_chunks(&bad).is_err());

    // a truncated chunk is rejected
    let mut short = data.clone();
    short[12] = 64;
    assert!(GltfLoader::read_glb_chunks(&short).is_err());
}

#[test]
fn flatten_translates_positions_but_not_directions() {
    // a child node shifted by (4, 0, 0): positions move, the shading
    // frame (normal and tangent) must not
    let mesh = Mesh {
        vertices: vec![vert(v(0, 0, 0)), vert(v(8, 0, 0)), vert(v(0, 8, 0))],
        indices: vec![0, 1, 2],
        material: Material::Lambertian(LambertianMaterial::flat(Spectrum::constant(100))),
    };
    let mut shifted = Transform::identity();
    shifted.t = v(4, 0, 0);
    let root = Node {
        children: vec![Node { children: Vec::new(), transform: shifted, meshes: vec![mesh] }],
        transform: Transform::identity(),
        meshes: Vec::new(),
    };
    let flat = root.flatten().expect("a shifted triangle flattens");
    assert_eq!(flat.len(), 1);
    let v0 = flat[0].vertices[0];
    assert_eq!(v0.position, v(4, 0, 0));
    assert_eq!(v0.normal, v(0, 0, 1));
    assert_eq!(v0.tangent, v(1, 0, 0));
}

#[test]
fn build_pairs_materials_with_meshes_in_order() {
    // two single-triangle meshes with distinct albedos: the hit's mesh
    // handle must pick the matching material, in flatten order
    let near = Mesh {
        vertices: vec![vert(v(0, 0, 4)), vert(v(8, 0, 4)), vert(v(0, 8, 4))],
        indices: vec![0, 1, 2],
        material: Material::Lambertian(LambertianMaterial::flat(Spectrum::constant(11))),
    };
    let far = Mesh {
        vertices: vec![vert(v(0, 0, 0)), vert(v(8, 0, 0)), vert(v(0, 8, 0))],
        indices: vec![0, 1, 2],
        material: Material::Lambertian(LambertianMaterial::flat(Spectrum::constant(22))),
    };
    let builder = SceneBuilder {
        root: Node {
            children: Vec::new(),
            transform: Transform::identity(),
            meshes: vec![near, far],
        },
        camera: Camera {
            position: v(0, 0, 10),
            forward: v(0, 0, -1),
            horizontal: v(1, 0, 0),
            vertical: v(0, 1, 0),
        },
        light_sources: vec![LightSource::Test(TestLight {})],
    };
    let scene = builder.build().expect("two triangles and one light build");

    // the ray meets the nearer mesh first: handle 0, albedo 11
    let hit = scene.intersect(&Ray { origin: v(1, 1, 8), direction: v(0, 0, -4) });
    let (_, mesh) = hit.expect("the stacked triangles are hit");
    assert_eq!(mesh, 0);
    let uv = TexCoord { u: Rat { num: 0, den: 1 }, v: Rat { num: 0, den: 1 } };
    let b = scene.materials[mesh as usize].brdf(&uv, &v(0, 0, 1), &v(0, 0, 1));
    assert_eq!(b, Spectrum::constant(11));
}
