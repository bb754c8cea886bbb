use pbr_core::geometry::{Bounds, Ray, SurfacePoint, triangle_centroid, triangle_intersect, Bary};
use pbr_core::rat::Rat;
use pbr_core::scene::{TexCoord, Vertex};
use pbr_core::vec3::Vec3;

fn v(x: i128, y: i128, z: i128) -> Vec3 {
    Vec3 { x, y, z }
}

fn uv_zero() -> TexCoord {
    TexCoord { u: Rat { num: 0, den: 1 }, v: Rat { num: 0, den: 1 } }
}

fn vert(p: Vec3, n: Vec3, t: Vec3) -> Vertex {
    Vertex { position: p, normal: n, tangent: t, tex_coords: uv_zero() }
}

// the canonical unit right triangle, scaled by four onto the integer
// grid; parameters and weights are compared as exact rationals

#[test]
fn triangle_intersect_hits() {
    let result = triangle_intersect(
        &v(0, 0, 0),
        &v(4, 0, 0),
        &v(0, 4, 0),
        &Ray { origin: v(1, 1, 4), direction: v(0, 0, -4) },
    );

    assert!(result.is_some());
    let (t, b) = result.unwrap();

    // t == 1
    assert_eq!(t.num, t.den);
    assert!(t.den > 0);

    // weights (1/2, 1/4, 1/4) of (p1, p2, p3)
    assert_eq!(2 * b.b1, b.den);
    assert_eq!(4 * b.b2, b.den);
    assert_eq!(4 * b.b3, b.den);
    assert_eq!(b.b1 + b.b2 + b.b3, b.den);
}

#[test]
fn triangle_intersect_miss_dir_away() {
    let result = triangle_intersect(
        &v(0, 0, 0),
        &v(4, 0, 0),
        &v(0, 4, 0),
        &Ray { origin: v(1, 1, 4), direction: v(0, 0, 4) },
    );
    assert!(result.is_none());
}

#[test]
fn triangle_intersect_miss_origin_behind() {
    let result = triangle_intersect(
        &v(0, 0, 0),
        &v(4, 0, 0),
        &v(0, 4, 0),
        &Ray { origin: v(1, 1, -4), direction: v(0, 0, -4) },
    );
    assert!(result.is_none());
}

#[test]
fn triangle_intersect_miss_outside() {
    let result = triangle_intersect(
        &v(0, 0, 0),
        &v(4, 0, 0),
        &v(0, 4, 0),
        &Ray { origin: v(4, 4, 4), direction: v(0, 0, -4) },
    );
    assert!(result.is_none());
}

#[test]
fn surface_point_interpolate_flat() {
    let normal = v(0, 0, 1);
    let tangent = v(1, 0, 0);
    let v1 = vert(v(0, 0, 0), normal, tangent);
    let v2 = vert(v(4, 0, 0), normal, tangent);
    let v3 = vert(v(0, 4, 0), normal, tangent);
    let b = Bary { b1: 2, b2: 1, b3: 1, den: 4 };

    let sp = SurfacePoint::interpolate(&v1, &v2, &v3, &b);

    // position (1, 1, 0) over 4: the barycentric combination
    assert_eq!(sp.position.den, 4);
    assert_eq!(sp.position.v.x, 4);
    assert_eq!(sp.position.v.y, 4);
    assert_eq!(sp.position.v.z, 0);

    // the shared normal comes back unchanged
    assert_eq!(sp.normal.v.x, sp.normal.den * normal.x);
    assert_eq!(sp.normal.v.y, sp.normal.den * normal.y);
    assert_eq!(sp.normal.v.z, sp.normal.den * normal.z);

    // and so does the shared tangent (it is orthogonal to the normal)
    assert_eq!(sp.tangent.v.x, sp.tangent.den * tangent.x);
    assert_eq!(sp.tangent.v.y, sp.tangent.den * tangent.y);
    assert_eq!(sp.tangent.v.z, sp.tangent.den * tangent.z);
}

#[test]
fn bounds_does_intersect_hit_front() {
    let bounds = Bounds::around_points(&vec![v(1, 1, 1), v(2, 2, 2)]);
    let ray = Ray { origin: v(0, 0, 0), direction: v(1, 1, 1) };

    let result = bounds.does_intersect(&ray);
    assert!(result.is_some());

    let (tmin, tmax) = result.unwrap();
    // entry at (1,1,1): t == 1; exit at (2,2,2): t == 2
    assert_eq!(tmin.num, tmin.den);
    assert_eq!(tmax.num, 2 * tmax.den);
}

#[test]
fn bounds_does_intersect_hit_back() {
    let bounds = Bounds::around_points(&vec![v(1, 1, 1), v(2, 2, 2)]);
    let ray = Ray { origin: v(3, 3, 3), direction: v(-1, -1, -1) };

    let result = bounds.does_intersect(&ray);
    assert!(result.is_some());

    let (tmin, tmax) = result.unwrap();
    assert_eq!(tmin.num, tmin.den);
    assert_eq!(tmax.num, 2 * tmax.den);
}

#[test]
fn bounds_interval_brackets_origin_inside() {
    let bounds = Bounds::around_points(&vec![v(-1, -1, -1), v(2, 2, 2)]);
    let ray = Ray { origin: v(0, 0, 0), direction: v(1, 0, 0) };
    let (tmin, tmax) = bounds.does_intersect(&ray).unwrap();
    // the origin is inside, so the interval brackets zero
    assert!(tmin.num <= 0);
    assert!(tmax.num >= 0);
    assert!(bounds.contains_point(&v(0, 0, 0)));
}

#[test]
fn triangle_centroid_uses_all_corners() {
    let c = triangle_centroid(&v(0, 0, 0), &v(3, 0, 0), &v(0, 6, 0));
    // three times the mean of the three distinct corners
    assert_eq!(c.x, 3);
    assert_eq!(c.y, 6);
    assert_eq!(c.z, 0);
    // and not three times any single corner
    assert!((c.x, c.y, c.z) != (0, 0, 0));
    assert!((c.x, c.y, c.z) != (9, 0, 0));
}
