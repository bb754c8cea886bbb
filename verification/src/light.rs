//! Light sources: a closed set of emitters (directional sun, sky
//! sphere, test light) with exact emission values, plus the visibility
//! tests integrators fire through the accelerator.
//!
//! Direction sampling over the hemisphere is transcendental, so sampled
//! directions — and the equirectangular texture coordinate of a
//! direction — are taken as arguments; probability densities are
//! carried scaled by pi, which makes the hemisphere densities exact
//! rationals (one half for a uniform hemisphere).

use vstd::prelude::*;
use crate::accelerator::{is_closest_hit, misses_all};
use crate::geometry::Ray;
use crate::rat::Rat;
use crate::scene::{Scene, TexCoord};
use crate::spectrum::{Spectrum, in_gamut};
use crate::texture::{Texture, wrap_index};
use crate::vec3::{Vec3, dot_int, in_range};
use crate::COORD_LIMIT;

verus! {

/// Largest emission channel a light may carry.
pub const EMISSION_LIMIT: i128 = 0x100_0000_0000;

/// A shadow query: either the segment between two points must be free,
/// or a ray must escape the scene entirely (for lights at infinity).
#[derive(Clone, Copy, PartialEq, Eq, Structural, Debug)]
pub enum VisibilityTest {
    PointToPoint { p1: Vec3, p2: Vec3 },
    PointInDirection { p: Vec3, d: Vec3 },
}

impl VisibilityTest {
    pub open spec fn wf(self) -> bool {
        match self {
            VisibilityTest::PointToPoint { p1, p2 } => {
                &&& in_range(p1, COORD_LIMIT as int)
                &&& in_range(p2, COORD_LIMIT as int)
                &&& p1 != p2
            },
            VisibilityTest::PointInDirection { p, d } => {
                &&& in_range(p, COORD_LIMIT as int)
                &&& in_range(d, COORD_LIMIT as int)
                &&& !(d.x == 0 && d.y == 0 && d.z == 0)
            },
        }
    }

    /// The shadow ray of the test: toward the target (which then sits
    /// at parameter one), or along the free direction.
    pub open spec fn shadow_ray(self) -> Ray {
        match self {
            VisibilityTest::PointToPoint { p1, p2 } => Ray {
                origin: p1,
                direction: Vec3 {
                    x: (p2.x - p1.x) as i128,
                    y: (p2.y - p1.y) as i128,
                    z: (p2.z - p1.z) as i128,
                },
            },
            VisibilityTest::PointInDirection { p, d } => Ray { origin: p, direction: d },
        }
    }

    /// Fire the shadow ray through the accelerator. A point-to-point
    /// test passes exactly when the segment to the target is free: no
    /// hit at all, or the closest hit at or beyond the target (which
    /// sits at parameter one). A directional test passes exactly when
    /// the ray escapes the scene.
    pub fn eval(self, scene: &Scene) -> (r: bool)
        requires
            self.wf(),
            scene.wf(),
        ensures
            self matches VisibilityTest::PointInDirection { p, d }
                ==> (r <==> misses_all(scene.geometry_view(), self.shadow_ray())),
            self matches VisibilityTest::PointToPoint { p1, p2 }
                ==> (r <==> (misses_all(scene.geometry_view(), self.shadow_ray())
                    || exists|h: crate::accelerator::HitInfo|
                        #[trigger] is_closest_hit(scene.geometry_view(), self.shadow_ray(), h)
                            && h.t.num >= h.t.den)),
    {
        match self {
            VisibilityTest::PointToPoint { p1, p2 } => {
                let direction = p2.sub(p1);
                let ray = Ray { origin: p1, direction };
                match scene.accelerator.intersect(&ray) {
                    Some(info) => {
                        let target = Rat::new(1, 1);
                        let visible = target.le(info.t);
                        proof {
                            if visible {
                                assert(is_closest_hit(scene.geometry_view(), ray, info)
                                    && info.t.num >= info.t.den);
                            } else {
                                assert forall|h: crate::accelerator::HitInfo|
                                    #[trigger] is_closest_hit(scene.geometry_view(), ray, h)
                                    implies !(h.t.num >= h.t.den) by {
                                    crate::accelerator::lemma_closest_hit_same_t(
                                        scene.geometry_view(), ray, h, info);
                                    assert(h.t.num * info.t.den == info.t.num * h.t.den);
                                    assert(!(h.t.num >= h.t.den)) by (nonlinear_arith)
                                        requires
                                            h.t.num * info.t.den == info.t.num * h.t.den,
                                            1 * info.t.num < info.t.den * 1,
                                            h.t.wf(),
                                            info.t.wf();
                                }
                                let (m, k) = choose|m: int, k: int|
                                    #[trigger] crate::accelerator::hit_matches_tri(
                                        scene.geometry_view(), ray, info, m, k);
                                assert(!misses_all(scene.geometry_view(), ray));
                            }
                        }
                        visible
                    },
                    None => true,
                }
            },
            VisibilityTest::PointInDirection { p, d } => {
                let ray = Ray { origin: p, direction: d };
                scene.accelerator.intersect(&ray).is_none()
            },
        }
    }
}

/// What a light hands an integrator: its radiance along a sampled
/// direction, the density of that sample (scaled by pi; one for delta
/// lights), and the shadow test that guards the contribution.
pub struct RadianceSample {
    pub radiance: Spectrum,
    pub direction: Vec3,
    pub pdf_times_pi: Rat,
    pub visibility_test: VisibilityTest,
}

/// Sun-like emitter: one fixed incoming direction, constant irradiance.
/// A delta light — it cannot be hit, only sampled.
pub struct DirectionalLight {
    pub neg_direction: Vec3,
    pub irradiance: Spectrum,
}

/// Environment light: emission looked up in an equirectangular texture.
/// The angular mapping from a direction to the texture coordinate is
/// transcendental and supplied by the caller alongside the direction.
pub struct SkySphere {
    texture: Texture<Spectrum>,
}

impl SkySphere {
    pub fn new(texture: Texture<Spectrum>) -> (r: SkySphere)
        ensures
            r.texture_spec() == texture,
    {
        SkySphere { texture }
    }

    pub closed spec fn texture_spec(self) -> Texture<Spectrum> {
        self.texture
    }

    /// Exec check that the texture is well-formed and every texel is a
    /// bounded, non-negative emission value.
    pub fn gamut_check(&self) -> (r: bool)
        ensures
            r == (self.texture_spec().wf()
                && forall|i: int| 0 <= i < self.texture_spec().data_view().len() ==> {
                    &&& in_gamut(#[trigger] self.texture_spec().data_view()[i], EMISSION_LIMIT as int)
                    &&& self.texture_spec().data_view()[i].r >= 0
                    &&& self.texture_spec().data_view()[i].g >= 0
                    &&& self.texture_spec().data_view()[i].b >= 0
                }),
    {
        self.texture.gamut_check(EMISSION_LIMIT)
    }
}

/// Fixed synthetic diagnostic light: white radiance falling off with
/// the angle to the (1, 1, 1) diagonal (unnormalised, so the value is
/// the cosine scaled by the product of the two lengths).
pub struct TestLight {}

pub enum LightSource {
    Test(TestLight),
    Directional(DirectionalLight),
    SkySphere(SkySphere),
}

/// Emission of the test light along `dir`.
pub open spec fn test_emission(dir: Vec3) -> int {
    let c = dot_int(dir, Vec3 { x: 1, y: 1, z: 1 });
    if c >= 0 { c } else { 0 }
}

impl LightSource {
    pub open spec fn wf(self) -> bool {
        match self {
            LightSource::Test(_) => true,
            LightSource::Directional(l) => {
                &&& in_range(l.neg_direction, COORD_LIMIT as int)
                &&& !(l.neg_direction.x == 0 && l.neg_direction.y == 0 && l.neg_direction.z == 0)
                &&& in_gamut(l.irradiance, EMISSION_LIMIT as int)
                &&& l.irradiance.r >= 0 && l.irradiance.g >= 0 && l.irradiance.b >= 0
            },
            LightSource::SkySphere(s) => {
                &&& s.texture_spec().wf()
                &&& forall|i: int| 0 <= i < s.texture_spec().data_view().len() ==> {
                    &&& in_gamut(#[trigger] s.texture_spec().data_view()[i], EMISSION_LIMIT as int)
                    &&& s.texture_spec().data_view()[i].r >= 0
                    &&& s.texture_spec().data_view()[i].g >= 0
                    &&& s.texture_spec().data_view()[i].b >= 0
                }
            },
        }
    }

    /// Mathematical emission value of the light along `dir`, with
    /// `sky_uv` standing for the equirectangular coordinate of `dir`.
    pub open spec fn emission_spec(self, dir: Vec3, sky_uv: TexCoord) -> (int, int, int) {
        match self {
            LightSource::Test(_) => (test_emission(dir), test_emission(dir), test_emission(dir)),
            LightSource::Directional(_) => (0, 0, 0),
            LightSource::SkySphere(s) => {
                let px = s.texture_spec().data_view()[
                    wrap_index(sky_uv.v, s.texture_spec().height_spec())
                        * s.texture_spec().width_spec()
                        + wrap_index(sky_uv.u, s.texture_spec().width_spec())
                ];
                (px.r as int, px.g as int, px.b as int)
            },
        }
    }

    /// Radiance arriving from `dir`. Directional lights emit nothing
    /// here (they are sampled, never hit); the sky looks its texture up
    /// at the caller-computed equirectangular coordinate of `dir`.
    pub fn emission(&self, dir: &Vec3, sky_uv: &TexCoord) -> (r: Spectrum)
        requires
            self.wf(),
            in_range(*dir, 2 * COORD_LIMIT as int),
            sky_uv.wf(),
        ensures
            (r.r as int, r.g as int, r.b as int) == self.emission_spec(*dir, *sky_uv),
            r.r >= 0 && r.g >= 0 && r.b >= 0,
            in_gamut(r, EMISSION_LIMIT as int),
    {
        match self {
            LightSource::Test(_) => {
                let c = dir.dot(Vec3 { x: 1, y: 1, z: 1 });
                proof {
                    crate::vec3::lemma_dot_bound(*dir, Vec3 { x: 1, y: 1, z: 1 }, 512, 1);
                }
                let e = if c >= 0 { c } else { 0 };
                Spectrum { r: e, g: e, b: e }
            },
            LightSource::Directional(_) => Spectrum::black(),
            LightSource::SkySphere(s) => s.texture.sample(sky_uv),
        }
    }

    /// Sample an incident direction. The caller draws the hemisphere
    /// sample `sampled_dir` (and its equirectangular coordinate for sky
    /// lookups); delta lights ignore it and return their own direction.
    /// The density comes back scaled by pi: one half for the uniform
    /// hemisphere, one for the delta light.
    pub fn sample(&self, shadow_origin: Vec3, sampled_dir: Vec3, sky_uv: &TexCoord) -> (r: RadianceSample)
        requires
            self.wf(),
            in_range(shadow_origin, COORD_LIMIT as int),
            in_range(sampled_dir, COORD_LIMIT as int),
            !(sampled_dir.x == 0 && sampled_dir.y == 0 && sampled_dir.z == 0),
            sky_uv.wf(),
        ensures
            r.visibility_test == (VisibilityTest::PointInDirection {
                p: shadow_origin,
                d: r.direction,
            }),
            r.visibility_test.wf(),
            r.pdf_times_pi.wf(),
            r.radiance.r >= 0 && r.radiance.g >= 0 && r.radiance.b >= 0,
            in_gamut(r.radiance, EMISSION_LIMIT as int),
            match self {
                LightSource::Test(_) => {
                    &&& r.direction == sampled_dir
                    &&& r.pdf_times_pi == (Rat { num: 1, den: 2 })
                    &&& (r.radiance.r as int, r.radiance.g as int, r.radiance.b as int)
                        == self.emission_spec(sampled_dir, *sky_uv)
                },
                LightSource::Directional(l) => {
                    &&& r.direction == l.neg_direction
                    &&& r.pdf_times_pi == (Rat { num: 1, den: 1 })
                    &&& r.radiance == l.irradiance
                },
                LightSource::SkySphere(_) => {
                    &&& r.direction == sampled_dir
                    &&& r.pdf_times_pi == (Rat { num: 1, den: 2 })
                    &&& (r.radiance.r as int, r.radiance.g as int, r.radiance.b as int)
                        == self.emission_spec(sampled_dir, *sky_uv)
                },
            },
    {
        match self {
            LightSource::Test(_) => {
                let radiance = self.emission(&sampled_dir, sky_uv);
                RadianceSample {
                    radiance,
                    direction: sampled_dir,
                    pdf_times_pi: Rat { num: 1, den: 2 },
                    visibility_test: VisibilityTest::PointInDirection {
                        p: shadow_origin,
                        d: sampled_dir,
                    },
                }
            },
            LightSource::Directional(l) => RadianceSample {
                radiance: l.irradiance,
                direction: l.neg_direction,
                pdf_times_pi: Rat { num: 1, den: 1 },
                visibility_test: VisibilityTest::PointInDirection {
                    p: shadow_origin,
                    d: l.neg_direction,
                },
            },
            LightSource::SkySphere(_) => {
                let radiance = self.emission(&sampled_dir, sky_uv);
                RadianceSample {
                    radiance,
                    direction: sampled_dir,
                    pdf_times_pi: Rat { num: 1, den: 2 },
                    visibility_test: VisibilityTest::PointInDirection {
                        p: shadow_origin,
                        d: sampled_dir,
                    },
                }
            },
        }
    }

    /// Whether the light is a Dirac delta (a single direction, not a
    /// finite density): only the directional light is.
    pub fn is_delta(&self) -> (r: bool)
        ensures
            r == (self is Directional),
    {
        match self {
            LightSource::Directional(_) => true,
            _ => false,
        }
    }

    /// All of these lights live at infinity: each contributes when a
    /// ray escapes the scene.
    pub fn is_background(&self) -> (r: bool)
        ensures
            r == true,
    {
        match self {
            LightSource::Test(_) => true,
            LightSource::Directional(_) => true,
            LightSource::SkySphere(_) => true,
        }
    }
}

} // verus!
