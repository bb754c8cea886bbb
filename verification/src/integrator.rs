//! Monte Carlo integrators and the exact pieces they are built from.
//!
//! The transcendental parts of sampling (hemisphere maps, facet maps,
//! the equirectangular direction-to-texture mapping, and ray
//! continuation in world space) are drawn by the caller and handed in
//! per bounce as plain values; everything the integrators then decide
//! and accumulate — termination at the depth cap, which escape adds
//! which background emission, visibility, reflectance, and the
//! throughput updates — is verified exact, fixed-point arithmetic.

pub mod brute_forcer;
pub mod path_tracer;

use vstd::prelude::*;
use crate::accelerator::HitInfo;
use crate::geometry::{Ray, uv_blend_num, uv_blend_den};
use crate::light::{LightSource, EMISSION_LIMIT};
use crate::material::ALBEDO_LIMIT;
use crate::rat::Rat;
use crate::scene::{Scene, TexCoord};
use crate::spectrum::Spectrum;
use crate::vec3::{Vec3, t3_add};

verus! {

/// Fixed-point scale of sample weights (a weight of one).
pub const WEIGHT_SCALE: i128 = 0x1000;

/// The divisor of one attenuation step: the reflectance scale times
/// the weight scale (`ALBEDO_LIMIT * WEIGHT_SCALE`).
pub const ATTEN_DIV: i128 = 0x1000_0000;

/// Largest radiance channel the accumulators may reach.
pub const RADIANCE_LIMIT: i128 = 0x1_0000_0000_0000_0000;

/// One bounce worth of caller-drawn sampling data: the ray to trace,
/// the equirectangular coordinate of its direction (for sky lookups on
/// escape), and the BRDF-sample weight `cos(theta) / (pi * pdf)` of the
/// continuation, in fixed point.
#[derive(Clone, Copy)]
pub struct BounceInput {
    pub ray: Ray,
    pub sky_uv: TexCoord,
    pub weight: Spectrum,
}

pub open spec fn bounce_input_wf(b: BounceInput) -> bool {
    &&& b.ray.wf()
    &&& b.sky_uv.wf()
    &&& 0 <= b.weight.r <= WEIGHT_SCALE
    &&& 0 <= b.weight.g <= WEIGHT_SCALE
    &&& 0 <= b.weight.b <= WEIGHT_SCALE
}

pub open spec fn inputs_wf(s: Seq<BounceInput>) -> bool {
    forall|i: int| 0 <= i < s.len() ==> bounce_input_wf(#[trigger] s[i])
}

/// Sum of the background lights' emission along an escaping ray.
pub open spec fn background_sum(
    lights: Seq<LightSource>,
    dir: Vec3,
    uv: TexCoord,
    n: int,
) -> (int, int, int)
    decreases n,
{
    if n <= 0 {
        (0, 0, 0)
    } else {
        t3_add(
            background_sum(lights, dir, uv, n - 1),
            lights[n - 1].emission_spec(dir, uv),
        )
    }
}

/// Every partial background sum is non-negative and bounded by the
/// light count times the emission cap.
pub proof fn lemma_background_sum_bound(
    lights: Seq<LightSource>,
    dir: Vec3,
    uv: TexCoord,
    n: int,
)
    requires
        crate::vec3::in_range(dir, 2 * crate::COORD_LIMIT as int),
        0 <= n <= lights.len(),
        forall|i: int| 0 <= i < lights.len() ==> (#[trigger] lights[i]).wf(),
    ensures
        0 <= background_sum(lights, dir, uv, n).0 <= n * 0x100_0000_0000,
        0 <= background_sum(lights, dir, uv, n).1 <= n * 0x100_0000_0000,
        0 <= background_sum(lights, dir, uv, n).2 <= n * 0x100_0000_0000,
    decreases n,
{
    if n > 0 {
        lemma_background_sum_bound(lights, dir, uv, n - 1);
        lemma_emission_bound(lights[n - 1], dir, uv);
    }
}

/// A well-formed light's emission is non-negative and bounded.
proof fn lemma_emission_bound(l: LightSource, dir: Vec3, uv: TexCoord)
    requires
        l.wf(),
        crate::vec3::in_range(dir, 2 * crate::COORD_LIMIT as int),
    ensures
        0 <= l.emission_spec(dir, uv).0 <= EMISSION_LIMIT,
        0 <= l.emission_spec(dir, uv).1 <= EMISSION_LIMIT,
        0 <= l.emission_spec(dir, uv).2 <= EMISSION_LIMIT,
{
    match l {
        LightSource::Test(_) => {
            crate::vec3::lemma_dot_bound(dir, crate::vec3::Vec3 { x: 1, y: 1, z: 1 }, 512, 1);
        },
        LightSource::Directional(_) => {},
        LightSource::SkySphere(s) => {
            let t = s.texture_spec();
            let x = crate::texture::wrap_index(uv.u, t.width_spec());
            let y = crate::texture::wrap_index(uv.v, t.height_spec());
            vstd::arithmetic::div_mod::lemma_mod_bound(
                crate::texture::scaled_trunc(uv.u.num as int, t.width_spec(), uv.u.den as int),
                t.width_spec(),
            );
            vstd::arithmetic::div_mod::lemma_mod_bound(
                crate::texture::scaled_trunc(uv.v.num as int, t.height_spec(), uv.v.den as int),
                t.height_spec(),
            );
            assert(0 <= y * t.width_spec() + x < t.height_spec() * t.width_spec())
                by (nonlinear_arith)
                requires
                    0 <= y < t.height_spec(),
                    0 <= x < t.width_spec(),
                    0 < t.width_spec();
            assert(t.height_spec() * t.width_spec() == t.width_spec() * t.height_spec())
                by (nonlinear_arith);
        },
    }
}

/// Total radiance of every background light along an escaping ray —
/// exactly the mathematical sum of their emission.
pub fn background_radiance(scene: &Scene, dir: &Vec3, sky_uv: &TexCoord) -> (r: Spectrum)
    requires
        scene.wf(),
        crate::vec3::in_range(*dir, 2 * crate::COORD_LIMIT as int),
        sky_uv.wf(),
    ensures
        (r.r as int, r.g as int, r.b as int) == background_sum(
            scene.light_sources@,
            *dir,
            *sky_uv,
            scene.light_sources@.len() as int,
        ),
        0 <= r.r <= 0x10_0000_0000_0000,
        0 <= r.g <= 0x10_0000_0000_0000,
        0 <= r.b <= 0x10_0000_0000_0000,
{
    let mut acc = Spectrum::black();
    let mut i: usize = 0;
    let n = scene.light_sources.len();
    while i < n
        invariant
            scene.wf(),
            crate::vec3::in_range(*dir, 2 * crate::COORD_LIMIT as int),
            sky_uv.wf(),
            i <= n,
            n == scene.light_sources@.len(),
            (acc.r as int, acc.g as int, acc.b as int) == background_sum(
                scene.light_sources@, *dir, *sky_uv, i as int),
            0 <= acc.r <= i * 0x100_0000_0000,
            0 <= acc.g <= i * 0x100_0000_0000,
            0 <= acc.b <= i * 0x100_0000_0000,
        decreases n - i,
    {
        proof {
            assert(scene.light_sources@[i as int].wf());
            lemma_emission_bound(scene.light_sources@[i as int], *dir, *sky_uv);
            lemma_background_sum_bound(scene.light_sources@, *dir, *sky_uv, i as int);
        }
        let e = scene.light_sources[i].emission(dir, sky_uv);
        acc = Spectrum {
            r: acc.r + e.r,
            g: acc.g + e.g,
            b: acc.b + e.b,
        };
        i = i + 1;
    }
    acc
}

/// The blended texture coordinate of a hit: the exact barycentric
/// blend of its three vertices' coordinates.
pub open spec fn hit_uv(h: HitInfo) -> TexCoord {
    TexCoord {
        u: Rat {
            num: uv_blend_num(
                h.barycentrics,
                h.vertices.0.tex_coords.u.num as int, h.vertices.0.tex_coords.u.den as int,
                h.vertices.1.tex_coords.u.num as int, h.vertices.1.tex_coords.u.den as int,
                h.vertices.2.tex_coords.u.num as int, h.vertices.2.tex_coords.u.den as int,
            ) as i128,
            den: uv_blend_den(
                h.barycentrics,
                h.vertices.0.tex_coords.u.den as int,
                h.vertices.1.tex_coords.u.den as int,
                h.vertices.2.tex_coords.u.den as int,
            ) as i128,
        },
        v: Rat {
            num: uv_blend_num(
                h.barycentrics,
                h.vertices.0.tex_coords.v.num as int, h.vertices.0.tex_coords.v.den as int,
                h.vertices.1.tex_coords.v.num as int, h.vertices.1.tex_coords.v.den as int,
                h.vertices.2.tex_coords.v.num as int, h.vertices.2.tex_coords.v.den as int,
            ) as i128,
            den: uv_blend_den(
                h.barycentrics,
                h.vertices.0.tex_coords.v.den as int,
                h.vertices.1.tex_coords.v.den as int,
                h.vertices.2.tex_coords.v.den as int,
            ) as i128,
        },
    }
}

/// The value `attenuate` computes, channel by channel.
pub open spec fn attenuate_value(brdf: (int, int, int), weight: Spectrum, radiance: (int, int, int)) -> (int, int, int) {
    (
        ((brdf.0 * weight.r) * radiance.0) / (ATTEN_DIV as int),
        ((brdf.1 * weight.g) * radiance.1) / (ATTEN_DIV as int),
        ((brdf.2 * weight.b) * radiance.2) / (ATTEN_DIV as int),
    )
}

/// One attenuation step of a transport path: radiance arriving from
/// deeper in the path, scaled by the surface reflectance and by the
/// BRDF-sample weight, renormalised by the two fixed-point scales.
/// This is the exact form of `brdf * radiance * (cos / pdf)`.
pub fn attenuate(brdf: &Spectrum, weight: &Spectrum, radiance: &Spectrum) -> (r: Spectrum)
    requires
        0 <= brdf.r <= ALBEDO_LIMIT,
        0 <= brdf.g <= ALBEDO_LIMIT,
        0 <= brdf.b <= ALBEDO_LIMIT,
        0 <= weight.r <= WEIGHT_SCALE,
        0 <= weight.g <= WEIGHT_SCALE,
        0 <= weight.b <= WEIGHT_SCALE,
        0 <= radiance.r <= RADIANCE_LIMIT,
        0 <= radiance.g <= RADIANCE_LIMIT,
        0 <= radiance.b <= RADIANCE_LIMIT,
    ensures
        (r.r as int, r.g as int, r.b as int) == attenuate_value(
            (brdf.r as int, brdf.g as int, brdf.b as int),
            *weight,
            (radiance.r as int, radiance.g as int, radiance.b as int),
        ),
        0 <= r.r <= RADIANCE_LIMIT,
        0 <= r.g <= RADIANCE_LIMIT,
        0 <= r.b <= RADIANCE_LIMIT,
{
    proof {
        lemma_attenuate_channel(brdf.r as int, weight.r as int, radiance.r as int);
        lemma_attenuate_channel(brdf.g as int, weight.g as int, radiance.g as int);
        lemma_attenuate_channel(brdf.b as int, weight.b as int, radiance.b as int);
    }
    Spectrum {
        r: ((brdf.r * weight.r) * radiance.r) / ATTEN_DIV,
        g: ((brdf.g * weight.g) * radiance.g) / ATTEN_DIV,
        b: ((brdf.b * weight.b) * radiance.b) / ATTEN_DIV,
    }
}

/// Attenuating never brightens: a sub-unit reflectance and weight keep
/// the channel inside its old bound.
proof fn lemma_attenuate_channel(b: int, w: int, l: int)
    requires
        0 <= b <= ALBEDO_LIMIT,
        0 <= w <= WEIGHT_SCALE,
        0 <= l <= RADIANCE_LIMIT,
    ensures
        0 <= ((b * w) * l) / (ATTEN_DIV as int) <= RADIANCE_LIMIT,
        (b * w) * l <= 0x1000_0000_0000_0000_0000_0000,
        0 <= (b * w) * l,
        0 <= b * w <= 0x1000_0000,
{
    crate::vec3::lemma_mul_bound(b, w, 0x1_0000, 0x1000);
    crate::vec3::lemma_mul_bound(b * w, l, 0x1000_0000, 0x1_0000_0000_0000_0000);
    assert(0 <= b * w) by (nonlinear_arith)
        requires 0 <= b && 0 <= w;
    assert(0 <= (b * w) * l) by (nonlinear_arith)
        requires 0 <= b * w && 0 <= l;
    assert((b * w) * l <= ATTEN_DIV * RADIANCE_LIMIT) by (nonlinear_arith)
        requires
            0 <= b * w <= 0x1000_0000,
            0 <= l <= 0x1_0000_0000_0000_0000;
    vstd::arithmetic::div_mod::lemma_div_pos_is_pos((b * w) * l, ATTEN_DIV as int);
    vstd::arithmetic::div_mod::lemma_div_is_ordered((b * w) * l, ATTEN_DIV * RADIANCE_LIMIT, ATTEN_DIV as int);
    vstd::arithmetic::div_mod::lemma_div_by_multiple(RADIANCE_LIMIT as int, ATTEN_DIV as int);
    assert(ATTEN_DIV * RADIANCE_LIMIT == RADIANCE_LIMIT * ATTEN_DIV) by (nonlinear_arith);
}

} // verus!
