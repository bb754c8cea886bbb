//! The next-event-estimation path tracer: at every hit it samples one
//! light (picked uniformly at random), adds its shadow-tested
//! contribution under the running throughput, then continues along the
//! caller-sampled BRDF direction. Background emission is added only
//! when the camera ray itself escapes — later escapes were already
//! accounted for by the direct light samples.
//!
//! The result is pinned exactly, up to the random draws: for every
//! outcome there are light picks and closest-hit annotations under
//! which the returned radiance equals the recursive estimator value
//! `spec_path_radiance`, whose throughput recurrence and per-bounce
//! direct terms are spelled out below.

use vstd::prelude::*;
use crate::accelerator::{HitInfo, hit_matches_tri, is_closest_hit, misses_all};
use crate::geometry::Ray;
use crate::integrator::{
    ATTEN_DIV, RADIANCE_LIMIT, WEIGHT_SCALE, attenuate, attenuate_value, background_radiance,
    background_sum, hit_uv,
};
use crate::light::{EMISSION_LIMIT, LightSource};
use crate::material::{ALBEDO_LIMIT, Material};
use crate::scene::{Scene, TexCoord, Vertex};
use crate::spectrum::{Spectrum, is_black};
use crate::vec3::{Vec3, in_range, t3_add};
use crate::COORD_LIMIT;

verus! {

/// Caller-drawn sampling data for one path-tracer bounce: the ray to
/// trace with the coordinate of its direction, the BRDF-sample weight
/// of the continuation, and the light-sampling draw — a hemisphere
/// direction with its coordinate and its cosine in the surface frame,
/// the cosine of the fixed delta-light direction in that same frame
/// (used when the pick lands on a delta light), and the world point
/// shadow rays leave from.
#[derive(Clone, Copy)]
pub struct PathBounceInput {
    pub ray: Ray,
    pub sky_uv: TexCoord,
    pub weight: Spectrum,
    pub light_dir: Vec3,
    pub light_sky_uv: TexCoord,
    pub light_cos: i128,
    pub delta_cos: i128,
    pub shadow_origin: Vec3,
}

pub open spec fn path_input_wf(b: PathBounceInput) -> bool {
    &&& b.ray.wf()
    &&& b.sky_uv.wf()
    &&& 0 <= b.weight.r <= WEIGHT_SCALE
    &&& 0 <= b.weight.g <= WEIGHT_SCALE
    &&& 0 <= b.weight.b <= WEIGHT_SCALE
    &&& in_range(b.light_dir, COORD_LIMIT as int)
    &&& !(b.light_dir.x == 0 && b.light_dir.y == 0 && b.light_dir.z == 0)
    &&& b.light_sky_uv.wf()
    &&& 0 <= b.light_cos <= WEIGHT_SCALE
    &&& 0 <= b.delta_cos <= WEIGHT_SCALE
    &&& in_range(b.shadow_origin, COORD_LIMIT as int)
}

pub open spec fn path_inputs_wf(s: Seq<PathBounceInput>) -> bool {
    forall|i: int| 0 <= i < s.len() ==> path_input_wf(#[trigger] s[i])
}

/// A shadow ray from `origin` along `dir` escapes the scene.
pub open spec fn shadow_clear(g: Seq<(Vec<Vertex>, Vec<u32>)>, origin: Vec3, dir: Vec3) -> bool {
    misses_all(g, Ray { origin, direction: dir })
}

/// The exact direct-light term when the pick lands on light `pick`:
/// black when that light's shadow ray is blocked, else the light's
/// radiance along its sampled direction times the reflectance and the
/// matching cosine, divided by the pi-scaled density and the pick's
/// probability mass (one over the light count, entering as the factor
/// `n`). Delta lights use their own fixed direction and cosine.
pub open spec fn direct_value(
    lights: Seq<LightSource>,
    g: Seq<(Vec<Vertex>, Vec<u32>)>,
    input: PathBounceInput,
    brdf: (int, int, int),
    n: int,
    pick: int,
) -> (int, int, int) {
    match lights[pick] {
        LightSource::Directional(d) => {
            if shadow_clear(g, input.shadow_origin, d.neg_direction) {
                (
                    (((d.irradiance.r * brdf.0) * input.delta_cos) * (1 * n)) / (ATTEN_DIV as int),
                    (((d.irradiance.g * brdf.1) * input.delta_cos) * (1 * n)) / (ATTEN_DIV as int),
                    (((d.irradiance.b * brdf.2) * input.delta_cos) * (1 * n)) / (ATTEN_DIV as int),
                )
            } else {
                (0, 0, 0)
            }
        },
        LightSource::Test(_) => {
            if shadow_clear(g, input.shadow_origin, input.light_dir) {
                let rad = lights[pick].emission_spec(input.light_dir, input.light_sky_uv);
                (
                    (((rad.0 * brdf.0) * input.light_cos) * (2 * n)) / (ATTEN_DIV as int),
                    (((rad.1 * brdf.1) * input.light_cos) * (2 * n)) / (ATTEN_DIV as int),
                    (((rad.2 * brdf.2) * input.light_cos) * (2 * n)) / (ATTEN_DIV as int),
                )
            } else {
                (0, 0, 0)
            }
        },
        LightSource::SkySphere(_) => {
            if shadow_clear(g, input.shadow_origin, input.light_dir) {
                let rad = lights[pick].emission_spec(input.light_dir, input.light_sky_uv);
                (
                    (((rad.0 * brdf.0) * input.light_cos) * (2 * n)) / (ATTEN_DIV as int),
                    (((rad.1 * brdf.1) * input.light_cos) * (2 * n)) / (ATTEN_DIV as int),
                    (((rad.2 * brdf.2) * input.light_cos) * (2 * n)) / (ATTEN_DIV as int),
                )
            } else {
                (0, 0, 0)
            }
        },
    }
}

/// One direct term scaled by the running throughput, renormalised by
/// the weight scale.
pub open spec fn through_value(thr: (int, int, int), v: (int, int, int)) -> (int, int, int) {
    (
        (((ALBEDO_LIMIT as int) * thr.0) * v.0) / (ATTEN_DIV as int),
        (((ALBEDO_LIMIT as int) * thr.1) * v.1) / (ATTEN_DIV as int),
        (((ALBEDO_LIMIT as int) * thr.2) * v.2) / (ATTEN_DIV as int),
    )
}

/// The hit annotations describe the path truthfully from bounce `i`
/// on; entries past the path's first escape are unconstrained.
pub open spec fn path_hits_consistent(
    g: Seq<(Vec<Vertex>, Vec<u32>)>,
    inputs: Seq<PathBounceInput>,
    hits: Seq<HitInfo>,
    i: int,
) -> bool
    decreases inputs.len() - i,
{
    if i < 0 || i >= inputs.len() {
        true
    } else if misses_all(g, inputs[i].ray) {
        true
    } else {
        &&& is_closest_hit(g, inputs[i].ray, hits[i])
        &&& path_hits_consistent(g, inputs, hits, i + 1)
    }
}

/// The estimator's value over annotated picks and hits, from bounce
/// `i` with running throughput `thr`: nothing past the depth cap;
/// on an escape, the background sum for the camera ray and nothing for
/// any later ray; on a hit, the throughput-weighted direct-light term
/// of the picked light plus the deeper value under the throughput
/// recurrence `thr' = thr * brdf * weight / scales`.
pub open spec fn spec_path_radiance(
    lights: Seq<LightSource>,
    materials: Seq<Material>,
    g: Seq<(Vec<Vertex>, Vec<u32>)>,
    inputs: Seq<PathBounceInput>,
    picks: Seq<int>,
    hits: Seq<HitInfo>,
    i: int,
    thr: (int, int, int),
) -> (int, int, int)
    decreases inputs.len() - i,
{
    if i < 0 || i >= inputs.len() {
        (0, 0, 0)
    } else if misses_all(g, inputs[i].ray) {
        if i == 0 {
            background_sum(lights, inputs[i].ray.direction, inputs[i].sky_uv, lights.len() as int)
        } else {
            (0, 0, 0)
        }
    } else {
        let h = hits[i];
        let brdf = materials[h.mesh as int].brdf_spec(hit_uv(h));
        let direct = direct_value(lights, g, inputs[i], brdf, lights.len() as int, picks[i]);
        t3_add(
            through_value(thr, direct),
            spec_path_radiance(
                lights, materials, g, inputs, picks, hits, i + 1,
                attenuate_value(brdf, inputs[i].weight, thr),
            ),
        )
    }
}

/// The estimator's value and the truth of its annotations read only
/// the entries from `i` on.
proof fn lemma_path_frame(
    lights: Seq<LightSource>,
    materials: Seq<Material>,
    g: Seq<(Vec<Vertex>, Vec<u32>)>,
    inputs: Seq<PathBounceInput>,
    p1: Seq<int>,
    p2: Seq<int>,
    h1: Seq<HitInfo>,
    h2: Seq<HitInfo>,
    i: int,
    thr: (int, int, int),
)
    requires
        p1.len() == p2.len(),
        h1.len() == h2.len(),
        inputs.len() <= p1.len(),
        inputs.len() <= h1.len(),
        forall|j: int| i <= j < p1.len() ==> p1[j] == p2[j],
        forall|j: int| i <= j < h1.len() ==> h1[j] == h2[j],
    ensures
        spec_path_radiance(lights, materials, g, inputs, p1, h1, i, thr)
            == spec_path_radiance(lights, materials, g, inputs, p2, h2, i, thr),
        path_hits_consistent(g, inputs, h1, i) == path_hits_consistent(g, inputs, h2, i),
    decreases inputs.len() - i,
{
    if 0 <= i < inputs.len() && !misses_all(g, inputs[i].ray) {
        let brdf = materials[h1[i].mesh as int].brdf_spec(hit_uv(h1[i]));
        lemma_path_frame(
            lights, materials, g, inputs, p1, p2, h1, h2, i + 1,
            attenuate_value(brdf, inputs[i].weight, thr),
        );
    }
}

/// The exact arithmetic of one direct-light contribution:
/// `radiance * brdf * cos / (pi*pdf) / pick-pmf`, with the pi-scaled
/// density entering through its denominator and the uniform pick
/// through the light count.
pub fn direct_contribution(
    radiance: &Spectrum,
    brdf: &Spectrum,
    light_cos: i128,
    pdf_den: i128,
    n_lights: usize,
) -> (r: Spectrum)
    requires
        0 <= radiance.r <= EMISSION_LIMIT,
        0 <= radiance.g <= EMISSION_LIMIT,
        0 <= radiance.b <= EMISSION_LIMIT,
        0 <= brdf.r <= ALBEDO_LIMIT,
        0 <= brdf.g <= ALBEDO_LIMIT,
        0 <= brdf.b <= ALBEDO_LIMIT,
        0 <= light_cos <= WEIGHT_SCALE,
        1 <= pdf_den <= 2,
        1 <= n_lights <= 4096,
    ensures
        r.r as int == (((radiance.r * brdf.r) * light_cos) * ((pdf_den as int) * (n_lights as int))) / (ATTEN_DIV as int),
        r.g as int == (((radiance.g * brdf.g) * light_cos) * ((pdf_den as int) * (n_lights as int))) / (ATTEN_DIV as int),
        r.b as int == (((radiance.b * brdf.b) * light_cos) * ((pdf_den as int) * (n_lights as int))) / (ATTEN_DIV as int),
        0 <= r.r <= RADIANCE_LIMIT,
        0 <= r.g <= RADIANCE_LIMIT,
        0 <= r.b <= RADIANCE_LIMIT,
{
    proof {
        lemma_direct_channel(radiance.r as int, brdf.r as int, light_cos as int, pdf_den as int, n_lights as int);
        lemma_direct_channel(radiance.g as int, brdf.g as int, light_cos as int, pdf_den as int, n_lights as int);
        lemma_direct_channel(radiance.b as int, brdf.b as int, light_cos as int, pdf_den as int, n_lights as int);
    }
    let factor: i128 = pdf_den * (n_lights as i128);
    Spectrum {
        r: (((radiance.r * brdf.r) * light_cos) * factor) / ATTEN_DIV,
        g: (((radiance.g * brdf.g) * light_cos) * factor) / ATTEN_DIV,
        b: (((radiance.b * brdf.b) * light_cos) * factor) / ATTEN_DIV,
    }
}

proof fn lemma_direct_channel(l: int, b: int, c: int, pd: int, n: int)
    requires
        0 <= l <= EMISSION_LIMIT,
        0 <= b <= ALBEDO_LIMIT,
        0 <= c <= WEIGHT_SCALE,
        1 <= pd <= 2,
        1 <= n <= 4096,
    ensures
        0 <= l * b <= 0x100_0000_0000_0000,
        0 <= (l * b) * c <= 0x10_0000_0000_0000_0000,
        0 < pd * n <= 0x2000,
        0 <= ((l * b) * c) * (pd * n) <= 0x2_0000_0000_0000_0000_0000,
        0 <= (((l * b) * c) * (pd * n)) / (ATTEN_DIV as int) <= RADIANCE_LIMIT,
{
    crate::vec3::lemma_mul_bound(l, b, 0x100_0000_0000, 0x1_0000);
    crate::vec3::lemma_mul_bound(l * b, c, 0x100_0000_0000_0000, 0x1000);
    crate::vec3::lemma_mul_bound(pd, n, 2, 4096);
    crate::vec3::lemma_mul_bound((l * b) * c, pd * n, 0x10_0000_0000_0000_0000, 0x2000);
    assert(0 <= l * b) by (nonlinear_arith)
        requires 0 <= l && 0 <= b;
    assert(0 <= (l * b) * c) by (nonlinear_arith)
        requires 0 <= l * b && 0 <= c;
    assert(0 < pd * n) by (nonlinear_arith)
        requires 0 < pd && 0 < n;
    assert(0 <= ((l * b) * c) * (pd * n)) by (nonlinear_arith)
        requires 0 <= (l * b) * c && 0 < pd * n;
    vstd::arithmetic::div_mod::lemma_div_pos_is_pos(((l * b) * c) * (pd * n), ATTEN_DIV as int);
    vstd::arithmetic::div_mod::lemma_div_is_ordered(
        ((l * b) * c) * (pd * n),
        0x2_0000_0000_0000_0000_0000,
        ATTEN_DIV as int,
    );
    vstd::arithmetic::div_mod::lemma_div_by_multiple(0x20_0000_0000_0000, ATTEN_DIV as int);
}

pub struct PathTracer {
    depth: u32,
    spp: u32,
}

impl PathTracer {
    pub closed spec fn depth_spec(self) -> u32 {
        self.depth
    }

    pub closed spec fn spp_spec(self) -> u32 {
        self.spp
    }

    pub fn new(depth: u32, spp: u32) -> (r: PathTracer)
        ensures
            r.depth_spec() == depth,
            r.spp_spec() == spp,
    {
        PathTracer { depth, spp }
    }

    /// Paths per pixel the caller should average.
    pub fn samples_per_pixel(&self) -> (r: u32)
        ensures
            r == self.spp_spec(),
    {
        self.spp
    }

    /// Sample one light, picked uniformly at random through the scene,
    /// and return its shadow-tested contribution. For every outcome of
    /// the pick the result is exact: some light index below the light
    /// count whose `direct_value` — black when its shadow ray is
    /// blocked, else the full direct-light arithmetic against the
    /// material's reflectance at `uv` — equals the result.
    pub fn sample_direct(&self, scene: &Scene, uv: &TexCoord, mesh: u32, input: &PathBounceInput) -> (r: Spectrum)
        requires
            scene.wf(),
            uv.wf(),
            (mesh as int) < scene.materials@.len(),
            path_input_wf(*input),
        ensures
            0 <= r.r <= RADIANCE_LIMIT,
            0 <= r.g <= RADIANCE_LIMIT,
            0 <= r.b <= RADIANCE_LIMIT,
            exists|pick: int| 0 <= pick < scene.light_sources@.len()
                && (r.r as int, r.g as int, r.b as int) == #[trigger] direct_value(
                    scene.light_sources@,
                    scene.geometry_view(),
                    *input,
                    scene.materials@[mesh as int].brdf_spec(*uv),
                    scene.light_sources@.len() as int,
                    pick,
                ),
    {
        let ghost g = scene.geometry_view();
        let ghost lights = scene.light_sources@;
        let ghost n = scene.light_sources@.len() as int;
        let (picked, _pmf) = scene.pick_light();
        let light = &scene.light_sources[picked];
        proof {
            assert(scene.light_sources@[picked as int].wf());
        }
        let sample = light.sample(input.shadow_origin, input.light_dir, &input.light_sky_uv);
        let cos = if light.is_delta() { input.delta_cos } else { input.light_cos };
        let r = if sample.visibility_test.eval(scene) {
            let brdf = scene.materials[mesh as usize].brdf(uv, &input.light_dir, &input.ray.direction);
            direct_contribution(
                &sample.radiance,
                &brdf,
                cos,
                sample.pdf_times_pi.den,
                scene.light_sources.len(),
            )
        } else {
            Spectrum::black()
        };
        proof {
            let brdf = scene.materials@[mesh as int].brdf_spec(*uv);
            assert((r.r as int, r.g as int, r.b as int)
                == direct_value(lights, g, *input, brdf, n, picked as int));
        }
        r
    }

    /// The remainder of a path from bounce `bounce` under the running
    /// throughput: for every outcome of the per-bounce light picks,
    /// there are picks and closest-hit annotations under which the
    /// result is exactly `spec_path_radiance` — the throughput-weighted
    /// direct terms summed along the path, background only for a
    /// camera-ray escape, nothing past the depth cap.
    fn sample_path_from(&self, scene: &Scene, inputs: &Vec<PathBounceInput>, bounce: usize, throughput: Spectrum) -> (r: Spectrum)
        requires
            scene.wf(),
            path_inputs_wf(inputs@),
            bounce <= inputs@.len(),
            inputs@.len() <= 4096,
            0 <= throughput.r <= WEIGHT_SCALE,
            0 <= throughput.g <= WEIGHT_SCALE,
            0 <= throughput.b <= WEIGHT_SCALE,
        ensures
            0 <= r.r <= (inputs@.len() - bounce) * 0x1_0000_0000_0000_0000 + 0x10_0000_0000_0000,
            0 <= r.g <= (inputs@.len() - bounce) * 0x1_0000_0000_0000_0000 + 0x10_0000_0000_0000,
            0 <= r.b <= (inputs@.len() - bounce) * 0x1_0000_0000_0000_0000 + 0x10_0000_0000_0000,
            exists|picks: Seq<int>, hits: Seq<HitInfo>| {
                &&& picks.len() == inputs@.len()
                &&& hits.len() == inputs@.len()
                &&& (forall|j: int| 0 <= j < picks.len()
                    ==> 0 <= #[trigger] picks[j] < scene.light_sources@.len())
                &&& path_hits_consistent(scene.geometry_view(), inputs@, hits, bounce as int)
                &&& (r.r as int, r.g as int, r.b as int) == #[trigger] spec_path_radiance(
                    scene.light_sources@,
                    scene.materials@,
                    scene.geometry_view(),
                    inputs@,
                    picks,
                    hits,
                    bounce as int,
                    (throughput.r as int, throughput.g as int, throughput.b as int),
                )
            },
        decreases inputs@.len() - bounce,
    {
        let ghost g = scene.geometry_view();
        let ghost lights = scene.light_sources@;
        let ghost mats = scene.materials@;
        let ghost thr = (throughput.r as int, throughput.g as int, throughput.b as int);
        if bounce == inputs.len() {
            proof {
                let picks0: Seq<int> = Seq::new(inputs@.len() as nat, |j: int| 0int);
                let hits0: Seq<HitInfo> = Seq::new(
                    inputs@.len() as nat,
                    |j: int| vstd::pervasive::arbitrary(),
                );
                assert(path_hits_consistent(g, inputs@, hits0, bounce as int));
                assert((0int, 0int, 0int)
                    == spec_path_radiance(lights, mats, g, inputs@, picks0, hits0, bounce as int, thr));
            }
            return Spectrum::black();
        }
        let input = inputs[bounce];
        match scene.accelerator.intersect(&input.ray) {
            None => {
                // escaped: only the camera ray collects background
                // emission directly; deeper escapes were already
                // counted by the direct light samples
                let result = if bounce == 0 {
                    background_radiance(scene, &input.ray.direction, &input.sky_uv)
                } else {
                    Spectrum::black()
                };
                proof {
                    let picks0: Seq<int> = Seq::new(inputs@.len() as nat, |j: int| 0int);
                    let hits0: Seq<HitInfo> = Seq::new(
                        inputs@.len() as nat,
                        |j: int| vstd::pervasive::arbitrary(),
                    );
                    assert(path_hits_consistent(g, inputs@, hits0, bounce as int));
                    assert((result.r as int, result.g as int, result.b as int)
                        == spec_path_radiance(lights, mats, g, inputs@, picks0, hits0, bounce as int, thr));
                }
                result
            },
            Some(info) => {
                proof {
                    let (m, k) = choose|m: int, k: int|
                        #[trigger] hit_matches_tri(g, input.ray, info, m, k);
                    assert(crate::accelerator::valid_tri(g, m, k));
                    assert(g[m].1@[3 * k] < g[m].0@.len());
                    assert(g[m].1@[3 * k + 1] < g[m].0@.len());
                    assert(g[m].1@[3 * k + 2] < g[m].0@.len());
                    assert(info.vertices.0.wf());
                    assert(info.vertices.1.wf());
                    assert(info.vertices.2.wf());
                    assert((info.mesh as int) < scene.materials@.len());
                }
                let uv = crate::geometry::interpolate_uv(
                    &info.vertices.0,
                    &info.vertices.1,
                    &info.vertices.2,
                    &info.barycentrics,
                );
                let direct = self.sample_direct(scene, &uv, info.mesh, &input);
                let weighted = attenuate(
                    &Spectrum { r: ALBEDO_LIMIT, g: ALBEDO_LIMIT, b: ALBEDO_LIMIT },
                    &throughput,
                    &direct,
                );
                // the throughput recurrence: fold this bounce's BRDF
                // sample weight and reflectance into the running factor
                let brdf = scene.materials[info.mesh as usize].brdf(
                    &uv,
                    &input.ray.direction,
                    &input.ray.direction,
                );
                let scaled = attenuate(&brdf, &input.weight, &throughput);
                proof {
                    lemma_throughput_bound(brdf.r as int, input.weight.r as int, throughput.r as int);
                    lemma_throughput_bound(brdf.g as int, input.weight.g as int, throughput.g as int);
                    lemma_throughput_bound(brdf.b as int, input.weight.b as int, throughput.b as int);
                }
                let deeper = self.sample_path_from(scene, inputs, bounce + 1, scaled);
                let result = Spectrum {
                    r: weighted.r + deeper.r,
                    g: weighted.g + deeper.g,
                    b: weighted.b + deeper.b,
                };
                proof {
                    let brdf_s = mats[info.mesh as int].brdf_spec(hit_uv(info));
                    assert(uv == hit_uv(info));
                    let pick = choose|pick: int| 0 <= pick < lights.len()
                        && (direct.r as int, direct.g as int, direct.b as int)
                            == #[trigger] direct_value(
                                lights, g, input, mats[info.mesh as int].brdf_spec(uv),
                                lights.len() as int, pick);
                    let new_thr = attenuate_value(brdf_s, input.weight, thr);
                    let (picks_d, hits_d) = choose|picks: Seq<int>, hits: Seq<HitInfo>| {
                        &&& picks.len() == inputs@.len()
                        &&& hits.len() == inputs@.len()
                        &&& (forall|j: int| 0 <= j < picks.len()
                            ==> 0 <= #[trigger] picks[j] < lights.len())
                        &&& path_hits_consistent(g, inputs@, hits, bounce + 1)
                        &&& (deeper.r as int, deeper.g as int, deeper.b as int)
                            == #[trigger] spec_path_radiance(
                                lights, mats, g, inputs@, picks, hits, bounce + 1, new_thr)
                    };
                    let picks = picks_d.update(bounce as int, pick);
                    let hits = hits_d.update(bounce as int, info);
                    lemma_path_frame(
                        lights, mats, g, inputs@, picks, picks_d, hits, hits_d,
                        bounce + 1, new_thr,
                    );
                    assert(path_hits_consistent(g, inputs@, hits, bounce as int));
                    assert((weighted.r as int, weighted.g as int, weighted.b as int)
                        == through_value(thr, (direct.r as int, direct.g as int, direct.b as int)));
                    assert((result.r as int, result.g as int, result.b as int)
                        == spec_path_radiance(lights, mats, g, inputs@, picks, hits, bounce as int, thr));
                }
                result
            },
        }
    }

    /// Trace one full path with next-event estimation, starting at unit
    /// throughput. Background emission enters exactly when the camera
    /// ray itself escapes: an empty path is black, a first-ray miss is
    /// exactly the background sum, and the whole result is pinned by
    /// `spec_path_radiance` up to the random light picks.
    pub fn sample_radiance(&self, scene: &Scene, inputs: &Vec<PathBounceInput>) -> (r: Spectrum)
        requires
            scene.wf(),
            path_inputs_wf(inputs@),
            inputs@.len() <= 4096,
        ensures
            0 <= r.r,
            0 <= r.g,
            0 <= r.b,
            inputs@.len() == 0 ==> is_black(r),
            inputs@.len() > 0 && misses_all(scene.geometry_view(), inputs@[0].ray)
                ==> (r.r as int, r.g as int, r.b as int) == background_sum(
                    scene.light_sources@,
                    inputs@[0].ray.direction,
                    inputs@[0].sky_uv,
                    scene.light_sources@.len() as int,
                ),
            exists|picks: Seq<int>, hits: Seq<HitInfo>| {
                &&& picks.len() == inputs@.len()
                &&& hits.len() == inputs@.len()
                &&& (forall|j: int| 0 <= j < picks.len()
                    ==> 0 <= #[trigger] picks[j] < scene.light_sources@.len())
                &&& path_hits_consistent(scene.geometry_view(), inputs@, hits, 0)
                &&& (r.r as int, r.g as int, r.b as int) == #[trigger] spec_path_radiance(
                    scene.light_sources@,
                    scene.materials@,
                    scene.geometry_view(),
                    inputs@,
                    picks,
                    hits,
                    0,
                    (WEIGHT_SCALE as int, WEIGHT_SCALE as int, WEIGHT_SCALE as int),
                )
            },
    {
        let one = Spectrum { r: WEIGHT_SCALE, g: WEIGHT_SCALE, b: WEIGHT_SCALE };
        let r = self.sample_path_from(scene, inputs, 0, one);
        proof {
            let g = scene.geometry_view();
            let lights = scene.light_sources@;
            let mats = scene.materials@;
            let thr = (WEIGHT_SCALE as int, WEIGHT_SCALE as int, WEIGHT_SCALE as int);
            let (picks, hits) = choose|picks: Seq<int>, hits: Seq<HitInfo>| {
                &&& picks.len() == inputs@.len()
                &&& hits.len() == inputs@.len()
                &&& (forall|j: int| 0 <= j < picks.len() ==> 0 <= #[trigger] picks[j] < lights.len())
                &&& path_hits_consistent(g, inputs@, hits, 0)
                &&& (r.r as int, r.g as int, r.b as int)
                    == #[trigger] spec_path_radiance(lights, mats, g, inputs@, picks, hits, 0, thr)
            };
            if inputs@.len() == 0 {
                assert(spec_path_radiance(lights, mats, g, inputs@, picks, hits, 0, thr)
                    == (0int, 0int, 0int));
            } else if misses_all(g, inputs@[0].ray) {
                assert(spec_path_radiance(lights, mats, g, inputs@, picks, hits, 0, thr)
                    == background_sum(lights, inputs@[0].ray.direction, inputs@[0].sky_uv,
                        lights.len() as int));
            }
        }
        r
    }
}

/// A throughput channel stays below the fixed-point one after an
/// attenuation step.
proof fn lemma_throughput_bound(b: int, w: int, t: int)
    requires
        0 <= b <= ALBEDO_LIMIT,
        0 <= w <= WEIGHT_SCALE,
        0 <= t <= WEIGHT_SCALE,
    ensures
        0 <= ((b * w) * t) / (ATTEN_DIV as int) <= WEIGHT_SCALE,
{
    crate::vec3::lemma_mul_bound(b, w, 0x1_0000, 0x1000);
    assert(0 <= b * w <= ATTEN_DIV) by (nonlinear_arith)
        requires 0 <= b <= 0x1_0000 && 0 <= w <= 0x1000;
    assert(0 <= (b * w) * t <= ATTEN_DIV * WEIGHT_SCALE) by (nonlinear_arith)
        requires 0 <= b * w <= ATTEN_DIV && 0 <= t <= WEIGHT_SCALE;
    vstd::arithmetic::div_mod::lemma_div_pos_is_pos((b * w) * t, ATTEN_DIV as int);
    vstd::arithmetic::div_mod::lemma_div_is_ordered((b * w) * t, ATTEN_DIV * WEIGHT_SCALE, ATTEN_DIV as int);
    vstd::arithmetic::div_mod::lemma_div_by_multiple(WEIGHT_SCALE as int, ATTEN_DIV as int);
    assert(ATTEN_DIV * WEIGHT_SCALE == WEIGHT_SCALE * ATTEN_DIV) by (nonlinear_arith);
}

} // verus!
