//! The unguided recursive estimator: follow the caller-sampled path,
//! attenuating by the surface reflectance and sample weight at each
//! hit, and collect the background emission wherever the path escapes.
//! Paths stop at the depth cap (no roulette): a deliberate trade of a
//! vanishing bias for bounded recursion.

use vstd::prelude::*;
use crate::accelerator::{HitInfo, hit_matches_tri, is_closest_hit, misses_all};
use crate::integrator::{
    BounceInput, RADIANCE_LIMIT, attenuate, attenuate_value, background_radiance,
    background_sum, hit_uv, inputs_wf,
};
use crate::light::LightSource;
use crate::material::Material;
use crate::scene::{Scene, Vertex};
use crate::spectrum::{Spectrum, is_black};

verus! {

/// The hit annotations `hits` describe the path truthfully from bounce
/// `i` on: wherever the path's ray hits the scene, the annotated entry
/// is a closest hit of that ray. Entries past the path's first escape
/// are unconstrained — the path ends there.
pub open spec fn brute_hits_consistent(
    g: Seq<(Vec<Vertex>, Vec<u32>)>,
    inputs: Seq<BounceInput>,
    hits: Seq<HitInfo>,
    i: int,
) -> bool
    decreases inputs.len() - i,
{
    if i < 0 || i >= inputs.len() {
        true
    } else if misses_all(g, inputs[i].ray) {
        true
    } else {
        &&& is_closest_hit(g, inputs[i].ray, hits[i])
        &&& brute_hits_consistent(g, inputs, hits, i + 1)
    }
}

/// The estimator's value over annotated hits, from bounce `i` on:
/// black at the depth cap, the background sum at an escape, and
/// otherwise the deeper radiance attenuated by the hit material's
/// reflectance (at the hit's blended coordinate) and the bounce's
/// sample weight.
pub open spec fn spec_brute_radiance(
    lights: Seq<LightSource>,
    materials: Seq<Material>,
    g: Seq<(Vec<Vertex>, Vec<u32>)>,
    inputs: Seq<BounceInput>,
    hits: Seq<HitInfo>,
    i: int,
) -> (int, int, int)
    decreases inputs.len() - i,
{
    if i < 0 || i >= inputs.len() {
        (0, 0, 0)
    } else if misses_all(g, inputs[i].ray) {
        background_sum(lights, inputs[i].ray.direction, inputs[i].sky_uv, lights.len() as int)
    } else {
        let h = hits[i];
        attenuate_value(
            materials[h.mesh as int].brdf_spec(hit_uv(h)),
            inputs[i].weight,
            spec_brute_radiance(lights, materials, g, inputs, hits, i + 1),
        )
    }
}

/// The estimator's value and the truth of its annotations read only
/// the entries from `i` on.
proof fn lemma_brute_frame(
    lights: Seq<LightSource>,
    materials: Seq<Material>,
    g: Seq<(Vec<Vertex>, Vec<u32>)>,
    inputs: Seq<BounceInput>,
    h1: Seq<HitInfo>,
    h2: Seq<HitInfo>,
    i: int,
)
    requires
        h1.len() == h2.len(),
        inputs.len() <= h1.len(),
        forall|j: int| i <= j < h1.len() ==> h1[j] == h2[j],
    ensures
        spec_brute_radiance(lights, materials, g, inputs, h1, i)
            == spec_brute_radiance(lights, materials, g, inputs, h2, i),
        brute_hits_consistent(g, inputs, h1, i) == brute_hits_consistent(g, inputs, h2, i),
    decreases inputs.len() - i,
{
    if 0 <= i < inputs.len() && !misses_all(g, inputs[i].ray) {
        lemma_brute_frame(lights, materials, g, inputs, h1, h2, i + 1);
    }
}

pub struct BruteForcer {
    depth: u32,
    spp: u32,
}

impl BruteForcer {
    pub closed spec fn depth_spec(self) -> u32 {
        self.depth
    }

    pub closed spec fn spp_spec(self) -> u32 {
        self.spp
    }

    pub fn new(depth: u32, spp: u32) -> (r: BruteForcer)
        ensures
            r.depth_spec() == depth,
            r.spp_spec() == spp,
    {
        BruteForcer { depth, spp }
    }

    /// Paths per pixel the caller should average.
    pub fn samples_per_pixel(&self) -> (r: u32)
        ensures
            r == self.spp_spec(),
    {
        self.spp
    }

    /// Bounce cap of a path.
    pub fn depth(&self) -> (r: u32)
        ensures
            r == self.depth_spec(),
    {
        self.depth
    }

    /// One path of the estimator over the caller-sampled bounce data:
    /// black at the depth cap; the exact sum of all background
    /// emission when the ray escapes the scene; otherwise the deeper
    /// radiance attenuated by the hit material's reflectance and the
    /// bounce's sample weight.
    pub fn sample_recursive(&self, scene: &Scene, inputs: &Vec<BounceInput>, bounce: usize) -> (r: Spectrum)
        requires
            scene.wf(),
            inputs_wf(inputs@),
            bounce <= inputs@.len(),
            inputs@.len() <= 4096,
        ensures
            0 <= r.r <= RADIANCE_LIMIT,
            0 <= r.g <= RADIANCE_LIMIT,
            0 <= r.b <= RADIANCE_LIMIT,
            bounce == inputs@.len() ==> is_black(r),
            bounce < inputs@.len() && misses_all(scene.geometry_view(), inputs@[bounce as int].ray)
                ==> (r.r as int, r.g as int, r.b as int) == background_sum(
                    scene.light_sources@,
                    inputs@[bounce as int].ray.direction,
                    inputs@[bounce as int].sky_uv,
                    scene.light_sources@.len() as int,
                ),
            exists|hits: Seq<HitInfo>| {
                &&& hits.len() == inputs@.len()
                &&& brute_hits_consistent(scene.geometry_view(), inputs@, hits, bounce as int)
                &&& (r.r as int, r.g as int, r.b as int) == #[trigger] spec_brute_radiance(
                    scene.light_sources@,
                    scene.materials@,
                    scene.geometry_view(),
                    inputs@,
                    hits,
                    bounce as int,
                )
            },
        decreases inputs@.len() - bounce,
    {
        let ghost g = scene.geometry_view();
        let ghost lights = scene.light_sources@;
        let ghost mats = scene.materials@;
        if bounce == inputs.len() {
            proof {
                let hits0: Seq<HitInfo> = Seq::new(
                    inputs@.len() as nat,
                    |j: int| vstd::pervasive::arbitrary(),
                );
                assert(brute_hits_consistent(g, inputs@, hits0, bounce as int));
                assert((0int, 0int, 0int)
                    == spec_brute_radiance(lights, mats, g, inputs@, hits0, bounce as int));
            }
            return Spectrum::black();
        }
        let input = inputs[bounce];
        match scene.accelerator.intersect(&input.ray) {
            Some(info) => {
                proof {
                    let (m, k) = choose|m: int, k: int|
                        #[trigger] hit_matches_tri(g, input.ray, info, m, k);
                    assert(crate::accelerator::valid_tri(g, m, k));
                    assert(g[m].1@[3 * k] < g[m].0@.len());
                    assert(g[m].1@[3 * k + 1] < g[m].0@.len());
                    assert(g[m].1@[3 * k + 2] < g[m].0@.len());
                    assert(info.vertices.0.wf());
                    assert(info.vertices.1.wf());
                    assert(info.vertices.2.wf());
                    assert((info.mesh as int) < scene.materials@.len());
                }
                let uv = crate::geometry::interpolate_uv(
                    &info.vertices.0,
                    &info.vertices.1,
                    &info.vertices.2,
                    &info.barycentrics,
                );
                let brdf = scene.materials[info.mesh as usize].brdf(
                    &uv,
                    &input.ray.direction,
                    &input.ray.direction,
                );
                let deeper = self.sample_recursive(scene, inputs, bounce + 1);
                let result = attenuate(&brdf, &input.weight, &deeper);
                proof {
                    let deep_hits = choose|hits: Seq<HitInfo>| {
                        &&& hits.len() == inputs@.len()
                        &&& brute_hits_consistent(g, inputs@, hits, bounce + 1)
                        &&& (deeper.r as int, deeper.g as int, deeper.b as int)
                            == #[trigger] spec_brute_radiance(
                                lights, mats, g, inputs@, hits, bounce + 1)
                    };
                    let hits = deep_hits.update(bounce as int, info);
                    lemma_brute_frame(lights, mats, g, inputs@, hits, deep_hits, bounce + 1);
                    assert(uv == hit_uv(info));
                    assert(brute_hits_consistent(g, inputs@, hits, bounce as int));
                    assert((result.r as int, result.g as int, result.b as int)
                        == spec_brute_radiance(lights, mats, g, inputs@, hits, bounce as int));
                }
                result
            },
            None => {
                let result = background_radiance(scene, &input.ray.direction, &input.sky_uv);
                proof {
                    let hits0: Seq<HitInfo> = Seq::new(
                        inputs@.len() as nat,
                        |j: int| vstd::pervasive::arbitrary(),
                    );
                    assert(brute_hits_consistent(g, inputs@, hits0, bounce as int));
                    assert((result.r as int, result.g as int, result.b as int)
                        == spec_brute_radiance(lights, mats, g, inputs@, hits0, bounce as int));
                }
                result
            },
        }
    }

    /// Start a path at its camera ray.
    pub fn sample_radiance(&self, scene: &Scene, inputs: &Vec<BounceInput>) -> (r: Spectrum)
        requires
            scene.wf(),
            inputs_wf(inputs@),
            inputs@.len() <= 4096,
        ensures
            0 <= r.r <= RADIANCE_LIMIT,
            0 <= r.g <= RADIANCE_LIMIT,
            0 <= r.b <= RADIANCE_LIMIT,
            inputs@.len() > 0 && misses_all(scene.geometry_view(), inputs@[0].ray)
                ==> (r.r as int, r.g as int, r.b as int) == background_sum(
                    scene.light_sources@,
                    inputs@[0].ray.direction,
                    inputs@[0].sky_uv,
                    scene.light_sources@.len() as int,
                ),
            exists|hits: Seq<HitInfo>| {
                &&& hits.len() == inputs@.len()
                &&& brute_hits_consistent(scene.geometry_view(), inputs@, hits, 0)
                &&& (r.r as int, r.g as int, r.b as int) == #[trigger] spec_brute_radiance(
                    scene.light_sources@,
                    scene.materials@,
                    scene.geometry_view(),
                    inputs@,
                    hits,
                    0,
                )
            },
    {
        self.sample_recursive(scene, inputs, 0)
    }
}

} // verus!
