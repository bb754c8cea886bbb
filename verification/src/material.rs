//! Surface materials. The closed set of material kinds holds the one
//! whose reflectance is exact on the integer grid: the Lambertian
//! diffuse surface, whose BRDF is a constant albedo, independent of the
//! directions (microfacet models need transcendental shading maps and
//! live with the caller).
//!
//! Values are carried scaled by pi: `brdf` returns pi times the
//! physical reflectance, and sample densities elsewhere carry the same
//! factor, so the ratios integrators build are exact.

use vstd::prelude::*;
use crate::scene::TexCoord;
use crate::spectrum::{Spectrum, in_gamut};
use crate::texture::{Texture, wrap_index};
use crate::vec3::Vec3;

verus! {

/// Largest albedo channel value (the caller's fixed-point scale of one).
pub const ALBEDO_LIMIT: i128 = 0x1_0000;

/// What importance-sampling a material returns: the sampled incoming
/// direction, the reflectance there, and the sample's density.
pub struct BrdfSample {
    pub wi: Vec3,
    pub brdf: Spectrum,
    pub pdf_times_pi: crate::rat::Rat,
}

/// Diffuse surface: constant reflectance, optionally modulated by a
/// texture.
pub struct LambertianMaterial {
    albedo: Spectrum,
    texture: Option<Texture<Spectrum>>,
}

impl LambertianMaterial {
    pub closed spec fn albedo_spec(self) -> Spectrum {
        self.albedo
    }

    pub closed spec fn texture_spec(self) -> Option<Texture<Spectrum>> {
        self.texture
    }

    pub open spec fn wf(self) -> bool {
        &&& in_gamut(self.albedo_spec(), ALBEDO_LIMIT as int)
        &&& self.albedo_spec().r >= 0 && self.albedo_spec().g >= 0 && self.albedo_spec().b >= 0
        &&& match self.texture_spec() {
            Some(t) => {
                &&& t.wf()
                &&& forall|i: int| 0 <= i < t.data_view().len() ==> {
                    &&& in_gamut(#[trigger] t.data_view()[i], ALBEDO_LIMIT as int)
                    &&& t.data_view()[i].r >= 0
                    &&& t.data_view()[i].g >= 0
                    &&& t.data_view()[i].b >= 0
                }
            },
            None => true,
        }
    }

    /// Reflectance at `uv` (pi-scaled): the flat albedo, times the
    /// texture sample when one is present.
    pub open spec fn brdf_spec(self, uv: TexCoord) -> (int, int, int) {
        match self.texture_spec() {
            None => (self.albedo_spec().r as int, self.albedo_spec().g as int, self.albedo_spec().b as int),
            Some(t) => {
                let px = t.data_view()[
                    wrap_index(uv.v, t.height_spec()) * t.width_spec() + wrap_index(uv.u, t.width_spec())
                ];
                (
                    (self.albedo_spec().r * px.r) / (ALBEDO_LIMIT as int),
                    (self.albedo_spec().g * px.g) / (ALBEDO_LIMIT as int),
                    (self.albedo_spec().b * px.b) / (ALBEDO_LIMIT as int),
                )
            },
        }
    }

    /// A single flat colour.
    pub fn flat(color: Spectrum) -> (r: LambertianMaterial)
        requires
            in_gamut(color, ALBEDO_LIMIT as int),
            color.r >= 0 && color.g >= 0 && color.b >= 0,
        ensures
            r.wf(),
            r.albedo_spec() == color,
            r.texture_spec() is None,
    {
        LambertianMaterial { albedo: color, texture: None }
    }

    /// A texture under a unit factor.
    pub fn textured(texture: Texture<Spectrum>) -> (r: LambertianMaterial)
        requires
            texture.wf(),
            forall|i: int| 0 <= i < texture.data_view().len() ==> {
                &&& in_gamut(#[trigger] texture.data_view()[i], ALBEDO_LIMIT as int)
                &&& texture.data_view()[i].r >= 0
                &&& texture.data_view()[i].g >= 0
                &&& texture.data_view()[i].b >= 0
            },
        ensures
            r.wf(),
            r.albedo_spec() == (Spectrum { r: 1, g: 1, b: 1 }),
            r.texture_spec() == Some(texture),
    {
        LambertianMaterial { albedo: Spectrum { r: 1, g: 1, b: 1 }, texture: Some(texture) }
    }

    /// Exec check of the material's well-formedness.
    pub fn gamut_check(&self) -> (r: bool)
        ensures
            r == self.wf(),
    {
        if self.albedo.r < 0 || self.albedo.r > ALBEDO_LIMIT
            || self.albedo.g < 0 || self.albedo.g > ALBEDO_LIMIT
            || self.albedo.b < 0 || self.albedo.b > ALBEDO_LIMIT {
            return false;
        }
        match &self.texture {
            None => true,
            Some(t) => t.gamut_check(ALBEDO_LIMIT),
        }
    }

    /// The diffuse reflectance, independent of both directions: for any
    /// `wi` and `wo` the result is the same function of `uv` alone.
    pub fn brdf(&self, uv: &TexCoord, wi: &Vec3, wo: &Vec3) -> (r: Spectrum)
        requires
            self.wf(),
            uv.wf(),
        ensures
            (r.r as int, r.g as int, r.b as int) == self.brdf_spec(*uv),
            r.r >= 0 && r.g >= 0 && r.b >= 0,
            in_gamut(r, ALBEDO_LIMIT as int),
    {
        match &self.texture {
            None => self.albedo,
            Some(t) => {
                let px = t.sample(uv);
                proof {
                    assert(in_gamut(px, ALBEDO_LIMIT as int) && px.r >= 0 && px.g >= 0 && px.b >= 0);
                    lemma_modulate_channel(self.albedo.r as int, px.r as int);
                    lemma_modulate_channel(self.albedo.g as int, px.g as int);
                    lemma_modulate_channel(self.albedo.b as int, px.b as int);
                }
                Spectrum {
                    r: (self.albedo.r * px.r) / ALBEDO_LIMIT,
                    g: (self.albedo.g * px.g) / ALBEDO_LIMIT,
                    b: (self.albedo.b * px.b) / ALBEDO_LIMIT,
                }
            },
        }
    }

    /// Importance-sample the diffuse surface. The cosine-weighted
    /// hemisphere map is transcendental, so the sampled direction and
    /// its pi-scaled density come from the caller; the reflectance is
    /// evaluated here and does not depend on it.
    pub fn sample_brdf(&self, uv: &TexCoord, wo: &Vec3, sampled_wi: Vec3, pdf_times_pi: crate::rat::Rat) -> (r: BrdfSample)
        requires
            self.wf(),
            uv.wf(),
            pdf_times_pi.wf(),
        ensures
            r.wi == sampled_wi,
            r.pdf_times_pi == pdf_times_pi,
            (r.brdf.r as int, r.brdf.g as int, r.brdf.b as int) == self.brdf_spec(*uv),
    {
        let brdf = self.brdf(uv, &sampled_wi, wo);
        BrdfSample { wi: sampled_wi, brdf, pdf_times_pi }
    }

    /// A diffuse surface is never a Dirac delta.
    pub fn is_delta(&self, uv: &TexCoord) -> (r: bool)
        ensures
            r == false,
    {
        false
    }
}

/// Modulating one bounded channel by another and renormalising keeps
/// it bounded and non-negative.
proof fn lemma_modulate_channel(a: int, p: int)
    requires
        0 <= a <= ALBEDO_LIMIT,
        0 <= p <= ALBEDO_LIMIT,
    ensures
        0 <= (a * p) / (ALBEDO_LIMIT as int) <= ALBEDO_LIMIT,
        a * p <= 0x1_0000_0000,
        0 <= a * p,
{
    crate::vec3::lemma_mul_bound(a, p, 0x1_0000, 0x1_0000);
    assert(0 <= a * p) by (nonlinear_arith)
        requires 0 <= a && 0 <= p;
    assert(a * p <= ALBEDO_LIMIT * ALBEDO_LIMIT) by (nonlinear_arith)
        requires 0 <= a <= ALBEDO_LIMIT && 0 <= p <= ALBEDO_LIMIT;
    vstd::arithmetic::div_mod::lemma_div_pos_is_pos(a * p, ALBEDO_LIMIT as int);
    vstd::arithmetic::div_mod::lemma_div_is_ordered(a * p, ALBEDO_LIMIT * ALBEDO_LIMIT, ALBEDO_LIMIT as int);
    vstd::arithmetic::div_mod::lemma_div_by_multiple(ALBEDO_LIMIT as int, ALBEDO_LIMIT as int);
    assert(ALBEDO_LIMIT * ALBEDO_LIMIT == (ALBEDO_LIMIT as int) * (ALBEDO_LIMIT as int)) by (nonlinear_arith);
}

/// Closed set of material kinds.
pub enum Material {
    Lambertian(LambertianMaterial),
}

impl Material {
    pub open spec fn wf(self) -> bool {
        match self {
            Material::Lambertian(l) => l.wf(),
        }
    }

    /// Pi-scaled reflectance of the material at `uv`.
    pub open spec fn brdf_spec(self, uv: TexCoord) -> (int, int, int) {
        match self {
            Material::Lambertian(l) => l.brdf_spec(uv),
        }
    }

    pub fn brdf(&self, uv: &TexCoord, wi: &Vec3, wo: &Vec3) -> (r: Spectrum)
        requires
            self.wf(),
            uv.wf(),
        ensures
            (r.r as int, r.g as int, r.b as int) == self.brdf_spec(*uv),
            r.r >= 0 && r.g >= 0 && r.b >= 0,
            in_gamut(r, ALBEDO_LIMIT as int),
    {
        match self {
            Material::Lambertian(l) => l.brdf(uv, wi, wo),
        }
    }

    pub fn is_delta(&self, uv: &TexCoord) -> (r: bool)
        ensures
            r == false,
    {
        match self {
            Material::Lambertian(l) => l.is_delta(uv),
        }
    }
}

} // verus!
