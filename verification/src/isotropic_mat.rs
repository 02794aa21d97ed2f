//! The isotropic phase function: volumetric scattering sends the
//! bounce in a uniformly random direction, whatever came in.

use vstd::prelude::*;

use std::sync::Arc;

use crate::material::BSDFResult;
use crate::ray::Ray;
use crate::texture::{texture_sample_s, SolidColorTex, Texture};
use crate::traceable::RayHit;
use crate::vec3::{ball_sample_s, unit_s, Color, Vec3};

verus! {

/// Scatters equally in every direction, ignoring the arbitrary normal
/// a volumetric wrapper supplies.
pub struct IsotropicMat {
    pub albedo: Arc<Texture>,
}

impl IsotropicMat {
    /// A phase function of one flat color.
    pub fn color(c: Color) -> (m: IsotropicMat)
        ensures
            *m.albedo == Texture::Solid(SolidColorTex { color: c }),
    {
        IsotropicMat { albedo: Arc::new(Texture::Solid(SolidColorTex::from_color(c))) }
    }

    /// A phase function colored by a texture.
    pub fn texture(t: Arc<Texture>) -> (m: IsotropicMat)
        ensures
            m.albedo == t,
    {
        IsotropicMat { albedo: t.clone() }
    }

    /// The sampled color attenuates and the path continues from the
    /// hit point in a random direction, a renormalized unit draw.
    pub fn bsdf(&self, _r_in: &Ray, hit: &RayHit, rng: &mut rand::rngs::StdRng) -> (r: BSDFResult)
        ensures
            r.diffuse == texture_sample_s(*self.albedo, *hit),
            r.emissive == (Vec3 { x: 0, y: 0, z: 0 }),
            r.bounce matches Some(b) && b.origin == hit.p && (exists|v: Vec3|
                ball_sample_s(v) && b.dir == unit_s(#[trigger] unit_s(v))),
    {
        let dir = Vec3::rand_unit(rng);
        let ghost w = choose|v: Vec3| ball_sample_s(v) && dir == unit_s(v);
        BSDFResult {
            diffuse: self.albedo.sample(hit),
            bounce: Some(Ray::new(hit.p, dir)),
            ..Default::default()
        }
    }
}

} // verus!
