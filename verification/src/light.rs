//! The diffuse area light: emissive only, the end of a light path.

use vstd::prelude::*;

use std::sync::Arc;

use crate::material::BSDFResult;
use crate::ray::Ray;
use crate::texture::{texture_sample_s, SolidColorTex, Texture};
use crate::traceable::RayHit;
use crate::vec3::{v_scale_s, Color, Vec3};

verus! {

/// A surface that emits its texture color scaled by a strength and
/// never bounces.
pub struct DiffuseLight {
    pub albedo: Arc<Texture>,
    pub strength: i64,
}

impl DiffuseLight {
    /// A light of one flat color.
    pub fn color(c: Color, strength: i64) -> (m: DiffuseLight)
        ensures
            *m.albedo == Texture::Solid(SolidColorTex { color: c }),
            m.strength == strength,
    {
        DiffuseLight { albedo: Arc::new(Texture::Solid(SolidColorTex::from_color(c))), strength }
    }

    /// A light colored by a texture.
    pub fn texture(t: Arc<Texture>, strength: i64) -> (m: DiffuseLight)
        ensures
            m.albedo == t,
            m.strength == strength,
    {
        DiffuseLight { albedo: t.clone(), strength }
    }

    /// The sampled color scaled by the strength, as both the diffuse
    /// and the emitted color; no bounce, so the light path ends here.
    pub fn bsdf(&self, _r_in: &Ray, hit: &RayHit) -> (r: BSDFResult)
        ensures
            r.diffuse == v_scale_s(texture_sample_s(*self.albedo, *hit), self.strength as int),
            r.emissive == v_scale_s(texture_sample_s(*self.albedo, *hit), self.strength as int),
            r.bounce is None,
    {
        let color = self.albedo.sample(hit).scale(self.strength);

        BSDFResult { diffuse: color, emissive: color, bounce: None }
    }
}

} // verus!
