//! Materials: what a surface does to the light that reaches it.
//!
//! A material consumes the incoming ray and the hit record and yields
//! a diffuse attenuation color, an emissive color, and an optional
//! bounce ray; no bounce ends the light path.

use vstd::prelude::*;

use std::sync::Arc;

use crate::light::DiffuseLight;
use crate::isotropic_mat::IsotropicMat;
use crate::qmath::{q_max, q_min, ONE};
use crate::ray::Ray;
use crate::sampler::rand_unit_scalar;
use crate::texture::{texture_sample_s, SolidColorTex, Texture};
use crate::traceable::RayHit;
use crate::utils::{
    cannot_refract_s, reflect, reflect_s, reflectance_schlick, reflectance_schlick_s, refract,
    refract_dir_s,
};
use crate::vec3::{ball_sample_s, dot_s, near_zero_s, unit_s, v_add_s, v_scale_s, Color, Vec3};

verus! {

/// Refractive index of the air around every surface.
pub const IOR_AIR: i64 = 65536;

/// What a material does to the light at a hit.
pub struct BSDFResult {
    /// Diffuse attenuation color.
    pub diffuse: Color,
    /// Emitted color.
    pub emissive: Color,
    /// The continuation of the light path; `None` ends it.
    pub bounce: Option<Ray>,
}

impl BSDFResult {
    /// Set the bounce to leave the hit point along the surface normal,
    /// normalized as every constructed ray is.
    pub fn with_normal_bounce(&mut self, hit: &RayHit)
        ensures
            final(self).diffuse == old(self).diffuse,
            final(self).emissive == old(self).emissive,
            final(self).bounce == Some(Ray { origin: hit.p, dir: unit_s(hit.normal) }),
    {
        self.bounce = Some(Ray::new(hit.p, hit.normal));
    }
}

impl Default for BSDFResult {
    /// Black, no emission, no bounce.
    fn default() -> (r: Self)
        ensures
            r.diffuse == (Vec3 { x: 0, y: 0, z: 0 }),
            r.emissive == (Vec3 { x: 0, y: 0, z: 0 }),
            r.bounce is None,
    {
        BSDFResult { diffuse: Color::zero(), emissive: Color::zero(), bounce: None }
    }
}

/// A surface of one flat color that bounces along its normal.
pub struct SolidColor {
    pub color: Color,
}

impl SolidColor {
    /// The flat color, with a bounce along the normal.
    pub fn bsdf(&self, _r_in: &Ray, hit: &RayHit) -> (r: BSDFResult)
        ensures
            r.diffuse == self.color,
            r.emissive == (Vec3 { x: 0, y: 0, z: 0 }),
            r.bounce == Some(Ray { origin: hit.p, dir: unit_s(hit.normal) }),
    {
        let mut result = BSDFResult { diffuse: self.color, ..Default::default() };
        result.with_normal_bounce(hit);
        result
    }
}

/// The diffuse bounce direction: the normal jittered by a random unit
/// direction, normalized; the normal alone when the jitter cancels it.
pub open spec fn lambert_dir_s(normal: Vec3, v: Vec3) -> Vec3 {
    let scatter = v_add_s(normal, unit_s(v));
    if near_zero_s(scatter) {
        unit_s(normal)
    } else {
        unit_s(scatter)
    }
}

/// Diffuse scattering: the bounce leaves near the normal, jittered by
/// a random unit direction.
pub struct Lambert {
    pub albedo: Arc<Texture>,
}

impl Lambert {
    /// A diffuse surface of one color given by components.
    pub fn color(r: i64, g: i64, b: i64) -> (m: Lambert)
        ensures
            *m.albedo == Texture::Solid(SolidColorTex { color: Vec3 { x: r, y: g, z: b } }),
    {
        Lambert { albedo: Arc::new(Texture::Solid(SolidColorTex::new(r, g, b))) }
    }

    /// A diffuse surface of one color.
    pub fn from_color(c: Color) -> (m: Lambert)
        ensures
            *m.albedo == Texture::Solid(SolidColorTex { color: c }),
    {
        Lambert { albedo: Arc::new(Texture::Solid(SolidColorTex::from_color(c))) }
    }

    /// A diffuse surface colored by a texture.
    pub fn texture(t: Arc<Texture>) -> (m: Lambert)
        ensures
            m.albedo == t,
    {
        Lambert { albedo: t.clone() }
    }

    /// Diffuse scattering: the sampled albedo attenuates, nothing is
    /// emitted, and the path continues from the hit point along the
    /// normal jittered by a random unit direction, falling back to the
    /// normal itself when the jitter cancels it.
    pub fn bsdf(&self, _r_in: &Ray, hit: &RayHit, rng: &mut rand::rngs::StdRng) -> (r: BSDFResult)
        ensures
            r.diffuse == texture_sample_s(*self.albedo, *hit),
            r.emissive == (Vec3 { x: 0, y: 0, z: 0 }),
            r.bounce matches Some(b) && b.origin == hit.p && (exists|v: Vec3|
                ball_sample_s(v) && b.dir == #[trigger] lambert_dir_s(hit.normal, v)),
    {
        let jitter = Vec3::rand_unit(rng);
        let ghost w = choose|v: Vec3| ball_sample_s(v) && jitter == unit_s(v);
        let mut scatter_direction = hit.normal.add(jitter);
        if scatter_direction.near_zero() {
            scatter_direction = hit.normal;
        }
        proof {
            assert(unit_s(scatter_direction) == lambert_dir_s(hit.normal, w));
        }

        BSDFResult {
            diffuse: self.albedo.sample(hit),
            bounce: Some(Ray::new(hit.p, scatter_direction)),
            ..Default::default()
        }
    }
}

/// The glossy bounce direction: the mirror reflection perturbed by a
/// roughness-scaled random unit direction, normalized.
pub open spec fn metal_dir_s(in_dir: Vec3, normal: Vec3, roughness: int, v: Vec3) -> Vec3 {
    unit_s(
        v_add_s(
            reflect_s(in_dir, normal),
            v_scale_s(unit_s(v), crate::qmath::max_s(0, crate::qmath::min_s(roughness, 65536))),
        ),
    )
}

/// Glossy reflection, perturbed by roughness.
pub struct Metal {
    pub albedo: Color,
    pub roughness: i64,
}

impl Metal {
    /// Mirror reflection perturbed by a roughness-scaled random unit
    /// direction; a perturbed direction that points into the surface
    /// is absorbed and ends the path.  With no roughness the bounce is
    /// the bare reflection, owed whenever that reflection points
    /// outward; with any roughness a bounce is owed whenever no
    /// possible jitter can turn the reflection into the surface.
    pub fn bsdf(&self, r_in: &Ray, hit: &RayHit, rng: &mut rand::rngs::StdRng) -> (r: BSDFResult)
        ensures
            r.diffuse == self.albedo,
            r.emissive == (Vec3 { x: 0, y: 0, z: 0 }),
            r.bounce matches Some(b) ==> b.origin == hit.p && dot_s(b.dir, hit.normal) > 0 && (
            exists|v: Vec3|
                ball_sample_s(v) && b.dir == #[trigger] metal_dir_s(
                    r_in.dir,
                    hit.normal,
                    self.roughness as int,
                    v,
                )),
            self.roughness <= 0 && dot_s(unit_s(reflect_s(r_in.dir, hit.normal)), hit.normal) > 0
                ==> (r.bounce matches Some(b) && b.dir == unit_s(reflect_s(r_in.dir, hit.normal))),
            (forall|v: Vec3|
                ball_sample_s(v) ==> dot_s(
                    #[trigger] metal_dir_s(r_in.dir, hit.normal, self.roughness as int, v),
                    hit.normal,
                ) > 0) ==> r.bounce is Some,
    {
        let reflected = reflect(r_in.dir, hit.normal);
        let jitter = Vec3::rand_unit(rng);
        let ghost w = choose|v: Vec3| ball_sample_s(v) && jitter == unit_s(v);
        let roughness_scatter = jitter.scale(q_max(0, q_min(self.roughness, ONE)));
        let scattered = Ray::new(hit.p, reflected.add(roughness_scatter));
        proof {
            assert(scattered.dir == metal_dir_s(r_in.dir, hit.normal, self.roughness as int, w));
            if self.roughness <= 0 {
                crate::qmath::lemma_mul_qs_one(unit_s(w).x as int);
                crate::qmath::lemma_mul_qs_one(unit_s(w).y as int);
                crate::qmath::lemma_mul_qs_one(unit_s(w).z as int);
                assert(v_scale_s(unit_s(w), 0) == (Vec3 { x: 0, y: 0, z: 0 }));
                assert(v_add_s(reflect_s(r_in.dir, hit.normal), Vec3 { x: 0, y: 0, z: 0 })
                    == reflect_s(r_in.dir, hit.normal));
                assert(scattered.dir == unit_s(reflect_s(r_in.dir, hit.normal)));
            }
        }

        let mut result = BSDFResult { diffuse: self.albedo, ..Default::default() };
        if scattered.dir.dot(hit.normal) > 0 {
            result.bounce = Some(scattered);
        }
        result
    }
}

/// Glass-like transmission: reflection or refraction by Fresnel
/// reflectance.
pub struct Dielectric {
    pub albedo: Color,
    pub ior: i64,
}

/// The refractive indices the ray crosses between, by the side of the
/// surface it arrived on.
pub open spec fn dielectric_iors(d: Dielectric, front_face: bool) -> (int, int) {
    if front_face {
        (65536, d.ior as int)
    } else {
        (d.ior as int, 65536)
    }
}

impl Dielectric {
    /// Refraction where Snell's law allows it and a Fresnel-weighted
    /// coin permits it, reflection otherwise; the path always
    /// continues from the hit point.  A reflectance of one or more
    /// forces reflection for every draw, and a reflectance of zero or
    /// less with refraction possible forces refraction.
    pub fn bsdf(&self, r_in: &Ray, hit: &RayHit, rng: &mut rand::rngs::StdRng) -> (r: BSDFResult)
        ensures
            r.diffuse == self.albedo,
            r.emissive == (Vec3 { x: 0, y: 0, z: 0 }),
            r.bounce matches Some(b) && b.origin == hit.p && (b.dir == unit_s(
                reflect_s(r_in.dir, hit.normal),
            ) || b.dir == unit_s(
                refract_dir_s(
                    r_in.dir,
                    hit.normal,
                    dielectric_iors(*self, hit.front_face).0,
                    dielectric_iors(*self, hit.front_face).1,
                ),
            )),
            cannot_refract_s(
                r_in.dir,
                hit.normal,
                dielectric_iors(*self, hit.front_face).0,
                dielectric_iors(*self, hit.front_face).1,
            ) ==> (r.bounce matches Some(b) && b.dir == unit_s(reflect_s(r_in.dir, hit.normal))),
            reflectance_schlick_s(
                r_in.dir,
                hit.normal,
                dielectric_iors(*self, hit.front_face).0,
                dielectric_iors(*self, hit.front_face).1,
            ) >= 65536 ==> (r.bounce matches Some(b) && b.dir == unit_s(
                reflect_s(r_in.dir, hit.normal),
            )),
            reflectance_schlick_s(
                r_in.dir,
                hit.normal,
                dielectric_iors(*self, hit.front_face).0,
                dielectric_iors(*self, hit.front_face).1,
            ) <= 0 && !cannot_refract_s(
                r_in.dir,
                hit.normal,
                dielectric_iors(*self, hit.front_face).0,
                dielectric_iors(*self, hit.front_face).1,
            ) ==> (r.bounce matches Some(b) && b.dir == unit_s(
                refract_dir_s(
                    r_in.dir,
                    hit.normal,
                    dielectric_iors(*self, hit.front_face).0,
                    dielectric_iors(*self, hit.front_face).1,
                ),
            )),
    {
        let (ior_from, ior_into) = if hit.front_face {
            (IOR_AIR, self.ior)
        } else {
            (self.ior, IOR_AIR)
        };

        let reflectance_at_angle = reflectance_schlick(r_in.dir, hit.normal, ior_from, ior_into);
        let sample_use_reflect_cause_angle = reflectance_at_angle > rand_unit_scalar(rng);
        let maybe_refracted = refract(r_in.dir, hit.normal, ior_from, ior_into);

        let refracted = match maybe_refracted {
            Some(x) if !sample_use_reflect_cause_angle => x,
            _ => reflect(r_in.dir, hit.normal),
        };

        BSDFResult {
            diffuse: self.albedo,
            bounce: Some(Ray::new(hit.p, refracted)),
            ..Default::default()
        }
    }
}

/// The closed set of material kinds.
pub enum Material {
    Solid(SolidColor),
    Lambert(Lambert),
    Metal(Metal),
    Dielectric(Dielectric),
    Light(DiffuseLight),
    Isotropic(IsotropicMat),
}

impl Material {
    /// Evaluate the material at a hit.  Each variant's clauses hold of
    /// the result; in particular lights never bounce, dielectrics
    /// always bounce, and a metal bounce never points into the
    /// surface.
    pub fn bsdf(&self, r_in: &Ray, hit: &RayHit, rng: &mut rand::rngs::StdRng) -> (r: BSDFResult)
        ensures
            self matches Material::Solid(m) ==> r.diffuse == m.color && r.emissive == (Vec3 {
                x: 0,
                y: 0,
                z: 0,
            }) && r.bounce == Some(Ray { origin: hit.p, dir: unit_s(hit.normal) }),
            self matches Material::Lambert(m) ==> r.diffuse == texture_sample_s(*m.albedo, *hit)
                && r.emissive == (Vec3 { x: 0, y: 0, z: 0 }) && (r.bounce matches Some(b)
                && b.origin == hit.p),
            self matches Material::Metal(m) ==> r.diffuse == m.albedo && r.emissive == (Vec3 {
                x: 0,
                y: 0,
                z: 0,
            }) && (r.bounce matches Some(b) ==> b.origin == hit.p && dot_s(b.dir, hit.normal) > 0),
            self matches Material::Dielectric(m) ==> r.diffuse == m.albedo && r.emissive == (
            Vec3 { x: 0, y: 0, z: 0 }) && (r.bounce matches Some(b) && b.origin == hit.p),
            self matches Material::Light(m) ==> r.diffuse == v_scale_s(
                texture_sample_s(*m.albedo, *hit),
                m.strength as int,
            ) && r.emissive == v_scale_s(texture_sample_s(*m.albedo, *hit), m.strength as int)
                && r.bounce is None,
            self matches Material::Isotropic(m) ==> r.diffuse == texture_sample_s(*m.albedo, *hit)
                && r.emissive == (Vec3 { x: 0, y: 0, z: 0 }) && (r.bounce matches Some(b)
                && b.origin == hit.p),
    {
        match self {
            Material::Solid(m) => m.bsdf(r_in, hit),
            Material::Lambert(m) => m.bsdf(r_in, hit, rng),
            Material::Metal(m) => m.bsdf(r_in, hit, rng),
            Material::Dielectric(m) => m.bsdf(r_in, hit, rng),
            Material::Light(m) => m.bsdf(r_in, hit),
            Material::Isotropic(m) => m.bsdf(r_in, hit, rng),
        }
    }
}

} // verus!
