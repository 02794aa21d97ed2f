//! The integrator: a recursive Monte-Carlo estimator of the radiance
//! a ray carries.

use vstd::prelude::*;

use crate::material::Material;
use crate::ray::Ray;
use crate::texture::texture_sample_s;
use crate::traceable::{deterministic_s, hit_spec_s, RayHit, Traceable};
use crate::vec3::{v_add_s, v_mul_s, v_scale_s, Color, Vec3};

verus! {

/// The self-intersection offset: a hit must lie at least this far
/// along the ray, so a bounce does not immediately meet the surface it
/// left.
pub const ACNE_CORRECTION: i64 = 66;

/// How the integrator's result relates to the material it hit.  A
/// light ends the path with exactly its scaled emission.  Every other
/// material combines as `emissive + diffuse * bounced`; their emission
/// is zero, so the result is the diffuse color modulating some bounced
/// radiance -- except a metal, whose perturbed reflection may be
/// absorbed and end the path at exact black.
pub open spec fn traced_hit_s(h: RayHit, c: Color) -> bool {
    match *h.material {
        Material::Light(l) => c == v_scale_s(texture_sample_s(*l.albedo, h), l.strength as int),
        Material::Solid(m) => exists|rest: Color| c == #[trigger] v_mul_s(m.color, rest),
        Material::Lambert(m) => exists|rest: Color|
            c == #[trigger] v_mul_s(texture_sample_s(*m.albedo, h), rest),
        Material::Metal(m) => (exists|rest: Color| c == #[trigger] v_mul_s(m.albedo, rest)) || c
            == (Vec3 { x: 0, y: 0, z: 0 }),
        Material::Dielectric(m) => exists|rest: Color| c == #[trigger] v_mul_s(m.albedo, rest),
        Material::Isotropic(m) => exists|rest: Color|
            c == #[trigger] v_mul_s(texture_sample_s(*m.albedo, h), rest),
    }
}

/// Estimate the radiance arriving along a ray.
///
/// An exhausted bounce budget yields exactly black, whatever the scene
/// holds.  A miss yields exactly the background -- in particular an
/// empty world yields the background for every ray.  On a hit the
/// material is evaluated: a bounce recurses with one less level and
/// combines as `emissive + diffuse * bounced`, and no bounce ends the
/// path with the emission alone, as `traced_hit_s` spells out per
/// material.
pub fn trace_ray(
    r: &Ray,
    world: &Traceable,
    depth: i32,
    background: &Color,
    rng: &mut rand::rngs::StdRng,
) -> (c: Color)
    ensures
        depth <= 0 ==> c == (Vec3 { x: 0, y: 0, z: 0 }),
        depth > 0 && (world matches Traceable::World(w) && w.objects@.len() == 0) ==> c
            == *background,
        depth > 0 && deterministic_s(*world) && hit_spec_s(
            *world,
            *r,
            66,
            i64::MAX as int,
        ) is None ==> c == *background,
        depth > 0 && deterministic_s(*world) ==> (hit_spec_s(
            *world,
            *r,
            66,
            i64::MAX as int,
        ) matches Some(h) ==> traced_hit_s(h, c)),
    decreases
            (if depth <= 0 {
                0int
            } else {
                depth as int
            }),
{
    if depth <= 0 {
        return Color::zero();
    }

    let result = world.check_intersection(r, ACNE_CORRECTION, i64::MAX, rng);
    match result {
        Some(hit) => {
            proof {
                match world {
                    Traceable::World(w) => {
                        if w.objects@.len() == 0 {
                            assert(crate::traceable::list_deterministic_s(w.objects@));
                            assert(crate::traceable::scan_hit_s(
                                w.objects@,
                                *r,
                                ACNE_CORRECTION as int,
                                i64::MAX as int,
                                0,
                            ) is None);
                            assert(false);
                        }
                    },
                    _ => {},
                }
            }
            let bsdf_result = hit.material.bsdf(r, &hit, rng);
            match bsdf_result.bounce {
                Some(bounce) => {
                    let bounce_result = trace_ray(&bounce, world, depth - 1, background, rng);
                    let combined = bsdf_result.emissive.add(bsdf_result.diffuse.mul(bounce_result));
                    proof {
                        assert(v_add_s(
                            Vec3 { x: 0, y: 0, z: 0 },
                            v_mul_s(bsdf_result.diffuse, bounce_result),
                        ) == v_mul_s(bsdf_result.diffuse, bounce_result));
                        let ghost m = crate::laws::held(&*hit.material);
                        match m {
                            Material::Light(_) => {
                                assert(false);
                            },
                            Material::Solid(mm) => {
                                assert(combined == v_mul_s(mm.color, bounce_result));
                            },
                            Material::Lambert(mm) => {
                                assert(combined == v_mul_s(
                                    texture_sample_s(*mm.albedo, hit),
                                    bounce_result,
                                ));
                            },
                            Material::Metal(mm) => {
                                assert(combined == v_mul_s(mm.albedo, bounce_result));
                            },
                            Material::Dielectric(mm) => {
                                assert(combined == v_mul_s(mm.albedo, bounce_result));
                            },
                            Material::Isotropic(mm) => {
                                assert(combined == v_mul_s(
                                    texture_sample_s(*mm.albedo, hit),
                                    bounce_result,
                                ));
                            },
                        }
                    }
                    combined
                },
                None => {
                    // Lights do not bounce light: the path ends here,
                    // and black emission effectively discards the ray.
                    proof {
                        let ghost m = crate::laws::held(&*hit.material);
                        match m {
                            Material::Light(l) => {
                                assert(bsdf_result.emissive == v_scale_s(
                                    texture_sample_s(*l.albedo, hit),
                                    l.strength as int,
                                ));
                            },
                            Material::Metal(_) => {
                                assert(bsdf_result.emissive == (Vec3 { x: 0, y: 0, z: 0 }));
                            },
                            Material::Solid(_) => {
                                assert(false);
                            },
                            Material::Lambert(_) => {
                                assert(false);
                            },
                            Material::Dielectric(_) => {
                                assert(false);
                            },
                            Material::Isotropic(_) => {
                                assert(false);
                            },
                        }
                    }
                    bsdf_result.emissive
                },
            }
        },
        None => *background,
    }
}

} // verus!
