//! A volumetric region: a convex shape filled with a scattering
//! medium.
//!
//! A ray that passes through the shape scatters inside it with a
//! probability governed by the density; the free-flight distance is
//! drawn as `sample / density`, the reference sampling law, not a
//! physically exact exponential.  This is a single-scattering
//! approximation with arbitrary density units.

use vstd::prelude::*;

use std::sync::Arc;

use crate::aabb::AABB;
use crate::isotropic_mat::IsotropicMat;
use crate::material::Material;
use crate::qmath::{add_qs, div_qs, max_s, min_s, mul_qs, q_add, q_div, q_max, q_min, q_mul, q_sub, sub_qs};
use crate::ray::Ray;
use crate::sampler::rand_unit_scalar;
use crate::texture::Texture;
use crate::traceable::{deterministic_s, hit_spec_s, hit_uv_wf, RayHit, Traceable};
use crate::vec3::{ball_sample_s, len_s, unit_s, Color, Vec3};
use crate::ray::ray_at_s;

verus! {

/// How far past an entry hit the exit search restarts.
const EXIT_EPS_Q: i64 = 7;

/// The scatter parameter a drawn scalar produces: the clamped entry
/// plus the free flight `d / density`, divided back by the ray length
/// so it lives in the ray's own parametrization.
pub open spec fn scatter_t_s(entry_clamped: int, d: int, density: int, len: int) -> int {
    add_qs(entry_clamped, div_qs(div_qs(d, density), len))
}

/// What scattering returns once the two crossings of the shape are
/// known.  With entry `e` and exit `x`: an empty clamped segment
/// scatters nothing, and a reported hit lies inside the clamped
/// segment, carries the entry's surface coordinates, and sits at the
/// scatter parameter of some drawable scalar.
pub open spec fn scatter_result_s(
    density: int,
    e: RayHit,
    x: RayHit,
    t_min: int,
    t_max: int,
    len: int,
    res: Option<RayHit>,
) -> bool {
    let t_a0 = max_s(e.t as int, t_min);
    let t_b = min_s(x.t as int, t_max);
    let t_a = max_s(t_a0, 0);
    &&& (t_a0 >= t_b ==> res is None)
    &&& (t_a > t_b ==> res is None)
    &&& (res matches Some(h) ==> t_a <= h.t as int && h.t as int <= t_b && h.u == e.u && h.v
        == e.v && (exists|d: int|
        0 <= d < 65536 && h.t as int == #[trigger] scatter_t_s(t_a, d, density, len)))
}

/// The entry-exit segment is long enough that every possible
/// free-flight draw scatters inside it: the draw is below one, so its
/// flight distance never exceeds `(1 - ulp) / density`, and a segment
/// of at least that optical length scatters whatever was drawn.
pub open spec fn always_scatters_s(
    density: int,
    entry_t: int,
    exit_t: int,
    t_min: int,
    t_max: int,
    len: int,
) -> bool {
    let t_a0 = max_s(entry_t, t_min);
    let t_b = min_s(exit_t, t_max);
    let t_a = max_s(t_a0, 0);
    &&& density > 0
    &&& t_a0 < t_b
    &&& t_a <= t_b
    &&& mul_qs(sub_qs(t_b, t_a), len) >= div_qs(65535, density)
}

/// A convex shape filled with an isotropically scattering medium of
/// the given density.
pub struct Volumetric {
    /// Not physically based, just some value with no fixed range.
    pub density: i64,
    /// The material that affects a ray scattered inside the volume.
    pub phase_function: Arc<Material>,
    /// The shape of the volume, assumed convex.
    pub shape: Arc<Traceable>,
}

impl Volumetric {
    /// A volume of one flat color.
    pub fn color(shape: Arc<Traceable>, density: i64, color: Color) -> (v: Volumetric)
        ensures
            v.density == density,
            v.shape == shape,
            *v.phase_function matches Material::Isotropic(m) && *m.albedo == Texture::Solid(
                crate::texture::SolidColorTex { color },
            ),
    {
        Volumetric {
            density,
            shape: shape.clone(),
            phase_function: Arc::new(Material::Isotropic(IsotropicMat::color(color))),
        }
    }

    /// A volume colored by a texture.
    pub fn texture(shape: Arc<Traceable>, density: i64, t: Arc<Texture>) -> (v: Volumetric)
        ensures
            v.density == density,
            v.shape == shape,
            *v.phase_function matches Material::Isotropic(m) && m.albedo == t,
    {
        Volumetric {
            density,
            shape: shape.clone(),
            phase_function: Arc::new(Material::Isotropic(IsotropicMat::texture(t))),
        }
    }

    /// The volume is bounded by its shape.
    pub fn bounding_box(&self) -> (b: Option<AABB>)
        ensures
            b == crate::traceable::bbox_s(*self.shape),
        decreases *self.shape, 2int,
    {
        self.shape.bounding_box()
    }

    /// Find where the ray enters and leaves the shape, draw a
    /// free-flight distance, and report a scattering hit inside the
    /// segment when the draw falls short of the segment's length; the
    /// reported normal is an arbitrary random direction that the
    /// isotropic phase function ignores.  A ray that misses the shape,
    /// never crosses it a second time, or crosses it in an empty
    /// clamped segment scatters nothing; a reported hit sits inside
    /// the segment at the scatter parameter of some drawable scalar,
    /// with the entry's surface coordinates; and a segment long enough
    /// for every possible draw always scatters.
    #[verifier::rlimit(100)]
    pub fn check_intersection(
        &self,
        r: &Ray,
        t_min: i64,
        t_max: i64,
        rng: &mut rand::rngs::StdRng,
    ) -> (res: Option<RayHit>)
        ensures
            res matches Some(h) ==> t_min <= h.t <= t_max && hit_uv_wf(h),
            res matches Some(h) ==> h.material == self.phase_function && h.front_face && h.t >= 0
                && h.p == ray_at_s(*r, h.t as int) && (exists|v: Vec3|
                ball_sample_s(v) && h.normal == #[trigger] unit_s(v)),
            deterministic_s(*self.shape) && hit_spec_s(
                *self.shape,
                *r,
                i64::MIN as int,
                i64::MAX as int,
            ) is None ==> res is None,
            deterministic_s(*self.shape) ==> (hit_spec_s(
                *self.shape,
                *r,
                i64::MIN as int,
                i64::MAX as int,
            ) matches Some(h0) ==> (hit_spec_s(
                *self.shape,
                *r,
                add_qs(h0.t as int, 7),
                i64::MAX as int,
            ) is None ==> res is None)),
            deterministic_s(*self.shape) ==> (hit_spec_s(
                *self.shape,
                *r,
                i64::MIN as int,
                i64::MAX as int,
            ) matches Some(h0) ==> (hit_spec_s(
                *self.shape,
                *r,
                add_qs(h0.t as int, 7),
                i64::MAX as int,
            ) matches Some(h1) ==> (scatter_result_s(
                self.density as int,
                h0,
                h1,
                t_min as int,
                t_max as int,
                len_s(r.dir),
                res,
            ) && (always_scatters_s(
                self.density as int,
                h0.t as int,
                h1.t as int,
                t_min as int,
                t_max as int,
                len_s(r.dir),
            ) ==> res is Some)))),
        decreases *self.shape, 2int,
    {
        let maybe_hit1 = self.shape.check_intersection(r, i64::MIN, i64::MAX, rng);
        let hit0 = match maybe_hit1 {
            None => {
                return None;
            },
            Some(h) => h,
        };
        let maybe_hit2 = self.shape.check_intersection(
            r,
            q_add(hit0.t, EXIT_EPS_Q),
            i64::MAX,
            rng,
        );
        let hit1 = match maybe_hit2 {
            None => {
                return None;
            },
            Some(h) => h,
        };

        let mut t_a = q_max(hit0.t, t_min);
        let t_b = q_min(hit1.t, t_max);
        if t_a >= t_b {
            return None;
        }

        // do not go backward from the ray origin
        t_a = q_max(t_a, 0);
        if t_a > t_b {
            return None;
        }

        let ray_length = r.dir.length();
        let distance_inside_boundary = q_mul(q_sub(t_b, t_a), ray_length);
        let bounce_prob = rand_unit_scalar(rng);
        let hit_distance = q_div(bounce_prob, self.density);
        proof {
            if self.density > 0 {
                crate::qmath::lemma_div_qs_monotone(0, bounce_prob as int, self.density as int);
                crate::qmath::lemma_div_qs_monotone(
                    bounce_prob as int,
                    65535,
                    self.density as int,
                );
                assert(div_qs(0, self.density as int) == 0) by {
                    vstd::arithmetic::div_mod::lemma_div_of0(self.density as int);
                }
            }
        }
        if hit_distance < 0 {
            // A nonpositive density never scatters.
            return None;
        }
        if hit_distance > distance_inside_boundary {
            return None;
        }

        proof {
            lemma_free_flight_bounded(
                hit_distance as int,
                (t_b - t_a) as int,
                ray_length as int,
            );
        }
        let t = q_add(t_a, q_div(hit_distance, ray_length));
        proof {
            assert(t as int == scatter_t_s(
                t_a as int,
                bounce_prob as int,
                self.density as int,
                ray_length as int,
            ));
            if deterministic_s(crate::laws::held_obj(&self.shape)) {
                match hit_spec_s(crate::laws::held_obj(&self.shape), *r, i64::MIN as int, i64::MAX as int) {
                    Some(h0) => {
                        assert(h0 == hit0);
                        assert(t_a as int == max_s(max_s(h0.t as int, t_min as int), 0));
                    },
                    None => {
                        assert(false);
                    },
                }
            }
        }
        Some(
            RayHit {
                p: r.at(t),
                t,
                u: hit0.u,
                v: hit0.v,
                material: self.phase_function.clone(),
                // The medium scatters in every direction; the normal
                // is arbitrary and the phase function ignores it.
                normal: Vec3::rand_unit(rng),
                front_face: true,
            },
        )
    }
}

/// A free-flight distance no longer than the segment, divided back by
/// the ray length, lands within the segment.
proof fn lemma_free_flight_bounded(hd: int, delta: int, len: int)
    requires
        0 <= hd,
        0 <= delta,
        0 <= len,
        hd <= mul_qs(delta, len),
    ensures
        0 <= div_qs(hd, len) <= delta,
{
    if len == 0 {
        assert(delta * 0 == 0) by (nonlinear_arith);
        assert(mul_qs(delta, 0) == 0) by {
            vstd::arithmetic::div_mod::lemma_div_of0(65536);
        }
        assert(hd == 0);
    } else {
        assert(0 <= delta * len) by (nonlinear_arith)
            requires
                0 <= delta,
                0 <= len,
        ;
        vstd::arithmetic::div_mod::lemma_div_pos_is_pos(delta * len, 65536);
        vstd::arithmetic::div_mod::lemma_fundamental_div_mod(delta * len, 65536);
        vstd::arithmetic::div_mod::lemma_mod_division_less_than_divisor(delta * len, 65536);
        assert(mul_qs(delta, len) * 65536 <= delta * len) by (nonlinear_arith)
            requires
                0 <= mul_qs(delta, len),
                mul_qs(delta, len) <= (delta * len) / 65536,
                65536 * ((delta * len) / 65536) <= delta * len,
        ;
        assert(hd * 65536 <= mul_qs(delta, len) * 65536) by (nonlinear_arith)
            requires
                hd <= mul_qs(delta, len),
        ;
        vstd::arithmetic::div_mod::lemma_div_pos_is_pos(hd * 65536, len);
        vstd::arithmetic::div_mod::lemma_div_is_ordered(hd * 65536, delta * len, len);
        vstd::arithmetic::div_mod::lemma_div_by_multiple(delta, len);
        assert(delta * len == len * delta) by (nonlinear_arith);
    }
}

} // verus!
