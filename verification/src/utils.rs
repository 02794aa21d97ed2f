//! Optics helpers: reflection, refraction, the Schlick reflectance
//! approximation, and small scalar conveniences.

use vstd::prelude::*;

use crate::qmath::{
    abs_qs, add_qs, div_qs, max_s, min_s, mul_qs, q_abs, q_add, q_div, q_max, q_min, q_mul,
    q_sqrt, q_sub, sqrt_qs, sub_qs, ONE, TWO,
};
use crate::vec3::{dot_s, len_sq_s, v_add_s, v_neg_s, v_scale_s, v_sub_s, Vec3};

verus! {

/// Mirror reflection: `v - n * (2 * dot(v, n))`.
pub open spec fn reflect_s(v: Vec3, n: Vec3) -> Vec3 {
    v_sub_s(v, v_scale_s(n, mul_qs(131072, dot_s(v, n))))
}

/// Reflect an incoming direction about a surface normal.
pub fn reflect(v: Vec3, n: Vec3) -> (r: Vec3)
    ensures
        r == reflect_s(v, n),
{
    v.sub(n.scale(q_mul(TWO, v.dot(n))))
}

/// The cosine the refraction formulas use: the incoming direction
/// reversed against the normal, capped at one.
pub open spec fn cos_theta_s(light_dir: Vec3, n: Vec3) -> int {
    min_s(dot_s(v_neg_s(light_dir), n), 65536)
}

/// Snell refraction of an incoming direction, when it has a solution:
/// the transmitted direction through a surface with the given ratio of
/// refractive indices.
pub open spec fn refract_dir_s(light_dir: Vec3, n: Vec3, ior_from: int, ior_into: int) -> Vec3 {
    let etai_over_etat = div_qs(ior_from, ior_into);
    let cos_theta = cos_theta_s(light_dir, n);
    let r_out_perp = v_scale_s(v_add_s(light_dir, v_scale_s(n, cos_theta)), etai_over_etat);
    let r_out_parallel = v_scale_s(
        v_scale_s(n, -65536),
        sqrt_qs(abs_qs(sub_qs(65536, len_sq_s(r_out_perp)))),
    );
    v_add_s(r_out_perp, r_out_parallel)
}

/// Total internal reflection: the scaled sine leaves the unit range,
/// so Snell's law has no solution.
pub open spec fn cannot_refract_s(light_dir: Vec3, n: Vec3, ior_from: int, ior_into: int) -> bool {
    let cos_theta = cos_theta_s(light_dir, n);
    let sin_theta = sqrt_qs(max_s(0, sub_qs(65536, mul_qs(cos_theta, cos_theta))));
    mul_qs(div_qs(ior_from, ior_into), sin_theta) > 65536
}

/// Refract an incoming direction, or report total internal reflection.
pub fn refract(light_dir: Vec3, n: Vec3, ior_from: i64, ior_into: i64) -> (r: Option<Vec3>)
    ensures
        r matches Some(v) ==> !cannot_refract_s(light_dir, n, ior_from as int, ior_into as int)
            && v == refract_dir_s(light_dir, n, ior_from as int, ior_into as int),
        r is None ==> cannot_refract_s(light_dir, n, ior_from as int, ior_into as int),
{
    let etai_over_etat = q_div(ior_from, ior_into);
    let cos_theta = q_min(light_dir.neg().dot(n), ONE);
    let sin_theta = q_sqrt(q_max(0, q_sub(ONE, q_mul(cos_theta, cos_theta))));

    let cannot_refract = q_mul(etai_over_etat, sin_theta) > ONE;
    if cannot_refract {
        return None;
    }

    let r_out_perp = light_dir.add(n.scale(cos_theta)).scale(etai_over_etat);
    let r_out_parallel = n.scale(-ONE).scale(q_sqrt(q_abs(q_sub(ONE, r_out_perp.length_squared()))));
    Some(r_out_perp.add(r_out_parallel))
}

/// The Schlick approximation of Fresnel reflectance at an angle, with
/// the fifth power taken by repeated squaring-free multiplication.
pub open spec fn reflectance_schlick_s(
    light_dir: Vec3,
    n: Vec3,
    ior_from: int,
    ior_into: int,
) -> int {
    let cos_theta = cos_theta_s(light_dir, n);
    let r0 = div_qs(sub_qs(ior_from, ior_into), add_qs(ior_from, ior_into));
    let r0sq = mul_qs(r0, r0);
    let a = sub_qs(65536, cos_theta);
    let a5 = mul_qs(mul_qs(mul_qs(mul_qs(a, a), a), a), a);
    add_qs(r0sq, mul_qs(sub_qs(65536, r0sq), a5))
}

/// Fresnel reflectance at an angle, by the Schlick approximation.
pub fn reflectance_schlick(light_dir: Vec3, n: Vec3, ior_from: i64, ior_into: i64) -> (r: i64)
    ensures
        r as int == reflectance_schlick_s(light_dir, n, ior_from as int, ior_into as int),
{
    let cos_theta = q_min(light_dir.neg().dot(n), ONE);
    let mut r0 = q_div(q_sub(ior_from, ior_into), q_add(ior_from, ior_into));
    r0 = q_mul(r0, r0);
    let a = q_sub(ONE, cos_theta);
    let a5 = q_mul(q_mul(q_mul(q_mul(a, a), a), a), a);
    q_add(r0, q_mul(q_sub(ONE, r0), a5))
}

/// Linear interpolation between two vectors: `a * (1 - t) + b * t`.
pub open spec fn lerp_vec3_s(a: Vec3, b: Vec3, t: int) -> Vec3 {
    v_add_s(v_scale_s(a, sub_qs(65536, t)), v_scale_s(b, t))
}

/// Linear interpolation between two vectors.
pub fn lerp_vec3(a: Vec3, b: Vec3, t: i64) -> (r: Vec3)
    ensures
        r == lerp_vec3_s(a, b, t as int),
{
    a.scale(q_sub(ONE, t)).add(b.scale(t))
}

/// Map a scalar from `[-1, 1]` to `[0, 1]`.
pub fn to_0_1(v: i64) -> (r: i64)
    ensures
        r as int == mul_qs(32768, add_qs(v as int, 65536)),
{
    q_mul(32768, q_add(v, ONE))
}

} // verus!
