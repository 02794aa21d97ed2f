//! Random sampling: the pseudo-random source and the draws that
//! materials and volumetric scattering make from it.
//!
//! Every rendering task owns its own generator, seeded explicitly, so
//! the concurrency model stays explicit and runs are reproducible.

use vstd::prelude::*;

use crate::qmath::ONE;
use crate::vec3::{ball_sample_s, len_sq_s, lemma_unit_band, unit_s, Vec3};

verus! {

/// The standard generator of the `rand` crate, opaque here: nothing is
/// assumed about the stream of values it produces.
#[verifier::external_type_specification]
#[verifier::external_body]
pub struct ExStdRng(rand::rngs::StdRng);

/// Relies on `rand::RngCore::next_u32`: one draw from the generator.
/// Nothing holds of the value beyond its type.
#[verifier::external_body]
pub(crate) fn next_u32_value(rng: &mut rand::rngs::StdRng) -> (r: u32)
    ensures
        true,
{
    rand::RngCore::next_u32(rng)
}

/// A scalar drawn from `[0, 1)` at the representable granularity.
pub fn rand_unit_scalar(rng: &mut rand::rngs::StdRng) -> (r: i64)
    ensures
        0 <= r < 65536,
{
    let w = next_u32_value(rng);
    let masked = w & 0xFFFF;
    proof {
        assert(w & 0xFFFF < 0x10000) by (bit_vector);
    }
    masked as i64
}

/// A scalar drawn from `[-1, 1]`.
pub fn rand_symmetric_scalar(rng: &mut rand::rngs::StdRng) -> (r: i64)
    ensures
        -65536 <= r <= 65536,
{
    let w = next_u32_value(rng) % 131073;
    (w as i64) - 65536
}

/// A point of the ball shell between radius one half and one, by
/// bounded rejection sampling from the cube around it; a fixed axis
/// stands in on the vanishingly unlikely chance that every draw is
/// rejected.  The floor keeps normalization well conditioned.
pub fn random_in_unit_sphere(rng: &mut rand::rngs::StdRng) -> (p: Vec3)
    ensures
        ball_sample_s(p),
{
    let mut tries: usize = 0;
    while tries < 64
        invariant
            tries <= 64,
        decreases 64 - tries,
    {
        let v = Vec3 {
            x: rand_symmetric_scalar(rng),
            y: rand_symmetric_scalar(rng),
            z: rand_symmetric_scalar(rng),
        };
        let lsq = v.length_squared();
        if ONE / 4 <= lsq && lsq <= ONE {
            return v;
        }
        tries = tries + 1;
    }
    let fallback = Vec3::up();
    proof {
        assert(4294967296int / 65536int == 65536int) by (nonlinear_arith);
        assert(0int / 65536int == 0int) by (nonlinear_arith);
        assert(crate::qmath::mul_qs(65536, 65536) == 65536);
        assert(crate::qmath::mul_qs(0, 0) == 0);
        assert(len_sq_s(fallback) == 65536);
    }
    fallback
}

impl Vec3 {
    /// A random direction: a shell sample scaled to unit length.  The
    /// result is the normalization of some shell sample, with every
    /// component within two units.
    pub fn rand_unit(rng: &mut rand::rngs::StdRng) -> (r: Vec3)
        ensures
            exists|v: Vec3| ball_sample_s(v) && r == #[trigger] unit_s(v),
            crate::qmath::abs_s(r.x as int) <= 131072,
            crate::qmath::abs_s(r.y as int) <= 131072,
            crate::qmath::abs_s(r.z as int) <= 131072,
    {
        let v = random_in_unit_sphere(rng);
        let u = v.unit_vector();
        proof {
            lemma_unit_band(v);
            assert(ball_sample_s(v) && u == unit_s(v));
        }
        u
    }
}

} // verus!
