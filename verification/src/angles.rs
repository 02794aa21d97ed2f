//! Fixed-point inverse trigonometry for the spherical surface
//! parameterization: a quadrant-reduced rational approximation of
//! `atan2`, and `acos` derived from it.

use vstd::prelude::*;

use crate::qmath::{
    abs_qs, add_qs, div_qs, lemma_div_qs_unit, lemma_mul_qs_unit, lemma_sqrt_qs_props, max_s,
    min_s, mul_qs, neg_qs, q_abs, q_add, q_div, q_max, q_min, q_mul, q_neg, q_sqrt, q_sub,
    sqrt_qs, sub_qs, ONE,
};

verus! {

/// Pi at Q16.16 resolution.
pub const PI_Q: i64 = 205887;

/// Half pi at Q16.16 resolution.
pub const HALF_PI_Q: i64 = 102943;

/// Two pi, exactly twice `PI_Q`.
pub const TWO_PI_Q: i64 = 411774;

/// Pi over four at Q16.16 resolution.
const QUARTER_PI_Q: i64 = 51471;

/// The corrective factor of the arctangent approximation, 0.273 at
/// Q16.16 resolution.
const ATAN_K_Q: i64 = 17892;

/// The arctangent of a ratio in the unit interval:
/// `r * (pi/4 + 0.273 * (1 - r))`, a standard rational approximation.
pub open spec fn atan_poly_s(r: int) -> int {
    mul_qs(r, add_qs(51471, mul_qs(17892, sub_qs(65536, r))))
}

/// The arctangent of `y / x` in the first quadrant, reduced so the
/// approximated ratio stays within the unit interval.
pub open spec fn atan2_first_quadrant_s(y: int, x: int) -> int {
    if y <= x {
        atan_poly_s(div_qs(y, x))
    } else {
        sub_qs(102943, atan_poly_s(div_qs(x, y)))
    }
}

/// Four-quadrant arctangent of `y` over `x`, in `[-pi, pi]`.
pub open spec fn atan2_qs(y: int, x: int) -> int {
    let base = atan2_first_quadrant_s(abs_qs(y), abs_qs(x));
    if y >= 0 {
        if x >= 0 {
            base
        } else {
            sub_qs(205887, base)
        }
    } else {
        if x >= 0 {
            neg_qs(base)
        } else {
            sub_qs(base, 205887)
        }
    }
}

/// Arccosine of a scalar in `[-1, 1]`, in `[0, pi]`:
/// `atan2(sqrt(1 - w*w), w)`.
pub open spec fn acos_qs(w: int) -> int {
    atan2_qs(sqrt_qs(max_s(0, sub_qs(65536, mul_qs(w, w)))), w)
}

/// The arctangent approximation of a unit-interval ratio stays within
/// a quarter turn.
pub proof fn lemma_atan_poly_range(r: int)
    requires
        0 <= r <= 65536,
    ensures
        0 <= atan_poly_s(r) <= 69363,
{
    lemma_mul_qs_unit(17892, sub_qs(65536, r));
    let s = add_qs(51471, mul_qs(17892, sub_qs(65536, r)));
    assert(51471 <= s <= 69363);
    lemma_mul_qs_unit(s, r);
    assert(mul_qs(r, s) == mul_qs(s, r)) by {
        assert(r * s == s * r) by (nonlinear_arith);
    }
}

/// The first-quadrant arctangent lies within a quarter turn.
pub proof fn lemma_atan2_first_quadrant_range(y: int, x: int)
    requires
        0 <= y,
        0 <= x,
    ensures
        0 <= atan2_first_quadrant_s(y, x) <= 102943,
{
    if y <= x {
        lemma_div_qs_unit(y, x);
        lemma_atan_poly_range(div_qs(y, x));
    } else {
        lemma_div_qs_unit(x, y);
        lemma_atan_poly_range(div_qs(x, y));
    }
}

/// The four-quadrant arctangent lies within a half turn either way,
/// and in the upper half plane it lies within `[0, pi]`.
pub proof fn lemma_atan2_range(y: int, x: int)
    ensures
        -205887 <= atan2_qs(y, x) <= 205887,
        y >= 0 ==> 0 <= atan2_qs(y, x) <= 205887,
{
    lemma_atan2_first_quadrant_range(abs_qs(y), abs_qs(x));
}

/// The arccosine lies within `[0, pi]`.
pub proof fn lemma_acos_range(w: int)
    requires
        -65536 <= w <= 65536,
    ensures
        0 <= acos_qs(w) <= 205887,
{
    crate::qmath::lemma_mul_qs_self_nonneg(w);
    lemma_sqrt_qs_props(max_s(0, sub_qs(65536, mul_qs(w, w))));
    let y = sqrt_qs(max_s(0, sub_qs(65536, mul_qs(w, w))));
    assert(y * y <= max_s(0, sub_qs(65536, mul_qs(w, w))) * 65536);
    assert(y <= i64::MAX as int) by (nonlinear_arith)
        requires
            0 <= y,
            y * y <= max_s(0, sub_qs(65536, mul_qs(w, w))) * 65536,
            max_s(0, sub_qs(65536, mul_qs(w, w))) <= 65536 * 65536,
    ;
    lemma_atan2_range(y, w);
}

/// The arctangent approximation of a unit-interval ratio.
fn q_atan_poly(r: i64) -> (a: i64)
    ensures
        a as int == atan_poly_s(r as int),
{
    q_mul(r, q_add(QUARTER_PI_Q, q_mul(ATAN_K_Q, q_sub(ONE, r))))
}

/// The first-quadrant arctangent.
fn q_atan2_first_quadrant(y: i64, x: i64) -> (a: i64)
    ensures
        a as int == atan2_first_quadrant_s(y as int, x as int),
{
    if y <= x {
        q_atan_poly(q_div(y, x))
    } else {
        q_sub(HALF_PI_Q, q_atan_poly(q_div(x, y)))
    }
}

/// Four-quadrant arctangent of `y` over `x`, in `[-pi, pi]`.
pub fn q_atan2(y: i64, x: i64) -> (a: i64)
    ensures
        a as int == atan2_qs(y as int, x as int),
{
    let base = q_atan2_first_quadrant(q_abs(y), q_abs(x));
    if y >= 0 {
        if x >= 0 {
            base
        } else {
            q_sub(PI_Q, base)
        }
    } else {
        if x >= 0 {
            q_neg(base)
        } else {
            q_sub(base, PI_Q)
        }
    }
}

/// Arccosine of a scalar clamped into `[-1, 1]`, in `[0, pi]`.
pub fn q_acos(w: i64) -> (a: i64)
    ensures
        a as int == acos_qs(w as int),
{
    let sin2 = q_max(0, q_sub(ONE, q_mul(w, w)));
    q_atan2(q_sqrt(sin2), w)
}

} // verus!
