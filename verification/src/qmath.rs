//! Q16.16 fixed-point scalar arithmetic.
//!
//! A scalar is an `i64` holding 65536 times the represented value.
//! Products and quotients truncate toward zero; sums, differences and
//! out-of-range results saturate to the `i64` range, playing the role
//! that the infinities play for floating point: a saturated value keeps
//! ordering comparisons meaningful.

use vstd::prelude::*;

verus! {

/// One in Q16.16: the fixed scale factor.
pub const ONE: i64 = 65536;

/// Two in Q16.16.
pub const TWO: i64 = 2 * 65536;

/// Clamp a mathematical integer into the `i64` range.
pub open spec fn clamp_s(x: int) -> int {
    if x > i64::MAX as int {
        i64::MAX as int
    } else if x < i64::MIN as int {
        i64::MIN as int
    } else {
        x
    }
}

/// Absolute value of a mathematical integer.
pub open spec fn abs_s(x: int) -> int {
    if x < 0 {
        -x
    } else {
        x
    }
}

/// Division truncated toward zero, the rounding that the executable
/// operations use.
pub open spec fn tdiv_s(a: int, b: int) -> int
    recommends
        b != 0,
{
    if (a < 0) != (b < 0) {
        -(abs_s(a) / abs_s(b))
    } else {
        abs_s(a) / abs_s(b)
    }
}

/// Saturating sum of two scalars.
pub open spec fn add_qs(a: int, b: int) -> int {
    clamp_s(a + b)
}

/// Saturating difference of two scalars.
pub open spec fn sub_qs(a: int, b: int) -> int {
    clamp_s(a - b)
}

/// Saturating negation of a scalar.
pub open spec fn neg_qs(a: int) -> int {
    clamp_s(-a)
}

/// Fixed-point product: the exact product rescaled, truncated toward
/// zero and saturated.
pub open spec fn mul_qs(a: int, b: int) -> int {
    clamp_s(tdiv_s(a * b, 65536))
}

/// Fixed-point quotient.  A zero divisor saturates to the extreme of
/// the dividend's sign, standing in for the infinities that floating
/// point would produce; zero over zero is zero.
pub open spec fn div_qs(a: int, b: int) -> int {
    if b == 0 {
        if a > 0 {
            i64::MAX as int
        } else if a < 0 {
            i64::MIN as int
        } else {
            0
        }
    } else {
        clamp_s(tdiv_s(a * 65536, b))
    }
}

/// The floor of the square root of a nonnegative integer.
pub open spec fn sqrt_floor_s(n: int) -> int
    recommends
        n >= 0,
{
    choose|r: int| 0 <= r && #[trigger] (r * r) <= n && n < (r + 1) * (r + 1)
}

/// Fixed-point square root: `sqrt(x / 65536) * 65536`, rounded down.
pub open spec fn sqrt_qs(x: int) -> int
    recommends
        x >= 0,
{
    sqrt_floor_s(x * 65536)
}

/// Saturating absolute value of a scalar.
pub open spec fn abs_qs(a: int) -> int {
    clamp_s(abs_s(a))
}

/// Smaller of two scalars.
pub open spec fn min_s(a: int, b: int) -> int {
    if a < b {
        a
    } else {
        b
    }
}

/// Larger of two scalars.
pub open spec fn max_s(a: int, b: int) -> int {
    if a > b {
        a
    } else {
        b
    }
}

/// Two square-root brackets around the same integer agree.
proof fn lemma_sqrt_bracket_unique(n: int, r1: int, r2: int)
    requires
        0 <= r1,
        r1 * r1 <= n < (r1 + 1) * (r1 + 1),
        0 <= r2,
        r2 * r2 <= n < (r2 + 1) * (r2 + 1),
    ensures
        r1 == r2,
{
    if r1 < r2 {
        assert((r1 + 1) * (r1 + 1) <= r2 * r2) by (nonlinear_arith)
            requires
                0 <= r1,
                r1 < r2,
        ;
    }
    if r2 < r1 {
        assert((r2 + 1) * (r2 + 1) <= r1 * r1) by (nonlinear_arith)
            requires
                0 <= r2,
                r2 < r1,
        ;
    }
}

/// Any witness of the square-root bracket is `sqrt_floor_s`.
pub proof fn lemma_sqrt_floor_is(n: int, r: int)
    requires
        0 <= r,
        r * r <= n < (r + 1) * (r + 1),
    ensures
        sqrt_floor_s(n) == r,
{
    assert(exists|q: int| 0 <= q && #[trigger] (q * q) <= n && n < (q + 1) * (q + 1)) by {
        assert(0 <= r && r * r <= n && n < (r + 1) * (r + 1));
    }
    let q = sqrt_floor_s(n);
    lemma_sqrt_bracket_unique(n, q, r);
}

/// There is a floor square root under any nonnegative integer.
pub proof fn lemma_sqrt_exists(n: int)
    requires
        n >= 0,
    ensures
        exists|q: int| 0 <= q && #[trigger] (q * q) <= n && n < (q + 1) * (q + 1),
    decreases n,
{
    if n == 0 {
        assert(0int * 0int == 0 && (0int + 1) * (0int + 1) == 1) by (nonlinear_arith);
        assert(0 <= 0 && 0int * 0int <= 0 && 0 < (0int + 1) * (0int + 1));
    } else {
        lemma_sqrt_exists(n - 1);
        let r = choose|q: int| 0 <= q && #[trigger] (q * q) <= n - 1 && n - 1 < (q + 1) * (q + 1);
        if n < (r + 1) * (r + 1) {
            assert(0 <= r && r * r <= n && n < (r + 1) * (r + 1));
        } else {
            assert(n == (r + 1) * (r + 1));
            assert((r + 1) * (r + 1) < (r + 2) * (r + 2)) by (nonlinear_arith)
                requires
                    r >= 0,
            ;
            assert(0 <= r + 1 && (r + 1) * (r + 1) <= n && n < (r + 2) * (r + 2));
        }
    }
}

/// The floor square root of a nonnegative integer is bracketed by its
/// own square.
pub proof fn lemma_sqrt_floor_props(n: int)
    requires
        n >= 0,
    ensures
        sqrt_floor_s(n) >= 0,
        sqrt_floor_s(n) * sqrt_floor_s(n) <= n,
        n < (sqrt_floor_s(n) + 1) * (sqrt_floor_s(n) + 1),
{
    lemma_sqrt_exists(n);
}

/// The fixed-point square root of a nonnegative scalar is nonnegative.
pub proof fn lemma_sqrt_qs_props(x: int)
    requires
        x >= 0,
    ensures
        sqrt_qs(x) >= 0,
        sqrt_qs(x) * sqrt_qs(x) <= x * 65536,
{
    lemma_sqrt_floor_props(x * 65536);
}

/// A rescaled square is never negative.
pub proof fn lemma_mul_qs_self_nonneg(x: int)
    ensures
        mul_qs(x, x) >= 0,
{
    assert(x * x >= 0) by (nonlinear_arith);
    assert(abs_s(x * x) / 65536 >= 0) by {
        vstd::arithmetic::div_mod::lemma_div_pos_is_pos(abs_s(x * x), 65536);
    }
}

/// Scaling by one is exact, and scaling zero gives zero.
pub proof fn lemma_mul_qs_one(x: int)
    requires
        i64::MIN as int <= x <= i64::MAX as int,
    ensures
        mul_qs(65536, x) == x,
        mul_qs(x, 65536) == x,
        mul_qs(0, x) == 0,
        mul_qs(x, 0) == 0,
{
    assert(65536 * x == x * 65536) by (nonlinear_arith);
    assert(abs_s(x * 65536) == abs_s(x) * 65536) by (nonlinear_arith);
    vstd::arithmetic::div_mod::lemma_div_by_multiple(abs_s(x), 65536);
    assert(abs_s(x) * 65536 == 65536 * abs_s(x)) by (nonlinear_arith);
    assert(tdiv_s(x * 65536, 65536) == x);
    assert(0 * x == 0 && x * 0 == 0) by (nonlinear_arith);
    assert(abs_s(0int) / 65536 == 0) by {
        vstd::arithmetic::div_mod::lemma_div_of0(65536);
    }
}

/// Division truncated toward zero is monotone in the numerator, for a
/// positive divisor.
pub proof fn lemma_tdiv_monotone(n1: int, n2: int, d: int)
    requires
        n1 <= n2,
        d > 0,
    ensures
        tdiv_s(n1, d) <= tdiv_s(n2, d),
{
    if n1 >= 0 {
        vstd::arithmetic::div_mod::lemma_div_is_ordered(n1, n2, d);
    } else if n2 < 0 {
        vstd::arithmetic::div_mod::lemma_div_is_ordered(-n2, -n1, d);
    } else {
        vstd::arithmetic::div_mod::lemma_div_pos_is_pos(-n1, d);
        vstd::arithmetic::div_mod::lemma_div_pos_is_pos(n2, d);
    }
}

/// The fixed-point quotient is monotone in the numerator, for a
/// positive divisor.
pub proof fn lemma_div_qs_monotone(n1: int, n2: int, d: int)
    requires
        n1 <= n2,
        d > 0,
    ensures
        div_qs(n1, d) <= div_qs(n2, d),
{
    lemma_tdiv_monotone(n1 * 65536, n2 * 65536, d);
}

/// The rescaled product is monotone in its first factor when the
/// second is nonnegative, antitone when it is nonpositive.
pub proof fn lemma_mul_qs_monotone(n1: int, n2: int, m: int)
    requires
        n1 <= n2,
    ensures
        m >= 0 ==> mul_qs(n1, m) <= mul_qs(n2, m),
        m <= 0 ==> mul_qs(n2, m) <= mul_qs(n1, m),
{
    if m >= 0 {
        assert(n1 * m <= n2 * m) by (nonlinear_arith)
            requires
                n1 <= n2,
                m >= 0,
        ;
        lemma_tdiv_monotone(n1 * m, n2 * m, 65536);
    }
    if m <= 0 {
        assert(n2 * m <= n1 * m) by (nonlinear_arith)
            requires
                n1 <= n2,
                m <= 0,
        ;
        lemma_tdiv_monotone(n2 * m, n1 * m, 65536);
    }
}

/// The reciprocal keeps the sign of its argument; a zero argument
/// saturates positive.
pub proof fn lemma_div_qs_sign(d: int)
    ensures
        d >= 0 ==> div_qs(65536, d) >= 0,
        d < 0 ==> div_qs(65536, d) <= 0,
{
    if d > 0 {
        vstd::arithmetic::div_mod::lemma_div_pos_is_pos(65536int * 65536, d);
    }
    if d < 0 {
        vstd::arithmetic::div_mod::lemma_div_pos_is_pos(65536int * 65536, -d);
    }
}

/// A quotient of a part by the whole lies in the unit interval.
pub proof fn lemma_div_qs_unit(n: int, d: int)
    requires
        0 <= n <= d,
    ensures
        0 <= div_qs(n, d) <= 65536,
{
    if d != 0 {
        vstd::arithmetic::div_mod::lemma_div_pos_is_pos(n * 65536, d);
        vstd::arithmetic::div_mod::lemma_div_is_ordered(n * 65536, d * 65536, d);
        vstd::arithmetic::div_mod::lemma_div_by_multiple(65536, d);
        assert(d * 65536 == 65536 * d) by (nonlinear_arith);
    }
}

/// Scaling a nonnegative value by a factor in the unit interval keeps
/// it between zero and itself.
pub proof fn lemma_mul_qs_unit(a: int, b: int)
    requires
        0 <= a,
        0 <= b <= 65536,
    ensures
        0 <= mul_qs(a, b) <= a,
{
    assert(0 <= a * b <= a * 65536) by (nonlinear_arith)
        requires
            0 <= a,
            0 <= b <= 65536,
    ;
    vstd::arithmetic::div_mod::lemma_div_pos_is_pos(a * b, 65536);
    vstd::arithmetic::div_mod::lemma_div_is_ordered(a * b, a * 65536, 65536);
    vstd::arithmetic::div_mod::lemma_div_by_multiple(a, 65536);
    assert(a * 65536 == 65536 * a) by (nonlinear_arith);
}

/// Saturating absolute value.
pub fn q_abs(a: i64) -> (r: i64)
    ensures
        r as int == abs_qs(a as int),
{
    if a == i64::MIN {
        i64::MAX
    } else if a < 0 {
        -a
    } else {
        a
    }
}

/// Floor division by a positive divisor: the Euclidean quotient.
pub fn q_fdiv(a: i64, b: i64) -> (r: i64)
    requires
        b > 0,
    ensures
        r as int == (a as int) / (b as int),
{
    if a >= 0 {
        let q = (a as u64) / (b as u64);
        q as i64
    } else {
        let ua: u128 = (-(a as i128)) as u128;
        let ub: u128 = b as u128;
        let q: u128 = (ua + ub - 1) / ub;
        proof {
            let ui = ua as int;
            let bi = b as int;
            let qi = (ui + bi - 1) / bi;
            let ri = (ui + bi - 1) % bi;
            vstd::arithmetic::div_mod::lemma_fundamental_div_mod(ui + bi - 1, bi);
            vstd::arithmetic::div_mod::lemma_mod_division_less_than_divisor(ui + bi - 1, bi);
            vstd::arithmetic::div_mod::lemma_remainder_lower(ui + bi - 1, bi);
            assert(a as int == (-qi) * bi + (bi - 1 - ri)) by (nonlinear_arith)
                requires
                    ui + bi - 1 == bi * qi + ri,
                    a as int == -ui,
            ;
            vstd::arithmetic::div_mod::lemma_fundamental_div_mod_converse(
                a as int,
                bi,
                -qi,
                bi - 1 - ri,
            );
            vstd::arithmetic::div_mod::lemma_div_pos_is_pos(ui + bi - 1, bi);
            if bi == 1 {
                vstd::arithmetic::div_mod::lemma_div_basics(ui);
            } else {
                assert(ui + bi - 1 <= ui * bi) by (nonlinear_arith)
                    requires
                        bi >= 2,
                        ui >= 1,
                ;
                vstd::arithmetic::div_mod::lemma_div_is_ordered(ui + bi - 1, ui * bi, bi);
                vstd::arithmetic::div_mod::lemma_div_by_multiple(ui, bi);
                assert(ui * bi == bi * ui) by (nonlinear_arith);
            }
        }
        if q >= 0x8000_0000_0000_0000u128 {
            i64::MIN
        } else {
            -(q as i64)
        }
    }
}

/// The Euclidean remainder modulo two: zero or one.
pub fn q_parity(a: i64) -> (r: i64)
    ensures
        r as int == (a as int) % 2,
{
    let h = q_fdiv(a, 2);
    proof {
        vstd::arithmetic::div_mod::lemma_fundamental_div_mod(a as int, 2);
        vstd::arithmetic::div_mod::lemma_mod_division_less_than_divisor(a as int, 2);
    }
    let m: i128 = (a as i128) - 2 * (h as i128);
    m as i64
}

/// Saturating addition.
pub fn q_add(a: i64, b: i64) -> (r: i64)
    ensures
        r as int == add_qs(a as int, b as int),
{
    let s: i128 = a as i128 + b as i128;
    if s > i64::MAX as i128 {
        i64::MAX
    } else if s < i64::MIN as i128 {
        i64::MIN
    } else {
        s as i64
    }
}

/// Saturating subtraction.
pub fn q_sub(a: i64, b: i64) -> (r: i64)
    ensures
        r as int == sub_qs(a as int, b as int),
{
    let s: i128 = a as i128 - b as i128;
    if s > i64::MAX as i128 {
        i64::MAX
    } else if s < i64::MIN as i128 {
        i64::MIN
    } else {
        s as i64
    }
}

/// Saturating negation.
pub fn q_neg(a: i64) -> (r: i64)
    ensures
        r as int == neg_qs(a as int),
{
    if a == i64::MIN {
        i64::MAX
    } else {
        -a
    }
}

/// Smaller of two scalars.
pub fn q_min(a: i64, b: i64) -> (r: i64)
    ensures
        r as int == min_s(a as int, b as int),
{
    if a < b {
        a
    } else {
        b
    }
}

/// Larger of two scalars.
pub fn q_max(a: i64, b: i64) -> (r: i64)
    ensures
        r as int == max_s(a as int, b as int),
{
    if a > b {
        a
    } else {
        b
    }
}

/// Magnitude of an `i64` as a `u64`.
fn abs_u(a: i64) -> (r: u64)
    ensures
        r as int == abs_s(a as int),
{
    if a >= 0 {
        a as u64
    } else {
        (-(a as i128)) as u64
    }
}

/// Build a scalar from a nonnegative magnitude and a sign, saturating.
fn from_sign_mag(neg: bool, mag: u128) -> (r: i64)
    ensures
        r as int == if neg {
            clamp_s(-(mag as int))
        } else {
            clamp_s(mag as int)
        },
{
    if neg {
        if mag >= 0x8000_0000_0000_0000u128 {
            i64::MIN
        } else {
            -(mag as i64)
        }
    } else {
        if mag > i64::MAX as u128 {
            i64::MAX
        } else {
            mag as i64
        }
    }
}

/// The truncated quotient through magnitudes equals `tdiv_s`.
proof fn lemma_tdiv_via_mag(a: int, b: int)
    requires
        b != 0,
    ensures
        abs_s(a) % abs_s(b) >= 0,
        tdiv_s(a, b) == if (a < 0) != (b < 0) {
            -(abs_s(a) / abs_s(b))
        } else {
            abs_s(a) / abs_s(b)
        },
        abs_s(a) / abs_s(b) >= 0,
        abs_s(a) / abs_s(b) <= abs_s(a),
{
    let ua = abs_s(a);
    let ub = abs_s(b);
    assert(ub >= 1);
    vstd::arithmetic::div_mod::lemma_div_pos_is_pos(ua, ub);
    vstd::arithmetic::div_mod::lemma_div_is_ordered_by_denominator(ua, 1, ub);
    vstd::arithmetic::div_mod::lemma_div_basics(ua);
    vstd::arithmetic::div_mod::lemma_remainder_lower(ua, ub);
    vstd::arithmetic::div_mod::lemma_mod_division_less_than_divisor(ua, ub);
}

/// Fixed-point multiplication.
pub fn q_mul(a: i64, b: i64) -> (r: i64)
    ensures
        r as int == mul_qs(a as int, b as int),
{
    let neg = (a < 0) != (b < 0);
    let ua = abs_u(a);
    let ub = abs_u(b);
    proof {
        assert((ua as int) * (ub as int) <= 0x8000_0000_0000_0000int * 0x8000_0000_0000_0000int)
            by (nonlinear_arith)
            requires
                0 <= ua as int <= 0x8000_0000_0000_0000,
                0 <= ub as int <= 0x8000_0000_0000_0000,
        ;
    }
    let p: u128 = (ua as u128) * (ub as u128);
    let q: u128 = p / 65536;
    proof {
        assert(abs_s(a as int) * abs_s(b as int) == abs_s((a as int) * (b as int)))
            by (nonlinear_arith);
        lemma_tdiv_via_mag((a as int) * (b as int), 65536);
        assert(p as int == abs_s((a as int) * (b as int)));
        assert(q as int == abs_s((a as int) * (b as int)) / 65536);
        if (a as int) * (b as int) == 0 {
            assert(q == 0);
        } else {
            assert(((a as int) * (b as int) < 0) == ((a < 0) != (b < 0))) by (nonlinear_arith)
                requires
                    (a as int) * (b as int) != 0,
            ;
        }
    }
    from_sign_mag(neg, q)
}

/// Fixed-point division; a zero divisor saturates by the dividend's sign.
pub fn q_div(a: i64, b: i64) -> (r: i64)
    ensures
        r as int == div_qs(a as int, b as int),
{
    if b == 0 {
        if a > 0 {
            i64::MAX
        } else if a < 0 {
            i64::MIN
        } else {
            0
        }
    } else {
        let neg = (a < 0) != (b < 0);
        let ua = abs_u(a);
        let ub = abs_u(b);
        let p: u128 = (ua as u128) * 65536;
        let q: u128 = p / (ub as u128);
        proof {
            assert(abs_s(a as int) * 65536 == abs_s((a as int) * 65536)) by (nonlinear_arith);
            lemma_tdiv_via_mag((a as int) * 65536, b as int);
            assert(q as int == abs_s((a as int) * 65536) / abs_s(b as int));
            if (a as int) * 65536 == 0 {
                assert(a == 0) by (nonlinear_arith)
                    requires
                        (a as int) * 65536 == 0,
                ;
                assert(q == 0);
            } else {
                assert((((a as int) * 65536 < 0) != ((b as int) < 0)) == ((a < 0) != (b < 0)))
                    by (nonlinear_arith)
                    requires
                        (a as int) * 65536 != 0,
                ;
            }
        }
        from_sign_mag(neg, q)
    }
}

/// Floor of the square root of a `u128`, by bisection.
fn isqrt_u128(n: u128) -> (r: u64)
    ensures
        (r as int) * (r as int) <= n as int,
        (n as int) < ((r as int) + 1) * ((r as int) + 1),
{
    if n == 0 {
        return 0;
    }
    let mut lo: u128 = 0;
    let mut hi: u128 = 1u128 << 64;
    proof {
        assert(1u128 << 64 == 0x1_0000_0000_0000_0000u128) by (bit_vector);
        assert((u128::MAX as int) < 0x1_0000_0000_0000_0000int * 0x1_0000_0000_0000_0000int);
    }
    while hi - lo > 1
        invariant
            0 <= lo < hi,
            hi <= 0x1_0000_0000_0000_0000,
            (lo as int) * (lo as int) <= n as int,
            (n as int) < (hi as int) * (hi as int),
        decreases hi - lo,
    {
        let mid: u128 = lo + (hi - lo) / 2;
        proof {
            assert((mid as int) * (mid as int) <= (u128::MAX) as int) by (nonlinear_arith)
                requires
                    0 <= (mid as int) < 0x1_0000_0000_0000_0000,
            ;
        }
        let sq: u128 = mid * mid;
        if sq <= n {
            lo = mid;
        } else {
            hi = mid;
        }
    }
    proof {
        assert(hi == lo + 1);
        assert(lo < 0x1_0000_0000_0000_0000);
    }
    lo as u64
}

/// Fixed-point square root of a nonnegative scalar.
pub fn q_sqrt(x: i64) -> (r: i64)
    requires
        x >= 0,
    ensures
        r as int == sqrt_qs(x as int),
        r >= 0,
{
    let n: u128 = (x as u128) * 65536;
    let s = isqrt_u128(n);
    proof {
        assert((s as int) * (s as int) <= (x as int) * 65536 < (s as int + 1) * (s as int + 1));
        lemma_sqrt_floor_is((x as int) * 65536, s as int);
        assert((s as int) < 0x100_0000_0000) by (nonlinear_arith)
            requires
                (s as int) * (s as int) <= (x as int) * 65536,
                0 <= s as int,
                x <= i64::MAX,
        ;
    }
    s as i64
}

} // verus!
