//! Three-component fixed-point vector, used interchangeably as point,
//! direction and RGB color.

use vstd::prelude::*;

use crate::qmath::{
    abs_s, add_qs, div_qs, lemma_mul_qs_self_nonneg, mul_qs, neg_qs, q_add, q_div, q_mul, q_neg,
    q_sqrt, q_sub, sqrt_qs, sub_qs, ONE,
};

verus! {

/// A 3-vector of Q16.16 scalars.
#[derive(Clone, Copy, Debug, PartialEq, Eq, Structural)]
pub struct Vec3 {
    pub x: i64,
    pub y: i64,
    pub z: i64,
}

/// A 3D point.
pub type Point3d = Vec3;

/// An RGB color.
pub type Color = Vec3;

/// Componentwise saturating sum.
pub open spec fn v_add_s(a: Vec3, b: Vec3) -> Vec3 {
    Vec3 {
        x: add_qs(a.x as int, b.x as int) as i64,
        y: add_qs(a.y as int, b.y as int) as i64,
        z: add_qs(a.z as int, b.z as int) as i64,
    }
}

/// Componentwise saturating difference.
pub open spec fn v_sub_s(a: Vec3, b: Vec3) -> Vec3 {
    Vec3 {
        x: sub_qs(a.x as int, b.x as int) as i64,
        y: sub_qs(a.y as int, b.y as int) as i64,
        z: sub_qs(a.z as int, b.z as int) as i64,
    }
}

/// Componentwise negation.
pub open spec fn v_neg_s(a: Vec3) -> Vec3 {
    Vec3 {
        x: neg_qs(a.x as int) as i64,
        y: neg_qs(a.y as int) as i64,
        z: neg_qs(a.z as int) as i64,
    }
}

/// Scale by a scalar.
pub open spec fn v_scale_s(a: Vec3, s: int) -> Vec3 {
    Vec3 {
        x: mul_qs(a.x as int, s) as i64,
        y: mul_qs(a.y as int, s) as i64,
        z: mul_qs(a.z as int, s) as i64,
    }
}

/// Componentwise product, the color-modulation operation.
pub open spec fn v_mul_s(a: Vec3, b: Vec3) -> Vec3 {
    Vec3 {
        x: mul_qs(a.x as int, b.x as int) as i64,
        y: mul_qs(a.y as int, b.y as int) as i64,
        z: mul_qs(a.z as int, b.z as int) as i64,
    }
}

/// Division by a scalar goes through the reciprocal, as the executable
/// code does.
pub open spec fn v_div_scalar_s(a: Vec3, s: int) -> Vec3 {
    v_scale_s(a, div_qs(65536, s))
}

/// Dot product: the three rescaled products, summed left to right with
/// saturation.
pub open spec fn dot_s(a: Vec3, b: Vec3) -> int {
    add_qs(
        add_qs(mul_qs(a.x as int, b.x as int), mul_qs(a.y as int, b.y as int)),
        mul_qs(a.z as int, b.z as int),
    )
}

/// Cross product.
pub open spec fn cross_s(a: Vec3, b: Vec3) -> Vec3 {
    Vec3 {
        x: sub_qs(mul_qs(a.y as int, b.z as int), mul_qs(a.z as int, b.y as int)) as i64,
        y: sub_qs(mul_qs(a.z as int, b.x as int), mul_qs(a.x as int, b.z as int)) as i64,
        z: sub_qs(mul_qs(a.x as int, b.y as int), mul_qs(a.y as int, b.x as int)) as i64,
    }
}

/// Squared length.
pub open spec fn len_sq_s(a: Vec3) -> int {
    dot_s(a, a)
}

/// Length: fixed-point square root of the squared length.
pub open spec fn len_s(a: Vec3) -> int {
    sqrt_qs(len_sq_s(a))
}

/// Unit vector: scale by the reciprocal of the length, as the
/// executable code does.
pub open spec fn unit_s(a: Vec3) -> Vec3 {
    v_scale_s(a, div_qs(65536, len_s(a)))
}

/// All three components are below the finest representable threshold,
/// that is, exactly zero.
pub open spec fn near_zero_s(a: Vec3) -> bool {
    abs_s(a.x as int) < 1 && abs_s(a.y as int) < 1 && abs_s(a.z as int) < 1
}

/// A sample of the ball shell between radius one half and one, drawn
/// from the cube of side two: the raw material of a random direction.
pub open spec fn ball_sample_s(a: Vec3) -> bool {
    &&& 16384 <= len_sq_s(a) <= 65536
    &&& abs_s(a.x as int) <= 65536
    &&& abs_s(a.y as int) <= 65536
    &&& abs_s(a.z as int) <= 65536
}

/// Component along the given axis index.
pub open spec fn axis_of(a: Vec3, i: int) -> int {
    if i == 0 {
        a.x as int
    } else if i == 1 {
        a.y as int
    } else {
        a.z as int
    }
}

/// A squared length is never negative.
pub proof fn lemma_len_sq_nonneg(a: Vec3)
    ensures
        len_sq_s(a) >= 0,
{
    lemma_mul_qs_self_nonneg(a.x as int);
    lemma_mul_qs_self_nonneg(a.y as int);
    lemma_mul_qs_self_nonneg(a.z as int);
}

/// One component of a shell sample, scaled by the reciprocal length.
proof fn lemma_scale_band(x: int, inv: int)
    requires
        abs_s(x) <= 65536,
        0 <= inv <= 131072,
    ensures
        abs_s(mul_qs(x, inv)) <= 131072,
{
    assert(abs_s(x * inv) == abs_s(x) * inv) by (nonlinear_arith)
        requires
            inv >= 0,
    ;
    assert(abs_s(x) * inv <= 65536 * 131072) by (nonlinear_arith)
        requires
            0 <= abs_s(x) <= 65536,
            0 <= inv <= 131072,
    ;
    vstd::arithmetic::div_mod::lemma_div_is_ordered(abs_s(x) * inv, 65536int * 131072, 65536);
    assert(65536int * 131072 / 65536 == 131072) by (nonlinear_arith);
    vstd::arithmetic::div_mod::lemma_div_pos_is_pos(abs_s(x) * inv, 65536);
}

/// Normalizing a shell sample of length at least one half keeps every
/// component within two units.
pub proof fn lemma_unit_band(a: Vec3)
    requires
        ball_sample_s(a),
    ensures
        abs_s(unit_s(a).x as int) <= 131072,
        abs_s(unit_s(a).y as int) <= 131072,
        abs_s(unit_s(a).z as int) <= 131072,
{
    let lsq = len_sq_s(a);
    crate::qmath::lemma_sqrt_floor_props(lsq * 65536);
    let len = len_s(a);
    assert(lsq * 65536 >= 1073741824) by (nonlinear_arith)
        requires
            lsq >= 16384,
    ;
    assert(len >= 32768) by (nonlinear_arith)
        requires
            (len + 1) * (len + 1) > lsq * 65536,
            lsq * 65536 >= 1073741824,
            len >= 0,
    ;
    assert(lsq * 65536 <= 4294967296) by (nonlinear_arith)
        requires
            lsq <= 65536,
    ;
    assert(len <= 65536) by (nonlinear_arith)
        requires
            len * len <= lsq * 65536,
            lsq * 65536 <= 4294967296,
            len >= 0,
    ;
    let inv = div_qs(65536, len);
    vstd::arithmetic::div_mod::lemma_div_is_ordered_by_denominator(4294967296, 32768, len);
    assert(4294967296int / 32768 == 131072) by (nonlinear_arith);
    vstd::arithmetic::div_mod::lemma_div_pos_is_pos(4294967296, len);
    assert(0 <= inv <= 131072);
    lemma_scale_band(a.x as int, inv);
    lemma_scale_band(a.y as int, inv);
    lemma_scale_band(a.z as int, inv);
}

impl Default for Vec3 {
    /// The zero vector.
    fn default() -> (r: Vec3)
        ensures
            r == (Vec3 { x: 0, y: 0, z: 0 }),
    {
        Vec3::zero()
    }
}

impl Vec3 {
    /// Build a vector from its components.
    pub fn new(a: i64, b: i64, c: i64) -> (r: Vec3)
        ensures
            r == (Vec3 { x: a, y: b, z: c }),
    {
        Vec3 { x: a, y: b, z: c }
    }

    /// All three components equal.
    pub fn uni(v: i64) -> (r: Vec3)
        ensures
            r == (Vec3 { x: v, y: v, z: v }),
    {
        Vec3 { x: v, y: v, z: v }
    }

    /// The zero vector.
    pub fn zero() -> (r: Vec3)
        ensures
            r == (Vec3 { x: 0, y: 0, z: 0 }),
    {
        Vec3 { x: 0, y: 0, z: 0 }
    }

    /// The all-ones vector.
    pub fn one() -> (r: Vec3)
        ensures
            r == (Vec3 { x: ONE as i64, y: ONE as i64, z: ONE as i64 }),
    {
        Vec3 { x: ONE, y: ONE, z: ONE }
    }

    /// Unit vector along +x.
    pub fn right() -> (r: Vec3)
        ensures
            r == (Vec3 { x: ONE as i64, y: 0, z: 0 }),
    {
        Vec3 { x: ONE, y: 0, z: 0 }
    }

    /// Unit vector along +y.
    pub fn up() -> (r: Vec3)
        ensures
            r == (Vec3 { x: 0, y: ONE as i64, z: 0 }),
    {
        Vec3 { x: 0, y: ONE, z: 0 }
    }

    /// Unit vector along -z.
    pub fn forward() -> (r: Vec3)
        ensures
            r == (Vec3 { x: 0, y: 0, z: (-65536int) as i64 }),
    {
        Vec3 { x: 0, y: 0, z: -ONE }
    }

    /// First component.
    pub fn x(&self) -> (r: i64)
        ensures
            r == self.x,
    {
        self.x
    }

    /// Second component.
    pub fn y(&self) -> (r: i64)
        ensures
            r == self.y,
    {
        self.y
    }

    /// Third component.
    pub fn z(&self) -> (r: i64)
        ensures
            r == self.z,
    {
        self.z
    }

    /// Component along an axis index, `0` for x, `1` for y, `2` for z.
    pub fn axis(&self, i: usize) -> (r: i64)
        requires
            i < 3,
        ensures
            r as int == axis_of(*self, i as int),
    {
        if i == 0 {
            self.x
        } else if i == 1 {
            self.y
        } else {
            self.z
        }
    }

    /// Componentwise saturating sum.
    pub fn add(self, other: Vec3) -> (r: Vec3)
        ensures
            r == v_add_s(self, other),
    {
        Vec3 { x: q_add(self.x, other.x), y: q_add(self.y, other.y), z: q_add(self.z, other.z) }
    }

    /// Componentwise saturating difference.
    pub fn sub(self, other: Vec3) -> (r: Vec3)
        ensures
            r == v_sub_s(self, other),
    {
        Vec3 { x: q_sub(self.x, other.x), y: q_sub(self.y, other.y), z: q_sub(self.z, other.z) }
    }

    /// Componentwise negation.
    pub fn neg(self) -> (r: Vec3)
        ensures
            r == v_neg_s(self),
    {
        Vec3 { x: q_neg(self.x), y: q_neg(self.y), z: q_neg(self.z) }
    }

    /// Scale by a scalar.
    pub fn scale(self, s: i64) -> (r: Vec3)
        ensures
            r == v_scale_s(self, s as int),
    {
        Vec3 { x: q_mul(self.x, s), y: q_mul(self.y, s), z: q_mul(self.z, s) }
    }

    /// Componentwise product.
    pub fn mul(self, other: Vec3) -> (r: Vec3)
        ensures
            r == v_mul_s(self, other),
    {
        Vec3 { x: q_mul(self.x, other.x), y: q_mul(self.y, other.y), z: q_mul(self.z, other.z) }
    }

    /// Division by a scalar, through the reciprocal.
    pub fn div(self, s: i64) -> (r: Vec3)
        ensures
            r == v_div_scalar_s(self, s as int),
    {
        let inv = q_div(ONE, s);
        self.scale(inv)
    }

    /// Dot product.
    pub fn dot(&self, v: Vec3) -> (r: i64)
        ensures
            r as int == dot_s(*self, v),
    {
        q_add(q_add(q_mul(self.x, v.x), q_mul(self.y, v.y)), q_mul(self.z, v.z))
    }

    /// Cross product.
    pub fn cross(&self, v: Vec3) -> (r: Vec3)
        ensures
            r == cross_s(*self, v),
    {
        Vec3 {
            x: q_sub(q_mul(self.y, v.z), q_mul(self.z, v.y)),
            y: q_sub(q_mul(self.z, v.x), q_mul(self.x, v.z)),
            z: q_sub(q_mul(self.x, v.y), q_mul(self.y, v.x)),
        }
    }

    /// Squared length.
    pub fn length_squared(&self) -> (r: i64)
        ensures
            r as int == len_sq_s(*self),
            r >= 0,
    {
        proof {
            lemma_len_sq_nonneg(*self);
        }
        self.dot(*self)
    }

    /// Length.
    pub fn length(&self) -> (r: i64)
        ensures
            r as int == len_s(*self),
            r >= 0,
    {
        q_sqrt(self.length_squared())
    }

    /// True when every component is exactly zero, the finest threshold
    /// the representation can express.
    pub fn near_zero(&self) -> (r: bool)
        ensures
            r == near_zero_s(*self),
    {
        self.x == 0 && self.y == 0 && self.z == 0
    }

    /// The vector scaled to unit length, through the reciprocal of its
    /// length; degenerate for the zero vector, which saturates.
    pub fn unit_vector(&self) -> (r: Vec3)
        ensures
            r == unit_s(*self),
    {
        let l = self.length();
        self.div(l)
    }
}

} // verus!
