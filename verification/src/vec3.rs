//! Three-component vectors over fixed-point scalars, used interchangeably
//! as positions, directions and colors.
use crate::fx::{
    div_fx, fits, fx_div, fx_mul, isqrt, mul_fx, sat, saturate, tdiv, FX_MAX, SCALE,
};
use vstd::prelude::*;

verus! {

#[derive(Debug, Clone, Copy, PartialEq, Eq, Structural)]
pub struct V3 {
    pub x: i64,
    pub y: i64,
    pub z: i64,
}

/// All three components are in the fixed-point range.
pub open spec fn fits3(v: V3) -> bool {
    fits(v.x as int) && fits(v.y as int) && fits(v.z as int)
}

/// Componentwise sum, saturated.
pub open spec fn add3(a: V3, b: V3) -> V3 {
    V3 { x: sat(a.x + b.x) as i64, y: sat(a.y + b.y) as i64, z: sat(a.z + b.z) as i64 }
}

/// Componentwise difference, saturated.
pub open spec fn sub3(a: V3, b: V3) -> V3 {
    V3 { x: sat(a.x - b.x) as i64, y: sat(a.y - b.y) as i64, z: sat(a.z - b.z) as i64 }
}

/// Vector times fixed-point scalar.
pub open spec fn scale3(v: V3, s: int) -> V3 {
    V3 { x: fx_mul(v.x as int, s) as i64, y: fx_mul(v.y as int, s) as i64, z: fx_mul(
        v.z as int,
        s,
    ) as i64 }
}

/// Vector divided by fixed-point scalar.
pub open spec fn div3(v: V3, s: int) -> V3 {
    V3 { x: fx_div(v.x as int, s) as i64, y: fx_div(v.y as int, s) as i64, z: fx_div(
        v.z as int,
        s,
    ) as i64 }
}

/// Fixed-point dot product.
pub open spec fn dot3(a: V3, b: V3) -> int {
    sat(tdiv(a.x * b.x + a.y * b.y + a.z * b.z, SCALE as int))
}

/// Fixed-point cross product.
pub open spec fn cross3(a: V3, b: V3) -> V3 {
    V3 {
        x: sat(fx_mul(a.y as int, b.z as int) - fx_mul(a.z as int, b.y as int)) as i64,
        y: sat(fx_mul(a.z as int, b.x as int) - fx_mul(a.x as int, b.z as int)) as i64,
        z: sat(fx_mul(a.x as int, b.y as int) - fx_mul(a.y as int, b.x as int)) as i64,
    }
}

/// Euclidean length. The integer square root of the raw sum of squares is
/// already in fixed-point units, since the components carry one factor of
/// `SCALE` each.
pub open spec fn len3(v: V3) -> int {
    sat(isqrt((v.x * v.x + v.y * v.y + v.z * v.z) as nat) as int)
}

/// The vector scaled to unit length (up to rounding).
pub open spec fn unit3(v: V3) -> V3 {
    div3(v, len3(v))
}

/// `a * b` stays within `m * m` when both factors are within `m`.
pub proof fn lemma_mul_fits(a: int, b: int, m: int)
    requires
        -m <= a <= m,
        -m <= b <= m,
        0 <= m,
    ensures
        -(m * m) <= a * b <= m * m,
{
    assert(-(m * m) <= a * b <= m * m) by (nonlinear_arith)
        requires -m <= a <= m, -m <= b <= m, 0 <= m,
    ;
}

/// `a * b` stays within `ma * mb` when `a` is within `ma` and `b` within `mb`.
pub proof fn lemma_mul_bound(a: int, b: int, ma: int, mb: int)
    requires
        -ma <= a <= ma,
        -mb <= b <= mb,
        0 <= ma,
        0 <= mb,
    ensures
        -(ma * mb) <= a * b <= ma * mb,
{
    assert(-(ma * mb) <= a * b <= ma * mb) by (nonlinear_arith)
        requires -ma <= a <= ma, -mb <= b <= mb, 0 <= ma, 0 <= mb,
    ;
}

/// A vector's dot product with itself is nonnegative.
pub proof fn lemma_dot_self_nonneg(v: V3)
    ensures
        dot3(v, v) >= 0,
{
    assert(v.x * v.x >= 0) by (nonlinear_arith);
    assert(v.y * v.y >= 0) by (nonlinear_arith);
    assert(v.z * v.z >= 0) by (nonlinear_arith);
    vstd::arithmetic::div_mod::lemma_div_pos_is_pos(
        v.x * v.x + v.y * v.y + v.z * v.z,
        SCALE as int,
    );
}

/// A nonzero scalar has a square of at least one.
pub proof fn lemma_square_pos(a: int)
    requires
        a != 0,
    ensures
        a * a >= 1,
{
    assert(a * a >= 1) by (nonlinear_arith)
        requires a != 0,
    ;
}

impl V3 {
    /// Componentwise sum, saturated.
    pub fn plus(self, other: V3) -> (r: V3)
        ensures
            r == add3(self, other),
            fits3(r),
    {
        V3 {
            x: saturate(self.x as i128 + other.x as i128),
            y: saturate(self.y as i128 + other.y as i128),
            z: saturate(self.z as i128 + other.z as i128),
        }
    }

    /// Componentwise difference, saturated.
    pub fn minus(self, other: V3) -> (r: V3)
        ensures
            r == sub3(self, other),
            fits3(r),
    {
        V3 {
            x: saturate(self.x as i128 - other.x as i128),
            y: saturate(self.y as i128 - other.y as i128),
            z: saturate(self.z as i128 - other.z as i128),
        }
    }

    /// Vector times fixed-point scalar.
    pub fn scaled(self, s: i64) -> (r: V3)
        ensures
            r == scale3(self, s as int),
            fits3(r),
    {
        V3 { x: mul_fx(self.x, s), y: mul_fx(self.y, s), z: mul_fx(self.z, s) }
    }

    /// Vector divided by fixed-point scalar.
    pub fn divided(self, s: i64) -> (r: V3)
        requires
            s != 0,
        ensures
            r == div3(self, s as int),
            fits3(r),
    {
        V3 { x: div_fx(self.x, s), y: div_fx(self.y, s), z: div_fx(self.z, s) }
    }

    /// Euclidean length, in fixed-point units.
    pub fn length(&self) -> (r: i64)
        requires
            fits3(*self),
        ensures
            r as int == len3(*self),
            fits(r as int),
            r >= 0,
            (self.x != 0 || self.y != 0 || self.z != 0) ==> r >= 1,
    {
        proof {
            lemma_mul_fits(self.x as int, self.x as int, FX_MAX as int);
            lemma_mul_fits(self.y as int, self.y as int, FX_MAX as int);
            lemma_mul_fits(self.z as int, self.z as int, FX_MAX as int);
            if self.x != 0 {
                lemma_square_pos(self.x as int);
            } else if self.y != 0 {
                lemma_square_pos(self.y as int);
            } else if self.z != 0 {
                lemma_square_pos(self.z as int);
            }
            assert(self.x * self.x >= 0) by (nonlinear_arith);
            assert(self.y * self.y >= 0) by (nonlinear_arith);
            assert(self.z * self.z >= 0) by (nonlinear_arith);
        }
        let sum: i128 = (self.x as i128) * (self.x as i128) + (self.y as i128) * (self.y as i128)
            + (self.z as i128) * (self.z as i128);
        let n: u128 = sum as u128;
        let s = crate::fx::isqrt_u128(n);
        proof {
            if self.x != 0 || self.y != 0 || self.z != 0 {
                crate::fx::lemma_isqrt_bounds(n as nat);
                let sq: int = isqrt(n as nat) as int;
                assert(sq >= 1) by (nonlinear_arith)
                    requires sq >= 0, n as int >= 1, (n as int) < (sq + 1) * (sq + 1),
                ;
            }
        }
        saturate(s as i128)
    }

    /// The vector scaled to unit length (up to rounding). The zero vector
    /// has no direction; callers must rule it out.
    pub fn normalize(&self) -> (r: V3)
        requires
            fits3(*self),
            self.x != 0 || self.y != 0 || self.z != 0,
        ensures
            r == unit3(*self),
            fits3(r),
    {
        let len = self.length();
        self.divided(len)
    }
}

/// Fixed-point dot product.
pub fn dot(v: V3, w: V3) -> (r: i64)
    requires
        fits3(v),
        fits3(w),
    ensures
        r as int == dot3(v, w),
        fits(r as int),
{
    proof {
        lemma_mul_fits(v.x as int, w.x as int, FX_MAX as int);
        lemma_mul_fits(v.y as int, w.y as int, FX_MAX as int);
        lemma_mul_fits(v.z as int, w.z as int, FX_MAX as int);
    }
    let sum: i128 = (v.x as i128) * (w.x as i128) + (v.y as i128) * (w.y as i128) + (v.z as i128)
        * (w.z as i128);
    let q = crate::fx::tdiv128(sum, SCALE as i128);
    saturate(q)
}

/// Fixed-point cross product.
pub fn cross(v: V3, w: V3) -> (r: V3)
    ensures
        r == cross3(v, w),
        fits3(r),
{
    V3 {
        x: saturate(mul_fx(v.y, w.z) as i128 - mul_fx(v.z, w.y) as i128),
        y: saturate(mul_fx(v.z, w.x) as i128 - mul_fx(v.x, w.z) as i128),
        z: saturate(mul_fx(v.x, w.y) as i128 - mul_fx(v.y, w.x) as i128),
    }
}

/// Build a vector, saturating each component into the fixed-point range.
pub fn new_vec(x: i64, y: i64, z: i64) -> (r: V3)
    ensures
        r.x as int == sat(x as int),
        r.y as int == sat(y as int),
        r.z as int == sat(z as int),
        fits3(r),
{
    V3 { x: saturate(x as i128), y: saturate(y as i128), z: saturate(z as i128) }
}

} // verus!
