//! Fixed-point scalars.
//!
//! Every real-valued quantity of the tracer (coordinates, directions,
//! colors, lighting factors) is carried as an `i64` holding the quantity
//! times `SCALE`. Arithmetic goes through `i128` intermediates and
//! saturates at `±FX_MAX`, so every operation is total and its result
//! always `fits`.
use vstd::math::abs;
use vstd::prelude::*;

verus! {

/// One, in fixed-point units.
pub const SCALE: i64 = 65536;

/// Largest magnitude a fixed-point scalar may take; results saturate here.
pub const FX_MAX: i64 = 0x4000000000000000;

/// Smallest positive parametric distance; shadow and reflection rays start
/// here rather than at zero to avoid re-hitting the surface they left.
pub const EPSILON: i64 = 1;

/// Stands in for an unbounded parametric range.
pub const INF: i64 = FX_MAX;

/// A scalar is in range when its magnitude is at most `FX_MAX`.
pub open spec fn fits(v: int) -> bool {
    -FX_MAX <= v <= FX_MAX
}

/// Saturation at `±FX_MAX`.
pub open spec fn sat(v: int) -> int {
    if v > FX_MAX as int {
        FX_MAX as int
    } else if v < -(FX_MAX as int) {
        -(FX_MAX as int)
    } else {
        v
    }
}

/// Division rounding toward zero, as machine division does.
pub open spec fn tdiv(a: int, b: int) -> int {
    if (a >= 0) == (b >= 0) {
        abs(a) as int / abs(b) as int
    } else {
        -(abs(a) as int / abs(b) as int)
    }
}

/// Fixed-point product: `(a * b) / SCALE`, saturated.
pub open spec fn fx_mul(a: int, b: int) -> int {
    sat(tdiv(a * b, SCALE as int))
}

/// Fixed-point quotient: `(a * SCALE) / b`, saturated.
pub open spec fn fx_div(a: int, b: int) -> int {
    sat(tdiv(a * SCALE as int, b))
}

/// Integer square root, rounded down.
pub open spec fn isqrt(n: nat) -> nat
    decreases n,
{
    if n == 0 {
        0
    } else {
        let p = isqrt((n - 1) as nat);
        if (p + 1) * (p + 1) <= n {
            p + 1
        } else {
            p
        }
    }
}

/// Fixed-point square root of a nonnegative scalar: `isqrt(v * SCALE)`,
/// which is the fixed-point representation of the real square root of the
/// quantity `v` stands for.
pub open spec fn fx_sqrt(v: int) -> int {
    sat(isqrt((v * SCALE as int) as nat) as int)
}

/// Fixed-point power with a nonnegative integer exponent.
pub open spec fn fx_pow(b: int, e: nat) -> int
    decreases e,
{
    if e == 0 {
        SCALE as int
    } else {
        fx_mul(b, fx_pow(b, (e - 1) as nat))
    }
}

/// `isqrt(n)` is the integer square root: its square is at most `n`, and
/// the next square is beyond `n`.
pub proof fn lemma_isqrt_bounds(n: nat)
    ensures
        (isqrt(n) as int) * (isqrt(n) as int) <= n as int,
        (n as int) < (isqrt(n) as int + 1) * (isqrt(n) as int + 1),
    decreases n,
{
    if n > 0 {
        lemma_isqrt_bounds((n - 1) as nat);
        let p: int = isqrt((n - 1) as nat) as int;
        if (p + 1) * (p + 1) <= n as int {
            assert(isqrt(n) as int == p + 1);
            assert((n as int) < (p + 2) * (p + 2)) by (nonlinear_arith)
                requires n as int <= (p + 1) * (p + 1), p >= 0,
            ;
        } else {
            assert(isqrt(n) as int == p);
        }
    } else {
        assert(n == 0);
        assert(isqrt(n) == 0);
    }
}

/// Any value with the integer-square-root property equals `isqrt(n)`.
pub proof fn lemma_isqrt_unique(n: nat, r: nat)
    requires
        r * r <= n,
        n < (r + 1) * (r + 1),
    ensures
        r == isqrt(n),
{
    let s = isqrt(n);
    lemma_isqrt_bounds(n);
    if r < s {
        assert((r + 1) * (r + 1) <= s * s) by (nonlinear_arith)
            requires r + 1 <= s,
        ;
    }
    if s < r {
        assert((s + 1) * (s + 1) <= r * r) by (nonlinear_arith)
            requires s + 1 <= r,
        ;
    }
}

/// Saturate an `i128` into the fixed-point range.
pub fn saturate(v: i128) -> (r: i64)
    ensures
        r as int == sat(v as int),
        fits(r as int),
{
    if v > FX_MAX as i128 {
        FX_MAX
    } else if v < -(FX_MAX as i128) {
        -FX_MAX
    } else {
        v as i64
    }
}

/// Division of `i128` values rounding toward zero.
pub(crate) fn tdiv128(a: i128, b: i128) -> (r: i128)
    requires
        b != 0,
        a > i128::MIN,
        b > i128::MIN,
    ensures
        r as int == tdiv(a as int, b as int),
{
    let ua: u128 = if a >= 0 { a as u128 } else { (-a) as u128 };
    let ub: u128 = if b >= 0 { b as u128 } else { (-b) as u128 };
    let q: u128 = ua / ub;
    proof {
        assert(ua as int == abs(a as int));
        assert(ub as int == abs(b as int));
        vstd::arithmetic::div_mod::lemma_div_nonincreasing(ua as int, ub as int);
    }
    if (a >= 0) == (b >= 0) {
        q as i128
    } else {
        -(q as i128)
    }
}

/// Division of `i64` values rounding toward zero. The quotient's magnitude
/// never exceeds the dividend's, so the result always fits back in `i64`.
pub fn tdiv64(a: i64, b: i64) -> (r: i64)
    requires
        b >= 1,
    ensures
        r as int == tdiv(a as int, b as int),
        -abs(a as int) <= r as int <= abs(a as int),
{
    let q = tdiv128(a as i128, b as i128);
    proof {
        vstd::arithmetic::div_mod::lemma_div_pos_is_pos(abs(a as int) as int, abs(b as int) as int);
        vstd::arithmetic::div_mod::lemma_div_nonincreasing(abs(a as int) as int, abs(b as int) as int);
    }
    q as i64
}

/// Fixed-point multiplication.
pub fn mul_fx(a: i64, b: i64) -> (r: i64)
    ensures
        r as int == fx_mul(a as int, b as int),
        fits(r as int),
{
    proof {
        assert((a as int) * (b as int) < 0x80000000000000000000000000000000int
            && (a as int) * (b as int) > -0x80000000000000000000000000000000int) by (nonlinear_arith)
            requires
                -0x8000000000000000 <= a as int <= 0x7fffffffffffffff,
                -0x8000000000000000 <= b as int <= 0x7fffffffffffffff,
        ;
    }
    let p: i128 = (a as i128) * (b as i128);
    let q = tdiv128(p, SCALE as i128);
    saturate(q)
}

/// Fixed-point division.
pub fn div_fx(a: i64, b: i64) -> (r: i64)
    requires
        b != 0,
    ensures
        r as int == fx_div(a as int, b as int),
        fits(r as int),
{
    proof {
        assert((a as int) * (SCALE as int) < 0x80000000000000000000000000000000int
            && (a as int) * (SCALE as int) > -0x80000000000000000000000000000000int) by (nonlinear_arith)
            requires
                -0x8000000000000000 <= a as int <= 0x7fffffffffffffff,
        ;
    }
    let p: i128 = (a as i128) * (SCALE as i128);
    let q = tdiv128(p, b as i128);
    saturate(q)
}

/// Integer square root of a `u128`, by bisection.
pub(crate) fn isqrt_u128(n: u128) -> (r: u128)
    requires
        n < 0x40000000000000000000000000000000,
    ensures
        r as nat == isqrt(n as nat),
        r < 0x8000000000000000,
{
    let mut lo: u128 = 0;
    let mut hi: u128 = 0x8000000000000000;
    proof {
        assert((0x8000000000000000 as int) * (0x8000000000000000 as int)
            == 0x40000000000000000000000000000000int) by (nonlinear_arith);
    }
    while lo + 1 < hi
        invariant
            lo < hi <= 0x8000000000000000,
            (lo as int) * (lo as int) <= n as int,
            (n as int) < (hi as int) * (hi as int),
        decreases hi - lo,
    {
        let mid = lo + (hi - lo) / 2;
        proof {
            vstd::arithmetic::div_mod::lemma_div_is_strictly_smaller((hi - lo) as int, 2int);
            assert(lo < mid < hi);
            assert((mid as int) * (mid as int) < 0x80000000000000000000000000000000int)
                by (nonlinear_arith)
                requires 0 <= mid as int, (mid as int) <= 0x8000000000000000int,
            ;
        }
        if mid * mid <= n {
            lo = mid;
        } else {
            hi = mid;
        }
    }
    proof {
        assert((lo + 1) * (lo + 1) == (hi as int) * (hi as int)) by (nonlinear_arith)
            requires lo as int + 1 == hi as int,
        ;
        lemma_isqrt_unique(n as nat, lo as nat);
    }
    lo
}

/// Fixed-point square root of a nonnegative scalar.
pub fn sqrt_fx(v: i64) -> (r: i64)
    requires
        v >= 0,
    ensures
        r as int == fx_sqrt(v as int),
        fits(r as int),
        r >= 0,
{
    proof {
        assert((v as int) * (SCALE as int) < 0x40000000000000000000000000000000int) by (nonlinear_arith)
            requires 0 <= v as int <= 0x7fffffffffffffff,
        ;
    }
    let n: u128 = (v as u128) * (SCALE as u128);
    let s = isqrt_u128(n);
    saturate(s as i128)
}

/// Fixed-point power with a nonnegative integer exponent.
pub fn pow_fx(b: i64, e: u32) -> (r: i64)
    ensures
        r as int == fx_pow(b as int, e as nat),
        fits(r as int),
{
    let mut r: i64 = SCALE;
    let mut i: u32 = 0;
    while i < e
        invariant
            0 <= i <= e,
            r as int == fx_pow(b as int, i as nat),
            fits(r as int),
        decreases e - i,
    {
        r = mul_fx(b, r);
        proof {
            assert(fx_pow(b as int, (i + 1) as nat) == fx_mul(b as int, fx_pow(b as int, i as nat)));
        }
        i = i + 1;
    }
    r
}

} // verus!
