//! Saturating fixed-point scalars: `i64` values with `SCALE` units per 1.0.
//!
//! Every operation clamps its mathematical result into `[-FX_MAX, FX_MAX]`,
//! so the arithmetic is total: there is no overflow and no division fault.
//! Division by zero saturates to the signed extreme, mirroring the role of
//! infinity in conventional floating-point renderers.

use vstd::prelude::*;

verus! {

/// Fixed-point units per 1.0.
pub const SCALE: i64 = 10_000;

/// Geometric tolerance: 1e-4, one fixed-point unit.
pub const EPSILON: i64 = 1;

/// Shadow-ray tolerance: 1e-3.
pub const SHADOW_EPSILON: i64 = 10;

/// Saturation bound of every fixed-point value.
pub const FX_MAX: i64 = 1_000_000_000_000_000_000;

/// Pi in fixed-point radians.
pub const PI_FX: i64 = 31_416;

/// Pi / 2 in fixed-point radians.
pub const HALF_PI_FX: i64 = 15_708;

/// 2 * Pi in fixed-point radians.
pub const TWO_PI_FX: i64 = 62_832;

/// A fixed-point value lies within the saturation range.
pub open spec fn fx(x: int) -> bool {
    -FX_MAX <= x <= FX_MAX
}

/// Clamp an unbounded result into the saturation range.
pub open spec fn cl(x: int) -> int {
    if x < -FX_MAX {
        -FX_MAX as int
    } else if x > FX_MAX {
        FX_MAX as int
    } else {
        x
    }
}

/// Division truncating toward zero, as machine division does.
pub open spec fn trunc_div(a: int, b: int) -> int
    recommends
        b != 0,
{
    if a == 0 {
        0
    } else if a > 0 && b > 0 {
        a / b
    } else if a < 0 && b < 0 {
        (a * -1) / (b * -1)
    } else if a < 0 {
        ((a * -1) / b) * -1
    } else {
        (a / (b * -1)) * -1
    }
}

/// Fixed-point product: a * b rescaled and clamped.
pub open spec fn spec_fmul(a: int, b: int) -> int {
    cl(trunc_div(a * b, SCALE as int))
}

/// Fixed-point quotient: a / b rescaled and clamped; a zero divisor
/// saturates to the signed extreme, like infinity.
pub open spec fn spec_fdiv(a: int, b: int) -> int {
    if b == 0 {
        if a < 0 {
            -FX_MAX as int
        } else if a == 0 {
            0
        } else {
            FX_MAX as int
        }
    } else {
        cl(trunc_div(a * SCALE, b))
    }
}

/// Clamped sum.
pub open spec fn spec_fadd(a: int, b: int) -> int {
    cl(a + b)
}

/// Clamped difference.
pub open spec fn spec_fsub(a: int, b: int) -> int {
    cl(a - b)
}

pub open spec fn smin(a: int, b: int) -> int {
    if a <= b {
        a
    } else {
        b
    }
}

pub open spec fn smax(a: int, b: int) -> int {
    if a >= b {
        a
    } else {
        b
    }
}

pub open spec fn sabs(a: int) -> int {
    if a < 0 {
        -a
    } else {
        a
    }
}

/// Bound on the raw product of two in-range fixed-point values.
pub const PROD_MAX: i128 = 1_000_000_000_000_000_000_000_000_000_000_000_000;

/// Raw widening product of two in-range scalars.
pub(crate) fn prod(a: i64, b: i64) -> (r: i128)
    requires
        fx(a as int),
        fx(b as int),
    ensures
        r == a as int * b as int,
        -PROD_MAX <= r <= PROD_MAX,
{
    proof {
        assert(-PROD_MAX <= a as int * b as int <= PROD_MAX) by (nonlinear_arith)
            requires
                -FX_MAX <= a as int <= FX_MAX,
                -FX_MAX <= b as int <= FX_MAX,
        ;
    }
    (a as i128) * (b as i128)
}

/// Truncating division on wide integers.
pub(crate) fn tdiv(a: i128, b: i128) -> (r: i128)
    requires
        b != 0,
        a != i128::MIN,
    ensures
        r == trunc_div(a as int, b as int),
{
    let q = a.checked_div(b);
    match q {
        Some(v) => v,
        None => vstd::pervasive::unreached(),
    }
}

/// Clamp a wide intermediate back into a fixed-point scalar.
pub(crate) fn clamp_fx(v: i128) -> (r: i64)
    ensures
        r as int == cl(v as int),
        fx(r as int),
{
    if v > FX_MAX as i128 {
        FX_MAX
    } else if v < -FX_MAX as i128 {
        -FX_MAX
    } else {
        v as i64
    }
}

/// Fixed-point multiplication.
pub fn fmul(a: i64, b: i64) -> (r: i64)
    requires
        fx(a as int),
        fx(b as int),
    ensures
        r as int == spec_fmul(a as int, b as int),
        fx(r as int),
{
    let p = prod(a, b);
    clamp_fx(tdiv(p, SCALE as i128))
}

/// Fixed-point division; a zero divisor saturates.
pub fn fdiv(a: i64, b: i64) -> (r: i64)
    requires
        fx(a as int),
        fx(b as int),
    ensures
        r as int == spec_fdiv(a as int, b as int),
        fx(r as int),
{
    if b == 0 {
        if a < 0 {
            -FX_MAX
        } else if a == 0 {
            0
        } else {
            FX_MAX
        }
    } else {
        proof {
            assert(-PROD_MAX <= a as int * SCALE as int <= PROD_MAX) by (nonlinear_arith)
                requires
                    -FX_MAX <= a as int <= FX_MAX,
            ;
        }
        clamp_fx(tdiv((a as i128) * (SCALE as i128), b as i128))
    }
}

/// Saturating addition.
pub fn fadd(a: i64, b: i64) -> (r: i64)
    requires
        fx(a as int),
        fx(b as int),
    ensures
        r as int == spec_fadd(a as int, b as int),
        fx(r as int),
{
    clamp_fx((a as i128) + (b as i128))
}

/// Saturating subtraction.
pub fn fsub(a: i64, b: i64) -> (r: i64)
    requires
        fx(a as int),
        fx(b as int),
    ensures
        r as int == spec_fsub(a as int, b as int),
        fx(r as int),
{
    clamp_fx((a as i128) - (b as i128))
}

pub fn min_i64(a: i64, b: i64) -> (r: i64)
    ensures
        r as int == smin(a as int, b as int),
{
    if a <= b {
        a
    } else {
        b
    }
}

pub fn max_i64(a: i64, b: i64) -> (r: i64)
    ensures
        r as int == smax(a as int, b as int),
{
    if a >= b {
        a
    } else {
        b
    }
}

pub fn abs_i64(a: i64) -> (r: i64)
    requires
        a != i64::MIN,
    ensures
        r as int == sabs(a as int),
{
    if a < 0 {
        -a
    } else {
        a
    }
}

/// Truncating division never grows the magnitude.
pub proof fn lemma_tdiv_abs_le(a: int, b: int)
    requires
        b != 0,
    ensures
        sabs(trunc_div(a, b)) <= sabs(a),
{
    if a == 0 {
    } else if a > 0 && b > 0 {
        assert(0 <= a / b <= a) by (nonlinear_arith)
            requires
                a > 0,
                b >= 1,
        ;
    } else if a < 0 && b < 0 {
        assert(0 <= (a * -1) / (b * -1) <= a * -1) by (nonlinear_arith)
            requires
                a < 0,
                b < 0,
        ;
    } else if a < 0 {
        assert(0 <= (a * -1) / b <= a * -1) by (nonlinear_arith)
            requires
                a < 0,
                b >= 1,
        ;
    } else {
        assert(0 <= a / (b * -1) <= a) by (nonlinear_arith)
            requires
                a > 0,
                b < 0,
        ;
    }
}

/// A quotient whose numerator is at most c times the divisor is at most c.
pub proof fn lemma_tdiv_bound(a: int, b: int, c: int)
    requires
        b != 0,
        c >= 0,
        sabs(a) <= c * sabs(b),
    ensures
        sabs(trunc_div(a, b)) <= c,
{
    if a == 0 {
    } else if a > 0 && b > 0 {
        assert(0 <= a / b <= c) by (nonlinear_arith)
            requires
                a > 0,
                b >= 1,
                a <= c * b,
        ;
    } else if a < 0 && b < 0 {
        assert(0 <= (a * -1) / (b * -1) <= c) by (nonlinear_arith)
            requires
                a < 0,
                b < 0,
                a * -1 <= c * (b * -1),
        ;
    } else if a < 0 {
        assert(0 <= (a * -1) / b <= c) by (nonlinear_arith)
            requires
                a < 0,
                b >= 1,
                a * -1 <= c * b,
        ;
    } else {
        assert(0 <= a / (b * -1) <= c) by (nonlinear_arith)
            requires
                a > 0,
                b < 0,
                a <= c * (b * -1),
        ;
    }
}

/// r is the integer square root of n.
pub open spec fn is_isqrt(n: int, r: int) -> bool {
    0 <= r && r * r <= n && n < (r + 1) * (r + 1)
}

/// The integer square root, as a function.
pub open spec fn sqrt_fl(n: int) -> int
    recommends
        n >= 0,
{
    choose|r: int| is_isqrt(n, r)
}

/// The integer square root is unique, so any witness names `sqrt_fl`.
pub proof fn lemma_isqrt_unique(n: int, r: int)
    requires
        is_isqrt(n, r),
    ensures
        sqrt_fl(n) == r,
{
    assert(is_isqrt(n, sqrt_fl(n))) by {
        assert(exists|x: int| is_isqrt(n, x));
    }
    let rp = sqrt_fl(n);
    if rp < r {
        assert((rp + 1) * (rp + 1) <= r * r) by (nonlinear_arith)
            requires
                0 <= rp,
                rp < r,
        ;
        assert(false);
    }
    if rp > r {
        assert((r + 1) * (r + 1) <= rp * rp) by (nonlinear_arith)
            requires
                0 <= r,
                r < rp,
        ;
        assert(false);
    }
}

/// Limit under which the square-root search starts from a valid bracket.
pub const ISQRT_LIM: u128 = 85070591730234615865843651857942052863;

/// Integer square root by bisection.
pub fn isqrt(n: u128) -> (r: u64)
    requires
        n <= ISQRT_LIM,
    ensures
        is_isqrt(n as int, r as int),
        r as int == sqrt_fl(n as int),
{
    let mut lo: u128 = 0;
    let mut hi: u128 = 1u128 << 63;
    proof {
        assert((1u128 << 63) == 9223372036854775808u128) by (bit_vector);
        assert(9223372036854775808int * 9223372036854775808int > n as int) by (nonlinear_arith)
            requires
                n <= ISQRT_LIM,
        ;
    }
    while lo + 1 < hi
        invariant
            0 <= lo < hi,
            hi <= 9223372036854775808u128,
            lo as int * lo as int <= n as int,
            hi as int * hi as int > n as int,
        decreases hi - lo,
    {
        let mid = lo + (hi - lo) / 2;
        proof {
            assert(mid as int * mid as int <= u128::MAX) by (nonlinear_arith)
                requires
                    mid <= 9223372036854775808u128,
            ;
        }
        if mid * mid <= n {
            lo = mid;
        } else {
            hi = mid;
        }
    }
    proof {
        assert(is_isqrt(n as int, lo as int));
        lemma_isqrt_unique(n as int, lo as int);
        assert(lo as int * lo as int <= n as int);
        assert(lo < 9223372036854775808u128);
    }
    lo as u64
}

} // verus!
