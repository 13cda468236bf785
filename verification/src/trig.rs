//! Fixed-point trigonometry: sine and cosine by Bhaskara's rational
//! approximation after range reduction, arctangent by a quadratic
//! approximation with quadrant correction, and arcsine through the
//! arctangent. Each function's contract is the defining formula itself,
//! so callers compute with these values exactly.

use vstd::prelude::*;

use crate::fixed::{
    cl, fmul, fx, isqrt, lemma_tdiv_abs_le, lemma_tdiv_bound, sabs, spec_fdiv, spec_fmul,
    sqrt_fl, tdiv, trunc_div, HALF_PI_FX, PI_FX, SCALE, TWO_PI_FX,
};
use crate::vecmath::{vec_fx, Vector3};

verus! {

/// The angle folded into [-PI_FX, PI_FX].
pub open spec fn wrap_pi(x: int) -> int {
    let m = x - TWO_PI_FX * trunc_div(x, TWO_PI_FX as int);
    if m > PI_FX {
        m - TWO_PI_FX
    } else if m < -PI_FX {
        m + TWO_PI_FX
    } else {
        m
    }
}

/// Bhaskara's rational sine approximation on [0, PI_FX].
pub open spec fn bhaskara(r: int) -> int
    recommends
        0 <= r <= PI_FX,
{
    trunc_div(16 * (r * (PI_FX - r)) * SCALE, 5 * PI_FX * PI_FX - 4 * (r * (PI_FX - r)))
}

/// Fixed-point sine of an angle in fixed-point radians.
pub open spec fn spec_sin(x: int) -> int {
    let r = wrap_pi(x);
    if r >= 0 {
        bhaskara(r)
    } else {
        -bhaskara(-r)
    }
}

/// Fixed-point cosine: the sine shifted by a quarter turn.
pub open spec fn spec_cos(x: int) -> int {
    spec_sin(cl(x + HALF_PI_FX))
}

/// Quadratic arctangent approximation for ratios in [-1, 1].
pub open spec fn spec_atan(q: int) -> int
    recommends
        -SCALE <= q <= SCALE,
{
    trunc_div(7854 * q, SCALE as int) + trunc_div(
        2730 * (q * (SCALE - sabs(q))),
        SCALE as int * SCALE as int,
    )
}

/// Four-quadrant arctangent of y/x in fixed-point radians.
pub open spec fn spec_atan2(y: int, x: int) -> int {
    if x == 0 && y == 0 {
        0
    } else if sabs(y) <= sabs(x) {
        let base = spec_atan(spec_fdiv(y, x));
        if x > 0 {
            base
        } else if y >= 0 {
            base + PI_FX
        } else {
            base - PI_FX
        }
    } else {
        let base = spec_atan(spec_fdiv(x, y));
        if y > 0 {
            HALF_PI_FX - base
        } else {
            -HALF_PI_FX - base
        }
    }
}

/// Arcsine of a sine value in [-1, 1], through the arctangent.
pub open spec fn spec_asin(z: int) -> int {
    let z2 = if z > SCALE {
        SCALE as int
    } else if z < -SCALE {
        -SCALE as int
    } else {
        z
    };
    spec_atan2(z2, sqrt_fl(SCALE * SCALE - z2 * z2))
}

/// Fold an angle into [-PI_FX, PI_FX].
fn wrap_rad(x: i64) -> (r: i64)
    requires
        fx(x as int),
    ensures
        r as int == wrap_pi(x as int),
        -PI_FX <= r <= PI_FX,
{
    let q = tdiv(x as i128, TWO_PI_FX as i128);
    proof {
        lemma_tdiv_abs_le(x as int, TWO_PI_FX as int);
        if x >= 0 {
            assert(trunc_div(x as int, TWO_PI_FX as int) == x as int / TWO_PI_FX as int);
            assert(x as int % TWO_PI_FX as int == x as int - TWO_PI_FX as int * (x as int
                / TWO_PI_FX as int));
        } else {
            let y = -(x as int);
            assert(trunc_div(x as int, TWO_PI_FX as int) == -(y / TWO_PI_FX as int));
            assert(y % TWO_PI_FX as int == y - TWO_PI_FX as int * (y / TWO_PI_FX as int));
        }
    }
    let m128: i128 = x as i128 - (TWO_PI_FX as i128) * q;
    let m: i64 = m128 as i64;
    if m > PI_FX {
        m - TWO_PI_FX
    } else if m < -PI_FX {
        m + TWO_PI_FX
    } else {
        m
    }
}

/// Sine on the reduced range via Bhaskara's approximation.
fn bhaskara_fx(r: i64) -> (s: i64)
    requires
        0 <= r <= PI_FX,
    ensures
        s as int == bhaskara(r as int),
        0 <= s <= 20_000,
{
    proof {
        assert(0 <= r as int * (PI_FX - r as int) <= 250_000_000int) by (nonlinear_arith)
            requires
                0 <= r as int <= PI_FX as int,
                PI_FX == 31_416i64,
        ;
    }
    let p: i64 = r * (PI_FX - r);
    let num: i64 = 16 * p * SCALE;
    let den: i64 = 5 * PI_FX * PI_FX - 4 * p;
    let s128 = tdiv(num as i128, den as i128);
    proof {
        assert(0 <= trunc_div(num as int, den as int) <= 20_000int) by (nonlinear_arith)
            requires
                trunc_div(num as int, den as int) == (num as int) / (den as int),
                num as int == 16 * (p as int) * (SCALE as int),
                den as int == 5 * (PI_FX as int) * (PI_FX as int) - 4 * (p as int),
                0 <= p as int <= 250_000_000int,
                SCALE == 10_000i64,
                PI_FX == 31_416i64,
        ;
    }
    s128 as i64
}

/// Fixed-point sine.
pub fn sin_fx(x: i64) -> (s: i64)
    requires
        fx(x as int),
    ensures
        s as int == spec_sin(x as int),
        -20_000 <= s <= 20_000,
{
    let r = wrap_rad(x);
    if r >= 0 {
        bhaskara_fx(r)
    } else {
        -bhaskara_fx(-r)
    }
}

/// Fixed-point cosine.
pub fn cos_fx(x: i64) -> (s: i64)
    requires
        fx(x as int),
    ensures
        s as int == spec_cos(x as int),
        -20_000 <= s <= 20_000,
{
    let xs = crate::fixed::fadd(x, HALF_PI_FX);
    let r = wrap_rad(xs);
    if r >= 0 {
        bhaskara_fx(r)
    } else {
        -bhaskara_fx(-r)
    }
}

/// Arctangent of a ratio already scaled into [-1, 1].
fn atan_ratio(q: i64) -> (r: i64)
    requires
        -SCALE <= q <= SCALE,
    ensures
        r as int == spec_atan(q as int),
        -16_000 <= r <= 16_000,
{
    proof {
        lemma_tdiv_bound(7854 * q as int, SCALE as int, 7854);
    }
    let t1: i64 = (tdiv((7854i128) * (q as i128), SCALE as i128)) as i64;
    let aq: i64 = if q < 0 {
        -q
    } else {
        q
    };
    proof {
        assert(sabs(2730 * (q as int * (SCALE - aq as int))) <= 683 * (SCALE as int
            * SCALE as int)) by (nonlinear_arith)
            requires
                -SCALE <= q as int <= SCALE,
                aq as int == sabs(q as int),
                SCALE == 10_000i64,
        ;
        lemma_tdiv_bound(2730 * (q as int * (SCALE - aq as int)), SCALE as int * SCALE as int, 683);
        assert(q as int * (SCALE - aq as int) <= 100_000_000int && q as int * (SCALE
            - aq as int) >= -100_000_000int) by (nonlinear_arith)
            requires
                -SCALE <= q as int <= SCALE,
                0 <= aq as int <= SCALE,
                SCALE == 10_000i64,
        ;
    }
    let inner: i128 = (q as i128) * ((SCALE - aq) as i128);
    let t2: i64 = (tdiv(2730i128 * inner, 100_000_000i128)) as i64;
    proof {
        assert(SCALE as int * SCALE as int == 100_000_000int);
        assert(t2 as int == trunc_div(2730 * (q as int * (SCALE - sabs(q as int))), SCALE as int
            * SCALE as int));
        assert(trunc_div(7854 * q as int, SCALE as int) == t1 as int);
    }
    t1 + t2
}

/// The magnitude of a truncated scaled ratio stays within one unit scale
/// when the numerator is no larger than the denominator.
proof fn lemma_ratio_in_unit(y: int, x: int)
    requires
        x != 0,
        sabs(y) <= sabs(x),
    ensures
        -SCALE <= spec_fdiv(y, x) <= SCALE,
{
    assert(sabs(y * SCALE) <= SCALE * sabs(x)) by (nonlinear_arith)
        requires
            sabs(y) <= sabs(x),
            SCALE == 10_000i64,
    ;
    lemma_tdiv_bound(y * SCALE, x, SCALE as int);
}

/// Four-quadrant arctangent.
pub fn atan2_fx(y: i64, x: i64) -> (r: i64)
    requires
        fx(y as int),
        fx(x as int),
    ensures
        r as int == spec_atan2(y as int, x as int),
        -48_000 <= r <= 48_000,
{
    let ay: i64 = if y < 0 {
        -y
    } else {
        y
    };
    let ax: i64 = if x < 0 {
        -x
    } else {
        x
    };
    if x == 0 && y == 0 {
        0
    } else if ay <= ax {
        let q = crate::fixed::fdiv(y, x);
        proof {
            lemma_ratio_in_unit(y as int, x as int);
        }
        let base = atan_ratio(q);
        if x > 0 {
            base
        } else if y >= 0 {
            base + PI_FX
        } else {
            base - PI_FX
        }
    } else {
        let q = crate::fixed::fdiv(x, y);
        proof {
            lemma_ratio_in_unit(x as int, y as int);
        }
        let base = atan_ratio(q);
        if y > 0 {
            HALF_PI_FX - base
        } else {
            -HALF_PI_FX - base
        }
    }
}

/// Arcsine of a value in [-1, 1].
pub fn asin_fx(z: i64) -> (r: i64)
    requires
        fx(z as int),
    ensures
        r as int == spec_asin(z as int),
        -48_000 <= r <= 48_000,
{
    let z2: i64 = if z > SCALE {
        SCALE
    } else if z < -SCALE {
        -SCALE
    } else {
        z
    };
    proof {
        assert(0 <= z2 as int * z2 as int <= 100_000_000int) by (nonlinear_arith)
            requires
                -SCALE <= z2 as int <= SCALE,
                SCALE == 10_000i64,
        ;
    }
    let zz: i64 = z2 * z2;
    let rad2: i64 = SCALE * SCALE - zz;
    let c = isqrt(rad2 as u128);
    proof {
        assert(c as int * c as int <= 100_000_000int);
        assert(c as int <= 10_000int) by (nonlinear_arith)
            requires
                0 <= c as int,
                c as int * c as int <= 100_000_000int,
        ;
    }
    atan2_fx(z2, c as i64)
}

impl Vector3 {
    /// Reinterpret x and y as angles in radians and replace the vector
    /// with the unit direction they describe.
    pub fn normalize(&mut self)
        requires
            vec_fx(*old(self)),
        ensures
            *final(self) == spec_normalize_sph(*old(self)),
            vec_fx(*final(self)),
    {
        let yrcos = cos_fx(self.y);
        self.z = fmul(cos_fx(self.x), yrcos);
        self.x = fmul(sin_fx(self.x), yrcos);
        self.y = sin_fx(self.y);
    }

    /// Reinterpret x and y as angles in degrees and replace the vector
    /// with the unit direction they describe.
    pub fn normalize_deg(&mut self)
        requires
            vec_fx(*old(self)),
        ensures
            *final(self) == spec_normalize_deg(*old(self)),
            vec_fx(*final(self)),
    {
        let xr = to_rad(self.x);
        let yr = to_rad(self.y);
        let yrcos = cos_fx(yr);
        self.x = fmul(sin_fx(xr), yrcos);
        self.y = sin_fx(yr);
        self.z = fmul(cos_fx(xr), yrcos);
    }
}

/// Angles in radians held in x and y, turned into a unit direction.
pub open spec fn spec_normalize_sph(v: Vector3) -> Vector3 {
    let yc = spec_cos(v.y as int);
    Vector3 {
        x: spec_fmul(spec_sin(v.x as int), yc) as i64,
        y: spec_sin(v.y as int) as i64,
        z: spec_fmul(spec_cos(v.x as int), yc) as i64,
    }
}

/// Angles in degrees held in x and y, turned into a unit direction.
pub open spec fn spec_normalize_deg(v: Vector3) -> Vector3 {
    let xr = spec_to_rad(v.x as int);
    let yr = spec_to_rad(v.y as int);
    let yc = spec_cos(yr);
    Vector3 {
        x: spec_fmul(spec_sin(xr), yc) as i64,
        y: spec_sin(yr) as i64,
        z: spec_fmul(spec_cos(xr), yc) as i64,
    }
}

/// Degrees to fixed-point radians.
pub open spec fn spec_to_rad(d: int) -> int {
    spec_fdiv(spec_fmul(d, PI_FX as int), 180 * SCALE)
}

/// Degrees to fixed-point radians.
pub fn to_rad(d: i64) -> (r: i64)
    requires
        fx(d as int),
    ensures
        r as int == spec_to_rad(d as int),
        fx(r as int),
{
    let m = fmul(d, PI_FX);
    crate::fixed::fdiv(m, 180 * SCALE)
}

} // verus!
