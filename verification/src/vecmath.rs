//! Value types of the renderer: colors, 3-vectors and 2-vectors over
//! saturating fixed-point scalars, with exact contracts for every operation.

use vstd::prelude::*;

use crate::fixed::{
    cl, clamp_fx, fadd, fdiv, fmul, fsub, fx, is_isqrt, isqrt, prod, spec_fadd, spec_fdiv,
    spec_fmul, spec_fsub, sqrt_fl, tdiv, trunc_div, FX_MAX, ISQRT_LIM, SCALE,
};

verus! {

/// An RGBA color; channels nominally lie in [0, SCALE] but are not clamped.
#[derive(Clone, Copy, Debug)]
pub struct Color {
    pub r: i64,
    pub g: i64,
    pub b: i64,
    pub a: i64,
}

/// A position or direction in space.
#[derive(Clone, Copy, Debug)]
pub struct Vector3 {
    pub x: i64,
    pub y: i64,
    pub z: i64,
}

/// A texture coordinate.
#[derive(Clone, Copy, Debug)]
pub struct Vector2 {
    pub x: i64,
    pub y: i64,
}

pub open spec fn vec_fx(v: Vector3) -> bool {
    fx(v.x as int) && fx(v.y as int) && fx(v.z as int)
}

pub open spec fn col_fx(c: Color) -> bool {
    fx(c.r as int) && fx(c.g as int) && fx(c.b as int) && fx(c.a as int)
}

pub open spec fn v2_fx(v: Vector2) -> bool {
    fx(v.x as int) && fx(v.y as int)
}

pub open spec fn spec_dot(a: Vector3, b: Vector3) -> int {
    cl(
        trunc_div(
            a.x as int * b.x as int + a.y as int * b.y as int + a.z as int * b.z as int,
            SCALE as int,
        ),
    )
}

pub open spec fn spec_cross(a: Vector3, b: Vector3) -> Vector3 {
    Vector3 {
        x: cl(trunc_div(a.y as int * b.z as int - a.z as int * b.y as int, SCALE as int)) as i64,
        y: cl(trunc_div(a.z as int * b.x as int - a.x as int * b.z as int, SCALE as int)) as i64,
        z: cl(trunc_div(a.x as int * b.y as int - a.y as int * b.x as int, SCALE as int)) as i64,
    }
}

pub open spec fn spec_sub(a: Vector3, b: Vector3) -> Vector3 {
    Vector3 {
        x: spec_fsub(a.x as int, b.x as int) as i64,
        y: spec_fsub(a.y as int, b.y as int) as i64,
        z: spec_fsub(a.z as int, b.z as int) as i64,
    }
}

pub open spec fn spec_add(a: Vector3, b: Vector3) -> Vector3 {
    Vector3 {
        x: spec_fadd(a.x as int, b.x as int) as i64,
        y: spec_fadd(a.y as int, b.y as int) as i64,
        z: spec_fadd(a.z as int, b.z as int) as i64,
    }
}

pub open spec fn spec_inverse(v: Vector3) -> Vector3 {
    Vector3 {
        x: spec_fdiv(SCALE as int, v.x as int) as i64,
        y: spec_fdiv(SCALE as int, v.y as int) as i64,
        z: spec_fdiv(SCALE as int, v.z as int) as i64,
    }
}

pub open spec fn spec_distance2(v: Vector3) -> int {
    cl(
        trunc_div(
            v.x as int * v.x as int + v.y as int * v.y as int + v.z as int * v.z as int,
            SCALE as int,
        ),
    )
}

/// The squared length of an in-range vector is nonnegative.
pub proof fn lemma_distance2_nonneg(v: Vector3)
    ensures
        spec_distance2(v) >= 0,
{
    assert(v.x as int * v.x as int >= 0) by (nonlinear_arith);
    assert(v.y as int * v.y as int >= 0) by (nonlinear_arith);
    assert(v.z as int * v.z as int >= 0) by (nonlinear_arith);
}

/// The vector rescaled to unit length; a zero vector stays zero.
pub open spec fn spec_normalized(v: Vector3) -> Vector3 {
    let len = sqrt_fl(spec_distance2(v) * SCALE);
    Vector3 {
        x: spec_fdiv(v.x as int, len) as i64,
        y: spec_fdiv(v.y as int, len) as i64,
        z: spec_fdiv(v.z as int, len) as i64,
    }
}

pub open spec fn spec_col_mul(c: Color, r: int, g: int, b: int, a: int) -> Color {
    Color {
        r: spec_fmul(c.r as int, r) as i64,
        g: spec_fmul(c.g as int, g) as i64,
        b: spec_fmul(c.b as int, b) as i64,
        a: spec_fmul(c.a as int, a) as i64,
    }
}

pub open spec fn is_hex_digit(c: char) -> bool {
    (48 <= c as u32 <= 57) || (65 <= c as u32 <= 70) || (97 <= c as u32 <= 102)
}

pub open spec fn hex_val(c: char) -> int {
    if c as u32 <= 57 {
        c as u32 - 48
    } else if c as u32 <= 70 {
        c as u32 - 55
    } else {
        c as u32 - 87
    }
}

/// One color channel from two hex digits, scaled so that 0xFF is 1.0.
pub open spec fn spec_channel(hi: char, lo: char) -> int {
    trunc_div((hex_val(hi) * 16 + hex_val(lo)) * SCALE, 255)
}

/// The color a literal of the form "#RRGGBB" or "#RRGGBBAA" denotes.
pub open spec fn spec_color_from_hex(s: Seq<char>) -> Color {
    Color {
        r: spec_channel(s[1], s[2]) as i64,
        g: spec_channel(s[3], s[4]) as i64,
        b: spec_channel(s[5], s[6]) as i64,
        a: if s.len() == 9 {
            spec_channel(s[7], s[8]) as i64
        } else {
            SCALE
        },
    }
}

/// One color channel from two hex digits.
fn hex_channel(hi: char, lo: char) -> (r: i64)
    requires
        is_hex_digit(hi),
        is_hex_digit(lo),
    ensures
        r as int == spec_channel(hi, lo),
        0 <= r <= SCALE,
{
    let uh: u32 = hi as u32;
    let ul: u32 = lo as u32;
    let dh: u32 = if uh <= 57 {
        uh - 48
    } else if uh <= 70 {
        uh - 55
    } else {
        uh - 87
    };
    let dl: u32 = if ul <= 57 {
        ul - 48
    } else if ul <= 70 {
        ul - 55
    } else {
        ul - 87
    };
    let raw: u32 = (dh * 16 + dl) * 10_000 / 255;
    raw as i64
}

impl Color {
    pub fn new(r: i64, g: i64, b: i64, a: i64) -> (c: Color)
        ensures
            c == (Color { r, g, b, a }),
    {
        Color { r, g, b, a }
    }

    pub fn new_color(other: &Color) -> (c: Color)
        ensures
            c == *other,
    {
        Color { r: other.r, g: other.g, b: other.b, a: other.a }
    }

    pub fn new_zero() -> (c: Color)
        ensures
            c == (Color { r: 0i64, g: 0i64, b: 0i64, a: 0i64 }),
    {
        Color { r: 0, g: 0, b: 0, a: 0 }
    }

    /// Parse a "#RRGGBB" or "#RRGGBBAA" literal; channels scale to [0, 1].
    pub fn new_string(s: &str) -> (c: Color)
        requires
            s@.len() == 7 || s@.len() == 9,
            forall|i: int| 1 <= i < s@.len() ==> is_hex_digit(#[trigger] s@[i]),
        ensures
            c == spec_color_from_hex(s@),
            col_fx(c),
    {
        let n = s.unicode_len();
        let r = hex_channel(s.get_char(1), s.get_char(2));
        let g = hex_channel(s.get_char(3), s.get_char(4));
        let b = hex_channel(s.get_char(5), s.get_char(6));
        let a = if n == 9 {
            hex_channel(s.get_char(7), s.get_char(8))
        } else {
            SCALE
        };
        Color { r, g, b, a }
    }

    /// Scale each channel by the given factor.
    pub fn mul_self(&mut self, r: i64, g: i64, b: i64, a: i64)
        requires
            col_fx(*old(self)),
            fx(r as int),
            fx(g as int),
            fx(b as int),
            fx(a as int),
        ensures
            *final(self) == spec_col_mul(*old(self), r as int, g as int, b as int, a as int),
            col_fx(*final(self)),
    {
        self.r = fmul(self.r, r);
        self.g = fmul(self.g, g);
        self.b = fmul(self.b, b);
        self.a = fmul(self.a, a);
    }
}

impl Vector3 {
    pub fn new(x: i64, y: i64, z: i64) -> (v: Vector3)
        ensures
            v == (Vector3 { x, y, z }),
    {
        Vector3 { x, y, z }
    }

    pub fn cpy(vec: &Vector3) -> (v: Vector3)
        ensures
            v == *vec,
    {
        Vector3 { x: vec.x, y: vec.y, z: vec.z }
    }

    pub fn new_zero() -> (v: Vector3)
        ensures
            v == (Vector3 { x: 0i64, y: 0i64, z: 0i64 }),
    {
        Vector3 { x: 0, y: 0, z: 0 }
    }

    pub fn zero(&mut self)
        ensures
            *final(self) == (Vector3 { x: 0i64, y: 0i64, z: 0i64 }),
    {
        self.x = 0;
        self.y = 0;
        self.z = 0;
    }

    pub fn dot(&self, other: &Vector3) -> (r: i64)
        requires
            vec_fx(*self),
            vec_fx(*other),
        ensures
            r as int == spec_dot(*self, *other),
            fx(r as int),
    {
        let s: i128 = prod(self.x, other.x) + prod(self.y, other.y) + prod(self.z, other.z);
        clamp_fx(tdiv(s, SCALE as i128))
    }

    pub fn cross(&self, other: &Vector3) -> (r: Vector3)
        requires
            vec_fx(*self),
            vec_fx(*other),
        ensures
            r == spec_cross(*self, *other),
            vec_fx(r),
    {
        let x = clamp_fx(tdiv(prod(self.y, other.z) - prod(self.z, other.y), SCALE as i128));
        let y = clamp_fx(tdiv(prod(self.z, other.x) - prod(self.x, other.z), SCALE as i128));
        let z = clamp_fx(tdiv(prod(self.x, other.y) - prod(self.y, other.x), SCALE as i128));
        Vector3 { x, y, z }
    }

    /// Rescale to unit length in place and return the squared length.
    /// A zero vector is left unchanged.
    pub fn normalize_dis(&mut self) -> (d2: i64)
        requires
            vec_fx(*old(self)),
        ensures
            d2 as int == spec_distance2(*old(self)),
            *final(self) == spec_normalized(*old(self)),
            vec_fx(*final(self)),
    {
        let dis2 = self.distance2();
        proof {
            lemma_distance2_nonneg(*self);
            assert(dis2 as u128 * SCALE as u128 <= ISQRT_LIM) by (nonlinear_arith)
                requires
                    0 <= dis2 as int <= FX_MAX,
            ;
        }
        let len_u = isqrt((dis2 as u128) * (SCALE as u128));
        proof {
            assert(len_u as int <= 200_000_000_000int) by (nonlinear_arith)
                requires
                    is_isqrt(dis2 as int * SCALE as int, len_u as int),
                    0 <= dis2 as int <= FX_MAX,
            ;
        }
        let len: i64 = len_u as i64;
        self.x = fdiv(self.x, len);
        self.y = fdiv(self.y, len);
        self.z = fdiv(self.z, len);
        dis2
    }

    pub fn distance2(&self) -> (r: i64)
        requires
            vec_fx(*self),
        ensures
            r as int == spec_distance2(*self),
            fx(r as int),
    {
        let s: i128 = prod(self.x, self.x) + prod(self.y, self.y) + prod(self.z, self.z);
        clamp_fx(tdiv(s, SCALE as i128))
    }

    pub fn set(&mut self, vec: &Vector3)
        ensures
            *final(self) == *vec,
    {
        self.x = vec.x;
        self.y = vec.y;
        self.z = vec.z;
    }

    pub fn sub(&self, other: &Vector3) -> (r: Vector3)
        requires
            vec_fx(*self),
            vec_fx(*other),
        ensures
            r == spec_sub(*self, *other),
            vec_fx(r),
    {
        Vector3 { x: fsub(self.x, other.x), y: fsub(self.y, other.y), z: fsub(self.z, other.z) }
    }

    pub fn add(&self, other: &Vector3) -> (r: Vector3)
        requires
            vec_fx(*self),
            vec_fx(*other),
        ensures
            r == spec_add(*self, *other),
            vec_fx(r),
    {
        Vector3 { x: fadd(self.x, other.x), y: fadd(self.y, other.y), z: fadd(self.z, other.z) }
    }

    /// Componentwise reciprocal; a zero component saturates, standing in
    /// for the infinity a floating-point division would give.
    pub fn inverse(&self) -> (r: Vector3)
        requires
            vec_fx(*self),
        ensures
            r == spec_inverse(*self),
            vec_fx(r),
    {
        Vector3 {
            x: fdiv(SCALE, self.x),
            y: fdiv(SCALE, self.y),
            z: fdiv(SCALE, self.z),
        }
    }
}

impl Vector2 {
    pub fn new(x: i64, y: i64) -> (v: Vector2)
        ensures
            v == (Vector2 { x, y }),
    {
        Vector2 { x, y }
    }
}

} // verus!
