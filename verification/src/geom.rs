//! Geometric primitives: triangles with precomputed edges and normals,
//! axis-aligned bounding boxes with the slab ray test, point lights and
//! the camera.

use vstd::prelude::*;

use crate::fixed::{
    cl, clamp_fx, fmul, fsub, fx, max_i64, min_i64, prod, sabs, smax, smin, spec_fdiv,
    spec_fmul, spec_fsub, tdiv, trunc_div, EPSILON, SCALE,
};
use crate::vecmath::{
    col_fx, spec_cross, spec_dot, spec_inverse, spec_sub, v2_fx, vec_fx, Color, Vector2, Vector3,
};

verus! {

/// A triangle: vertices, precomputed edges, texture coordinates, vertex
/// colors, per-vertex reflectivity, a positional sort key, the unit
/// normal with its negation, and an optional texture id (-1 for none).
#[derive(Clone, Copy, Debug)]
pub struct Triangle {
    pub p1: Vector3,
    pub p2: Vector3,
    pub p3: Vector3,
    pub e1: Vector3,
    pub e2: Vector3,
    pub uv1: Vector2,
    pub uv2: Vector2,
    pub uv3: Vector2,
    pub c1: Color,
    pub c2: Color,
    pub c3: Color,
    pub reflect: [i64; 3],
    pub mid: i64,
    pub norm: Vector3,
    pub norm_opp: Vector3,
    pub tex: isize,
}

/// Every scalar of the triangle lies in the fixed-point range.
pub open spec fn tri_fx(t: Triangle) -> bool {
    &&& vec_fx(t.p1)
    &&& vec_fx(t.p2)
    &&& vec_fx(t.p3)
    &&& vec_fx(t.e1)
    &&& vec_fx(t.e2)
    &&& v2_fx(t.uv1)
    &&& v2_fx(t.uv2)
    &&& v2_fx(t.uv3)
    &&& col_fx(t.c1)
    &&& col_fx(t.c2)
    &&& col_fx(t.c3)
    &&& fx(t.reflect@[0] as int)
    &&& fx(t.reflect@[1] as int)
    &&& fx(t.reflect@[2] as int)
    &&& fx(t.mid as int)
    &&& vec_fx(t.norm)
    &&& vec_fx(t.norm_opp)
}

/// Valid barycentric weights as the intersection routine reports them.
pub open spec fn bary_ok(u: int, v: int) -> bool {
    0 <= u && 0 <= v && u + v <= SCALE
}

/// The Moller-Trumbore test: the parametric distance and barycentric
/// coordinates of the hit, or (-1, 0, 0) when the ray misses, runs
/// parallel to the plane, or hits within the self-intersection guard.
pub open spec fn spec_intersect(tri: Triangle, ori: Vector3, dir: Vector3) -> (i64, i64, i64) {
    let pvec = spec_cross(dir, tri.e2);
    let det = spec_dot(pvec, tri.e1);
    if sabs(det) < EPSILON {
        (-1i64, 0i64, 0i64)
    } else {
        let tvec = spec_sub(ori, tri.p1);
        let u = spec_fdiv(spec_dot(tvec, pvec), det);
        if u < 0 || u > SCALE {
            (-1i64, 0i64, 0i64)
        } else {
            let qvec = spec_cross(tvec, tri.e1);
            let v = spec_fdiv(spec_dot(dir, qvec), det);
            if v < 0 || u + v > SCALE {
                (-1i64, 0i64, 0i64)
            } else {
                let t = spec_fdiv(spec_dot(tri.e2, qvec), det);
                if t < 0 || sabs(t) < EPSILON {
                    (-1i64, 0i64, 0i64)
                } else {
                    (t as i64, u as i64, v as i64)
                }
            }
        }
    }
}

/// Barycentric interpolation of three scalars with weights (1-u-v, u, v).
pub open spec fn spec_bary(a: int, b: int, c: int, u: int, v: int) -> int {
    cl(trunc_div(a * (SCALE - u - v) + b * u + c * v, SCALE as int))
}

pub open spec fn spec_min_box(t: Triangle) -> Vector3 {
    Vector3 {
        x: smin(t.p1.x as int, smin(t.p2.x as int, t.p3.x as int)) as i64,
        y: smin(t.p1.y as int, smin(t.p2.y as int, t.p3.y as int)) as i64,
        z: smin(t.p1.z as int, smin(t.p2.z as int, t.p3.z as int)) as i64,
    }
}

pub open spec fn spec_max_box(t: Triangle) -> Vector3 {
    Vector3 {
        x: smax(t.p1.x as int, smax(t.p2.x as int, t.p3.x as int)) as i64,
        y: smax(t.p1.y as int, smax(t.p2.y as int, t.p3.y as int)) as i64,
        z: smax(t.p1.z as int, smax(t.p2.z as int, t.p3.z as int)) as i64,
    }
}

pub open spec fn spec_obtain_pos(t: Triangle, u: int, v: int) -> Vector3 {
    Vector3 {
        x: spec_bary(t.p1.x as int, t.p2.x as int, t.p3.x as int, u, v) as i64,
        y: spec_bary(t.p1.y as int, t.p2.y as int, t.p3.y as int, u, v) as i64,
        z: spec_bary(t.p1.z as int, t.p2.z as int, t.p3.z as int, u, v) as i64,
    }
}

pub open spec fn spec_obtain_uv(t: Triangle, u: int, v: int) -> Vector2 {
    Vector2 {
        x: spec_bary(t.uv1.x as int, t.uv2.x as int, t.uv3.x as int, u, v) as i64,
        y: spec_bary(t.uv1.y as int, t.uv2.y as int, t.uv3.y as int, u, v) as i64,
    }
}

pub open spec fn spec_obtain_reflect(t: Triangle, u: int, v: int) -> int {
    spec_bary(t.reflect@[0] as int, t.reflect@[1] as int, t.reflect@[2] as int, u, v)
}

pub open spec fn spec_obtain_color(t: Triangle, u: int, v: int) -> Color {
    Color {
        r: spec_bary(t.c1.r as int, t.c2.r as int, t.c3.r as int, u, v) as i64,
        g: spec_bary(t.c1.g as int, t.c2.g as int, t.c3.g as int, u, v) as i64,
        b: spec_bary(t.c1.b as int, t.c2.b as int, t.c3.b as int, u, v) as i64,
        a: spec_bary(t.c1.a as int, t.c2.a as int, t.c3.a as int, u, v) as i64,
    }
}

/// Barycentric interpolation of three in-range scalars.
fn bary(a: i64, b: i64, c: i64, u: i64, v: i64) -> (r: i64)
    requires
        fx(a as int),
        fx(b as int),
        fx(c as int),
        bary_ok(u as int, v as int),
    ensures
        r as int == spec_bary(a as int, b as int, c as int, u as int, v as int),
        fx(r as int),
{
    let subuv: i64 = SCALE - u - v;
    let s: i128 = prod(a, subuv) + prod(b, u) + prod(c, v);
    clamp_fx(tdiv(s, SCALE as i128))
}

impl Triangle {
    /// The componentwise maximum corner over the three vertices.
    pub fn max_box(&self) -> (r: Vector3)
        ensures
            r == spec_max_box(*self),
    {
        Vector3 {
            x: max_i64(self.p1.x, max_i64(self.p2.x, self.p3.x)),
            y: max_i64(self.p1.y, max_i64(self.p2.y, self.p3.y)),
            z: max_i64(self.p1.z, max_i64(self.p2.z, self.p3.z)),
        }
    }

    /// The componentwise minimum corner over the three vertices.
    pub fn min_box(&self) -> (r: Vector3)
        ensures
            r == spec_min_box(*self),
    {
        Vector3 {
            x: min_i64(self.p1.x, min_i64(self.p2.x, self.p3.x)),
            y: min_i64(self.p1.y, min_i64(self.p2.y, self.p3.y)),
            z: min_i64(self.p1.z, min_i64(self.p2.z, self.p3.z)),
        }
    }

    /// Ray-triangle intersection; returns (t, u, v), with t == -1 for a miss.
    pub fn intersect(&self, ori: &Vector3, dir: &Vector3) -> (r: (i64, i64, i64))
        requires
            tri_fx(*self),
            vec_fx(*ori),
            vec_fx(*dir),
        ensures
            r == spec_intersect(*self, *ori, *dir),
            r.0 == -1 || (r.0 >= EPSILON && bary_ok(r.1 as int, r.2 as int)),
    {
        let pvec = dir.cross(&self.e2);
        let det = pvec.dot(&self.e1);
        if abs_lt_eps(det) {
            return (-1, 0, 0);
        }
        let tvec = ori.sub(&self.p1);
        let u = crate::fixed::fdiv(tvec.dot(&pvec), det);
        if u < 0 || u > SCALE {
            return (-1, 0, 0);
        }
        let qvec = tvec.cross(&self.e1);
        let v = crate::fixed::fdiv(dir.dot(&qvec), det);
        if v < 0 || u + v > SCALE {
            return (-1, 0, 0);
        }
        let t = crate::fixed::fdiv(self.e2.dot(&qvec), det);
        if t < 0 || abs_lt_eps(t) {
            (-1, 0, 0)
        } else {
            (t, u, v)
        }
    }

    /// Interpolated texture coordinate at barycentric (u, v).
    pub fn obtain_uv(&self, u: i64, v: i64) -> (r: Vector2)
        requires
            tri_fx(*self),
            bary_ok(u as int, v as int),
        ensures
            r == spec_obtain_uv(*self, u as int, v as int),
            v2_fx(r),
    {
        Vector2 {
            x: bary(self.uv1.x, self.uv2.x, self.uv3.x, u, v),
            y: bary(self.uv1.y, self.uv2.y, self.uv3.y, u, v),
        }
    }

    /// Interpolated reflectivity at barycentric (u, v).
    pub fn obtain_reflect(&self, u: i64, v: i64) -> (r: i64)
        requires
            tri_fx(*self),
            bary_ok(u as int, v as int),
        ensures
            r as int == spec_obtain_reflect(*self, u as int, v as int),
            fx(r as int),
    {
        let r0 = self.reflect[0];
        let r1 = self.reflect[1];
        let r2 = self.reflect[2];
        bary(r0, r1, r2, u, v)
    }

    /// Interpolated position at barycentric (u, v).
    pub fn obtain_pos(&self, u: i64, v: i64) -> (r: Vector3)
        requires
            tri_fx(*self),
            bary_ok(u as int, v as int),
        ensures
            r == spec_obtain_pos(*self, u as int, v as int),
            vec_fx(r),
    {
        Vector3 {
            x: bary(self.p1.x, self.p2.x, self.p3.x, u, v),
            y: bary(self.p1.y, self.p2.y, self.p3.y, u, v),
            z: bary(self.p1.z, self.p2.z, self.p3.z, u, v),
        }
    }

    /// Interpolated vertex color at barycentric (u, v).
    pub fn obtain_color(&self, u: i64, v: i64) -> (r: Color)
        requires
            tri_fx(*self),
            bary_ok(u as int, v as int),
        ensures
            r == spec_obtain_color(*self, u as int, v as int),
            col_fx(r),
    {
        Color {
            r: bary(self.c1.r, self.c2.r, self.c3.r, u, v),
            g: bary(self.c1.g, self.c2.g, self.c3.g, u, v),
            b: bary(self.c1.b, self.c2.b, self.c3.b, u, v),
            a: bary(self.c1.a, self.c2.a, self.c3.a, u, v),
        }
    }
}

/// Whether the magnitude falls below the geometric tolerance.
fn abs_lt_eps(x: i64) -> (r: bool)
    requires
        fx(x as int),
    ensures
        r == (sabs(x as int) < EPSILON),
{
    let a = if x < 0 {
        -x
    } else {
        x
    };
    a < EPSILON
}

/// A node of the bounding-volume hierarchy: a box given by two corners,
/// and two child slots that either both index other nodes or are both -1,
/// marking a leaf whose own index names a triangle.
#[derive(Clone, Copy, Debug)]
pub struct BoundingBox {
    pub m1: Vector3,
    pub m2: Vector3,
    pub left: isize,
    pub right: isize,
}

pub open spec fn box_fx(b: BoundingBox) -> bool {
    vec_fx(b.m1) && vec_fx(b.m2)
}

/// The slab test: whether the ray's line meets the box in a nonempty
/// parametric interval. A zero direction component saturates through the
/// reciprocal, mirroring the infinities of the floating-point test.
pub open spec fn spec_slab(b: BoundingBox, ori: Vector3, norm: Vector3) -> bool {
    let inv = spec_inverse(norm);
    let t1x = spec_fmul(inv.x as int, spec_fsub(b.m1.x as int, ori.x as int));
    let t2x = spec_fmul(inv.x as int, spec_fsub(b.m2.x as int, ori.x as int));
    let t1y = spec_fmul(inv.y as int, spec_fsub(b.m1.y as int, ori.y as int));
    let t2y = spec_fmul(inv.y as int, spec_fsub(b.m2.y as int, ori.y as int));
    let t1z = spec_fmul(inv.z as int, spec_fsub(b.m1.z as int, ori.z as int));
    let t2z = spec_fmul(inv.z as int, spec_fsub(b.m2.z as int, ori.z as int));
    let tmin = smax(smax(smin(t1x, t2x), smin(t1y, t2y)), smin(t1z, t2z));
    let tmax = smin(smin(smax(t2x, t1x), smax(t2y, t1y)), smax(t2z, t1z));
    tmin <= tmax
}

impl BoundingBox {
    /// Slab test against a ray.
    pub fn intersect(&self, ori: &Vector3, norm: &Vector3) -> (r: bool)
        requires
            box_fx(*self),
            vec_fx(*ori),
            vec_fx(*norm),
        ensures
            r == spec_slab(*self, *ori, *norm),
    {
        let norm_inv = norm.inverse();
        let mut t1 = fmul(norm_inv.x, fsub(self.m1.x, ori.x));
        let mut t2 = fmul(norm_inv.x, fsub(self.m2.x, ori.x));
        let mut tmin = min_i64(t1, t2);
        let mut tmax = max_i64(t2, t1);
        t1 = fmul(norm_inv.y, fsub(self.m1.y, ori.y));
        t2 = fmul(norm_inv.y, fsub(self.m2.y, ori.y));
        tmin = max_i64(tmin, min_i64(t1, t2));
        tmax = min_i64(tmax, max_i64(t2, t1));
        t1 = fmul(norm_inv.z, fsub(self.m1.z, ori.z));
        t2 = fmul(norm_inv.z, fsub(self.m2.z, ori.z));
        tmin = max_i64(tmin, min_i64(t1, t2));
        tmax = min_i64(tmax, max_i64(t2, t1));
        tmin <= tmax
    }
}

/// A point light with inverse-square falloff.
#[derive(Clone, Copy, Debug)]
pub struct PointLight {
    pub pos: Vector3,
    pub color: Color,
    pub lumen: i64,
}

pub open spec fn light_fx(l: PointLight) -> bool {
    vec_fx(l.pos) && col_fx(l.color) && fx(l.lumen as int)
}

/// Camera parameters: position, Euler rotation in degrees, field of view
/// in degrees.
#[derive(Clone, Copy, Debug)]
pub struct Camera {
    pub pos: Vector3,
    pub rot: Vector3,
    pub fov: i64,
}

pub open spec fn cam_fx(c: Camera) -> bool {
    vec_fx(c.pos) && vec_fx(c.rot) && fx(c.fov as int)
}

} // verus!
