//! Properties of the renderer that hold for every scene, stated and
//! proved over the same spec functions the executable contracts use.

use vstd::prelude::*;

use crate::fixed::{smax, smin, spec_fmul, trunc_div, SCALE};
use crate::geom::{spec_intersect, spec_slab, BoundingBox, Triangle};
use crate::trace::{czero, spec_glow_cells, spec_glow_rows, spec_lights, spec_ray_trace};
use crate::vecmath::{spec_cross, spec_dot, Vector3};
use crate::world::World;

verus! {

/// A ray whose direction is parallel to the triangle's plane has a zero
/// determinant in the intersection test, and the test reports a miss.
pub proof fn lemma_parallel_ray_misses(tri: Triangle, ori: Vector3, dir: Vector3)
    requires
        spec_dot(spec_cross(dir, tri.e2), tri.e1) == 0,
    ensures
        spec_intersect(tri, ori, dir).0 == -1,
{
}

/// A zero factor gives a zero fixed-point product.
proof fn lemma_fmul_zero(a: int)
    ensures
        spec_fmul(a, 0) == 0,
        spec_fmul(0, a) == 0,
{
    assert(a * 0 == 0) by (nonlinear_arith);
    assert(0 * a == 0) by (nonlinear_arith);
}

/// Truncating division by a positive divisor keeps the sign.
proof fn lemma_tdiv_sign(a: int, b: int)
    requires
        b > 0,
    ensures
        a <= 0 ==> trunc_div(a, b) <= 0,
        a >= 0 ==> trunc_div(a, b) >= 0,
{
    if a > 0 {
        assert(a / b >= 0) by (nonlinear_arith)
            requires
                a > 0,
                b > 0,
        ;
    } else if a < 0 {
        assert((a * -1) / b >= 0) by (nonlinear_arith)
            requires
                a < 0,
                b > 0,
        ;
    }
}

/// Scaling factors with opposite signs by a common value leaves one
/// product on each side of zero.
proof fn lemma_fmul_straddles(i: int, d1: int, d2: int)
    requires
        d1 <= 0,
        d2 >= 0,
    ensures
        smin(spec_fmul(i, d1), spec_fmul(i, d2)) <= 0,
        smax(spec_fmul(i, d1), spec_fmul(i, d2)) >= 0,
{
    if i >= 0 {
        assert(i * d1 <= 0 && i * d2 >= 0) by (nonlinear_arith)
            requires
                i >= 0,
                d1 <= 0,
                d2 >= 0,
        ;
        lemma_tdiv_sign(i * d1, SCALE as int);
        lemma_tdiv_sign(i * d2, SCALE as int);
    } else {
        assert(i * d1 >= 0 && i * d2 <= 0) by (nonlinear_arith)
            requires
                i < 0,
                d1 <= 0,
                d2 >= 0,
        ;
        lemma_tdiv_sign(i * d1, SCALE as int);
        lemma_tdiv_sign(i * d2, SCALE as int);
    }
}

/// A ray cast from anywhere inside a box always passes the slab test,
/// whatever its direction: each axis brackets the parameter zero.
pub proof fn lemma_slab_hit_from_inside(b: BoundingBox, ori: Vector3, dir: Vector3)
    requires
        b.m1.x <= ori.x <= b.m2.x,
        b.m1.y <= ori.y <= b.m2.y,
        b.m1.z <= ori.z <= b.m2.z,
    ensures
        spec_slab(b, ori, dir),
{
    let inv = crate::vecmath::spec_inverse(dir);
    lemma_fmul_straddles(
        inv.x as int,
        crate::fixed::spec_fsub(b.m1.x as int, ori.x as int),
        crate::fixed::spec_fsub(b.m2.x as int, ori.x as int),
    );
    lemma_fmul_straddles(
        inv.y as int,
        crate::fixed::spec_fsub(b.m1.y as int, ori.y as int),
        crate::fixed::spec_fsub(b.m2.y as int, ori.y as int),
    );
    lemma_fmul_straddles(
        inv.z as int,
        crate::fixed::spec_fsub(b.m1.z as int, ori.z as int),
        crate::fixed::spec_fsub(b.m2.z as int, ori.z as int),
    );
}

/// Shading is deterministic: the color of a ray is a function of the
/// scene, the ray and the depth alone, so two traces of the same ray
/// through the same scene agree.
pub proof fn lemma_shading_deterministic(
    w: World,
    pos: Vector3,
    ray: Vector3,
    depth: int,
    c1: crate::vecmath::Color,
    c2: crate::vecmath::Color,
)
    requires
        c1 == spec_ray_trace(w, pos, ray, depth),
        c2 == spec_ray_trace(w, pos, ray, depth),
    ensures
        c1 == c2,
{
}

/// With no point lights in the scene every traced ray is fully black:
/// no light accumulates, the scene color is gated to zero, and every
/// reflection bounce only blends zeros.
pub proof fn lemma_unlit_scene_black(w: World, pos: Vector3, ray: Vector3, depth: int)
    requires
        w.point_lights@.len() == 0,
    ensures
        spec_ray_trace(w, pos, ray, depth) == czero(),
    decreases 6 - depth,
{
    let data = crate::trace::spec_collision(w, pos, ray, w.bbox@.len() - 1);
    if data.0 != -1 {
        let tid = data.3 as int;
        let u = data.1 as int;
        let v = data.2 as int;
        let tri = w.triangles@[tid];
        let pp = crate::geom::spec_obtain_pos(tri, u, v);
        let nrx = crate::trig::spec_atan2(
            if spec_dot(tri.norm, ray) <= 0 {
                tri.norm
            } else {
                tri.norm_opp
            }.x as int,
            if spec_dot(tri.norm, ray) <= 0 {
                tri.norm
            } else {
                tri.norm_opp
            }.z as int,
        );
        assert(spec_lights(w, pp, nrx, crate::trig::spec_asin(
            if spec_dot(tri.norm, ray) <= 0 {
                tri.norm
            } else {
                tri.norm_opp
            }.y as int,
        ), depth, 0, czero()) == czero());
        assert(crate::world::spec_world_color(w, tid, u, v) == (crate::vecmath::Color {
            r: 0i64,
            g: 0i64,
            b: 0i64,
            a: 0i64,
        }));
        assert(spec_fmul(0, 0) == 0);
        lemma_fmul_zero(spec_lights(w, pp, nrx, crate::trig::spec_asin(
            if spec_dot(tri.norm, ray) <= 0 {
                tri.norm
            } else {
                tri.norm_opp
            }.y as int,
        ), depth, 0, czero()).r as int);
        if crate::geom::spec_obtain_reflect(tri, u, v) != 0 && depth < 5 {
            lemma_unlit_scene_black(w, pp, spec_reflect_dir(w, pos, ray, depth), depth + 1);
            let rc = spec_ray_trace(w, pp, spec_reflect_dir(w, pos, ray, depth), depth + 1);
            assert(rc == czero());
            let refl = crate::geom::spec_obtain_reflect(tri, u, v);
            let ro = crate::fixed::spec_fsub(SCALE as int, refl);
            lemma_fmul_zero(ro);
            lemma_fmul_zero(refl);
        }
    }
}

/// The mirror direction the shader reflects into at a hit.
pub open spec fn spec_reflect_dir(w: World, pos: Vector3, ray: Vector3, depth: int) -> Vector3 {
    let data = crate::trace::spec_collision(w, pos, ray, w.bbox@.len() - 1);
    let tri = w.triangles@[data.3 as int];
    let nd0 = spec_dot(tri.norm, ray);
    let norm = if nd0 <= 0 {
        tri.norm
    } else {
        tri.norm_opp
    };
    let ndot = if nd0 <= 0 {
        nd0
    } else {
        spec_dot(tri.norm_opp, ray)
    };
    let dv = crate::fixed::spec_fadd(ndot, ndot);
    Vector3 {
        x: crate::fixed::spec_fsub(ray.x as int, spec_fmul(dv, norm.x as int)) as i64,
        y: crate::fixed::spec_fsub(ray.y as int, spec_fmul(dv, norm.y as int)) as i64,
        z: crate::fixed::spec_fsub(ray.z as int, spec_fmul(dv, norm.z as int)) as i64,
    }
}

} // verus!
