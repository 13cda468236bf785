//! The tracing engine: nearest-hit search down the bounding-volume
//! hierarchy, and the recursive shader with direct lighting, hard
//! shadows, a coarse glow pass at the primary depth, and mirror
//! reflection up to a fixed depth.

use vstd::prelude::*;

use crate::fixed::{
    cl, fadd, fmul, fsub, fx, sabs, smax, spec_fadd, spec_fdiv, spec_fmul, spec_fsub, trunc_div,
    EPSILON, HALF_PI_FX, SCALE, SHADOW_EPSILON,
};
use crate::geom::{
    bary_ok, spec_intersect, spec_obtain_pos, spec_obtain_reflect, spec_slab, tri_fx, Camera,
    Triangle,
};
use crate::trig::{spec_asin, spec_atan2, spec_cos, spec_normalize_deg, spec_sin, spec_to_rad};
use crate::vecmath::{
    col_fx, spec_col_mul, spec_distance2, spec_dot, spec_normalized, spec_sub, vec_fx, Color,
    Vector3,
};
use crate::world::{spec_world_color, wf_bvh, wf_render, World};

verus! {

/// Glow sampling sweeps angles from -HALF_PI_FX up to this bound...
pub const GLOW_MAX: i64 = 16_000;

/// ...in steps of a quarter radian.
pub const GLOW_STEP: i64 = 2_500;

/// Attenuation of a glow sample before it competes with direct light.
pub const GLOW_GAIN: i64 = 9_000;

/// Reflection recursion stops at this depth.
pub const MAX_DEPTH: usize = 5;

/// The transparent black a missed ray yields.
pub open spec fn czero() -> Color {
    Color { r: 0i64, g: 0i64, b: 0i64, a: 0i64 }
}

/// The no-hit marker of the traversal.
pub open spec fn miss() -> (i64, i64, i64, isize) {
    (-1i64, 0i64, 0i64, 0isize)
}

/// The triangle test a leaf resolves to: (t, u, v) plus the leaf index.
pub open spec fn tri_data(w: World, ori: Vector3, dir: Vector3, k: int) -> (i64, i64, i64, isize) {
    if 0 <= k < w.triangles@.len() {
        let r = spec_intersect(w.triangles@[k], ori, dir);
        (r.0, r.1, r.2, k as isize)
    } else {
        miss()
    }
}

/// Nearest-hit search from node k: leaf children are tested against
/// their triangle, interior children against their box first, and of
/// two valid hits the nearer survives.
pub open spec fn spec_collision(w: World, ori: Vector3, dir: Vector3, k: int) -> (
    i64,
    i64,
    i64,
    isize,
)
    decreases k,
{
    if !(0 <= k < w.bbox@.len()) {
        miss()
    } else {
        let nd = w.bbox@[k];
        let ldata = if nd.left == -1 {
            tri_data(w, ori, dir, k)
        } else if 0 <= (nd.left as int) && (nd.left as int) < k {
            if spec_slab(w.bbox@[nd.left as int], ori, dir) {
                spec_collision(w, ori, dir, nd.left as int)
            } else {
                miss()
            }
        } else {
            miss()
        };
        let rdata = if nd.right == -1 {
            tri_data(w, ori, dir, k)
        } else if 0 <= (nd.right as int) && (nd.right as int) < k {
            if spec_slab(w.bbox@[nd.right as int], ori, dir) {
                spec_collision(w, ori, dir, nd.right as int)
            } else {
                miss()
            }
        } else {
            miss()
        };
        if ldata.0 == -1 {
            rdata
        } else if rdata.0 == -1 {
            ldata
        } else if ldata.0 < rdata.0 {
            ldata
        } else {
            rdata
        }
    }
}

/// A hit of the intersection test carries valid barycentric weights and
/// a parametric distance past the tolerance; all parts stay in range.
pub proof fn lemma_intersect_props(tri: Triangle, ori: Vector3, dir: Vector3)
    ensures
        ({
            let r = spec_intersect(tri, ori, dir);
            fx(r.0 as int) && fx(r.1 as int) && fx(r.2 as int) && (r.0 != -1 ==> bary_ok(
                r.1 as int,
                r.2 as int,
            ) && r.0 >= EPSILON)
        }),
{
}

/// A hit of the traversal names a real triangle and carries the
/// properties of the intersection test.
pub proof fn lemma_collision_props(w: World, ori: Vector3, dir: Vector3, k: int)
    requires
        w.bbox@.len() <= 2_000_000_000,
        w.triangles@.len() <= 1_000_000_000,
    ensures
        ({
            let r = spec_collision(w, ori, dir, k);
            fx(r.0 as int) && fx(r.1 as int) && fx(r.2 as int) && (r.0 != -1 ==> 0 <= (r.3
                as int) && (r.3 as int) < w.triangles@.len() && bary_ok(r.1 as int, r.2 as int)
                && r.0 >= EPSILON)
        }),
    decreases k,
{
    if 0 <= k < w.bbox@.len() {
        let nd = w.bbox@[k];
        if 0 <= k < w.triangles@.len() {
            lemma_intersect_props(w.triangles@[k], ori, dir);
        }
        if nd.left != -1 && 0 <= (nd.left as int) && (nd.left as int) < k {
            lemma_collision_props(w, ori, dir, nd.left as int);
        }
        if nd.right != -1 && 0 <= (nd.right as int) && (nd.right as int) < k {
            lemma_collision_props(w, ori, dir, nd.right as int);
        }
    }
}

/// The color seen along a ray. A miss is transparent black. A hit
/// accumulates direct light per point light with hard shadows, adds the
/// glow pass at the primary depth, modulates the scene color of the hit
/// triangle, and blends in the mirror reflection while the depth cap
/// allows.
pub open spec fn spec_ray_trace(w: World, pos: Vector3, ray: Vector3, depth: int) -> Color
    decreases 5 - depth, 3int, 0int, 0int,
{
    let data = spec_collision(w, pos, ray, w.bbox@.len() - 1);
    if data.0 != -1 {
        let tid = data.3 as int;
        let u = data.1 as int;
        let v = data.2 as int;
        let tri = w.triangles@[tid];
        let pp = spec_obtain_pos(tri, u, v);
        let nd0 = spec_dot(tri.norm, ray);
        let norm = if nd0 <= 0 {
            tri.norm
        } else {
            tri.norm_opp
        };
        let ndot = if nd0 <= 0 {
            nd0
        } else {
            spec_dot(tri.norm_opp, ray)
        };
        let nrx = spec_atan2(norm.x as int, norm.z as int);
        let nry = spec_asin(norm.y as int);
        let lum = spec_lights(w, pp, nrx, nry, depth, 0, czero());
        let base = spec_world_color(w, tid, u, v);
        let color = spec_col_mul(base, lum.r as int, lum.g as int, lum.b as int, lum.a as int);
        let refl = spec_obtain_reflect(tri, u, v);
        if refl != 0 && depth < 5 {
            let dv = spec_fadd(ndot, ndot);
            let rdir = Vector3 {
                x: spec_fsub(ray.x as int, spec_fmul(dv, norm.x as int)) as i64,
                y: spec_fsub(ray.y as int, spec_fmul(dv, norm.y as int)) as i64,
                z: spec_fsub(ray.z as int, spec_fmul(dv, norm.z as int)) as i64,
            };
            let rc = spec_ray_trace(w, pp, rdir, depth + 1);
            let ro = spec_fsub(SCALE as int, refl);
            Color {
                r: spec_fadd(spec_fmul(ro, color.r as int), spec_fmul(refl, rc.r as int)) as i64,
                g: spec_fadd(spec_fmul(ro, color.g as int), spec_fmul(refl, rc.g as int)) as i64,
                b: spec_fadd(spec_fmul(ro, color.b as int), spec_fmul(refl, rc.b as int)) as i64,
                a: spec_fadd(spec_fmul(ro, color.a as int), spec_fmul(refl, rc.a as int)) as i64,
            }
        } else {
            color
        }
    } else {
        czero()
    }
}

/// Fold the point lights from index i onward into the accumulated
/// illumination: each unoccluded light adds its inverse-square
/// contribution, and at the primary depth each light is followed by the
/// glow sweep.
pub open spec fn spec_lights(
    w: World,
    pp: Vector3,
    nrx: int,
    nry: int,
    depth: int,
    i: int,
    lum: Color,
) -> Color
    decreases 5 - depth, 2int, w.point_lights@.len() - i, 0int,
{
    if i < 0 || i >= w.point_lights@.len() {
        lum
    } else {
        let pl = w.point_lights@[i];
        let ldis0 = spec_sub(pp, pl.pos);
        let d2 = spec_distance2(ldis0);
        let ldis = spec_normalized(ldis0);
        let sh = spec_collision(w, pl.pos, ldis, w.bbox@.len() - 1);
        let occ = sh.0 != -1 && spec_fmul(sh.0 as int, sh.0 as int) < d2 - SHADOW_EPSILON;
        let lum1 = if !occ {
            let inst = spec_fdiv(pl.lumen as int, sabs(d2));
            Color {
                r: spec_fadd(lum.r as int, spec_fmul(inst, pl.color.r as int)) as i64,
                g: spec_fadd(lum.g as int, spec_fmul(inst, pl.color.g as int)) as i64,
                b: spec_fadd(lum.b as int, spec_fmul(inst, pl.color.b as int)) as i64,
                a: spec_fadd(lum.a as int, spec_fmul(inst, pl.color.a as int)) as i64,
            }
        } else {
            lum
        };
        let lum2 = if depth < 1 {
            spec_glow_rows(w, pp, nrx, nry, depth, -HALF_PI_FX as int, lum1)
        } else {
            lum1
        };
        spec_lights(w, pp, nrx, nry, depth, i + 1, lum2)
    }
}

/// The outer glow sweep over the first rotation angle.
pub open spec fn spec_glow_rows(
    w: World,
    pp: Vector3,
    nrx: int,
    nry: int,
    depth: int,
    rx: int,
    lum: Color,
) -> Color
    decreases 5 - depth, 1int, GLOW_MAX + GLOW_STEP - rx, 0int,
{
    if rx > GLOW_MAX {
        lum
    } else {
        let lum2 = spec_glow_cells(w, pp, nrx, nry, depth, rx, -HALF_PI_FX as int, lum);
        spec_glow_rows(w, pp, nrx, nry, depth, rx + GLOW_STEP, lum2)
    }
}

/// The inner glow sweep: each sample shades a rotated direction one
/// depth deeper and competes with the accumulated illumination through
/// a per-channel maximum after attenuation.
pub open spec fn spec_glow_cells(
    w: World,
    pp: Vector3,
    nrx: int,
    nry: int,
    depth: int,
    rx: int,
    ry: int,
    lum: Color,
) -> Color
    decreases 5 - depth, 0int, GLOW_MAX + GLOW_STEP - ry, 0int,
{
    if ry > GLOW_MAX {
        lum
    } else {
        let dir0 = Vector3 { x: cl(nrx + rx) as i64, y: cl(nry + ry) as i64, z: 0i64 };
        let dir = crate::trig::spec_normalize_sph(dir0);
        let c = if depth < 5 {
            spec_ray_trace(w, pp, dir, depth + 1)
        } else {
            czero()
        };
        let lum2 = Color {
            r: smax(lum.r as int, spec_fmul(GLOW_GAIN as int, c.r as int)) as i64,
            g: smax(lum.g as int, spec_fmul(GLOW_GAIN as int, c.g as int)) as i64,
            b: smax(lum.b as int, spec_fmul(GLOW_GAIN as int, c.b as int)) as i64,
            a: smax(lum.a as int, spec_fmul(GLOW_GAIN as int, c.a as int)) as i64,
        };
        spec_glow_cells(w, pp, nrx, nry, depth, rx, ry + GLOW_STEP, lum2)
    }
}

/// Trace a ray through the scene and return the color it sees.
pub fn ray_trace(pos: &Vector3, ray: &Vector3, world: &World, reflect_times: usize) -> (c: Color)
    requires
        wf_render(*world),
        vec_fx(*pos),
        vec_fx(*ray),
    ensures
        c == spec_ray_trace(*world, *pos, *ray, reflect_times as int),
        col_fx(c),
    decreases 5int - reflect_times,
{
    let root = world.bbox.len() - 1;
    let data = triangle_collision(pos, ray, world, root);
    proof {
        lemma_collision_props(*world, *pos, *ray, root as int);
    }
    if data.0 != -1 {
        let tid = data.3 as usize;
        let triangle = world.triangles[tid];
        let point_pos = triangle.obtain_pos(data.1, data.2);
        let mut norm_dot = triangle.norm.dot(ray);
        let norm = if norm_dot <= 0 {
            triangle.norm
        } else {
            norm_dot = triangle.norm_opp.dot(ray);
            triangle.norm_opp
        };
        let norm_rot_x = crate::trig::atan2_fx(norm.x, norm.z);
        let norm_rot_y = crate::trig::asin_fx(norm.y);
        let ghost nrx = norm_rot_x as int;
        let ghost nry = norm_rot_y as int;
        let ghost depth = reflect_times as int;
        let mut lum = Color::new_zero();
        let mut li: usize = 0;
        while li < world.point_lights.len()
            invariant
                wf_render(*world),
                vec_fx(*pos),
                vec_fx(*ray),
                vec_fx(point_pos),
                col_fx(lum),
                li <= world.point_lights@.len(),
                nrx == norm_rot_x as int,
                nry == norm_rot_y as int,
                depth == reflect_times as int,
                -48_000 <= norm_rot_x <= 48_000,
                -48_000 <= norm_rot_y <= 48_000,
                spec_lights(*world, point_pos, nrx, nry, depth, li as int, lum) == spec_lights(
                    *world,
                    point_pos,
                    nrx,
                    nry,
                    depth,
                    0,
                    czero(),
                ),
            decreases world.point_lights@.len() - li,
        {
            let point = world.point_lights[li];
            let mut light_dis = point_pos.sub(&point.pos);
            let dis2 = light_dis.normalize_dis();
            let sh = triangle_collision(&point.pos, &light_dis, world, world.bbox.len() - 1);
            proof {
                lemma_collision_props(*world, point.pos, light_dis, world.bbox@.len() - 1);
            }
            let ghost lum0 = lum;
            if !(sh.0 != -1 && fmul(sh.0, sh.0) < dis2 - SHADOW_EPSILON) {
                let inst = crate::fixed::fdiv(point.lumen, crate::fixed::abs_i64(dis2));
                lum.r = fadd(lum.r, fmul(inst, point.color.r));
                lum.g = fadd(lum.g, fmul(inst, point.color.g));
                lum.b = fadd(lum.b, fmul(inst, point.color.b));
                lum.a = fadd(lum.a, fmul(inst, point.color.a));
            }
            let ghost lum1 = lum;
            if reflect_times < 1 {
                let mut rot_x: i64 = -HALF_PI_FX;
                while rot_x <= GLOW_MAX
                    invariant
                        wf_render(*world),
                        vec_fx(point_pos),
                        col_fx(lum),
                        reflect_times < 1,
                        depth == reflect_times as int,
                        nrx == norm_rot_x as int,
                        nry == norm_rot_y as int,
                        -48_000 <= norm_rot_x <= 48_000,
                        -48_000 <= norm_rot_y <= 48_000,
                        -HALF_PI_FX <= rot_x <= GLOW_MAX + GLOW_STEP,
                        spec_glow_rows(*world, point_pos, nrx, nry, depth, rot_x as int, lum)
                            == spec_glow_rows(
                            *world,
                            point_pos,
                            nrx,
                            nry,
                            depth,
                            -HALF_PI_FX as int,
                            lum1,
                        ),
                    decreases GLOW_MAX + GLOW_STEP - rot_x,
                {
                    let ghost lum_row = lum;
                    let mut rot_y: i64 = -HALF_PI_FX;
                    while rot_y <= GLOW_MAX
                        invariant
                            wf_render(*world),
                            vec_fx(point_pos),
                            col_fx(lum),
                            reflect_times < 1,
                            depth == reflect_times as int,
                            nrx == norm_rot_x as int,
                            nry == norm_rot_y as int,
                            -48_000 <= norm_rot_x <= 48_000,
                            -48_000 <= norm_rot_y <= 48_000,
                            -HALF_PI_FX <= rot_x <= GLOW_MAX,
                            -HALF_PI_FX <= rot_y <= GLOW_MAX + GLOW_STEP,
                            spec_glow_cells(
                                *world,
                                point_pos,
                                nrx,
                                nry,
                                depth,
                                rot_x as int,
                                rot_y as int,
                                lum,
                            ) == spec_glow_cells(
                                *world,
                                point_pos,
                                nrx,
                                nry,
                                depth,
                                rot_x as int,
                                -HALF_PI_FX as int,
                                lum_row,
                            ),
                        decreases GLOW_MAX + GLOW_STEP - rot_y,
                    {
                        let mut direction = Vector3::new(
                            fadd(norm_rot_x, rot_x),
                            fadd(norm_rot_y, rot_y),
                            0,
                        );
                        direction.normalize();
                        let reflect_color = ray_trace(
                            &point_pos,
                            &direction,
                            world,
                            reflect_times + 1,
                        );
                        lum.r = crate::fixed::max_i64(lum.r, fmul(GLOW_GAIN, reflect_color.r));
                        lum.g = crate::fixed::max_i64(lum.g, fmul(GLOW_GAIN, reflect_color.g));
                        lum.b = crate::fixed::max_i64(lum.b, fmul(GLOW_GAIN, reflect_color.b));
                        lum.a = crate::fixed::max_i64(lum.a, fmul(GLOW_GAIN, reflect_color.a));
                        rot_y = rot_y + GLOW_STEP;
                    }
                    rot_x = rot_x + GLOW_STEP;
                }
            }
            li = li + 1;
        }
        let mut color = world.obtain_color(tid, data.1, data.2);
        color.mul_self(lum.r, lum.g, lum.b, lum.a);
        let reflection = triangle.obtain_reflect(data.1, data.2);
        if reflection != 0 {
            if reflect_times < MAX_DEPTH {
                let dot_val = fadd(norm_dot, norm_dot);
                let reflection_dir = Vector3::new(
                    fsub(ray.x, fmul(dot_val, norm.x)),
                    fsub(ray.y, fmul(dot_val, norm.y)),
                    fsub(ray.z, fmul(dot_val, norm.z)),
                );
                let reflect_color = ray_trace(&point_pos, &reflection_dir, world, reflect_times
                    + 1);
                let reflect_opp = fsub(SCALE, reflection);
                color.r = fadd(fmul(reflect_opp, color.r), fmul(reflection, reflect_color.r));
                color.g = fadd(fmul(reflect_opp, color.g), fmul(reflection, reflect_color.g));
                color.b = fadd(fmul(reflect_opp, color.b), fmul(reflection, reflect_color.b));
                color.a = fadd(fmul(reflect_opp, color.a), fmul(reflection, reflect_color.a));
            }
        }
        return color;
    }
    Color::new_zero()
}

/// Nearest-hit search from node boxi, usually the root at the end of
/// the node array. Returns (t, u, v, triangle index), t == -1 on a miss.
pub fn triangle_collision(origin: &Vector3, norm: &Vector3, world: &World, boxi: usize) -> (r: (
    i64,
    i64,
    i64,
    isize,
))
    requires
        wf_bvh(*world),
        forall|i: int| 0 <= i < world.triangles@.len() ==> tri_fx(#[trigger] world.triangles@[i]),
        vec_fx(*origin),
        vec_fx(*norm),
        boxi < world.bbox@.len(),
    ensures
        r == spec_collision(*world, *origin, *norm, boxi as int),
    decreases boxi,
{
    proof {
        assert(crate::bvh::bvh_node_wf(world.bbox@, world.triangles@.len() as int, boxi as int));
    }
    let bbox = &world.bbox[boxi];
    let left = bbox.left;
    let right = bbox.right;
    let ldata: (i64, i64, i64, isize) = if left == -1 {
        let tri = &world.triangles[boxi];
        let tuv = tri.intersect(origin, norm);
        (tuv.0, tuv.1, tuv.2, boxi as isize)
    } else {
        let lu = left as usize;
        let lbbox = &world.bbox[lu];
        if lbbox.intersect(origin, norm) {
            triangle_collision(origin, norm, world, lu)
        } else {
            (-1i64, 0i64, 0i64, 0isize)
        }
    };
    let rdata: (i64, i64, i64, isize) = if right == -1 {
        let tri = &world.triangles[boxi];
        let tuv = tri.intersect(origin, norm);
        (tuv.0, tuv.1, tuv.2, boxi as isize)
    } else {
        let ru = right as usize;
        let rbbox = &world.bbox[ru];
        if rbbox.intersect(origin, norm) {
            triangle_collision(origin, norm, world, ru)
        } else {
            (-1i64, 0i64, 0i64, 0isize)
        }
    };
    if ldata.0 == -1 {
        return rdata;
    }
    if rdata.0 == -1 {
        return ldata;
    }
    if ldata.0 < rdata.0 {
        ldata
    } else {
        rdata
    }
}

/// The camera ray of a pixel: screen offset to normalized device
/// coordinates, camera roll, field-of-view scaling and yaw/pitch offset,
/// then degrees to a unit direction.
pub open spec fn spec_render_ray(cam: Camera, x: int, y: int) -> Vector3 {
    let nx = trunc_div((x - 256) * SCALE - 5000, 256);
    let ny = trunc_div((256 - y) * SCALE - 5000, 256);
    let zr = spec_to_rad(cam.rot.z as int);
    let sz = spec_sin(zr);
    let cz = spec_cos(zr);
    let rx = spec_fsub(spec_fmul(nx, cz), spec_fmul(ny, sz));
    let ry = spec_fadd(spec_fmul(nx, sz), spec_fmul(ny, cz));
    let fov = spec_fmul(5000, cam.fov as int);
    let rx2 = spec_fadd(spec_fmul(rx, fov), cam.rot.x as int);
    let ry2 = spec_fadd(spec_fmul(ry, fov), cam.rot.y as int);
    spec_normalize_deg(Vector3 { x: rx2 as i64, y: ry2 as i64, z: 0i64 })
}

/// The color of pixel (x, y): the camera ray traced at depth zero.
pub open spec fn spec_render_pixel(w: World, cam: Camera, x: int, y: int) -> Color {
    spec_ray_trace(w, cam.pos, spec_render_ray(cam, x, y), 0)
}

/// Render one pixel of the raster.
pub fn render_pixel(world: &World, cam: &Camera, x: i32, y: i32) -> (c: Color)
    requires
        wf_render(*world),
        crate::geom::cam_fx(*cam),
    ensures
        c == spec_render_pixel(*world, *cam, x as int, y as int),
        col_fx(c),
{
    let xi: i64 = (x as i64) - 256;
    let yi: i64 = 256 - (y as i64);
    let numx: i64 = xi * SCALE - 5000;
    let numy: i64 = yi * SCALE - 5000;
    proof {
        crate::fixed::lemma_tdiv_abs_le(numx as int, 256);
        crate::fixed::lemma_tdiv_abs_le(numy as int, 256);
    }
    let nx: i64 = crate::fixed::tdiv(numx as i128, 256) as i64;
    let ny: i64 = crate::fixed::tdiv(numy as i128, 256) as i64;
    let zr = crate::trig::to_rad(cam.rot.z);
    let sz = crate::trig::sin_fx(zr);
    let cz = crate::trig::cos_fx(zr);
    let rx = fsub(fmul(nx, cz), fmul(ny, sz));
    let ry = fadd(fmul(nx, sz), fmul(ny, cz));
    let fov = fmul(5000, cam.fov);
    let mut ray = Vector3::new(
        fadd(fmul(rx, fov), cam.rot.x),
        fadd(fmul(ry, fov), cam.rot.y),
        0,
    );
    ray.normalize_deg();
    ray_trace(&cam.pos, &ray, world, 0)
}

/// A fixed-point channel as an 8-bit value: scaled by 255, truncated,
/// and saturated at the byte range.
pub open spec fn spec_channel_byte(v: int) -> int {
    let q = trunc_div(v * 255, SCALE as int);
    if q < 0 {
        0
    } else if q > 255 {
        255
    } else {
        q
    }
}

/// The three raster bytes of a color.
pub fn color_bytes(c: &Color) -> (r: (u8, u8, u8))
    requires
        col_fx(*c),
    ensures
        r.0 as int == spec_channel_byte(c.r as int),
        r.1 as int == spec_channel_byte(c.g as int),
        r.2 as int == spec_channel_byte(c.b as int),
{
    (channel_byte(c.r), channel_byte(c.g), channel_byte(c.b))
}

/// One fixed-point channel as a raster byte.
fn channel_byte(v: i64) -> (r: u8)
    requires
        fx(v as int),
    ensures
        r as int == spec_channel_byte(v as int),
{
    let q = crate::fixed::tdiv(crate::fixed::prod(v, 255), SCALE as i128);
    if q < 0 {
        0
    } else if q > 255 {
        255
    } else {
        q as u8
    }
}

} // verus!
