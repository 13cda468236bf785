use fksray::fixed::{fadd, fdiv, fmul, fsub, isqrt, EPSILON, FX_MAX, HALF_PI_FX, SCALE};
use fksray::geom::{BoundingBox, Camera};
use fksray::trig::{asin_fx, atan2_fx, cos_fx, sin_fx};
use fksray::vecmath::{Color, Vector2, Vector3};
use fksray::world::World;

fn v(x: i64, y: i64, z: i64) -> Vector3 {
    Vector3::new(x, y, z)
}

fn white() -> Color {
    Color::new(SCALE, SCALE, SCALE, SCALE)
}

fn plain_triangle(world: &mut World, p1: Vector3, p2: Vector3, p3: Vector3) {
    world.create_triangle(
        p1,
        p2,
        p3,
        Vector2::new(0, 0),
        Vector2::new(SCALE, 0),
        Vector2::new(0, SCALE),
        white(),
        white(),
        white(),
        [0, 0, 0],
        -1,
    );
}

#[test]
fn fixed_point_basics() {
    assert_eq!(fmul(20_000, 30_000), 60_000);
    assert_eq!(fdiv(10_000, 30_000), 3_333);
    assert_eq!(fdiv(-10_000, 30_000), -3_333);
    assert_eq!(fdiv(10_000, 0), FX_MAX);
    assert_eq!(fdiv(-5, 0), -FX_MAX);
    assert_eq!(fdiv(0, 0), 0);
    assert_eq!(fadd(FX_MAX, FX_MAX), FX_MAX);
    assert_eq!(fsub(-FX_MAX, FX_MAX), -FX_MAX);
    assert_eq!(isqrt(2_500_000_000), 50_000);
}

#[test]
fn vector_operations() {
    let a = v(10_000, 20_000, 30_000);
    let b = v(40_000, 50_000, 60_000);
    assert_eq!(a.dot(&b), 320_000);
    let c = a.cross(&b);
    assert_eq!(c.x, -30_000);
    assert_eq!(c.y, 60_000);
    assert_eq!(c.z, -30_000);
    let s = b.sub(&a);
    assert_eq!((s.x, s.y, s.z), (30_000, 30_000, 30_000));
    let mut n = v(30_000, 40_000, 0);
    let d2 = n.normalize_dis();
    assert_eq!(d2, 250_000);
    assert_eq!((n.x, n.y, n.z), (6_000, 8_000, 0));
    let inv = v(20_000, 0, -5_000).inverse();
    assert_eq!(inv.x, 5_000);
    assert_eq!(inv.y, FX_MAX);
    assert_eq!(inv.z, -20_000);
}

#[test]
fn color_from_hex_literals() {
    let c = Color::new_string("#FF0000");
    assert_eq!((c.r, c.g, c.b, c.a), (SCALE, 0, 0, SCALE));
    let c2 = Color::new_string("#CFAB23FF");
    assert_eq!((c2.r, c2.g, c2.b, c2.a), (8_117, 6_705, 1_372, SCALE));
    let c3 = Color::new_string("#000000");
    assert_eq!((c3.r, c3.g, c3.b, c3.a), (0, 0, 0, SCALE));
}

#[test]
fn color_componentwise_multiply() {
    let mut c = Color::new(5_000, 10_000, 2_000, 10_000);
    c.mul_self(10_000, 5_000, 0, 10_000);
    assert_eq!((c.r, c.g, c.b, c.a), (5_000, 5_000, 0, 10_000));
}

#[test]
fn trig_values() {
    assert_eq!(sin_fx(0), 0);
    let s = sin_fx(HALF_PI_FX);
    assert!((9_990..=10_010).contains(&s), "sin(pi/2) = {s}");
    let c = cos_fx(0);
    assert!((9_990..=10_010).contains(&c), "cos(0) = {c}");
    assert_eq!(atan2_fx(0, 10_000), 0);
    assert_eq!(asin_fx(SCALE), HALF_PI_FX);
    assert_eq!(asin_fx(-SCALE), -HALF_PI_FX);
    assert!(sin_fx(-HALF_PI_FX) <= -9_990);
}

#[test]
fn ray_hits_triangle_through_constructed_point() {
    let mut w = World::new();
    plain_triangle(
        &mut w,
        v(0, 0, 100_000),
        v(100_000, 0, 100_000),
        v(0, 100_000, 100_000),
    );
    let tri = &w.triangles[0];
    // The point with barycentric weights (0.25, 0.25).
    let target = tri.obtain_pos(2_500, 2_500);
    assert_eq!((target.x, target.y, target.z), (25_000, 25_000, 100_000));
    let ori = v(0, 0, 0);
    let (t, u, vv) = tri.intersect(&ori, &target);
    assert!(t > 0, "expected a hit, got t = {t}");
    assert!((t - SCALE).abs() <= 2, "t = {t}");
    assert!((u - 2_500).abs() <= 2, "u = {u}");
    assert!((vv - 2_500).abs() <= 2, "v = {vv}");
}

#[test]
fn ray_straight_at_vertex() {
    let mut w = World::new();
    plain_triangle(
        &mut w,
        v(0, 0, 100_000),
        v(100_000, 0, 100_000),
        v(0, 100_000, 100_000),
    );
    let ori = v(0, 0, 0);
    let dir = v(0, 0, 10_000);
    let (t, u, vv) = w.triangles[0].intersect(&ori, &dir);
    assert_eq!((t, u, vv), (100_000, 0, 0));
    assert!(t >= EPSILON);
}

#[test]
fn parallel_ray_reports_invalid() {
    let mut w = World::new();
    plain_triangle(
        &mut w,
        v(0, 0, 100_000),
        v(100_000, 0, 100_000),
        v(0, 100_000, 100_000),
    );
    let ori = v(0, 0, 0);
    let dir = v(10_000, 0, 0);
    assert_eq!(w.triangles[0].intersect(&ori, &dir), (-1, 0, 0));
    let diag = v(10_000, 10_000, 0);
    assert_eq!(w.triangles[0].intersect(&ori, &diag), (-1, 0, 0));
}

#[test]
fn ray_starting_on_surface_is_guarded() {
    let mut w = World::new();
    plain_triangle(
        &mut w,
        v(0, 0, 100_000),
        v(100_000, 0, 100_000),
        v(0, 100_000, 100_000),
    );
    // A ray whose origin already lies on the triangle: the parametric
    // distance falls below the tolerance and is rejected.
    let ori = v(10_000, 10_000, 100_000);
    let dir = v(0, 0, 10_000);
    assert_eq!(w.triangles[0].intersect(&ori, &dir), (-1, 0, 0));
}

#[test]
fn slab_hit_through_center() {
    let b = BoundingBox {
        m1: v(-10_000, -10_000, -10_000),
        m2: v(10_000, 10_000, 10_000),
        left: -1,
        right: -1,
    };
    // A ray whose origin is the center hits for any direction.
    assert!(b.intersect(&v(0, 0, 0), &v(10_000, 0, 0)));
    assert!(b.intersect(&v(0, 0, 0), &v(0, 0, -10_000)));
    assert!(b.intersect(&v(0, 0, 0), &v(3_333, -7_777, 123)));
    // A ray from outside whose line passes through the center hits too.
    assert!(b.intersect(&v(30_000, 30_000, 30_000), &v(-10_000, -10_000, -10_000)));
}

#[test]
fn slab_miss_for_line_outside_box() {
    let b = BoundingBox {
        m1: v(-10_000, -10_000, -10_000),
        m2: v(10_000, 10_000, 10_000),
        left: -1,
        right: -1,
    };
    assert!(!b.intersect(&v(30_000, 0, 0), &v(0, 10_000, 0)));
    assert!(!b.intersect(&v(0, -50_000, 20_000), &v(10_000, 0, 0)));
}

#[test]
fn normalize_turns_radian_angles_into_directions() {
    let mut straight = v(0, 0, 0);
    straight.normalize();
    assert_eq!((straight.x, straight.y, straight.z), (0, 0, SCALE));
    let mut side = v(HALF_PI_FX, 0, 0);
    side.normalize();
    assert_eq!((side.x, side.y, side.z), (SCALE, 0, 0));
    let mut up = v(0, HALF_PI_FX, 0);
    up.normalize();
    assert_eq!((up.x, up.y), (0, SCALE));
}

#[test]
fn normalize_deg_turns_degree_angles_into_directions() {
    let mut side = v(90 * SCALE, 0, 0);
    side.normalize_deg();
    assert_eq!((side.x, side.y, side.z), (SCALE, 0, 0));
    let mut straight = v(0, 0, 0);
    straight.normalize_deg();
    assert_eq!((straight.x, straight.y, straight.z), (0, 0, SCALE));
}

#[test]
fn plane_splits_into_two_triangles() {
    let mut w = World::new();
    w.create_plane(
        v(0, 0, 100_000),
        v(100_000, 0, 100_000),
        v(0, 100_000, 100_000),
        v(100_000, 100_000, 100_000),
        Vector2::new(0, 0),
        Vector2::new(SCALE, 0),
        Vector2::new(0, SCALE),
        Vector2::new(SCALE, SCALE),
        white(),
        white(),
        white(),
        white(),
        [1_000, 2_000, 3_000, 4_000],
        -1,
    );
    assert_eq!(w.triangles.len(), 2);
    assert_eq!(w.triangles[0].reflect, [1_000, 2_000, 3_000]);
    assert_eq!(w.triangles[1].reflect, [1_000, 3_000, 4_000]);
    assert_eq!(w.triangles[0].p2.x, 100_000);
    assert_eq!(w.triangles[1].p2.y, 100_000);
    assert!(!w.validated);
}

#[test]
fn camera_struct_carries_parameters() {
    let cam = Camera { pos: v(0, 600_000, 0), rot: v(0, -400_000, 0), fov: 1_000_000 };
    assert_eq!(cam.pos.y, 600_000);
    assert_eq!(cam.fov, 1_000_000);
}

#[test]
fn min_max_box_bound_vertices() {
    let mut w = World::new();
    plain_triangle(
        &mut w,
        v(-5_000, 0, 100_000),
        v(100_000, -20_000, 50_000),
        v(0, 100_000, 120_000),
    );
    let lo = w.triangles[0].min_box();
    let hi = w.triangles[0].max_box();
    assert_eq!((lo.x, lo.y, lo.z), (-5_000, -20_000, 50_000));
    assert_eq!((hi.x, hi.y, hi.z), (100_000, 100_000, 120_000));
}
