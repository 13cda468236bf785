use fksray::fixed::SCALE;
use fksray::geom::Camera;
use fksray::trace::{color_bytes, ray_trace, render_pixel};
use fksray::vecmath::{Color, Vector2, Vector3};
use fksray::world::World;

fn v(x: i64, y: i64, z: i64) -> Vector3 {
    Vector3::new(x, y, z)
}

fn white() -> Color {
    Color::new(SCALE, SCALE, SCALE, SCALE)
}

fn add_triangle(world: &mut World, p1: Vector3, p2: Vector3, p3: Vector3, reflect: i64) {
    world.create_triangle(
        p1,
        p2,
        p3,
        Vector2::new(0, 0),
        Vector2::new(SCALE, 0),
        Vector2::new(0, SCALE),
        white(),
        white(),
        white(),
        [reflect, reflect, reflect],
        -1,
    );
}

// A large triangle in the plane z = 10, facing the origin.
fn facing_triangle(world: &mut World) {
    add_triangle(
        world,
        v(-500_000, -500_000, 100_000),
        v(500_000, -500_000, 100_000),
        v(-500_000, 500_000, 100_000),
        0,
    );
}

fn walk_leaves(world: &World, k: usize, out: &mut Vec<usize>) {
    let node = &world.bbox[k];
    if node.left == -1 {
        out.push(k);
    } else {
        walk_leaves(world, node.left as usize, out);
        walk_leaves(world, node.right as usize, out);
    }
}

fn assert_bvh_complete(world: &World) {
    let n = world.triangles.len();
    assert_eq!(world.bbox.len(), 2 * n - 1);
    let mut leaves = Vec::new();
    walk_leaves(world, world.bbox.len() - 1, &mut leaves);
    leaves.sort_unstable();
    let expected: Vec<usize> = (0..n).collect();
    assert_eq!(leaves, expected, "each triangle leaf reachable exactly once");
}

fn assert_bvh_boxes(world: &World) {
    for node in world.bbox.iter() {
        assert!(node.m1.x <= node.m2.x && node.m1.y <= node.m2.y && node.m1.z <= node.m2.z);
        if node.left != -1 {
            for child in [node.left as usize, node.right as usize] {
                let c = &world.bbox[child];
                assert!(node.m1.x <= c.m1.x && node.m1.y <= c.m1.y && node.m1.z <= c.m1.z);
                assert!(c.m2.x <= node.m2.x && c.m2.y <= node.m2.y && c.m2.z <= node.m2.z);
            }
        }
    }
}

#[test]
fn bvh_build_small_counts() {
    for n in 1..=9usize {
        let mut w = World::new();
        for i in 0..n {
            let off = (i as i64) * 30_000;
            add_triangle(
                &mut w,
                v(off, 0, 100_000),
                v(off + 20_000, 0, 100_000),
                v(off, 20_000, 100_000),
                0,
            );
        }
        w.compute();
        assert!(w.validated);
        assert_bvh_complete(&w);
        assert_bvh_boxes(&w);
        for i in 1..w.triangles.len() {
            assert!(w.triangles[i - 1].mid <= w.triangles[i].mid, "sorted by key, n = {n}");
        }
    }
}

#[test]
fn bvh_sorts_triangles_by_key() {
    let mut w = World::new();
    add_triangle(&mut w, v(900_000, 0, 100_000), v(920_000, 0, 100_000), v(900_000, 20_000, 100_000), 0);
    add_triangle(&mut w, v(-900_000, 0, 100_000), v(-880_000, 0, 100_000), v(-900_000, 20_000, 100_000), 0);
    add_triangle(&mut w, v(0, 0, 100_000), v(20_000, 0, 100_000), v(0, 20_000, 100_000), 0);
    assert!(!w.validated);
    w.compute();
    assert!(w.triangles[0].mid < w.triangles[1].mid);
    assert!(w.triangles[1].mid < w.triangles[2].mid);
    assert_bvh_complete(&w);
}

#[test]
fn unlit_scene_gives_black() {
    let mut w = World::new();
    facing_triangle(&mut w);
    w.compute();
    let c = ray_trace(&v(0, 0, 0), &v(0, 0, 10_000), &w, 0);
    assert_eq!((c.r, c.g, c.b, c.a), (0, 0, 0, 0));
}

#[test]
fn obtain_color_gated_by_lights() {
    let mut w = World::new();
    facing_triangle(&mut w);
    let c = w.obtain_color(0, 1_000, 1_000);
    assert_eq!((c.r, c.g, c.b, c.a), (0, 0, 0, 0));
    w.create_point_light(v(0, 0, 0), white(), 150_000_000);
    let c2 = w.obtain_color(0, 1_000, 1_000);
    assert_eq!((c2.r, c2.g, c2.b, c2.a), (SCALE, SCALE, SCALE, SCALE));
}

#[test]
fn illumination_scales_inverse_square() {
    // Light at distance 10 in front of the triangle...
    let mut near = World::new();
    facing_triangle(&mut near);
    near.create_point_light(v(0, 0, 0), white(), 150_000_000);
    near.compute();
    // Depth 1 skips the glow pass, leaving pure direct lighting.
    let cn = ray_trace(&v(0, 0, -50_000), &v(0, 0, 10_000), &near, 1);

    // ...and the same light moved directly away, to distance 20.
    let mut far = World::new();
    facing_triangle(&mut far);
    far.create_point_light(v(0, 0, -100_000), white(), 150_000_000);
    far.compute();
    let cf = ray_trace(&v(0, 0, -50_000), &v(0, 0, 10_000), &far, 1);

    assert_eq!(cn.r, 1_500_000);
    assert_eq!(cf.r, 375_000);
    assert_eq!(cn.r, 4 * cf.r);
}

#[test]
fn occluder_blocks_light_and_removal_restores_it() {
    let mut open = World::new();
    facing_triangle(&mut open);
    open.create_point_light(v(0, 0, 0), white(), 150_000_000);
    open.compute();
    let lit = ray_trace(&v(0, 0, 150_000), &v(0, 0, -10_000), &open, 1);
    assert!(lit.r > 0, "unoccluded target is lit, got {}", lit.r);

    let mut blocked = World::new();
    facing_triangle(&mut blocked);
    // A small opaque triangle at z = 5, between the light and the target.
    add_triangle(
        &mut blocked,
        v(-30_000, -10_000, 50_000),
        v(30_000, -10_000, 50_000),
        v(-30_000, 30_000, 50_000),
        0,
    );
    blocked.create_point_light(v(0, 0, 0), white(), 150_000_000);
    blocked.compute();
    let dark = ray_trace(&v(0, 0, 150_000), &v(0, 0, -10_000), &blocked, 1);
    assert_eq!(dark.r, 0, "occluded target is unlit");
}

#[test]
fn mirrored_box_terminates_at_depth_cap() {
    let mut w = World::new();
    let s = 100_000;
    let r = SCALE;
    // Six fully mirrored quads closing a box around the origin.
    let refl = [r, r, r, r];
    let q = |w: &mut World, a: Vector3, b: Vector3, c: Vector3, d: Vector3| {
        w.create_plane(
            a,
            b,
            c,
            d,
            Vector2::new(0, 0),
            Vector2::new(SCALE, 0),
            Vector2::new(0, SCALE),
            Vector2::new(SCALE, SCALE),
            Color::new(0, 0, 0, 0),
            Color::new(0, 0, 0, 0),
            Color::new(0, 0, 0, 0),
            Color::new(0, 0, 0, 0),
            refl,
            -1,
        );
    };
    q(&mut w, v(-s, -s, -s), v(s, -s, -s), v(-s, s, -s), v(s, s, -s));
    q(&mut w, v(-s, -s, s), v(s, -s, s), v(-s, s, s), v(s, s, s));
    q(&mut w, v(-s, -s, -s), v(-s, s, -s), v(-s, -s, s), v(-s, s, s));
    q(&mut w, v(s, -s, -s), v(s, s, -s), v(s, -s, s), v(s, s, s));
    q(&mut w, v(-s, -s, -s), v(s, -s, -s), v(-s, -s, s), v(s, -s, s));
    q(&mut w, v(-s, s, -s), v(s, s, -s), v(-s, s, s), v(s, s, s));
    w.create_point_light(v(0, 0, 0), white(), 150_000_000);
    w.compute();
    let c = ray_trace(&v(0, 0, 0), &v(3_000, 5_000, 8_000), &w, 0);
    // Reaching this point at all shows the depth cap ends the recursion.
    assert!(c.a >= 0);
}

#[test]
fn shading_is_deterministic() {
    let mut w = World::new();
    facing_triangle(&mut w);
    add_triangle(
        &mut w,
        v(-200_000, -200_000, 160_000),
        v(200_000, -200_000, 160_000),
        v(-200_000, 200_000, 160_000),
        5_000,
    );
    w.create_point_light(v(0, 30_000, 0), white(), 150_000_000);
    w.create_point_light(v(10_000, -30_000, 20_000), Color::new_string("#00FF00"), 70_000_000);
    w.compute();
    let cam = Camera { pos: v(0, 0, -50_000), rot: v(0, 0, 0), fov: 900_000 };
    let a = render_pixel(&w, &cam, 256, 256);
    let b = render_pixel(&w, &cam, 256, 256);
    assert_eq!((a.r, a.g, a.b, a.a), (b.r, b.g, b.b, b.a));
}

#[test]
fn textured_color_modulates_base() {
    let mut w = World::new();
    w.create_point_light(v(0, 0, 0), white(), 150_000_000);
    let id = w.create_texture(1, 1, vec![128, 64, 32]);
    assert_eq!(id, 0);
    w.create_triangle(
        v(-500_000, -500_000, 100_000),
        v(500_000, -500_000, 100_000),
        v(-500_000, 500_000, 100_000),
        Vector2::new(0, 0),
        Vector2::new(SCALE, 0),
        Vector2::new(0, SCALE),
        white(),
        white(),
        white(),
        [0, 0, 0],
        id,
    );
    let c = w.obtain_color(0, 1_000, 1_000);
    assert_eq!(c.r, 128 * SCALE / 255);
    assert_eq!(c.g, 64 * SCALE / 255);
    assert_eq!(c.b, 32 * SCALE / 255);
    assert_eq!(c.a, SCALE);
}

#[test]
fn removed_texture_keeps_other_ids() {
    let mut w = World::new();
    let a = w.create_texture(1, 1, vec![1, 2, 3]);
    let b = w.create_texture(1, 1, vec![4, 5, 6]);
    assert_eq!((a, b), (0, 1));
    w.remove_texture(0);
    assert!(w.textures[0].is_none());
    assert!(w.textures[1].is_some());
}

#[test]
fn color_bytes_saturate() {
    let c = Color::new(SCALE, 5_000, -100, SCALE);
    let (r, g, b) = color_bytes(&c);
    assert_eq!((r, g, b), (255, 127, 0));
    let hot = Color::new(25_000, 0, 0, SCALE);
    assert_eq!(color_bytes(&hot).0, 255);
}

#[test]
fn render_pixel_sees_lit_triangle() {
    let mut w = World::new();
    facing_triangle(&mut w);
    w.create_point_light(v(0, 0, 0), white(), 150_000_000);
    w.compute();
    // With a zero field of view every pixel ray runs straight down the
    // camera axis, keeping the arithmetic exact.
    let cam = Camera { pos: v(0, 0, 0), rot: v(0, 0, 0), fov: 0 };
    let c = render_pixel(&w, &cam, 256, 256);
    assert_eq!(c.r, 1_500_000);
}
