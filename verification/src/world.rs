//! The scene: triangles, point lights, decoded textures and the derived
//! bounding-volume hierarchy, with a validity flag that geometry edits
//! clear and the builder sets.

use vstd::prelude::*;

use crate::bvh::{
    all_tri_ids, box_min_max, bvh_boxes_wf, bvh_node_wf, forest_leaves, leaves_of,
    lemma_forest_of_leaves, lemma_forest_push, lemma_forest_split, lemma_leaves_push,
};
use vstd::multiset::Multiset;
use crate::fixed::{
    fadd, fmul, fx, lemma_tdiv_abs_le, smax, smin, spec_fadd, spec_fmul, spec_fsub, tdiv,
    trunc_div, SCALE,
};
use crate::geom::{
    bary_ok, box_fx, light_fx, spec_max_box, spec_min_box, spec_obtain_color, spec_obtain_uv,
    tri_fx, BoundingBox, PointLight, Triangle,
};
use crate::vecmath::{
    col_fx, spec_col_mul, spec_cross, spec_normalized, spec_sub, v2_fx, vec_fx, Color, Vector2,
    Vector3,
};

verus! {

/// A decoded RGB image: three bytes per pixel, rows top to bottom.
pub struct Texture {
    pub width: u32,
    pub height: u32,
    pub pixels: Vec<u8>,
}

pub open spec fn tex_wf(t: Texture) -> bool {
    t.width >= 1 && t.height >= 1 && t.pixels@.len() == 3 * (t.width as int) * (t.height as int)
}

/// The scene.
pub struct World {
    pub triangles: Vec<Triangle>,
    pub bbox: Vec<BoundingBox>,
    pub textures: Vec<Option<Texture>>,
    pub point_lights: Vec<PointLight>,
    pub validated: bool,
}

/// Every stored value lies in the fixed-point range and every texture is
/// well formed.
pub open spec fn wf_world(w: World) -> bool {
    &&& forall|i: int| 0 <= i < w.triangles@.len() ==> tri_fx(#[trigger] w.triangles@[i])
    &&& forall|i: int| 0 <= i < w.point_lights@.len() ==> light_fx(#[trigger] w.point_lights@[i])
    &&& forall|i: int|
        0 <= i < w.textures@.len() ==> ((#[trigger] w.textures@[i]) is Some ==> tex_wf(
            w.textures@[i].unwrap(),
        ))
}

/// The texture id of triangle i is unset or names a live texture.
pub open spec fn tri_tex_ok(w: World, i: int) -> bool {
    let t = w.triangles@[i].tex;
    t == -1 || (0 <= t && (t as int) < w.textures@.len() && w.textures@[t as int] is Some)
}

/// A well shaped node array: every node a leaf or pointing backwards,
/// every box in range, sizes within the index range of the machine.
pub open spec fn wf_bvh(w: World) -> bool {
    &&& w.triangles@.len() <= 1_000_000_000
    &&& w.bbox@.len() <= 2_000_000_000
    &&& forall|k: int|
        0 <= k < w.bbox@.len() ==> bvh_node_wf(w.bbox@, w.triangles@.len() as int, k)
    &&& forall|k: int| 0 <= k < w.bbox@.len() ==> box_fx(#[trigger] w.bbox@[k])
}

/// A scene ready for geometry queries: validated, nonempty, with a well
/// shaped node array and every triangle's texture id live.
pub open spec fn wf_render(w: World) -> bool {
    &&& wf_world(w)
    &&& w.validated
    &&& w.triangles@.len() >= 1
    &&& w.bbox@.len() >= 1
    &&& wf_bvh(w)
    &&& forall|i: int| 0 <= i < w.triangles@.len() ==> tri_tex_ok(w, i)
}

/// The positional sort key: the summed coordinates of the center of the
/// triangle's bounding box.
pub open spec fn spec_mid(p1: Vector3, p2: Vector3, p3: Vector3) -> int {
    let mx = spec_fmul(5000, spec_fadd(smax(p1.x as int, smax(p2.x as int, p3.x as int)), smin(
        p1.x as int,
        smin(p2.x as int, p3.x as int),
    )));
    let my = spec_fmul(5000, spec_fadd(smax(p1.y as int, smax(p2.y as int, p3.y as int)), smin(
        p1.y as int,
        smin(p2.y as int, p3.y as int),
    )));
    let mz = spec_fmul(5000, spec_fadd(smax(p1.z as int, smax(p2.z as int, p3.z as int)), smin(
        p1.z as int,
        smin(p2.z as int, p3.z as int),
    )));
    spec_fadd(spec_fadd(mx, my), mz)
}

/// The triangle a scene edit inserts: precomputed edges, unit normal and
/// its negation, and the positional key.
pub open spec fn spec_make_tri(
    p1: Vector3,
    p2: Vector3,
    p3: Vector3,
    uv1: Vector2,
    uv2: Vector2,
    uv3: Vector2,
    c1: Color,
    c2: Color,
    c3: Color,
    reflect: [i64; 3],
    tex: isize,
) -> Triangle {
    let e1 = spec_sub(p2, p1);
    let e2 = spec_sub(p3, p1);
    let norm = spec_normalized(spec_cross(e1, e2));
    Triangle {
        p1,
        p2,
        p3,
        e1,
        e2,
        uv1,
        uv2,
        uv3,
        c1,
        c2,
        c3,
        reflect,
        mid: spec_mid(p1, p2, p3) as i64,
        norm,
        norm_opp: Vector3 { x: (-norm.x as int) as i64, y: (-norm.y as int) as i64, z: (-norm.z
            as int) as i64 },
        tex,
    }
}

/// One pixel byte scaled so that 255 is 1.0.
pub open spec fn spec_tex_scale(p: int) -> int {
    trunc_div(p * SCALE, 255)
}

/// A fixed-point pixel coordinate: truncated, saturated at the unsigned
/// bounds, then wrapped by the image extent.
pub open spec fn spec_tex_coord(v: int, m: int) -> int
    recommends
        m >= 1,
{
    let i = trunc_div(v, SCALE as int);
    let s = if i < 0 {
        0
    } else if i > u32::MAX {
        u32::MAX as int
    } else {
        i
    };
    s % m
}

/// The color the scene gives triangle i at barycentric (u, v): zero with
/// no lights in the scene, else the interpolated vertex color, modulated
/// by the triangle's texture sample when one is set (texture coordinates
/// flipped in v and wrapped by the image extent).
pub open spec fn spec_world_color(w: World, i: int, u: int, v: int) -> Color {
    if w.point_lights@.len() == 0 {
        Color { r: 0i64, g: 0i64, b: 0i64, a: 0i64 }
    } else {
        let tri = w.triangles@[i];
        let base = spec_obtain_color(tri, u, v);
        if tri.tex != -1 {
            let uvp = spec_obtain_uv(tri, u, v);
            let tex = w.textures@[tri.tex as int].unwrap();
            let px = spec_tex_coord(uvp.x as int * tex.width as int, tex.width as int);
            let py = spec_tex_coord(
                spec_fsub(SCALE as int, uvp.y as int) * tex.height as int,
                tex.height as int,
            );
            let idx = 3 * (py * tex.width as int + px);
            spec_col_mul(
                base,
                spec_tex_scale(tex.pixels@[idx] as int),
                spec_tex_scale(tex.pixels@[idx + 1] as int),
                spec_tex_scale(tex.pixels@[idx + 2] as int),
                SCALE as int,
            )
        } else {
            base
        }
    }
}

/// Triangles ordered by their positional key.
pub open spec fn sorted_by_mid(s: Seq<Triangle>) -> bool {
    forall|i: int, j: int| 0 <= i <= j < s.len() ==> (#[trigger] s[i]).mid <= (#[trigger] s[j]).mid
}

impl World {
    /// An empty scene, trivially up to date.
    pub fn new() -> (w: World)
        ensures
            w.triangles@.len() == 0,
            w.bbox@.len() == 0,
            w.textures@.len() == 0,
            w.point_lights@.len() == 0,
            w.validated == true,
            wf_world(w),
    {
        World {
            triangles: Vec::new(),
            bbox: Vec::new(),
            textures: Vec::new(),
            point_lights: Vec::new(),
            validated: true,
        }
    }

    /// Add a point light.
    pub fn create_point_light(&mut self, pos: Vector3, color: Color, lumen: i64)
        requires
            wf_world(*old(self)),
            vec_fx(pos),
            col_fx(color),
            fx(lumen as int),
        ensures
            final(self).point_lights@ == old(self).point_lights@.push(
                PointLight { pos, color, lumen },
            ),
            final(self).triangles == old(self).triangles,
            final(self).bbox == old(self).bbox,
            final(self).textures == old(self).textures,
            final(self).validated == old(self).validated,
            wf_world(*final(self)),
    {
        self.point_lights.push(PointLight { pos, color, lumen });
    }

    /// Register a decoded texture and return its id.
    pub fn create_texture(&mut self, width: u32, height: u32, pixels: Vec<u8>) -> (id: isize)
        requires
            wf_world(*old(self)),
            width >= 1,
            height >= 1,
            pixels@.len() == 3 * (width as int) * (height as int),
            old(self).textures@.len() < 1_000_000_000,
        ensures
            final(self).textures@ == old(self).textures@.push(
                Some(Texture { width, height, pixels }),
            ),
            id as int == old(self).textures@.len(),
            final(self).triangles == old(self).triangles,
            final(self).bbox == old(self).bbox,
            final(self).point_lights == old(self).point_lights,
            final(self).validated == old(self).validated,
            wf_world(*final(self)),
    {
        let id = self.textures.len();
        self.textures.push(Some(Texture { width, height, pixels }));
        id as isize
    }

    /// Drop a texture; its id is never reused.
    pub fn remove_texture(&mut self, id: usize)
        requires
            wf_world(*old(self)),
        ensures
            final(self).textures@ == if id < old(self).textures@.len() {
                old(self).textures@.update(id as int, None::<Texture>)
            } else {
                old(self).textures@
            },
            final(self).triangles == old(self).triangles,
            final(self).bbox == old(self).bbox,
            final(self).point_lights == old(self).point_lights,
            final(self).validated == old(self).validated,
            wf_world(*final(self)),
    {
        if id < self.textures.len() {
            self.textures.set(id, None);
        }
    }

    /// Insert a triangle; the scene is no longer validated afterwards.
    pub fn create_triangle(
        &mut self,
        p1: Vector3,
        p2: Vector3,
        p3: Vector3,
        uv1: Vector2,
        uv2: Vector2,
        uv3: Vector2,
        c1: Color,
        c2: Color,
        c3: Color,
        reflect: [i64; 3],
        tex: isize,
    )
        requires
            wf_world(*old(self)),
            vec_fx(p1),
            vec_fx(p2),
            vec_fx(p3),
            v2_fx(uv1),
            v2_fx(uv2),
            v2_fx(uv3),
            col_fx(c1),
            col_fx(c2),
            col_fx(c3),
            fx(reflect@[0] as int),
            fx(reflect@[1] as int),
            fx(reflect@[2] as int),
        ensures
            final(self).triangles@ == old(self).triangles@.push(
                spec_make_tri(p1, p2, p3, uv1, uv2, uv3, c1, c2, c3, reflect, tex),
            ),
            final(self).validated == false,
            final(self).bbox == old(self).bbox,
            final(self).textures == old(self).textures,
            final(self).point_lights == old(self).point_lights,
            wf_world(*final(self)),
    {
        let mx = fmul(5000, fadd(
            crate::fixed::max_i64(p1.x, crate::fixed::max_i64(p2.x, p3.x)),
            crate::fixed::min_i64(p1.x, crate::fixed::min_i64(p2.x, p3.x)),
        ));
        let my = fmul(5000, fadd(
            crate::fixed::max_i64(p1.y, crate::fixed::max_i64(p2.y, p3.y)),
            crate::fixed::min_i64(p1.y, crate::fixed::min_i64(p2.y, p3.y)),
        ));
        let mz = fmul(5000, fadd(
            crate::fixed::max_i64(p1.z, crate::fixed::max_i64(p2.z, p3.z)),
            crate::fixed::min_i64(p1.z, crate::fixed::min_i64(p2.z, p3.z)),
        ));
        let mid = fadd(fadd(mx, my), mz);
        let e1 = p2.sub(&p1);
        let e2 = p3.sub(&p1);
        let mut norm = e1.cross(&e2);
        norm.normalize_dis();
        let norm_opp = Vector3::new(-norm.x, -norm.y, -norm.z);
        self.triangles.push(Triangle {
            p1,
            p2,
            p3,
            e1,
            e2,
            uv1,
            uv2,
            uv3,
            c1,
            c2,
            c3,
            mid,
            norm,
            norm_opp,
            reflect,
            tex,
        });
        self.validated = false;
    }

    /// Insert a quad as two triangles sharing the first and last corner.
    pub fn create_plane(
        &mut self,
        p1: Vector3,
        p2: Vector3,
        p3: Vector3,
        p4: Vector3,
        uv1: Vector2,
        uv2: Vector2,
        uv3: Vector2,
        uv4: Vector2,
        c1: Color,
        c2: Color,
        c3: Color,
        c4: Color,
        reflect: [i64; 4],
        tex: isize,
    )
        requires
            wf_world(*old(self)),
            vec_fx(p1),
            vec_fx(p2),
            vec_fx(p3),
            vec_fx(p4),
            v2_fx(uv1),
            v2_fx(uv2),
            v2_fx(uv3),
            v2_fx(uv4),
            col_fx(c1),
            col_fx(c2),
            col_fx(c3),
            col_fx(c4),
            fx(reflect@[0] as int),
            fx(reflect@[1] as int),
            fx(reflect@[2] as int),
            fx(reflect@[3] as int),
        ensures
            final(self).triangles@ == old(self).triangles@.push(
                spec_make_tri(
                    p1,
                    p2,
                    p4,
                    uv1,
                    uv2,
                    uv4,
                    c1,
                    c2,
                    c4,
                    [reflect@[0], reflect@[1], reflect@[2]],
                    tex,
                ),
            ).push(
                spec_make_tri(
                    p1,
                    p3,
                    p4,
                    uv1,
                    uv3,
                    uv4,
                    c1,
                    c3,
                    c4,
                    [reflect@[0], reflect@[2], reflect@[3]],
                    tex,
                ),
            ),
            final(self).validated == false,
            final(self).bbox == old(self).bbox,
            final(self).textures == old(self).textures,
            final(self).point_lights == old(self).point_lights,
            wf_world(*final(self)),
    {
        let r0 = reflect[0];
        let r1 = reflect[1];
        let r2 = reflect[2];
        let r3 = reflect[3];
        self.create_triangle(p1, p2, p4, uv1, uv2, uv4, c1, c2, c4, [r0, r1, r2], tex);
        self.create_triangle(p1, p3, p4, uv1, uv3, uv4, c1, c3, c4, [r0, r2, r3], tex);
    }

    /// The shaded base color of triangle tri_id at barycentric (u, v):
    /// zero when the scene has no lights, else the interpolated vertex
    /// color times the texture sample when a texture is set.
    pub fn obtain_color(&self, tri_id: usize, u: i64, v: i64) -> (c: Color)
        requires
            wf_world(*self),
            tri_id < self.triangles@.len(),
            bary_ok(u as int, v as int),
            tri_tex_ok(*self, tri_id as int),
        ensures
            c == spec_world_color(*self, tri_id as int, u as int, v as int),
            col_fx(c),
    {
        if self.point_lights.len() == 0 {
            return Color::new_zero();
        }
        let triangle = &self.triangles[tri_id];
        let mut color = triangle.obtain_color(u, v);
        if triangle.tex != -1 {
            let uvp = triangle.obtain_uv(u, v);
            let tid = triangle.tex as usize;
            let slot = &self.textures[tid];
            match slot {
                Some(tex) => {
                    let px = tex_coord(uvp.x, tex.width);
                    let py = tex_coord(crate::fixed::fsub(SCALE, uvp.y), tex.height);
                    proof {
                        assert(3 * ((py as int) * (tex.width as int) + (px as int)) + 2 < 3 * (
                        tex.width as int) * (tex.height as int)) by (nonlinear_arith)
                            requires
                                0 <= (px as int) && (px as int) < tex.width as int,
                                0 <= (py as int) && (py as int) < tex.height as int,
                                tex.width >= 1,
                                tex.height >= 1,
                        ;
                        assert((py as int) * (tex.width as int) <= 0xffff_ffff_ffff_ffff)
                            by (nonlinear_arith)
                            requires
                                0 <= (py as int) <= 0xffff_ffff,
                                0 <= (tex.width as int) <= 0xffff_ffff,
                        ;
                    }
                    let plen = tex.pixels.len();
                    let idx: usize = (3u128 * ((py as u128) * (tex.width as u128) + (px
                        as u128))) as usize;
                    let r8 = tex.pixels[idx];
                    let g8 = tex.pixels[idx + 1];
                    let b8 = tex.pixels[idx + 2];
                    color.mul_self(tex_scale(r8), tex_scale(g8), tex_scale(b8), SCALE);
                },
                None => {
                    proof {
                        assert(false);
                    }
                },
            }
        }
        color
    }
}

/// The box of a leaf node: exactly the triangle's bounds, no children.
pub open spec fn spec_leaf_box(t: Triangle) -> BoundingBox {
    BoundingBox { m1: spec_min_box(t), m2: spec_max_box(t), left: -1isize, right: -1isize }
}

/// Selection sort on the positional key: ascending, a permutation of the
/// input, and every stored scalar still in range.
fn sort_triangles(v: &mut Vec<Triangle>)
    requires
        forall|i: int| 0 <= i < old(v)@.len() ==> tri_fx(#[trigger] old(v)@[i]),
    ensures
        final(v)@.len() == old(v)@.len(),
        final(v)@.to_multiset() == old(v)@.to_multiset(),
        sorted_by_mid(final(v)@),
        forall|i: int| 0 <= i < final(v)@.len() ==> tri_fx(#[trigger] final(v)@[i]),
{
    let mut out: Vec<Triangle> = Vec::new();
    proof {
        broadcast use vstd::seq_lib::group_to_multiset_ensures;
        broadcast use vstd::multiset::group_multiset_axioms;

        assert(out@.to_multiset().len() == 0);
        assert(out@.to_multiset() =~= Multiset::<Triangle>::empty());
        assert(out@.to_multiset().add(v@.to_multiset()) =~= v@.to_multiset());
    }
    while v.len() > 0
        invariant
            out@.len() + v@.len() == old(v)@.len(),
            out@.to_multiset().add(v@.to_multiset()) == old(v)@.to_multiset(),
            sorted_by_mid(out@),
            forall|i: int, k: int|
                0 <= i < out@.len() && 0 <= k < v@.len() ==> (#[trigger] out@[i]).mid
                    <= (#[trigger] v@[k]).mid,
            forall|i: int| 0 <= i < out@.len() ==> tri_fx(#[trigger] out@[i]),
            forall|i: int| 0 <= i < v@.len() ==> tri_fx(#[trigger] v@[i]),
        decreases v@.len(),
    {
        let mut m: usize = 0;
        let mut k: usize = 1;
        while k < v.len()
            invariant
                m < k,
                1 <= k <= v@.len(),
                forall|t: int| 0 <= t < k ==> (#[trigger] v@[t]).mid >= v@[m as int].mid,
            decreases v@.len() - k,
        {
            if v[k].mid < v[m].mid {
                m = k;
            }
            k = k + 1;
        }
        let ghost v0 = v@;
        let ghost out0 = out@;
        let t = v.remove(m);
        out.push(t);
        proof {
            broadcast use vstd::seq_lib::group_to_multiset_ensures;

            assert(v0.contains(t));
            assert(v@.to_multiset() =~= v0.to_multiset().remove(t));
            assert(out@.to_multiset() =~= out0.to_multiset().insert(t));
            assert(v0.to_multiset().count(t) > 0);
            assert(out@.to_multiset().add(v@.to_multiset()) =~= out0.to_multiset().add(
                v0.to_multiset(),
            )) by {
                broadcast use vstd::multiset::group_multiset_axioms;

                assert(out0.to_multiset().insert(t) =~= out0.to_multiset().add(
                    Multiset::<Triangle>::empty().insert(t),
                ));
            }
            assert forall|i: int, kk: int|
                0 <= i < out@.len() && 0 <= kk < v@.len() implies (#[trigger] out@[i]).mid
                <= (#[trigger] v@[kk]).mid by {
                if kk < m {
                    assert(v@[kk] == v0[kk]);
                } else {
                    assert(v@[kk] == v0[kk + 1]);
                }
                if i < out0.len() {
                    assert(out@[i] == out0[i]);
                } else {
                    assert(out@[i] == t);
                }
            }
            assert forall|i: int, j: int| 0 <= i <= j < out@.len() implies (#[trigger] out@[i]).mid
                <= (#[trigger] out@[j]).mid by {
                if j < out0.len() {
                } else {
                    assert(out@[j] == t);
                    if i < out0.len() {
                        assert(out0[i].mid <= v0[m as int].mid);
                    }
                }
            }
        }
    }
    proof {
        broadcast use vstd::seq_lib::group_to_multiset_ensures;
        broadcast use vstd::multiset::group_multiset_axioms;

        assert(v@.to_multiset().len() == 0);
        assert(v@.to_multiset() =~= Multiset::<Triangle>::empty());
        assert(out@.to_multiset().add(v@.to_multiset()) =~= out@.to_multiset());
    }
    *v = out;
}

impl World {
    /// Build the bounding-volume hierarchy: sort the triangles by their
    /// positional key, lay down one tight leaf box per triangle, then
    /// merge adjacent forest roots pairwise, level by level, until one
    /// root remains as the last element of the node array. Afterwards
    /// every box is ordered and encloses its children, and the leaves
    /// reachable from the root name every triangle exactly once.
    pub fn compute(&mut self)
        requires
            wf_world(*old(self)),
            1 <= old(self).triangles@.len(),
            old(self).triangles@.len() <= 1_000_000_000,
        ensures
            wf_world(*final(self)),
            final(self).validated == true,
            final(self).textures == old(self).textures,
            final(self).point_lights == old(self).point_lights,
            final(self).triangles@.len() == old(self).triangles@.len(),
            final(self).triangles@.to_multiset() == old(self).triangles@.to_multiset(),
            sorted_by_mid(final(self).triangles@),
            final(self).bbox@.len() == 2 * final(self).triangles@.len() - 1,
            final(self).bbox@.len() >= 1,
            forall|k: int|
                0 <= k < final(self).bbox@.len() ==> bvh_node_wf(
                    final(self).bbox@,
                    final(self).triangles@.len() as int,
                    k,
                ),
            forall|k: int| 0 <= k < final(self).bbox@.len() ==> box_fx(#[trigger] final(self).bbox@[k]),
            bvh_boxes_wf(final(self).bbox@),
            forall|k: int|
                0 <= k < final(self).triangles@.len() ==> final(self).bbox@[k] == spec_leaf_box(
                    #[trigger] final(self).triangles@[k],
                ),
            leaves_of(final(self).bbox@, final(self).bbox@.len() - 1).to_multiset()
                == all_tri_ids(final(self).triangles@.len() as int).to_multiset(),
    {
        sort_triangles(&mut self.triangles);
        let n = self.triangles.len();
        let ghost n_int = n as int;
        let ghost full = all_tri_ids(n_int).to_multiset();
        self.bbox = Vec::with_capacity(2 * n - 1);
        let mut ti: usize = 0;
        while ti < n
            invariant
                n == self.triangles@.len(),
                self.bbox@.len() == ti,
                ti <= n,
                self.textures == old(self).textures,
                self.point_lights == old(self).point_lights,
                self.triangles@.to_multiset() == old(self).triangles@.to_multiset(),
                sorted_by_mid(self.triangles@),
                forall|i: int| 0 <= i < n ==> tri_fx(#[trigger] self.triangles@[i]),
                forall|i: int|
                    0 <= i < self.point_lights@.len() ==> light_fx(
                        #[trigger] self.point_lights@[i],
                    ),
                forall|i: int|
                    0 <= i < self.textures@.len() ==> ((#[trigger] self.textures@[i]) is Some
                        ==> tex_wf(self.textures@[i].unwrap())),
                forall|k: int|
                    0 <= k < ti ==> self.bbox@[k] == spec_leaf_box(
                        #[trigger] self.triangles@[k],
                    ),
            decreases n - ti,
        {
            let tri = self.triangles[ti];
            let m1 = tri.min_box();
            let m2 = tri.max_box();
            self.bbox.push(BoundingBox { m1, m2, left: -1, right: -1 });
            ti = ti + 1;
        }
        proof {
            assert forall|k: int| 0 <= k < self.bbox@.len() implies (#[trigger] self.bbox@[k]).left
                == -1 by {
                assert(self.bbox@[k] == spec_leaf_box(self.triangles@[k]));
            }
            lemma_forest_of_leaves(self.bbox@, 0);
            assert(Seq::new((self.bbox@.len() - 0) as nat, |i: int| 0 + i) =~= all_tri_ids(n_int));
            assert(forest_leaves(self.bbox@, 0, n_int).to_multiset() == full);
            assert forall|k: int| 0 <= k < self.bbox@.len() implies bvh_node_wf(
                self.bbox@,
                n_int,
                k,
            ) && box_fx(#[trigger] self.bbox@[k]) && box_min_max(self.bbox@[k]) by {
                assert(self.bbox@[k] == spec_leaf_box(self.triangles@[k]));
                assert(tri_fx(self.triangles@[k]));
            }
        }
        let mut boxes: usize = n / 2;
        let mut start: usize = 0;
        while boxes >= 1
            invariant
                n == self.triangles@.len(),
                n_int == n as int,
                1 <= n <= 1_000_000_000,
                full == all_tri_ids(n_int).to_multiset(),
                self.textures == old(self).textures,
                self.point_lights == old(self).point_lights,
                self.triangles@.to_multiset() == old(self).triangles@.to_multiset(),
                sorted_by_mid(self.triangles@),
                forall|i: int| 0 <= i < n ==> tri_fx(#[trigger] self.triangles@[i]),
                forall|i: int|
                    0 <= i < self.point_lights@.len() ==> light_fx(
                        #[trigger] self.point_lights@[i],
                    ),
                forall|i: int|
                    0 <= i < self.textures@.len() ==> ((#[trigger] self.textures@[i]) is Some
                        ==> tex_wf(self.textures@[i].unwrap())),
                start <= self.bbox@.len(),
                boxes as int == (self.bbox@.len() - start as int) / 2,
                2 * self.bbox@.len() - start as int == 2 * n_int,
                self.bbox@.len() - start as int >= 1,
                n_int <= self.bbox@.len(),
                forall|k: int|
                    0 <= k < self.bbox@.len() ==> bvh_node_wf(self.bbox@, n_int, k),
                forall|k: int| 0 <= k < self.bbox@.len() ==> box_fx(#[trigger] self.bbox@[k]),
                bvh_boxes_wf(self.bbox@),
                forall|k: int|
                    0 <= k < n ==> self.bbox@[k] == spec_leaf_box(#[trigger] self.triangles@[k]),
                forest_leaves(self.bbox@, start as int, self.bbox@.len() as int).to_multiset()
                    == full,
            decreases self.bbox@.len() - start,
        {
            let len0 = self.bbox.len();
            let ghost b0 = self.bbox@;
            proof {
                assert(forest_leaves(self.bbox@, len0 as int, len0 as int) == Seq::<int>::empty());
                broadcast use vstd::seq_lib::group_to_multiset_ensures;
                broadcast use vstd::multiset::group_multiset_axioms;

                assert(forest_leaves(self.bbox@, len0 as int, len0 as int).to_multiset().len()
                    == 0);
                assert(forest_leaves(self.bbox@, len0 as int, len0 as int).to_multiset()
                    =~= Multiset::<int>::empty());
                assert(forest_leaves(self.bbox@, start as int, len0 as int).to_multiset().add(
                    forest_leaves(self.bbox@, len0 as int, len0 as int).to_multiset(),
                ) =~= forest_leaves(self.bbox@, start as int, len0 as int).to_multiset());
            }
            let mut i: usize = 0;
            while i < boxes
                invariant
                    n == self.triangles@.len(),
                    n_int == n as int,
                    1 <= n <= 1_000_000_000,
                    full == all_tri_ids(n_int).to_multiset(),
                    self.textures == old(self).textures,
                    self.point_lights == old(self).point_lights,
                    self.triangles@.to_multiset() == old(self).triangles@.to_multiset(),
                    sorted_by_mid(self.triangles@),
                    forall|ii: int| 0 <= ii < n ==> tri_fx(#[trigger] self.triangles@[ii]),
                    forall|ii: int|
                        0 <= ii < self.point_lights@.len() ==> light_fx(
                            #[trigger] self.point_lights@[ii],
                        ),
                    forall|ii: int|
                        0 <= ii < self.textures@.len() ==> ((#[trigger] self.textures@[ii])
                            is Some ==> tex_wf(self.textures@[ii].unwrap())),
                    boxes >= 1,
                    b0.len() == len0,
                    boxes as int == (len0 as int - start as int) / 2,
                    start + 2 * boxes <= len0,
                    i % 2 == 0,
                    i <= boxes + 1,
                    start + i <= len0,
                    len0 <= self.bbox@.len(),
                    self.bbox@.len() as int == len0 as int + i as int / 2,
                    2 * (len0 as int) - start as int == 2 * n_int,
                    n_int <= len0,
                    forall|k: int| 0 <= k < len0 ==> self.bbox@[k] == b0[k],
                    forall|k: int|
                        0 <= k < self.bbox@.len() ==> bvh_node_wf(self.bbox@, n_int, k),
                    forall|k: int| 0 <= k < self.bbox@.len() ==> box_fx(#[trigger] self.bbox@[k]),
                    bvh_boxes_wf(self.bbox@),
                    forall|k: int|
                        0 <= k < n ==> self.bbox@[k] == spec_leaf_box(
                            #[trigger] self.triangles@[k],
                        ),
                    forest_leaves(self.bbox@, (start + i) as int, len0 as int).to_multiset().add(
                        forest_leaves(
                            self.bbox@,
                            len0 as int,
                            self.bbox@.len() as int,
                        ).to_multiset(),
                    ) == full,
                decreases boxes + 2 - i,
            {
                let j = start + i;
                let lb = self.bbox[j];
                let rb = self.bbox[j + 1];
                let parent = BoundingBox {
                    m1: Vector3 {
                        x: crate::fixed::min_i64(lb.m1.x, rb.m1.x),
                        y: crate::fixed::min_i64(lb.m1.y, rb.m1.y),
                        z: crate::fixed::min_i64(lb.m1.z, rb.m1.z),
                    },
                    m2: Vector3 {
                        x: crate::fixed::max_i64(lb.m2.x, rb.m2.x),
                        y: crate::fixed::max_i64(lb.m2.y, rb.m2.y),
                        z: crate::fixed::max_i64(lb.m2.z, rb.m2.z),
                    },
                    left: j as isize,
                    right: (j + 1) as isize,
                };
                let ghost bpre = self.bbox@;
                self.bbox.push(parent);
                proof {
                    let bnew = self.bbox@;
                    let jj = j as int;
                    let l0 = len0 as int;
                    let lpre = bpre.len() as int;
                    assert(bnew == bpre.push(parent));
                    assert(forall|k: int| 0 <= k < lpre ==> bnew[k] == bpre[k]);
                    let ghost a = leaves_of(bpre, jj);
                    let ghost bb = leaves_of(bpre, jj + 1);
                    let ghost cc = forest_leaves(bpre, jj + 2, l0);
                    let ghost dd = forest_leaves(bpre, l0, lpre);
                    lemma_leaves_push(bpre, parent, jj);
                    lemma_leaves_push(bpre, parent, jj + 1);
                    assert(bnew[lpre] == parent);
                    assert(leaves_of(bnew, lpre) == a + bb);
                    lemma_forest_push(bpre, parent, jj + 2, l0);
                    lemma_forest_push(bpre, parent, l0, lpre);
                    lemma_forest_split(bnew, l0, lpre, lpre + 1);
                    assert(forest_leaves(bnew, lpre + 1, lpre + 1) == Seq::<int>::empty());
                    assert(forest_leaves(bnew, lpre, lpre + 1) == leaves_of(bnew, lpre)
                        + forest_leaves(bnew, lpre + 1, lpre + 1));
                    assert((a + bb) + Seq::<int>::empty() =~= a + bb);
                    assert(forest_leaves(bnew, l0, lpre + 1) == dd + (a + bb));
                    assert(forest_leaves(bpre, jj, l0) == a + forest_leaves(bpre, jj + 1, l0));
                    assert(forest_leaves(bpre, jj + 1, l0) == bb + cc);
                    vstd::seq_lib::lemma_multiset_commutative(a, bb + cc);
                    vstd::seq_lib::lemma_multiset_commutative(bb, cc);
                    vstd::seq_lib::lemma_multiset_commutative(dd, a + bb);
                    vstd::seq_lib::lemma_multiset_commutative(a, bb);
                    assert(forest_leaves(bnew, jj + 2, l0) == cc);
                    assert(cc.to_multiset().add(dd.to_multiset().add(a.to_multiset().add(
                        bb.to_multiset(),
                    ))) =~= (a + (bb + cc)).to_multiset().add(dd.to_multiset())) by {
                        broadcast use vstd::multiset::group_multiset_axioms;

                    }
                    assert(forest_leaves(bnew, jj + 2, l0).to_multiset().add(forest_leaves(
                        bnew,
                        l0,
                        lpre + 1,
                    ).to_multiset()) == full);
                    assert(forall|k: int|
                        0 <= k < lpre ==> bvh_node_wf(bnew, n_int, k) == bvh_node_wf(
                            bpre,
                            n_int,
                            k,
                        ));
                    assert(bvh_node_wf(bnew, n_int, lpre));
                    assert forall|k: int| 0 <= k < bnew.len() implies box_min_max(
                        #[trigger] bnew[k],
                    ) && (bnew[k].left != -1 ==> 0 <= (bnew[k].left as int) && (bnew[k].left
                        as int) < bnew.len() && 0 <= (bnew[k].right as int) && (bnew[k].right
                        as int) < bnew.len() && crate::bvh::box_contains(
                        bnew[k],
                        bnew[bnew[k].left as int],
                    ) && crate::bvh::box_contains(bnew[k], bnew[bnew[k].right as int])) by {
                        if k < lpre {
                            assert(box_min_max(bpre[k]));
                        } else {
                            assert(bnew[k] == parent);
                            assert(box_min_max(lb) && box_min_max(rb));
                        }
                    }
                }
                i = i + 2;
            }
            start = start + i;
            boxes = (self.bbox.len() - start) / 2;
            proof {
                let b = self.bbox@;
                let s = start as int;
                let l0 = len0 as int;
                let l = b.len() as int;
                lemma_forest_split(b, s, l0, l);
                vstd::seq_lib::lemma_multiset_commutative(
                    forest_leaves(b, s, l0),
                    forest_leaves(b, l0, l),
                );
                assert(forest_leaves(b, s, l).to_multiset() == full);
                broadcast use vstd::seq_lib::group_to_multiset_ensures;

                assert(all_tri_ids(n_int).len() == n_int);
                assert(full.len() == n_int);
                if s == l {
                    assert(forest_leaves(b, s, l) == Seq::<int>::empty());
                    assert(forest_leaves(b, s, l).to_multiset().len() == 0);
                    assert(false);
                }
            }
        }
        self.validated = true;
        proof {
            let b = self.bbox@;
            let s = start as int;
            let l = b.len() as int;
            assert(l - s == 1);
            assert(forest_leaves(b, s + 1, l) == Seq::<int>::empty());
            assert(forest_leaves(b, s, l) == leaves_of(b, s) + forest_leaves(b, s + 1, l));
            assert(leaves_of(b, l - 1) + Seq::<int>::empty() =~= leaves_of(b, l - 1));
        }
    }
}

/// One pixel byte scaled so that 255 is 1.0.
fn tex_scale(p: u8) -> (r: i64)
    ensures
        r as int == spec_tex_scale(p as int),
        0 <= r <= SCALE,
{
    let raw: u32 = (p as u32) * 10_000 / 255;
    raw as i64
}

/// Saturate and wrap a fixed-point texture coordinate into 0..m.
fn tex_coord(v: i64, m: u32) -> (r: u32)
    requires
        fx(v as int),
        m >= 1,
    ensures
        r as int == spec_tex_coord(v as int * m as int, m as int),
        r < m,
{
    let vf = crate::fixed::prod(v, m as i64);
    let i = tdiv(vf, SCALE as i128);
    proof {
        lemma_tdiv_abs_le(vf as int, SCALE as int);
    }
    let s: u32 = if i < 0 {
        0
    } else if i > u32::MAX as i128 {
        u32::MAX
    } else {
        i as u32
    };
    s % m
}

} // verus!
