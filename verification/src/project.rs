//! The projection stage: world space to camera space to screen cells.
//!
//! A vertex is translated by the camera position (with the vertical axis
//! compressed by half, terminal cells being taller than wide), rotated
//! about the yaw and then the pitch axis, and perspective-divided: a
//! camera-space point `(x', y', z')` with `z' > 0` lands
//! `x' * PROJ_K / z'` cells right of and `y' * PROJ_K / z'` cells below
//! the viewport center. The rotations take the angles' fixed-point sines
//! and cosines, supplied by the front end, so the whole stage is exact
//! integer arithmetic.

use vstd::prelude::*;
use vstd::arithmetic::div_mod::lemma_div_multiples_vanish;
use crate::num::{
    clamp_i32, clamp_to_i32, div_trunc, iabs, lemma_tdiv_bounded, lemma_tdiv_magnitude,
    lemma_tdiv_ordered_by_divisor, tdiv, CAM_LIMIT, FP_ONE, PROJ_K, WORLD_LIMIT,
};
use crate::scene::{vert_in_bounds, Face, Mesh, Object};
use crate::surface::Color;
use crate::vec::{IVec2, Vec3};

verus! {

/// The fixed-point sines and cosines of the camera's yaw and pitch, as the
/// front end computed them for the frame.
#[derive(Clone, Copy, Debug, PartialEq, Eq, Structural)]
pub struct Trig {
    pub sin_yaw: i64,
    pub cos_yaw: i64,
    pub sin_pitch: i64,
    pub cos_pitch: i64,
}

impl Trig {
    /// Fixed-point sines and cosines have magnitude at most one world
    /// unit.
    pub open spec fn wf(&self) -> bool {
        &&& iabs(self.sin_yaw as int) <= FP_ONE as int
        &&& iabs(self.cos_yaw as int) <= FP_ONE as int
        &&& iabs(self.sin_pitch as int) <= FP_ONE as int
        &&& iabs(self.cos_pitch as int) <= FP_ONE as int
    }

    /// The trigonometric pairs of a camera looking straight down the z
    /// axis: both angles zero.
    pub fn level() -> (t: Trig)
        ensures
            t.wf(),
            t.sin_yaw == 0 && t.cos_yaw == FP_ONE,
            t.sin_pitch == 0 && t.cos_pitch == FP_ONE,
    {
        Trig { sin_yaw: 0, cos_yaw: FP_ONE, sin_pitch: 0, cos_pitch: FP_ONE }
    }
}

/// The first component of `(x, y)` rotated by the angle whose fixed-point
/// sine and cosine are `s` and `c`: `x cos - y sin`, rescaled.
pub open spec fn rot_a(x: int, y: int, s: int, c: int) -> int {
    tdiv(x * c - y * s, FP_ONE as int)
}

/// The second component of the same rotation: `y cos + x sin`, rescaled.
pub open spec fn rot_b(x: int, y: int, s: int, c: int) -> int {
    tdiv(y * c + x * s, FP_ONE as int)
}

/// Rotate the pair `(x, y)` by the angle whose fixed-point sine and cosine
/// are `s` and `c`. The result components are no larger in magnitude than
/// `|x| + |y|`.
pub fn rotate_2d(x: i64, y: i64, s: i64, c: i64) -> (r: (i64, i64))
    requires
        iabs(x as int) <= 0x100_0000_0000,
        iabs(y as int) <= 0x100_0000_0000,
        iabs(s as int) <= FP_ONE as int,
        iabs(c as int) <= FP_ONE as int,
    ensures
        r.0 == rot_a(x as int, y as int, s as int, c as int),
        r.1 == rot_b(x as int, y as int, s as int, c as int),
        iabs(r.0 as int) <= iabs(x as int) + iabs(y as int),
        iabs(r.1 as int) <= iabs(x as int) + iabs(y as int),
{
    let ghost xi = x as int;
    let ghost yi = y as int;
    let ghost mag = iabs(xi) + iabs(yi);
    proof {
        assert(iabs(xi * (c as int)) <= 0x100_0000_0000 * 256 && iabs(yi * (s as int))
            <= 0x100_0000_0000 * 256 && iabs(yi * (c as int)) <= 0x100_0000_0000 * 256 && iabs(
            xi * (s as int),
        ) <= 0x100_0000_0000 * 256 && iabs(xi * (c as int) - yi * (s as int)) <= 256 * mag && iabs(
            yi * (c as int) + xi * (s as int),
        ) <= 256 * mag) by (nonlinear_arith)
            requires
                iabs(s as int) <= 256,
                iabs(c as int) <= 256,
                mag == iabs(xi) + iabs(yi),
                iabs(xi) <= 0x100_0000_0000,
                iabs(yi) <= 0x100_0000_0000,
        ;
        lemma_tdiv_bounded(xi * (c as int) - yi * (s as int), 256, 256 * mag);
        lemma_tdiv_bounded(yi * (c as int) + xi * (s as int), 256, 256 * mag);
        lemma_div_multiples_vanish(mag, 256);
    }
    let a = div_trunc(x * c - y * s, FP_ONE);
    let b = div_trunc(y * c + x * s, FP_ONE);
    (a, b)
}

/// The camera-space position of world vertex `v` seen from a camera at
/// `cpos` with trigonometric pairs `t`: translate (compressing the
/// vertical axis by half), rotate `(x, z)` by the yaw, then rotate the
/// resulting `(y, z)` by the pitch. Components as `(x', y', z')`.
pub open spec fn cam_space(v: Vec3, cpos: Vec3, t: Trig) -> (int, int, int) {
    let tx = v.x - cpos.x;
    let ty = tdiv(v.y as int, 2) - cpos.y;
    let tz = v.z - cpos.z;
    let x1 = rot_a(tx, tz, t.sin_yaw as int, t.cos_yaw as int);
    let z1 = rot_b(tx, tz, t.sin_yaw as int, t.cos_yaw as int);
    let y1 = rot_a(ty, z1, t.sin_pitch as int, t.cos_pitch as int);
    let z2 = rot_b(ty, z1, t.sin_pitch as int, t.cos_pitch as int);
    (x1, y1, z2)
}

/// Carry world vertex `v` into camera space. Every component of the
/// result is bounded by `CAM_LIMIT`.
pub fn transform_vertex(v: Vec3, cpos: Vec3, t: &Trig) -> (r: Vec3)
    requires
        vert_in_bounds(v),
        iabs(cpos.x as int) <= WORLD_LIMIT as int,
        iabs(cpos.y as int) <= WORLD_LIMIT as int,
        iabs(cpos.z as int) <= WORLD_LIMIT as int,
        t.wf(),
    ensures
        (r.x as int, r.y as int, r.z as int) == cam_space(v, cpos, *t),
        iabs(r.x as int) <= CAM_LIMIT as int,
        iabs(r.y as int) <= CAM_LIMIT as int,
        iabs(r.z as int) <= CAM_LIMIT as int,
{
    let tx = v.x - cpos.x;
    let ty = div_trunc(v.y, 2) - cpos.y;
    let tz = v.z - cpos.z;
    proof {
        lemma_tdiv_magnitude(v.y as int, 2);
    }
    let (x1, z1) = rotate_2d(tx, tz, t.sin_yaw, t.cos_yaw);
    let (y1, z2) = rotate_2d(ty, z1, t.sin_pitch, t.cos_pitch);
    Vec3 { x: x1, y: y1, z: z2 }
}

/// One screen coordinate of a projected camera-space point: the
/// perspective offset `coord * PROJ_K / z` from the viewport center,
/// saturated to the `i32` cell range.
pub open spec fn proj_coord(center: int, coord: int, z: int) -> int
    recommends
        z > 0,
{
    clamp_i32(center + tdiv(coord * PROJ_K as int, z))
}

/// Project a camera-space point with positive depth onto the cell grid
/// around the viewport center `(cx, cy)`.
pub fn project_vertex(v: Vec3, cx: i32, cy: i32) -> (p: IVec2)
    requires
        v.z > 0,
        iabs(v.x as int) <= CAM_LIMIT as int,
        iabs(v.y as int) <= CAM_LIMIT as int,
    ensures
        p.x == proj_coord(cx as int, v.x as int, v.z as int),
        p.y == proj_coord(cy as int, v.y as int, v.z as int),
{
    proof {
        assert(iabs(v.x as int * 200) <= 0x80_0000 * 200 && iabs(v.y as int * 200) <= 0x80_0000
            * 200) by (nonlinear_arith)
            requires
                iabs(v.x as int) <= 0x80_0000,
                iabs(v.y as int) <= 0x80_0000,
        ;
        lemma_tdiv_magnitude(v.x as int * 200, v.z as int);
        lemma_tdiv_magnitude(v.y as int * 200, v.z as int);
    }
    let fx = div_trunc(v.x * PROJ_K, v.z);
    let fy = div_trunc(v.y * PROJ_K, v.z);
    let px = clamp_to_i32(cx as i64 + fx);
    let py = clamp_to_i32(cy as i64 + fy);
    IVec2 { x: px, y: py }
}

/// Projection is a pure function: equal camera transforms and equal
/// vertices project to equal screen cells. (The projection is defined by
/// the spec functions `cam_space` and `proj_coord`, which depend on
/// nothing but their arguments.)
pub proof fn lemma_projection_pure(
    v1: Vec3,
    cpos1: Vec3,
    t1: Trig,
    c1: (int, int),
    v2: Vec3,
    cpos2: Vec3,
    t2: Trig,
    c2: (int, int),
)
    requires
        v1 == v2,
        cpos1 == cpos2,
        t1 == t2,
        c1 == c2,
    ensures
        ({
            let a = cam_space(v1, cpos1, t1);
            let b = cam_space(v2, cpos2, t2);
            &&& a == b
            &&& proj_coord(c1.0, a.0, a.2) == proj_coord(c2.0, b.0, b.2)
            &&& proj_coord(c1.1, a.1, a.2) == proj_coord(c2.1, b.1, b.2)
        }),
{
}

/// Pushing a vertex deeper along the view axis moves its screen cell no
/// farther from the viewport center: the projected offset magnitude is
/// non-increasing in the camera-space depth.
pub proof fn lemma_projection_shrinks_with_depth(coord: int, z1: int, z2: int)
    requires
        0 < z1 < z2,
    ensures
        iabs(tdiv(coord * PROJ_K as int, z2)) <= iabs(tdiv(coord * PROJ_K as int, z1)),
{
    lemma_tdiv_ordered_by_divisor(coord * PROJ_K as int, z1, z2);
}

/// For a vertex strictly off-axis the exact perspective offset
/// `|coord * PROJ_K| / z` strictly shrinks as the depth grows, stated
/// with the division cross-multiplied away: the offset at depth `z2` lies
/// strictly below the offset at depth `z1` as a rational. (On whole
/// cells the shrink need not be strict: truncation can land both depths
/// on the same cell.)
pub proof fn lemma_projection_strictly_shrinks(coord: int, z1: int, z2: int)
    requires
        0 < z1 < z2,
        coord != 0,
    ensures
        iabs(coord * PROJ_K as int) * z1 < iabs(coord * PROJ_K as int) * z2,
{
    assert(iabs(coord * 200) * z1 < iabs(coord * 200) * z2) by (nonlinear_arith)
        requires
            0 < z1 < z2,
            coord != 0,
    ;
}

/// A face ready to rasterize: the projected screen cell of each corner,
/// the face's optional color, its depth metric, and its place in the
/// order the culling stage emitted it (the tie-breaker of the depth
/// sort).
#[derive(Clone, Copy, Debug)]
pub struct FaceRender {
    pub p1: IVec2,
    pub p2: IVec2,
    pub p3: IVec2,
    pub p4: IVec2,
    pub color: Option<Color>,
    pub depth: i64,
    pub rank: usize,
}

/// The screen cell of vertex `k` of mesh `m`: its perspective projection
/// when it lies in front of the camera, and the viewport center when it
/// lies behind (its projection is meaningless there, and a face with no
/// corner in front is culled before the cell could matter).
pub open spec fn screen_of(m: Mesh, k: int, cpos: Vec3, t: Trig, cx: int, cy: int) -> IVec2 {
    let cs = cam_space(m.verts@[k], cpos, t);
    if cs.2 > 0 {
        IVec2 { x: proj_coord(cx, cs.0, cs.2) as i32, y: proj_coord(cy, cs.1, cs.2) as i32 }
    } else {
        IVec2 { x: cx as i32, y: cy as i32 }
    }
}

/// Whether vertex `k` of mesh `m` is within view: a positive camera-space
/// depth and a projected cell inside `[0, w] x [0, h]`.
pub open spec fn corner_visible(
    m: Mesh,
    k: int,
    cpos: Vec3,
    t: Trig,
    w: int,
    h: int,
    cx: int,
    cy: int,
) -> bool {
    let cs = cam_space(m.verts@[k], cpos, t);
    let p = screen_of(m, k, cpos, t, cx, cy);
    cs.2 > 0 && 0 <= p.x <= w && 0 <= p.y <= h
}

/// Whether face `f` of mesh `m` survives culling: at least one of its
/// corners is within view.
pub open spec fn face_visible(
    m: Mesh,
    f: Face,
    cpos: Vec3,
    t: Trig,
    w: int,
    h: int,
    cx: int,
    cy: int,
) -> bool {
    ||| corner_visible(m, f.a as int, cpos, t, w, h, cx, cy)
    ||| corner_visible(m, f.b as int, cpos, t, w, h, cx, cy)
    ||| corner_visible(m, f.c as int, cpos, t, w, h, cx, cy)
    ||| corner_visible(m, f.d as int, cpos, t, w, h, cx, cy)
}

/// The depth metric of face `f`: over the three camera-space axes, the
/// sum of the squares of the axis sums of its four corners — a cheap
/// proxy for squared distance from the camera.
pub open spec fn face_depth(m: Mesh, f: Face, cpos: Vec3, t: Trig) -> int {
    let va = cam_space(m.verts@[f.a as int], cpos, t);
    let vb = cam_space(m.verts@[f.b as int], cpos, t);
    let vc = cam_space(m.verts@[f.c as int], cpos, t);
    let vd = cam_space(m.verts@[f.d as int], cpos, t);
    let sx = va.0 + vb.0 + vc.0 + vd.0;
    let sy = va.1 + vb.1 + vc.1 + vd.1;
    let sz = va.2 + vb.2 + vc.2 + vd.2;
    sx * sx + sy * sy + sz * sz
}

/// The render record of face `f`, placed at position `rank` of the
/// culling stage's output.
pub open spec fn face_record(
    m: Mesh,
    f: Face,
    cpos: Vec3,
    t: Trig,
    cx: int,
    cy: int,
    rank: int,
) -> FaceRender {
    FaceRender {
        p1: screen_of(m, f.a as int, cpos, t, cx, cy),
        p2: screen_of(m, f.b as int, cpos, t, cx, cy),
        p3: screen_of(m, f.c as int, cpos, t, cx, cy),
        p4: screen_of(m, f.d as int, cpos, t, cx, cy),
        color: f.color,
        depth: face_depth(m, f, cpos, t) as i64,
        rank: rank as usize,
    }
}

/// The render records of the visible faces of mesh `m` from face `k` on,
/// ranked consecutively from `next`.
pub open spec fn faces_from(
    m: Mesh,
    cpos: Vec3,
    t: Trig,
    w: int,
    h: int,
    cx: int,
    cy: int,
    k: int,
    next: int,
) -> Seq<FaceRender>
    decreases m.faces@.len() - k,
{
    if k < 0 || k >= m.faces@.len() {
        Seq::empty()
    } else if face_visible(m, m.faces@[k], cpos, t, w, h, cx, cy) {
        seq![face_record(m, m.faces@[k], cpos, t, cx, cy, next)] + faces_from(
            m,
            cpos,
            t,
            w,
            h,
            cx,
            cy,
            k + 1,
            next + 1,
        )
    } else {
        faces_from(m, cpos, t, w, h, cx, cy, k + 1, next)
    }
}

/// How many faces of mesh `m` from face `k` on survive culling.
pub open spec fn visible_count(
    m: Mesh,
    cpos: Vec3,
    t: Trig,
    w: int,
    h: int,
    cx: int,
    cy: int,
    k: int,
) -> int
    decreases m.faces@.len() - k,
{
    if k < 0 || k >= m.faces@.len() {
        0
    } else if face_visible(m, m.faces@[k], cpos, t, w, h, cx, cy) {
        1 + visible_count(m, cpos, t, w, h, cx, cy, k + 1)
    } else {
        visible_count(m, cpos, t, w, h, cx, cy, k + 1)
    }
}

/// The render records of all visible faces of the objects from `j` on,
/// ranked consecutively from `next`.
pub open spec fn face_list_from(
    objs: Seq<Object>,
    cpos: Vec3,
    t: Trig,
    w: int,
    h: int,
    cx: int,
    cy: int,
    j: int,
    next: int,
) -> Seq<FaceRender>
    decreases objs.len() - j,
{
    if j < 0 || j >= objs.len() {
        Seq::empty()
    } else {
        let part = faces_from(objs[j].mesh, cpos, t, w, h, cx, cy, 0, next);
        part + face_list_from(objs, cpos, t, w, h, cx, cy, j + 1, next + part.len())
    }
}

/// The whole frame's face list: every object's visible faces, in object
/// and face order, ranked from zero.
pub open spec fn face_list_spec(
    objs: Seq<Object>,
    cpos: Vec3,
    t: Trig,
    w: int,
    h: int,
    cx: int,
    cy: int,
) -> Seq<FaceRender> {
    face_list_from(objs, cpos, t, w, h, cx, cy, 0, 0)
}

/// The face-list suffix from `k` holds one record per surviving face,
/// whatever rank it starts at.
pub proof fn lemma_faces_from_len(
    m: Mesh,
    cpos: Vec3,
    t: Trig,
    w: int,
    h: int,
    cx: int,
    cy: int,
    k: int,
    next: int,
)
    ensures
        faces_from(m, cpos, t, w, h, cx, cy, k, next).len() == visible_count(
            m,
            cpos,
            t,
            w,
            h,
            cx,
            cy,
            k,
        ),
    decreases m.faces@.len() - k,
{
    if k < 0 || k >= m.faces@.len() {
    } else if face_visible(m, m.faces@[k], cpos, t, w, h, cx, cy) {
        lemma_faces_from_len(m, cpos, t, w, h, cx, cy, k + 1, next + 1);
    } else {
        lemma_faces_from_len(m, cpos, t, w, h, cx, cy, k + 1, next);
    }
}

/// Every record the culling stage emits comes from a face that passed
/// the visibility test, and carries the rank of its position: the `i`th
/// record of the suffix from `k` is the record of some visible face at
/// or after `k`, ranked `next + i`.
pub proof fn lemma_faces_from_only_visible(
    m: Mesh,
    cpos: Vec3,
    t: Trig,
    w: int,
    h: int,
    cx: int,
    cy: int,
    k: int,
    next: int,
)
    ensures
        forall|i: int|
            #![trigger faces_from(m, cpos, t, w, h, cx, cy, k, next)[i]]
            0 <= i < faces_from(m, cpos, t, w, h, cx, cy, k, next).len() ==> exists|kk: int|
                k <= kk < m.faces@.len() && face_visible(m, #[trigger] m.faces@[kk], cpos, t, w, h, cx, cy)
                    && faces_from(m, cpos, t, w, h, cx, cy, k, next)[i] == face_record(
                    m,
                    m.faces@[kk],
                    cpos,
                    t,
                    cx,
                    cy,
                    next + i,
                ),
    decreases m.faces@.len() - k,
{
    let s = faces_from(m, cpos, t, w, h, cx, cy, k, next);
    if k < 0 || k >= m.faces@.len() {
    } else if face_visible(m, m.faces@[k], cpos, t, w, h, cx, cy) {
        lemma_faces_from_only_visible(m, cpos, t, w, h, cx, cy, k + 1, next + 1);
        let rest = faces_from(m, cpos, t, w, h, cx, cy, k + 1, next + 1);
        assert forall|i: int| #![trigger s[i]] 0 <= i < s.len() implies exists|kk: int|
            k <= kk < m.faces@.len() && face_visible(m, #[trigger] m.faces@[kk], cpos, t, w, h, cx, cy)
                && s[i] == face_record(m, m.faces@[kk], cpos, t, cx, cy, next + i) by {
            if i == 0 {
                assert(face_visible(m, m.faces@[k], cpos, t, w, h, cx, cy) && s[0] == face_record(
                    m,
                    m.faces@[k],
                    cpos,
                    t,
                    cx,
                    cy,
                    next,
                ));
            } else {
                assert(s[i] == rest[i - 1]);
                let kk = choose|kk: int|
                    k + 1 <= kk < m.faces@.len() && face_visible(m, #[trigger] m.faces@[kk], cpos, t, w, h, cx, cy)
                        && rest[i - 1] == face_record(m, m.faces@[kk], cpos, t, cx, cy, next + i);
                assert(face_visible(m, m.faces@[kk], cpos, t, w, h, cx, cy) && s[i] == face_record(
                    m,
                    m.faces@[kk],
                    cpos,
                    t,
                    cx,
                    cy,
                    next + i,
                ));
            }
        }
    } else {
        lemma_faces_from_only_visible(m, cpos, t, w, h, cx, cy, k + 1, next);
        let rest = faces_from(m, cpos, t, w, h, cx, cy, k + 1, next);
        assert forall|i: int| #![trigger s[i]] 0 <= i < s.len() implies exists|kk: int|
            k <= kk < m.faces@.len() && face_visible(m, #[trigger] m.faces@[kk], cpos, t, w, h, cx, cy)
                && s[i] == face_record(m, m.faces@[kk], cpos, t, cx, cy, next + i) by {
            assert(s == rest);
            let kk = choose|kk: int|
                k + 1 <= kk < m.faces@.len() && face_visible(m, #[trigger] m.faces@[kk], cpos, t, w, h, cx, cy)
                    && rest[i] == face_record(m, m.faces@[kk], cpos, t, cx, cy, next + i);
            assert(k <= kk < m.faces@.len() && face_visible(m, m.faces@[kk], cpos, t, w, h, cx, cy)
                && s[i] == face_record(m, m.faces@[kk], cpos, t, cx, cy, next + i));
        }
    }
}

/// A face all of whose corners lie at or behind the camera plane fails
/// the visibility test outright, so no record of it can enter the face
/// list, and it is never rasterized.
pub proof fn lemma_behind_camera_culled(
    m: Mesh,
    f: Face,
    cpos: Vec3,
    t: Trig,
    w: int,
    h: int,
    cx: int,
    cy: int,
)
    requires
        cam_space(m.verts@[f.a as int], cpos, t).2 <= 0,
        cam_space(m.verts@[f.b as int], cpos, t).2 <= 0,
        cam_space(m.verts@[f.c as int], cpos, t).2 <= 0,
        cam_space(m.verts@[f.d as int], cpos, t).2 <= 0,
    ensures
        !face_visible(m, f, cpos, t, w, h, cx, cy),
{
}

/// A mesh none of whose faces passes the visibility test contributes
/// nothing to the face list.
pub proof fn lemma_faces_from_none_visible(
    m: Mesh,
    cpos: Vec3,
    t: Trig,
    w: int,
    h: int,
    cx: int,
    cy: int,
    k: int,
    next: int,
)
    requires
        forall|kk: int|
            k <= kk < m.faces@.len() ==> !face_visible(
                m,
                #[trigger] m.faces@[kk],
                cpos,
                t,
                w,
                h,
                cx,
                cy,
            ),
    ensures
        faces_from(m, cpos, t, w, h, cx, cy, k, next).len() == 0,
    decreases m.faces@.len() - k,
{
    if k < 0 || k >= m.faces@.len() {
    } else {
        lemma_faces_from_none_visible(m, cpos, t, w, h, cx, cy, k + 1, next);
    }
}

/// Run culling over every object: transform each vertex to camera space,
/// project it, and collect a ranked render record for every face with a
/// corner within view.
pub fn build_face_list(
    objects: &Vec<Object>,
    cpos: Vec3,
    t: &Trig,
    w: i32,
    h: i32,
    cx: i32,
    cy: i32,
) -> (out: Vec<FaceRender>)
    requires
        forall|j: int| 0 <= j < objects@.len() ==> (#[trigger] objects@[j]).mesh.wf(),
        iabs(cpos.x as int) <= WORLD_LIMIT as int,
        iabs(cpos.y as int) <= WORLD_LIMIT as int,
        iabs(cpos.z as int) <= WORLD_LIMIT as int,
        t.wf(),
    ensures
        out@ == face_list_spec(objects@, cpos, *t, w as int, h as int, cx as int, cy as int),
{
    let ghost wi = w as int;
    let ghost hi = h as int;
    let ghost cxi = cx as int;
    let ghost cyi = cy as int;
    let ghost target = face_list_spec(objects@, cpos, *t, wi, hi, cxi, cyi);
    let mut out: Vec<FaceRender> = Vec::new();
    let mut j: usize = 0;
    while j < objects.len()
        invariant
            0 <= j <= objects@.len(),
            forall|q: int| 0 <= q < objects@.len() ==> (#[trigger] objects@[q]).mesh.wf(),
            iabs(cpos.x as int) <= WORLD_LIMIT as int,
            iabs(cpos.y as int) <= WORLD_LIMIT as int,
            iabs(cpos.z as int) <= WORLD_LIMIT as int,
            t.wf(),
            target == face_list_spec(objects@, cpos, *t, wi, hi, cxi, cyi),
            wi == w as int && hi == h as int && cxi == cx as int && cyi == cy as int,
            target == out@ + face_list_from(
                objects@,
                cpos,
                *t,
                wi,
                hi,
                cxi,
                cyi,
                j as int,
                out@.len() as int,
            ),
        decreases objects@.len() - j,
    {
        let obj = &objects[j];
        let ghost m = obj.mesh;
        let nverts = obj.mesh.verts.len();
        let mut cam_verts: Vec<Vec3> = Vec::new();
        let mut screens: Vec<IVec2> = Vec::new();
        let mut vi: usize = 0;
        while vi < nverts
            invariant
                0 <= vi <= nverts,
                nverts == m.verts@.len(),
                m == obj.mesh,
                obj == &objects@[j as int],
                0 <= j < objects@.len(),
                forall|q: int| 0 <= q < objects@.len() ==> (#[trigger] objects@[q]).mesh.wf(),
                iabs(cpos.x as int) <= WORLD_LIMIT as int,
                iabs(cpos.y as int) <= WORLD_LIMIT as int,
                iabs(cpos.z as int) <= WORLD_LIMIT as int,
                t.wf(),
                cxi == cx as int && cyi == cy as int,
                cam_verts@.len() == vi,
                screens@.len() == vi,
                forall|q: int|
                    0 <= q < vi ==> ((#[trigger] cam_verts@[q]).x as int,
                    cam_verts@[q].y as int,
                    cam_verts@[q].z as int) == cam_space(m.verts@[q], cpos, *t),
                forall|q: int|
                    0 <= q < vi ==> iabs((#[trigger] cam_verts@[q]).x as int) <= CAM_LIMIT as int
                        && iabs(cam_verts@[q].y as int) <= CAM_LIMIT as int && iabs(
                        cam_verts@[q].z as int,
                    ) <= CAM_LIMIT as int,
                forall|q: int|
                    0 <= q < vi ==> #[trigger] screens@[q] == screen_of(m, q, cpos, *t, cxi, cyi),
            decreases nverts - vi,
        {
            let cv = transform_vertex(obj.mesh.verts[vi], cpos, t);
            let sc = if cv.z > 0 {
                project_vertex(cv, cx, cy)
            } else {
                IVec2 { x: cx, y: cy }
            };
            cam_verts.push(cv);
            screens.push(sc);
            vi = vi + 1;
        }
        let nfaces = obj.mesh.faces.len();
        let ghost n_obj = out@.len() as int;
        let ghost tail = face_list_from(
            objects@,
            cpos,
            *t,
            wi,
            hi,
            cxi,
            cyi,
            j as int + 1,
            n_obj + faces_from(m, cpos, *t, wi, hi, cxi, cyi, 0, n_obj).len(),
        );
        proof {
            lemma_faces_from_len(m, cpos, *t, wi, hi, cxi, cyi, 0, n_obj);
        }
        let mut k: usize = 0;
        while k < nfaces
            invariant
                0 <= k <= nfaces,
                nfaces == m.faces@.len(),
                m == obj.mesh,
                obj == &objects@[j as int],
                0 <= j < objects@.len(),
                m.wf(),
                t.wf(),
                cxi == cx as int && cyi == cy as int && wi == w as int && hi == h as int,
                cam_verts@.len() == m.verts@.len(),
                screens@.len() == m.verts@.len(),
                forall|q: int|
                    0 <= q < m.verts@.len() ==> ((#[trigger] cam_verts@[q]).x as int,
                    cam_verts@[q].y as int,
                    cam_verts@[q].z as int) == cam_space(m.verts@[q], cpos, *t),
                forall|q: int|
                    0 <= q < m.verts@.len() ==> iabs((#[trigger] cam_verts@[q]).x as int)
                        <= CAM_LIMIT as int && iabs(cam_verts@[q].y as int) <= CAM_LIMIT as int
                        && iabs(cam_verts@[q].z as int) <= CAM_LIMIT as int,
                forall|q: int|
                    0 <= q < m.verts@.len() ==> #[trigger] screens@[q] == screen_of(
                        m,
                        q,
                        cpos,
                        *t,
                        cxi,
                        cyi,
                    ),
                target == out@ + faces_from(
                    m,
                    cpos,
                    *t,
                    wi,
                    hi,
                    cxi,
                    cyi,
                    k as int,
                    out@.len() as int,
                ) + tail,
                out@.len() as int == n_obj + visible_count(m, cpos, *t, wi, hi, cxi, cyi, 0)
                    - visible_count(m, cpos, *t, wi, hi, cxi, cyi, k as int),
                tail == face_list_from(
                    objects@,
                    cpos,
                    *t,
                    wi,
                    hi,
                    cxi,
                    cyi,
                    j as int + 1,
                    n_obj + visible_count(m, cpos, *t, wi, hi, cxi, cyi, 0),
                ),
            decreases nfaces - k,
        {
            let f = obj.mesh.faces[k];
            let pa = screens[f.a];
            let pb = screens[f.b];
            let pc = screens[f.c];
            let pd = screens[f.d];
            let za = cam_verts[f.a].z;
            let zb = cam_verts[f.b].z;
            let zc = cam_verts[f.c].z;
            let zd = cam_verts[f.d].z;
            let vis = (za > 0 && 0 <= pa.x && pa.x <= w && 0 <= pa.y && pa.y <= h) || (zb > 0 && 0
                <= pb.x && pb.x <= w && 0 <= pb.y && pb.y <= h) || (zc > 0 && 0 <= pc.x && pc.x
                <= w && 0 <= pc.y && pc.y <= h) || (zd > 0 && 0 <= pd.x && pd.x <= w && 0 <= pd.y
                && pd.y <= h);
            proof {
                assert(vis == face_visible(m, m.faces@[k as int], cpos, *t, wi, hi, cxi, cyi));
            }
            if vis {
                let sx = cam_verts[f.a].x + cam_verts[f.b].x + cam_verts[f.c].x + cam_verts[f.d].x;
                let sy = cam_verts[f.a].y + cam_verts[f.b].y + cam_verts[f.c].y + cam_verts[f.d].y;
                let sz = cam_verts[f.a].z + cam_verts[f.b].z + cam_verts[f.c].z + cam_verts[f.d].z;
                proof {
                    assert(iabs(sx as int * sx as int) <= 0x1000_0000_0000_0000 && iabs(
                        sy as int * sy as int,
                    ) <= 0x1000_0000_0000_0000 && iabs(sz as int * sz as int)
                        <= 0x1000_0000_0000_0000) by (nonlinear_arith)
                        requires
                            iabs(sx as int) <= 4 * 0x80_0000,
                            iabs(sy as int) <= 4 * 0x80_0000,
                            iabs(sz as int) <= 4 * 0x80_0000,
                    ;
                }
                let depth = sx * sx + sy * sy + sz * sz;
                let ghost old_out = out@;
                let rec = FaceRender {
                    p1: pa,
                    p2: pb,
                    p3: pc,
                    p4: pd,
                    color: f.color,
                    depth,
                    rank: out.len(),
                };
                out.push(rec);
                proof {
                    assert(rec == face_record(m, m.faces@[k as int], cpos, *t, cxi, cyi, old_out.len() as int));
                    assert(old_out + (seq![rec] + faces_from(
                        m,
                        cpos,
                        *t,
                        wi,
                        hi,
                        cxi,
                        cyi,
                        k as int + 1,
                        old_out.len() as int + 1,
                    )) + tail =~= (old_out.push(rec)) + faces_from(
                        m,
                        cpos,
                        *t,
                        wi,
                        hi,
                        cxi,
                        cyi,
                        k as int + 1,
                        old_out.len() as int + 1,
                    ) + tail);
                }
            }
            k = k + 1;
        }
        proof {
            assert(faces_from(m, cpos, *t, wi, hi, cxi, cyi, nfaces as int, out@.len() as int)
                =~= Seq::<FaceRender>::empty());
            assert(out@ + Seq::<FaceRender>::empty() =~= out@);
        }
        j = j + 1;
    }
    out
}

} // verus!
