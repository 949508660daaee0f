//! One frame of the renderer, whole: clear the surface, project and cull
//! every object's faces, depth-sort the survivors, and rasterize them
//! back to front.
//!
//! The frame's effect on the surface is pinned exactly: every cell ends
//! up as [`drawn_cell`] says — the fill of the nearest sorted face
//! covering it, or the blank cell. The timing loop, input polling and
//! trigonometry live in the front end; it hands in the per-frame
//! [`Trig`] values and the input events, and copies the finished grid to
//! the terminal.

use vstd::prelude::*;
use crate::log::{logged, push_message, LogMessage, LOG_LIFETIME_MS};
use crate::num::{iabs, WORLD_LIMIT};
use crate::order::{lemma_sort_spec_ensures, sort_faces, sort_spec, sorted_back_to_front};
use crate::project::{
    build_face_list, cam_space, corner_visible, face_list_from, face_list_spec, face_record,
    face_visible, faces_from, lemma_behind_camera_culled, lemma_faces_from_none_visible,
    screen_of, FaceRender, Trig,
};
use crate::raster::{draw_quad, quad_cell};
use crate::scene::{cube_faces, cube_verts, Camera, Input, Object};
use crate::surface::{blank_cell, Cell, Color, Surface};
use crate::vec::Vec3;

verus! {

/// The color a face is filled with: its own tag, or white when untagged.
pub open spec fn face_color(f: FaceRender) -> Color {
    if f.color is Some {
        f.color->0
    } else {
        Color::White
    }
}

/// The fill cell of a face record: a hash mark in the face's color on
/// black.
pub open spec fn face_fill(f: FaceRender) -> Cell {
    Cell { glyph: '#', fg: face_color(f), bg: Color::Black }
}

/// The cell at `(x, y)` after the faces of `fs` are filled in order over
/// `base` on a `w` by `h` surface: the fill of the last face covering
/// it, or `base` if none does.
pub open spec fn drawn_cell(fs: Seq<FaceRender>, w: int, h: int, x: int, y: int, base: Cell) -> Cell
    decreases fs.len(),
{
    if fs.len() == 0 {
        base
    } else if quad_cell(fs.last().p1, fs.last().p2, fs.last().p3, fs.last().p4, w, h, x, y) {
        face_fill(fs.last())
    } else {
        drawn_cell(fs.drop_last(), w, h, x, y, base)
    }
}

/// A session's model state: the camera, the objects, and the log queue.
pub struct Scene {
    pub cam: Camera,
    pub objects: Vec<Object>,
    pub log: Vec<LogMessage>,
}

impl Scene {
    /// The camera sits within the world bounds and every mesh is
    /// well-formed.
    pub open spec fn wf(&self) -> bool {
        &&& iabs(self.cam.transform.pos.x as int) <= WORLD_LIMIT as int
        &&& iabs(self.cam.transform.pos.y as int) <= WORLD_LIMIT as int
        &&& iabs(self.cam.transform.pos.z as int) <= WORLD_LIMIT as int
        &&& forall|j: int| 0 <= j < self.objects@.len() ==> (#[trigger] self.objects@[j]).mesh.wf()
    }

    /// An empty scene with the camera at the origin.
    pub fn new() -> (sc: Scene)
        ensures
            sc.wf(),
            sc.cam.transform.pos.x == 0 && sc.cam.transform.pos.y == 0 && sc.cam.transform.pos.z
                == 0,
            sc.cam.transform.pitch == 0 && sc.cam.transform.yaw == 0,
            sc.objects@.len() == 0,
            sc.log@.len() == 0,
    {
        Scene {
            cam: Camera::new(Vec3 { x: 0, y: 0, z: 0 }, 0, 0),
            objects: Vec::new(),
            log: Vec::new(),
        }
    }

    /// Queue an ephemeral log line with the full lifetime at the front
    /// of the log, dropping the oldest line if the log outgrows the
    /// screen's `max_lines`.
    pub fn log(&mut self, text: String, color: Color, max_lines: usize)
        requires
            old(self).log@.len() < usize::MAX,
        ensures
            final(self).cam == old(self).cam,
            final(self).objects == old(self).objects,
            final(self).log@ == logged(
                old(self).log@,
                LogMessage { text, color, remaining_ms: LOG_LIFETIME_MS },
                max_lines as int,
            ),
    {
        push_message(&mut self.log, text, color, max_lines);
    }
}

/// The face list of one frame seen from camera position `cpos` with
/// trigonometric pairs `t` on a `w` by `h` surface, sorted back to
/// front. The viewport center is the middle cell of the surface.
pub open spec fn frame_faces(
    objs: Seq<Object>,
    cpos: Vec3,
    t: Trig,
    w: int,
    h: int,
) -> Seq<FaceRender> {
    sort_spec(face_list_spec(objs, cpos, t, w, h, w / 2, h / 2))
}

/// The faces of a frame are drawn back to front: the list is sorted by
/// the depth metric, ties in emission order, and holds exactly the
/// records the culling stage produced.
pub proof fn lemma_frame_faces_ordered(objs: Seq<Object>, cpos: Vec3, t: Trig, w: int, h: int)
    ensures
        sorted_back_to_front(frame_faces(objs, cpos, t, w, h)),
        frame_faces(objs, cpos, t, w, h).to_multiset() =~= face_list_spec(
            objs,
            cpos,
            t,
            w,
            h,
            w / 2,
            h / 2,
        ).to_multiset(),
        frame_faces(objs, cpos, t, w, h).len() == face_list_spec(
            objs,
            cpos,
            t,
            w,
            h,
            w / 2,
            h / 2,
        ).len(),
{
    lemma_sort_spec_ensures(face_list_spec(objs, cpos, t, w, h, w / 2, h / 2));
}

/// No object contributes to a frame in which every face of every mesh
/// fails the visibility test: the sorted face list is empty.
proof fn lemma_face_list_from_none_visible(
    objs: Seq<Object>,
    cpos: Vec3,
    t: Trig,
    w: int,
    h: int,
    cx: int,
    cy: int,
    j: int,
    next: int,
)
    requires
        forall|q: int, k: int|
            0 <= q < objs.len() && 0 <= k < (#[trigger] objs[q]).mesh.faces@.len()
                ==> !face_visible(objs[q].mesh, #[trigger] objs[q].mesh.faces@[k], cpos, t, w, h, cx, cy),
    ensures
        face_list_from(objs, cpos, t, w, h, cx, cy, j, next).len() == 0,
    decreases objs.len() - j,
{
    if j < 0 || j >= objs.len() {
    } else {
        lemma_faces_from_none_visible(objs[j].mesh, cpos, t, w, h, cx, cy, 0, next);
        lemma_face_list_from_none_visible(objs, cpos, t, w, h, cx, cy, j + 1, next);
    }
}

/// A scene that lies entirely at or behind the camera plane renders as
/// an empty frame: every face of every mesh is culled, the sorted face
/// list is empty, and by `render_frame`'s contract every cell of the
/// surface stays blank.
pub proof fn lemma_scene_behind_camera_is_blank(
    objs: Seq<Object>,
    cpos: Vec3,
    t: Trig,
    w: int,
    h: int,
)
    requires
        forall|q: int| 0 <= q < objs.len() ==> (#[trigger] objs[q]).mesh.wf(),
        forall|q: int, v: int|
            0 <= q < objs.len() && 0 <= v < (#[trigger] objs[q]).mesh.verts@.len()
                ==> cam_space(#[trigger] objs[q].mesh.verts@[v], cpos, t).2 <= 0,
    ensures
        frame_faces(objs, cpos, t, w, h).len() == 0,
{
    let cx = w / 2;
    let cy = h / 2;
    assert forall|q: int, k: int|
        0 <= q < objs.len() && 0 <= k < (#[trigger] objs[q]).mesh.faces@.len()
            implies !face_visible(objs[q].mesh, #[trigger] objs[q].mesh.faces@[k], cpos, t, w, h, cx, cy) by {
        let m = objs[q].mesh;
        let f = m.faces@[k];
        assert(cam_space(m.verts@[f.a as int], cpos, t).2 <= 0);
        assert(cam_space(m.verts@[f.b as int], cpos, t).2 <= 0);
        assert(cam_space(m.verts@[f.c as int], cpos, t).2 <= 0);
        assert(cam_space(m.verts@[f.d as int], cpos, t).2 <= 0);
        lemma_behind_camera_culled(m, f, cpos, t, w, h, cx, cy);
    }
    lemma_face_list_from_none_visible(objs, cpos, t, w, h, cx, cy, 0, 0);
    lemma_sort_spec_ensures(face_list_spec(objs, cpos, t, w, h, cx, cy));
}

/// What the frame driver does with the input it polled, before the user
/// update runs.
#[derive(Clone, Copy, Debug, PartialEq, Eq, Structural)]
pub enum FrameAction {
    Quit,
    RebuildSurface,
    Continue,
}

/// The driver's decision for one polled input: the escape character ends
/// the session, a terminal resize rebuilds the surface for the new size,
/// and any other input — or none — carries on into the user update.
pub fn frame_action(key: Option<Input>) -> (a: FrameAction)
    ensures
        (a == FrameAction::Quit) == (key == Some(Input::Character('\u{1b}'))),
        (a == FrameAction::RebuildSurface) == (key == Some(Input::KeyResize)),
        (a == FrameAction::Continue) == (key != Some(Input::Character('\u{1b}')) && key != Some(
            Input::KeyResize,
        )),
{
    match key {
        Some(Input::Character(c)) => {
            if c == '\u{1b}' {
                FrameAction::Quit
            } else {
                FrameAction::Continue
            }
        },
        Some(Input::KeyResize) => FrameAction::RebuildSurface,
        _ => FrameAction::Continue,
    }
}

/// The canonical cube seen whole. For a scene of one cube object whose
/// every corner sits in front of the camera and projects inside the
/// viewport, culling keeps all six faces: the face list holds exactly
/// one record per cube face, in face order with matching ranks, every
/// corner cell inside `[0, w] x [0, h]` — and the sorted frame list
/// draws all six.
#[verifier::rlimit(100)]
pub proof fn lemma_cube_round_trip(objs: Seq<Object>, cpos: Vec3, t: Trig, w: int, h: int)
    requires
        objs.len() == 1,
        objs[0].mesh.verts@ == cube_verts(),
        objs[0].mesh.faces@ == cube_faces(),
        forall|k: int| 0 <= k < 8 ==> cam_space(#[trigger] objs[0].mesh.verts@[k], cpos, t).2 > 0,
        forall|k: int|
            0 <= k < 8 ==> (0 <= (#[trigger] screen_of(objs[0].mesh, k, cpos, t, w / 2, h / 2)).x
                <= w && 0 <= screen_of(objs[0].mesh, k, cpos, t, w / 2, h / 2).y <= h),
    ensures
        ({
            let fl = face_list_spec(objs, cpos, t, w, h, w / 2, h / 2);
            &&& fl.len() == 6
            &&& forall|i: int|
                0 <= i < 6 ==> #[trigger] fl[i] == face_record(
                    objs[0].mesh,
                    cube_faces()[i],
                    cpos,
                    t,
                    w / 2,
                    h / 2,
                    i,
                )
            &&& forall|i: int|
                0 <= i < 6 ==> (0 <= (#[trigger] fl[i]).p1.x <= w && 0 <= fl[i].p1.y <= h && 0
                    <= fl[i].p2.x <= w && 0 <= fl[i].p2.y <= h && 0 <= fl[i].p3.x <= w && 0
                    <= fl[i].p3.y <= h && 0 <= fl[i].p4.x <= w && 0 <= fl[i].p4.y <= h)
            &&& frame_faces(objs, cpos, t, w, h).len() == 6
        }),
{
    let m = objs[0].mesh;
    let cx = w / 2;
    let cy = h / 2;
    assert forall|k: int|
        0 <= k < 6 implies face_visible(m, #[trigger] m.faces@[k], cpos, t, w, h, cx, cy) by {
        if k == 0 {
            assert(corner_visible(m, 0, cpos, t, w, h, cx, cy));
        } else if k == 1 {
            assert(corner_visible(m, 4, cpos, t, w, h, cx, cy));
        } else if k == 2 {
            assert(corner_visible(m, 0, cpos, t, w, h, cx, cy));
        } else if k == 3 {
            assert(corner_visible(m, 2, cpos, t, w, h, cx, cy));
        } else if k == 4 {
            assert(corner_visible(m, 0, cpos, t, w, h, cx, cy));
        } else {
            assert(corner_visible(m, 1, cpos, t, w, h, cx, cy));
        }
    }
    let r0 = face_record(m, m.faces@[0], cpos, t, cx, cy, 0);
    let r1 = face_record(m, m.faces@[1], cpos, t, cx, cy, 1);
    let r2 = face_record(m, m.faces@[2], cpos, t, cx, cy, 2);
    let r3 = face_record(m, m.faces@[3], cpos, t, cx, cy, 3);
    let r4 = face_record(m, m.faces@[4], cpos, t, cx, cy, 4);
    let r5 = face_record(m, m.faces@[5], cpos, t, cx, cy, 5);
    assert(faces_from(m, cpos, t, w, h, cx, cy, 6, 6) =~= Seq::<FaceRender>::empty());
    assert(faces_from(m, cpos, t, w, h, cx, cy, 5, 5) =~= seq![r5]);
    assert(faces_from(m, cpos, t, w, h, cx, cy, 4, 4) =~= seq![r4, r5]);
    assert(faces_from(m, cpos, t, w, h, cx, cy, 3, 3) =~= seq![r3, r4, r5]);
    assert(faces_from(m, cpos, t, w, h, cx, cy, 2, 2) =~= seq![r2, r3, r4, r5]);
    assert(faces_from(m, cpos, t, w, h, cx, cy, 1, 1) =~= seq![r1, r2, r3, r4, r5]);
    assert(faces_from(m, cpos, t, w, h, cx, cy, 0, 0) =~= seq![r0, r1, r2, r3, r4, r5]);
    assert(face_list_from(objs, cpos, t, w, h, cx, cy, 1, 6) =~= Seq::<FaceRender>::empty());
    let fl = face_list_spec(objs, cpos, t, w, h, cx, cy);
    assert(fl =~= seq![r0, r1, r2, r3, r4, r5]);
    assert forall|i: int|
        0 <= i < 6 implies #[trigger] fl[i] == face_record(m, cube_faces()[i], cpos, t, cx, cy, i)
            && (0 <= fl[i].p1.x <= w && 0 <= fl[i].p1.y <= h && 0 <= fl[i].p2.x <= w && 0
            <= fl[i].p2.y <= h && 0 <= fl[i].p3.x <= w && 0 <= fl[i].p3.y <= h && 0 <= fl[i].p4.x
            <= w && 0 <= fl[i].p4.y <= h) by {
        let f = cube_faces()[i];
        if i == 0 {
            assert(fl[i] == r0);
        } else if i == 1 {
            assert(fl[i] == r1);
        } else if i == 2 {
            assert(fl[i] == r2);
        } else if i == 3 {
            assert(fl[i] == r3);
        } else if i == 4 {
            assert(fl[i] == r4);
        } else {
            assert(fl[i] == r5);
        }
        assert(f.a < 8 && f.b < 8 && f.c < 8 && f.d < 8);
        assert(fl[i].p1 == screen_of(m, f.a as int, cpos, t, cx, cy));
        assert(fl[i].p2 == screen_of(m, f.b as int, cpos, t, cx, cy));
        assert(fl[i].p3 == screen_of(m, f.c as int, cpos, t, cx, cy));
        assert(fl[i].p4 == screen_of(m, f.d as int, cpos, t, cx, cy));
    }
    lemma_sort_spec_ensures(fl);
}

/// Render one frame onto `s`: clear it, then project, cull, depth-sort
/// and rasterize every object's faces. Afterwards every cell holds
/// exactly what the sorted face list paints over blank, and the current
/// color pair is the last filled face's (or the default after a frame
/// with no visible face).
pub fn render_frame(s: &mut Surface, objects: &Vec<Object>, cam: &Camera, t: &Trig)
    requires
        old(s).wf(),
        forall|j: int| 0 <= j < objects@.len() ==> (#[trigger] objects@[j]).mesh.wf(),
        iabs(cam.transform.pos.x as int) <= WORLD_LIMIT as int,
        iabs(cam.transform.pos.y as int) <= WORLD_LIMIT as int,
        iabs(cam.transform.pos.z as int) <= WORLD_LIMIT as int,
        t.wf(),
    ensures
        final(s).wf(),
        final(s).spec_width() == old(s).spec_width(),
        final(s).spec_height() == old(s).spec_height(),
        ({
            let fs = frame_faces(
                objects@,
                cam.transform.pos,
                *t,
                old(s).spec_width(),
                old(s).spec_height(),
            );
            &&& forall|x: int, y: int|
                0 <= x < final(s).spec_width() && 0 <= y < final(s).spec_height()
                    ==> final(s).at(x, y) == drawn_cell(
                    fs,
                    final(s).spec_width(),
                    final(s).spec_height(),
                    x,
                    y,
                    blank_cell(),
                )
            &&& final(s).spec_fg() == (if fs.len() == 0 {
                Color::White
            } else {
                face_color(fs.last())
            })
            &&& final(s).spec_bg() == Color::Black
        }),
{
    s.clear();
    let (w, h) = s.dimensions();
    let cx = w / 2;
    let cy = h / 2;
    let mut faces = build_face_list(objects, cam.transform.pos, t, w, h, cx, cy);
    sort_faces(&mut faces);
    let ghost fs = faces@;
    let ghost gw = s.spec_width();
    let ghost gh = s.spec_height();
    let mut i: usize = 0;
    while i < faces.len()
        invariant
            s.wf(),
            s.spec_width() == gw,
            s.spec_height() == gh,
            0 <= i <= fs.len(),
            faces@ == fs,
            forall|x: int, y: int|
                0 <= x < gw && 0 <= y < gh ==> s.at(x, y) == drawn_cell(
                    fs.take(i as int),
                    gw,
                    gh,
                    x,
                    y,
                    blank_cell(),
                ),
            s.spec_fg() == (if i == 0 {
                Color::White
            } else {
                face_color(fs[i as int - 1])
            }),
            s.spec_bg() == Color::Black,
        decreases fs.len() - i,
    {
        let f = faces[i];
        let col = match f.color {
            Some(c) => c,
            None => Color::White,
        };
        draw_quad(s, col, f.p1, f.p2, f.p3, f.p4);
        proof {
            assert(fs.take(i as int + 1).drop_last() =~= fs.take(i as int));
            assert(fs.take(i as int + 1).last() == fs[i as int]);
        }
        i = i + 1;
    }
    proof {
        assert(fs.take(fs.len() as int) =~= fs);
    }
}

} // verus!
