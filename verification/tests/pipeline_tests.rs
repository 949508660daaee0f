use term3d::frame::{frame_action, render_frame, FrameAction, Scene};
use term3d::scene::Input;
use term3d::num::FP_ONE;
use term3d::project::{build_face_list, project_vertex, transform_vertex, Trig};
use term3d::order::sort_faces;
use term3d::project::FaceRender;
use term3d::scene::{Camera, Mesh, Object};
use term3d::surface::{Cell, Color, Surface};
use term3d::vec::{IVec2, Vec3};

fn cube_object() -> Object {
    Object::new(Mesh::cube())
}

fn cam_at(z: i64) -> Camera {
    Camera::new(Vec3 { x: 0, y: 0, z }, 0, 0)
}

#[test]
fn projection_is_deterministic() {
    let v = Vec3 { x: 512, y: -256, z: 2048 };
    let a = project_vertex(v, 40, 12);
    let b = project_vertex(v, 40, 12);
    assert_eq!(a, b);
}

#[test]
fn projection_shrinks_with_depth() {
    // The same off-axis coordinate at growing depths lands closer and
    // closer to the viewport center.
    let offsets: Vec<i32> = [1024, 2048, 4096, 8192]
        .iter()
        .map(|&z| project_vertex(Vec3 { x: 512, y: 0, z }, 0, 0).x)
        .collect();
    assert_eq!(offsets, vec![100, 50, 25, 12]);
    for w in offsets.windows(2) {
        assert!(w[0].abs() >= w[1].abs());
    }
}

#[test]
fn transform_at_origin_is_identity_up_to_y_compression() {
    let t = Trig::level();
    let v = transform_vertex(
        Vec3 { x: 300, y: 500, z: -700 },
        Vec3 { x: 0, y: 0, z: 0 },
        &t,
    );
    assert_eq!((v.x, v.y, v.z), (300, 250, -700));
}

#[test]
fn cube_in_front_yields_six_visible_quads() {
    // Camera at the origin convention: the whole cube is pushed in
    // front by placing the camera ten units back along z.
    let objects = vec![cube_object()];
    let cam = cam_at(-10 * FP_ONE);
    let faces = build_face_list(&objects, cam.transform.pos, &Trig::level(), 80, 24, 40, 12);
    assert_eq!(faces.len(), 6);
    // Near corners (depth 9 units) and far corners (depth 11 units).
    let near = |x: i32, y: i32| IVec2::new(40 + x, 12 + y);
    let f0 = &faces[0];
    assert_eq!(
        (f0.p1, f0.p2, f0.p3, f0.p4),
        (near(-22, -11), near(22, -11), near(22, 11), near(-22, 11))
    );
    let f1 = &faces[1];
    assert_eq!(
        (f1.p1, f1.p2, f1.p3, f1.p4),
        (near(-18, -9), near(18, -9), near(18, 9), near(-18, 9))
    );
    // Every corner of every face is an on-screen cell, each face keeps
    // its emission rank, and the four corners trace a simple convex
    // quad.
    for (i, f) in faces.iter().enumerate() {
        assert_eq!(f.rank, i);
        for p in [f.p1, f.p2, f.p3, f.p4] {
            assert!(0 <= p.x && p.x <= 80 && 0 <= p.y && p.y <= 24);
        }
        assert!(is_simple_convex_quad([f.p1, f.p2, f.p3, f.p4]));
    }
}

/// The signed area spanned by the turn `o -> a -> b`.
fn turn(o: IVec2, a: IVec2, b: IVec2) -> i64 {
    (a.x - o.x) as i64 * (b.y - a.y) as i64 - (a.y - o.y) as i64 * (b.x - a.x) as i64
}

/// All four corner turns strictly agree in sign: the quad is simple
/// (non-self-intersecting) and convex, with no degenerate corner.
fn is_simple_convex_quad(p: [IVec2; 4]) -> bool {
    let mut positive = 0;
    let mut negative = 0;
    for i in 0..4 {
        let t = turn(p[i], p[(i + 1) % 4], p[(i + 2) % 4]);
        if t > 0 {
            positive += 1;
        }
        if t < 0 {
            negative += 1;
        }
    }
    positive == 4 || negative == 4
}

#[test]
fn cube_behind_camera_is_fully_culled() {
    // Camera ten units past the cube, so every corner has z' < 0.
    let objects = vec![cube_object()];
    let cam = cam_at(10 * FP_ONE);
    let faces = build_face_list(&objects, cam.transform.pos, &Trig::level(), 80, 24, 40, 12);
    assert_eq!(faces.len(), 0);
}

#[test]
fn cube_behind_camera_rasterizes_nothing() {
    let mut s = Surface::new(80, 24);
    let objects = vec![cube_object()];
    let cam = cam_at(10 * FP_ONE);
    render_frame(&mut s, &objects, &cam, &Trig::level());
    for x in 0..80 {
        for y in 0..24 {
            assert_eq!(
                s.cell_at(x, y),
                Cell { glyph: ' ', fg: Color::White, bg: Color::Black }
            );
        }
    }
}

#[test]
fn cube_in_front_fills_the_viewport_center() {
    let mut s = Surface::new(80, 24);
    let objects = vec![cube_object()];
    let cam = cam_at(-10 * FP_ONE);
    render_frame(&mut s, &objects, &cam, &Trig::level());
    // The near face is drawn last (smallest depth metric) and covers the
    // center; untagged faces fill in white on black.
    let center = s.cell_at(40, 12);
    assert_eq!(center.glyph, '#');
    assert_eq!(center.fg, Color::White);
    assert_eq!(center.bg, Color::Black);
    // Cells beyond the far face's box stay blank.
    assert_eq!(s.cell_at(2, 12).glyph, ' ');
    assert_eq!(s.cell_at(78, 12).glyph, ' ');
}

#[test]
fn tagged_face_fills_in_its_own_color() {
    // A mesh of one quad tagged green, squarely in front of the camera.
    let mut m = Mesh::cube();
    m.faces.truncate(1);
    m.faces[0].color = Some(Color::Green);
    let mut s = Surface::new(80, 24);
    let objects = vec![Object::new(m)];
    let cam = cam_at(-10 * FP_ONE);
    render_frame(&mut s, &objects, &cam, &Trig::level());
    let center = s.cell_at(40, 12);
    assert_eq!(center.glyph, '#');
    assert_eq!(center.fg, Color::Green);
}

#[test]
fn projection_saturates_at_the_cell_range() {
    // A point nearly on the camera plane: the offset runs past the
    // cell range and the cell is clamped to the i32 bounds.
    let p = project_vertex(
        Vec3 { x: 1 << 23, y: -(1 << 23), z: 1 },
        2_000_000_000,
        -2_000_000_000,
    );
    assert_eq!(p.x, i32::MAX);
    assert_eq!(p.y, i32::MIN);
}

fn rec(depth: i64, rank: usize) -> FaceRender {
    let p = IVec2::new(0, 0);
    FaceRender { p1: p, p2: p, p3: p, p4: p, color: None, depth, rank }
}

#[test]
fn sort_is_back_to_front() {
    let mut faces = vec![rec(1, 0), rec(5, 1), rec(3, 2)];
    sort_faces(&mut faces);
    let depths: Vec<i64> = faces.iter().map(|f| f.depth).collect();
    assert_eq!(depths, vec![5, 3, 1]);
}

#[test]
fn sort_keeps_emission_order_on_ties() {
    let mut faces = vec![rec(7, 0), rec(2, 1), rec(7, 2), rec(2, 3), rec(9, 4)];
    sort_faces(&mut faces);
    let keys: Vec<(i64, usize)> = faces.iter().map(|f| (f.depth, f.rank)).collect();
    assert_eq!(keys, vec![(9, 4), (7, 0), (7, 2), (2, 1), (2, 3)]);
}

#[test]
fn driver_quits_on_escape_and_rebuilds_on_resize() {
    assert_eq!(frame_action(Some(Input::Character('\u{1b}'))), FrameAction::Quit);
    assert_eq!(frame_action(Some(Input::KeyResize)), FrameAction::RebuildSurface);
    assert_eq!(frame_action(Some(Input::Character('w'))), FrameAction::Continue);
    assert_eq!(frame_action(Some(Input::KeyUp)), FrameAction::Continue);
    assert_eq!(frame_action(None), FrameAction::Continue);
}

#[test]
fn scene_starts_empty_at_origin() {
    let sc = Scene::new();
    assert_eq!(sc.objects.len(), 0);
    assert_eq!(sc.log.len(), 0);
    assert_eq!(sc.cam.transform.pos, Vec3 { x: 0, y: 0, z: 0 });
}
