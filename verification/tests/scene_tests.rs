use term3d::frame::Scene;
use term3d::log::{age_messages, push_message, LogMessage, LOG_LIFETIME_MS};
use term3d::num::{clamp_to_i32, div_trunc, FP_ONE};
use term3d::scene::{Camera, Input, Mesh, Object, Transform};
use term3d::surface::Color;
use term3d::vec::{perp_ivec2, IVec2, Vec3};

fn camera() -> Camera {
    Camera::new(Vec3 { x: 0, y: 0, z: 0 }, 0, 0)
}

#[test]
fn walking_forward_follows_the_yaw() {
    // Yaw of 90 degrees: sin = 1, cos = 0 in fixed point, so forward is
    // along +x.
    let mut cam = camera();
    cam.update(Some(Input::Character('w')), 2 * FP_ONE, FP_ONE, 0);
    assert_eq!(cam.transform.pos, Vec3 { x: 2 * FP_ONE, y: 0, z: 0 });
    // Strafing right from there goes along -z.
    cam.update(Some(Input::Character('d')), 2 * FP_ONE, FP_ONE, 0);
    assert_eq!(cam.transform.pos, Vec3 { x: 2 * FP_ONE, y: 0, z: -2 * FP_ONE });
}

#[test]
fn walking_backward_at_zero_yaw() {
    let mut cam = camera();
    cam.update(Some(Input::Character('s')), 100, 0, FP_ONE);
    assert_eq!(cam.transform.pos, Vec3 { x: 0, y: 0, z: -100 });
    cam.update(Some(Input::Character('a')), 100, 0, FP_ONE);
    assert_eq!(cam.transform.pos, Vec3 { x: -100, y: 0, z: -100 });
}

#[test]
fn vertical_motion_and_turns() {
    let mut cam = camera();
    cam.update(Some(Input::Character('q')), 64, 0, FP_ONE);
    cam.update(Some(Input::Character('e')), 16, 0, FP_ONE);
    assert_eq!(cam.transform.pos.y, 48);
    cam.update(Some(Input::KeyUp), 10, 0, FP_ONE);
    cam.update(Some(Input::KeyDown), 4, 0, FP_ONE);
    cam.update(Some(Input::KeyLeft), 3, 0, FP_ONE);
    cam.update(Some(Input::KeyRight), 8, 0, FP_ONE);
    assert_eq!(cam.transform.pitch, -6);
    assert_eq!(cam.transform.yaw, 5);
}

#[test]
fn unknown_input_leaves_the_camera_alone() {
    let mut cam = camera();
    cam.update(Some(Input::Character('x')), 100, 0, FP_ONE);
    cam.update(Some(Input::KeyResize), 100, 0, FP_ONE);
    cam.update(None, 100, 0, FP_ONE);
    assert_eq!(cam.transform, Transform::new());
}

#[test]
fn cube_has_eight_corners_and_six_faces() {
    let m = Mesh::cube();
    assert_eq!(m.verts.len(), 8);
    assert_eq!(m.faces.len(), 6);
    assert_eq!(m.verts[0], Vec3 { x: -FP_ONE, y: -FP_ONE, z: -FP_ONE });
    assert_eq!(m.verts[6], Vec3 { x: FP_ONE, y: FP_ONE, z: FP_ONE });
    let f = m.faces[2];
    assert_eq!((f.a, f.b, f.c, f.d), (0, 1, 5, 4));
    assert!(f.color.is_none());
    let o = Object::new(m);
    assert_eq!(o.transform.pos, Vec3 { x: 0, y: 0, z: 0 });
}

#[test]
fn expired_message_is_removed_and_fresh_one_survives() {
    let mut log: Vec<LogMessage> = Vec::new();
    push_message(&mut log, String::from("old"), Color::Green, 24);
    age_messages(&mut log, 5_000);
    push_message(&mut log, String::from("fresh"), Color::Red, 24);
    // Cumulative lifetime spent on "old": 5.0s + 5.1s = 10.1s of its
    // 10s lifetime, so exactly it expires; "fresh" lives on.
    age_messages(&mut log, 5_100);
    assert_eq!(log.len(), 1);
    assert_eq!(log[0].text, "fresh");
    assert_eq!(log[0].remaining_ms, LOG_LIFETIME_MS - 5_100);
}

#[test]
fn message_expires_the_frame_its_lifetime_reaches_zero() {
    let mut log: Vec<LogMessage> = Vec::new();
    push_message(&mut log, String::from("edge"), Color::White, 24);
    age_messages(&mut log, LOG_LIFETIME_MS - 1);
    assert_eq!(log.len(), 1);
    assert_eq!(log[0].remaining_ms, 1);
    // The decrement that lands exactly on zero already removes it.
    age_messages(&mut log, 1);
    assert_eq!(log.len(), 0);
}

#[test]
fn log_is_capped_to_the_screen_height() {
    let mut sc = Scene::new();
    sc.log(String::from("a"), Color::White, 2);
    sc.log(String::from("b"), Color::White, 2);
    sc.log(String::from("c"), Color::White, 2);
    assert_eq!(sc.log.len(), 2);
    assert_eq!(sc.log[0].text, "c");
    assert_eq!(sc.log[1].text, "b");
}

#[test]
fn perp_and_dot_products() {
    let v = IVec2::new(3, 4);
    let p = v.perp();
    assert_eq!(p.tuple(), (4, -3));
    assert_eq!(perp_ivec2(&v).tuple(), (4, -3));
    assert_eq!(v.dot(&IVec2::new(2, -1)), 2);
    // perp-dot is the 2D cross product: perpendicular vectors give the
    // signed parallelogram area, parallel ones give zero.
    assert_eq!(v.perp_dot(&IVec2::new(3, 4)), 0);
    assert_eq!(IVec2::new(1, 0).perp_dot(&IVec2::new(0, 1)), -1);
}

#[test]
fn truncating_division_rounds_toward_zero() {
    assert_eq!(div_trunc(7, 2), 3);
    assert_eq!(div_trunc(-7, 2), -3);
    assert_eq!(div_trunc(0, 5), 0);
    assert_eq!(clamp_to_i32(1 << 40), i32::MAX);
    assert_eq!(clamp_to_i32(-(1 << 40)), i32::MIN);
    assert_eq!(clamp_to_i32(-12), -12);
}
