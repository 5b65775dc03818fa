//! Tests of the orbit camera and the input-driven world update.

use obj_mesh::camera::Camera;
use obj_mesh::fixed::SCALE;
use obj_mesh::input::{InputEvent, InputState, Key, MouseButtonKind, RenderContext};
use obj_mesh::obj::{Object, Vec2};
use obj_mesh::trig::HALF_PI;
use obj_mesh::vector::Vec3;

const ONE: i64 = SCALE;

#[test]
fn update_position_at_zero_angles_points_down_x() {
    let mut c = Camera {
        position: Vec3 { x: 0, y: 0, z: 0 },
        target: Vec3 { x: 0, y: 0, z: 0 },
        distance: 5 * ONE,
        theta: 0,
        phi: 0,
    };
    c.update_position();
    assert_eq!((c.position.x, c.position.y, c.position.z), (5 * ONE, 0, 0));
}

#[test]
fn update_position_respects_the_target() {
    let mut c = Camera {
        position: Vec3 { x: 0, y: 0, z: 0 },
        target: Vec3 { x: ONE, y: 2 * ONE, z: 3 * ONE },
        distance: 2 * ONE,
        theta: 0,
        phi: 0,
    };
    c.update_position();
    assert_eq!((c.position.x, c.position.y, c.position.z), (3 * ONE, 2 * ONE, 3 * ONE));
}

#[test]
fn target_dir_is_the_unit_vector_from_target_to_camera() {
    let c = Camera {
        position: Vec3 { x: 3 * ONE, y: 4 * ONE, z: 0 },
        target: Vec3 { x: 0, y: 0, z: 0 },
        distance: 5 * ONE,
        theta: 0,
        phi: 0,
    };
    let d = c.target_dir();
    assert_eq!((d.x, d.y, d.z), (3 * ONE / 5, 4 * ONE / 5, 0));
}

#[test]
fn view_matrix_for_straight_ahead() {
    let c = Camera {
        position: Vec3 { x: 0, y: 0, z: 5 * ONE },
        target: Vec3 { x: 0, y: 0, z: 0 },
        distance: 5 * ONE,
        theta: 0,
        phi: 0,
    };
    // looking along -z: w = (0,0,-1), u = cross(w, up) normalized = (1,0,0),
    // v = cross(w, u) = (0,-1,0)
    let m = c.direction_view_matrix(Vec3 { x: 0, y: 0, z: -ONE });
    assert_eq!(m.m[0], ONE); // u.x
    assert_eq!(m.m[5], -ONE); // v.y
    assert_eq!(m.m[10], -ONE); // w.z
    // translation row encodes -dot(w, position) = 5
    assert_eq!(m.m[12], 0);
    assert_eq!(m.m[13], 0);
    assert_eq!(m.m[14], 5 * ONE);
    assert_eq!(m.m[15], ONE);
}

#[test]
fn key_events_set_and_clear_intents() {
    let mut st = InputState::new();
    let win = Vec2 { x: 800 * ONE, y: 600 * ONE };
    st.handle_input(win, &InputEvent::Keyboard { key: Key::CharW, pressed: true });
    assert!(st.btn_zoom_in);
    st.handle_input(win, &InputEvent::Keyboard { key: Key::CharW, pressed: false });
    assert!(!st.btn_zoom_in);
    st.handle_input(win, &InputEvent::Keyboard { key: Key::Escape, pressed: true });
    assert!(st.btn_quit);
    st.handle_input(win, &InputEvent::MouseClick { button: MouseButtonKind::Left, pressed: true });
    assert!(st.mouse_left_click);
    st.handle_input(win, &InputEvent::MouseWheel { delta: 2 * ONE });
    st.handle_input(win, &InputEvent::MouseWheel { delta: ONE });
    assert_eq!(st.mouse_scroll_delta, 3 * ONE);
}

#[test]
fn cursor_motion_is_normalized_and_clamped() {
    let mut st = InputState::new();
    let win = Vec2 { x: 800 * ONE, y: 600 * ONE };
    st.handle_input(win, &InputEvent::CursorMoved { x: 400 * ONE, y: 600 * ONE });
    assert_eq!(st.mouse_pos.x, ONE / 2);
    assert_eq!(st.mouse_pos.y, ONE);
    // moving outside the window pins the position to the unit square
    st.handle_input(win, &InputEvent::CursorMoved { x: 900 * ONE, y: -ONE });
    assert_eq!(st.mouse_pos.x, ONE);
    assert_eq!(st.mouse_pos.y, 0);
    // the delta is old position minus new position
    assert_eq!(st.mouse_delta.x, -ONE / 2);
    assert_eq!(st.mouse_delta.y, ONE);
}

#[test]
fn reset_clears_only_the_one_shot_state() {
    let mut st = InputState::new();
    let win = Vec2 { x: 800 * ONE, y: 600 * ONE };
    st.handle_input(win, &InputEvent::Keyboard { key: Key::CharW, pressed: true });
    st.handle_input(win, &InputEvent::Keyboard { key: Key::CharR, pressed: true });
    st.handle_input(win, &InputEvent::MouseWheel { delta: ONE });
    st.reset();
    assert!(st.btn_zoom_in); // held keys survive a frame reset
    assert!(!st.btn_reset);
    assert_eq!(st.mouse_scroll_delta, 0);
    assert_eq!(st.mouse_delta.x, 0);
}

fn unit_triangle() -> Object {
    Object::parse("v 0 0 0\nv 1 0 0\nv 0 1 0\nf 1 2 3\n").unwrap()
}

#[test]
fn elevation_saturates_at_the_poles() {
    let obj = unit_triangle();
    let mut rc = RenderContext::new();
    // a hard upward mouse drag, far past the pole
    rc.input_state.mouse_left_click = true;
    rc.input_state.mouse_delta = Vec2 { x: 0, y: -ONE };
    rc.update_state_after_inputs(&obj);
    assert_eq!(rc.camera.phi, HALF_PI - 100_000);
    // and the same downward
    rc.input_state.mouse_delta = Vec2 { x: 0, y: ONE };
    rc.update_state_after_inputs(&obj);
    rc.update_state_after_inputs(&obj);
    assert_eq!(rc.camera.phi, -(HALF_PI - 100_000));
}

#[test]
fn zooming_never_passes_the_target() {
    let obj = unit_triangle();
    let mut rc = RenderContext::new();
    rc.time_info.dt = 10 * ONE; // a very long frame
    rc.input_state.btn_zoom_in = true;
    rc.update_state_after_inputs(&obj);
    assert_eq!(rc.camera.distance, 0);
}

#[test]
fn reset_reframes_the_camera_around_the_mesh() {
    let obj = unit_triangle();
    let mut rc = RenderContext::new();
    rc.camera.theta = 1234;
    rc.camera.phi = 4321;
    rc.input_state.btn_reset = true;
    rc.update_state_after_inputs(&obj);
    assert_eq!(rc.camera.target.x, obj.center.x);
    assert_eq!(rc.camera.target.y, obj.center.y);
    // five times the largest extent (the unit triangle spans one unit)
    assert_eq!(rc.camera.distance, 5 * ONE);
    assert_eq!(rc.camera.theta, HALF_PI);
    assert_eq!(rc.camera.phi, 0);
    // the light is restored to its defaults too
    assert!(!rc.light.pos_locked);
    assert_eq!(rc.light.color.0, 0);
}

#[test]
fn light_follows_an_unlocked_camera_and_cycles_colors() {
    let obj = unit_triangle();
    let mut rc = RenderContext::new();
    rc.update_state_after_inputs(&obj);
    assert_eq!(rc.light.position.x, rc.camera.position.x);
    // locking pins the light in place
    rc.input_state.btn_lock_light = true;
    rc.update_state_after_inputs(&obj);
    assert!(rc.light.pos_locked);
    // cycling advances the palette index modulo its size
    rc.input_state.btn_lock_light = false;
    rc.input_state.btn_light_color = true;
    rc.update_state_after_inputs(&obj);
    assert_eq!(rc.light.color.0, 1);
    for _ in 0..5 {
        rc.update_state_after_inputs(&obj);
    }
    assert_eq!(rc.light.color.0, 0);
}

#[test]
fn frame_time_accumulates_into_an_average() {
    let mut rc = RenderContext::new();
    // five quarter-second frames push the sum past one second
    for _ in 0..6 {
        rc.update_time(ONE / 4);
    }
    // the sixth frame publishes the average: 5 frames over 1.25 s
    assert_eq!(rc.avg_fps(), 4 * ONE);
    assert_eq!(rc.time_info.dt, ONE / 4);
}
