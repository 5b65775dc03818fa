//! The input aggregator and the per-frame world update it drives.
//!
//! Raw window events arrive as plain values (`InputEvent`); the aggregator
//! accumulates them into a per-frame intent snapshot, and the per-frame
//! update turns the snapshot into camera and light changes, then resets the
//! one-shot intents.  The host event loop performs the actual I/O and hands
//! events and elapsed time in.

use vstd::prelude::*;

use crate::camera::{camera_well_formed, spec_update_position, Camera};
use crate::fixed::{fx_add, fx_div, fx_mul, fx_neg, fx_sub, SCALE};
use crate::obj::{Object, Vec2};
use crate::trig::{spec_wrap_angle, HALF_PI, PI_RAD};
use crate::vector::{spec_v3_len, Vec3};

verus! {

/// A key the camera driver reacts to.
#[derive(Clone, Copy, Debug, PartialEq, Eq, Structural)]
pub enum Key {
    CharW,
    CharS,
    CharA,
    CharD,
    CharL,
    CharC,
    CharR,
    CharT,
    Space,
    Shift,
    Escape,
    Other,
}

/// A mouse button.
#[derive(Clone, Copy, Debug, PartialEq, Eq, Structural)]
pub enum MouseButtonKind {
    Left,
    Right,
    Other,
}

/// One raw window event, as plain values.
#[derive(Clone, Copy, Debug, PartialEq, Eq, Structural)]
pub enum InputEvent {
    Keyboard { key: Key, pressed: bool },
    MouseClick { button: MouseButtonKind, pressed: bool },
    MouseWheel { delta: i64 },
    CursorMoved { x: i64, y: i64 },
}

/// The per-frame input snapshot.
#[derive(Clone, Copy, Debug, PartialEq, Eq, Structural)]
pub struct InputState {
    pub window_size: Vec2,
    /// Cursor position normalized into the unit square.
    pub mouse_pos: Vec2,
    /// Normalized cursor motion since the previous event.
    pub mouse_delta: Vec2,
    pub mouse_scroll_delta: i64,
    pub mouse_left_click: bool,
    pub mouse_right_click: bool,
    pub btn_zoom_in: bool,
    pub btn_zoom_out: bool,
    pub btn_rotate_left: bool,
    pub btn_rotate_right: bool,
    pub btn_move_up: bool,
    pub btn_move_down: bool,
    pub btn_lock_light: bool,
    pub btn_light_color: bool,
    pub btn_texture: bool,
    pub btn_reset: bool,
    pub btn_quit: bool,
}

/// The empty snapshot.
pub open spec fn spec_input_state_new() -> InputState {
    InputState {
        window_size: Vec2 { x: 0, y: 0 },
        mouse_pos: Vec2 { x: 0, y: 0 },
        mouse_delta: Vec2 { x: 0, y: 0 },
        mouse_scroll_delta: 0,
        mouse_left_click: false,
        mouse_right_click: false,
        btn_zoom_in: false,
        btn_zoom_out: false,
        btn_rotate_left: false,
        btn_rotate_right: false,
        btn_move_up: false,
        btn_move_down: false,
        btn_lock_light: false,
        btn_light_color: false,
        btn_texture: false,
        btn_reset: false,
        btn_quit: false,
    }
}

/// Clamp a normalized coordinate into the unit interval.
pub open spec fn clamp_unit(v: int) -> i64 {
    if v < 0 {
        0i64
    } else if v > SCALE {
        SCALE as i64
    } else {
        v as i64
    }
}

/// What one keyboard event changes: the intent bound to the key follows the
/// key's pressed state; everything else is untouched.
pub open spec fn spec_on_keyboard(st: InputState, key: Key, pressed: bool) -> InputState {
    InputState {
        btn_zoom_in: if key == Key::CharW {
            pressed
        } else {
            st.btn_zoom_in
        },
        btn_zoom_out: if key == Key::CharS {
            pressed
        } else {
            st.btn_zoom_out
        },
        btn_rotate_left: if key == Key::CharA {
            pressed
        } else {
            st.btn_rotate_left
        },
        btn_rotate_right: if key == Key::CharD {
            pressed
        } else {
            st.btn_rotate_right
        },
        btn_lock_light: if key == Key::CharL {
            pressed
        } else {
            st.btn_lock_light
        },
        btn_light_color: if key == Key::CharC {
            pressed
        } else {
            st.btn_light_color
        },
        btn_reset: if key == Key::CharR {
            pressed
        } else {
            st.btn_reset
        },
        btn_texture: if key == Key::CharT {
            pressed
        } else {
            st.btn_texture
        },
        btn_move_up: if key == Key::Space {
            pressed
        } else {
            st.btn_move_up
        },
        btn_move_down: if key == Key::Shift {
            pressed
        } else {
            st.btn_move_down
        },
        btn_quit: if key == Key::Escape {
            pressed
        } else {
            st.btn_quit
        },
        ..st
    }
}

/// What one cursor motion changes: the position is normalized against the
/// window size and clamped into the unit square, and the delta is the old
/// position minus the new one.
pub open spec fn spec_on_cursor_moved(st: InputState, x: int, y: int) -> InputState {
    let nx = clamp_unit(fx_div(x, st.window_size.x as int));
    let ny = clamp_unit(fx_div(y, st.window_size.y as int));
    InputState {
        mouse_delta: Vec2 {
            x: fx_sub(st.mouse_pos.x as int, nx as int) as i64,
            y: fx_sub(st.mouse_pos.y as int, ny as int) as i64,
        },
        mouse_pos: Vec2 { x: nx, y: ny },
        ..st
    }
}

/// What one raw event changes, after the window size is recorded.
pub open spec fn spec_handle_input(st: InputState, window_size: Vec2, ev: InputEvent) -> InputState {
    let st1 = InputState { window_size, ..st };
    match ev {
        InputEvent::Keyboard { key, pressed } => spec_on_keyboard(st1, key, pressed),
        InputEvent::MouseClick { button, pressed } => match button {
            MouseButtonKind::Left => InputState { mouse_left_click: pressed, ..st1 },
            MouseButtonKind::Right => InputState { mouse_right_click: pressed, ..st1 },
            MouseButtonKind::Other => st1,
        },
        InputEvent::MouseWheel { delta } => InputState {
            mouse_scroll_delta: fx_add(st1.mouse_scroll_delta as int, delta as int) as i64,
            ..st1
        },
        InputEvent::CursorMoved { x, y } => spec_on_cursor_moved(st1, x as int, y as int),
    }
}

/// What a frame reset clears: motion deltas and the one-shot toggles.
pub open spec fn spec_reset(st: InputState) -> InputState {
    InputState {
        mouse_delta: Vec2 { x: 0, y: 0 },
        mouse_scroll_delta: 0,
        btn_lock_light: false,
        btn_light_color: false,
        btn_texture: false,
        btn_reset: false,
        ..st
    }
}

impl InputState {
    /// The empty snapshot.
    pub fn new() -> (r: InputState)
        ensures
            r == spec_input_state_new(),
    {
        InputState {
            window_size: Vec2 { x: 0, y: 0 },
            mouse_pos: Vec2 { x: 0, y: 0 },
            mouse_delta: Vec2 { x: 0, y: 0 },
            mouse_scroll_delta: 0,
            mouse_left_click: false,
            mouse_right_click: false,
            btn_zoom_in: false,
            btn_zoom_out: false,
            btn_rotate_left: false,
            btn_rotate_right: false,
            btn_move_up: false,
            btn_move_down: false,
            btn_lock_light: false,
            btn_light_color: false,
            btn_texture: false,
            btn_reset: false,
            btn_quit: false,
        }
    }

    /// Fold one raw event into the snapshot.
    #[verifier::rlimit(100)]
    pub fn handle_input(&mut self, window_size: Vec2, event: &InputEvent)
        ensures
            *final(self) == spec_handle_input(*old(self), window_size, *event),
    {
        self.window_size = window_size;
        match event {
            InputEvent::Keyboard { key, pressed } => self.on_keyboard_event(*key, *pressed),
            InputEvent::MouseClick { button, pressed } => self.on_mouse_click_event(
                *button,
                *pressed,
            ),
            InputEvent::CursorMoved { x, y } => self.on_cursor_moved_event(*x, *y),
            InputEvent::MouseWheel { delta } => self.on_mouse_wheel_event(*delta),
        }
    }

    fn on_keyboard_event(&mut self, key: Key, pressed: bool)
        ensures
            *final(self) == spec_on_keyboard(*old(self), key, pressed),
    {
        if key == Key::CharW {
            self.btn_zoom_in = pressed;
        }
        if key == Key::CharS {
            self.btn_zoom_out = pressed;
        }
        if key == Key::CharA {
            self.btn_rotate_left = pressed;
        }
        if key == Key::CharD {
            self.btn_rotate_right = pressed;
        }
        if key == Key::CharL {
            self.btn_lock_light = pressed;
        }
        if key == Key::CharC {
            self.btn_light_color = pressed;
        }
        if key == Key::CharR {
            self.btn_reset = pressed;
        }
        if key == Key::CharT {
            self.btn_texture = pressed;
        }
        if key == Key::Space {
            self.btn_move_up = pressed;
        }
        if key == Key::Shift {
            self.btn_move_down = pressed;
        }
        if key == Key::Escape {
            self.btn_quit = pressed;
        }
    }

    fn on_mouse_click_event(&mut self, button: MouseButtonKind, pressed: bool)
        ensures
            *final(self) == (match button {
                MouseButtonKind::Left => InputState { mouse_left_click: pressed, ..*old(self) },
                MouseButtonKind::Right => InputState { mouse_right_click: pressed, ..*old(self) },
                MouseButtonKind::Other => *old(self),
            }),
    {
        match button {
            MouseButtonKind::Left => self.mouse_left_click = pressed,
            MouseButtonKind::Right => self.mouse_right_click = pressed,
            MouseButtonKind::Other => {},
        }
    }

    fn on_mouse_wheel_event(&mut self, delta: i64)
        ensures
            *final(self) == (InputState {
                mouse_scroll_delta: fx_add(old(self).mouse_scroll_delta as int, delta as int)
                    as i64,
                ..*old(self)
            }),
    {
        self.mouse_scroll_delta = crate::fixed::sat_add(self.mouse_scroll_delta, delta);
    }

    fn on_cursor_moved_event(&mut self, x: i64, y: i64)
        ensures
            *final(self) == spec_on_cursor_moved(*old(self), x as int, y as int),
    {
        let nx = clamp_unit_exec(crate::fixed::sat_div(x, self.window_size.x));
        let ny = clamp_unit_exec(crate::fixed::sat_div(y, self.window_size.y));
        self.mouse_delta = Vec2 {
            x: crate::fixed::sat_sub(self.mouse_pos.x, nx),
            y: crate::fixed::sat_sub(self.mouse_pos.y, ny),
        };
        self.mouse_pos = Vec2 { x: nx, y: ny };
    }

    /// Clear the per-frame deltas and one-shot intents.
    pub fn reset(&mut self)
        ensures
            *final(self) == spec_reset(*old(self)),
    {
        self.mouse_delta = Vec2 { x: 0, y: 0 };
        self.mouse_scroll_delta = 0;
        self.btn_lock_light = false;
        self.btn_light_color = false;
        self.btn_texture = false;
        self.btn_reset = false;
    }
}

/// Clamp a normalized coordinate into the unit interval.
fn clamp_unit_exec(v: i64) -> (r: i64)
    ensures
        r == clamp_unit(v as int),
{
    if v < 0 {
        0
    } else if v > SCALE {
        SCALE
    } else {
        v
    }
}

/// The scene light: a position that can follow the camera, and a palette of
/// selectable colors with intensities.
#[derive(Debug)]
pub struct Light {
    pub position: Vec3,
    pub pos_locked: bool,
    pub colors: Vec<Vec3>,
    /// Palette index and intensity of the main color.
    pub color: (usize, i64),
    /// Palette index and intensity of the ambient color.
    pub ambient_color: (usize, i64),
}

/// The default palette: white, the three primaries, pink, indigo.
pub open spec fn spec_default_palette() -> Seq<Vec3> {
    seq![
        Vec3 { x: SCALE, y: SCALE, z: SCALE },
        Vec3 { x: SCALE, y: 0, z: 0 },
        Vec3 { x: 0, y: SCALE, z: 0 },
        Vec3 { x: 0, y: 0, z: SCALE },
        Vec3 { x: SCALE, y: 552_941, z: 631_372 },
        Vec3 { x: 294_117, y: 0, z: 509_803 },
    ]
}

/// A light whose palette indices are valid.
pub open spec fn light_well_formed(l: Light) -> bool {
    &&& l.colors@.len() >= 1
    &&& l.color.0 < l.colors@.len()
    &&& l.ambient_color.0 < l.colors@.len()
}

/// The fields of the default light.
pub open spec fn is_default_light(l: Light) -> bool {
    &&& l.position == (Vec3 { x: 0, y: 0, z: 10_000_000 })
    &&& l.pos_locked == false
    &&& l.colors@ == spec_default_palette()
    &&& l.color == (0usize, SCALE as i64)
    &&& l.ambient_color == (0usize, 200_000i64)
}

impl Default for Light {
    /// A white light ten units above the origin, following the camera.
    fn default() -> (r: Light)
        ensures
            is_default_light(r),
            light_well_formed(r),
    {
        let mut colors: Vec<Vec3> = Vec::new();
        colors.push(Vec3 { x: SCALE, y: SCALE, z: SCALE });
        colors.push(Vec3 { x: SCALE, y: 0, z: 0 });
        colors.push(Vec3 { x: 0, y: SCALE, z: 0 });
        colors.push(Vec3 { x: 0, y: 0, z: SCALE });
        colors.push(Vec3 { x: SCALE, y: 552_941, z: 631_372 });
        colors.push(Vec3 { x: 294_117, y: 0, z: 509_803 });
        proof {
            assert(colors@ =~= spec_default_palette());
        }
        Light {
            position: Vec3 { x: 0, y: 0, z: 10_000_000 },
            pos_locked: false,
            colors,
            color: (0, SCALE),
            ambient_color: (0, 200_000),
        }
    }
}

/// Per-frame timing: the last frame's duration, the running sums an
/// averaged frame rate is computed from, and that average.  All in
/// fixed-point seconds (or frames).
#[derive(Clone, Copy, Debug, PartialEq, Eq, Structural)]
pub struct TimeInfo {
    pub dt: i64,
    pub dt_sum: i64,
    pub frame_count: i64,
    pub avg_fps: i64,
}

impl Default for TimeInfo {
    fn default() -> (r: TimeInfo)
        ensures
            r == (TimeInfo { dt: 0, dt_sum: 0, frame_count: 0, avg_fps: 0 }),
    {
        TimeInfo { dt: 0, dt_sum: 0, frame_count: 0, avg_fps: 0 }
    }
}

/// The larger of two scalars.
pub open spec fn imax(a: i64, b: i64) -> i64 {
    if a > b {
        a
    } else {
        b
    }
}

/// The elevation clamped strictly inside the poles (a tenth of a radian
/// short of each).
pub open spec fn clamp_phi(v: int) -> i64 {
    if v > HALF_PI - 100_000 {
        (HALF_PI - 100_000) as i64
    } else if v < -(HALF_PI - 100_000) {
        (-(HALF_PI - 100_000)) as i64
    } else {
        v as i64
    }
}

/// What one frame of input does to the camera: zoom, orbit, raise or lower
/// the target, mouse orbiting with the elevation clamped at the poles,
/// scroll zoom with the distance kept nonnegative; then the position is
/// recomputed, and a reset intent reframes the whole camera around the
/// mesh.
pub open spec fn spec_drive_camera(
    cam: Camera,
    st: InputState,
    dt: i64,
    size: Vec3,
    center: Vec3,
) -> Camera {
    let speed = fx_mul(dt as int, spec_v3_len(size));
    let d1 = if st.btn_zoom_in {
        let d = fx_sub(cam.distance as int, speed);
        if d < 0 {
            0
        } else {
            d
        }
    } else {
        cam.distance as int
    };
    let d2 = if st.btn_zoom_out {
        fx_add(d1, speed)
    } else {
        d1
    };
    let t1 = if st.btn_rotate_left {
        spec_wrap_angle(fx_sub(cam.theta as int, fx_mul(PI_RAD as int, dt as int)))
    } else {
        cam.theta as int
    };
    let t2 = if st.btn_rotate_right {
        spec_wrap_angle(fx_add(t1, fx_mul(PI_RAD as int, dt as int)))
    } else {
        t1
    };
    let ty1 = if st.btn_move_up {
        fx_add(cam.target.y as int, speed)
    } else {
        cam.target.y as int
    };
    let ty2 = if st.btn_move_down {
        fx_sub(ty1, speed)
    } else {
        ty1
    };
    let t3 = if st.mouse_left_click {
        spec_wrap_angle(fx_add(t2, fx_neg(fx_mul(st.mouse_delta.x as int, 10_000_000))))
    } else {
        t2
    };
    let p1 = if st.mouse_left_click {
        clamp_phi(fx_add(cam.phi as int, fx_neg(fx_mul(st.mouse_delta.y as int, 10_000_000))))
            as int
    } else {
        cam.phi as int
    };
    let d3 = if st.mouse_scroll_delta != 0 {
        fx_add(d2, fx_neg(st.mouse_scroll_delta as int))
    } else {
        d2
    };
    let d4 = if d3 < 0 {
        0
    } else {
        d3
    };
    let moved = Camera {
        position: cam.position,
        target: Vec3 { x: cam.target.x, y: ty2 as i64, z: cam.target.z },
        distance: d4 as i64,
        theta: t3 as i64,
        phi: p1 as i64,
    };
    if st.btn_reset {
        let m = imax(size.x, imax(size.y, size.z));
        let rd = fx_mul(5_000_000, m as int);
        Camera {
            position: Vec3 { x: 0, y: 0, z: 0 },
            target: center,
            distance: if rd < 0 {
                0
            } else {
                rd as i64
            },
            theta: HALF_PI,
            phi: 0,
        }
    } else {
        spec_update_position(moved)
    }
}

/// Apply one frame of input to the camera.
fn drive_camera(cam: Camera, st: &InputState, dt: i64, size: Vec3, center: Vec3) -> (r: Camera)
    ensures
        r == spec_drive_camera(cam, *st, dt, size, center),
        camera_well_formed(cam) ==> camera_well_formed(r),
{
    let speed = crate::fixed::sat_mul(dt, size.length());
    let mut c = cam;
    if st.btn_zoom_in {
        c.distance = crate::fixed::sat_sub(c.distance, speed);
        if c.distance < 0 {
            c.distance = 0;
        }
    }
    if st.btn_zoom_out {
        c.distance = crate::fixed::sat_add(c.distance, speed);
    }
    if st.btn_rotate_left {
        c.theta = crate::trig::wrap_angle(
            crate::fixed::sat_sub(c.theta, crate::fixed::sat_mul(PI_RAD, dt)),
        );
    }
    if st.btn_rotate_right {
        c.theta = crate::trig::wrap_angle(
            crate::fixed::sat_add(c.theta, crate::fixed::sat_mul(PI_RAD, dt)),
        );
    }
    if st.btn_move_up {
        c.target.y = crate::fixed::sat_add(c.target.y, speed);
    }
    if st.btn_move_down {
        c.target.y = crate::fixed::sat_sub(c.target.y, speed);
    }
    if st.mouse_left_click {
        c.theta = crate::trig::wrap_angle(
            crate::fixed::sat_add(
                c.theta,
                crate::fixed::sat_neg(crate::fixed::sat_mul(st.mouse_delta.x, 10_000_000)),
            ),
        );
        let p = crate::fixed::sat_add(
            c.phi,
            crate::fixed::sat_neg(crate::fixed::sat_mul(st.mouse_delta.y, 10_000_000)),
        );
        c.phi = if p > HALF_PI - 100_000 {
            HALF_PI - 100_000
        } else if p < -(HALF_PI - 100_000) {
            -(HALF_PI - 100_000)
        } else {
            p
        };
    }
    if st.mouse_scroll_delta != 0 {
        c.distance = crate::fixed::sat_add(
            c.distance,
            crate::fixed::sat_neg(st.mouse_scroll_delta),
        );
    }
    if c.distance < 0 {
        c.distance = 0;
    }
    if st.btn_reset {
        let m = if size.x > size.y {
            size.x
        } else {
            size.y
        };
        let m = if m > size.z {
            m
        } else {
            size.z
        };
        let rd = crate::fixed::sat_mul(5_000_000, m);
        Camera {
            position: Vec3 { x: 0, y: 0, z: 0 },
            target: center,
            distance: if rd < 0 {
                0
            } else {
                rd
            },
            theta: HALF_PI,
            phi: 0,
        }
    } else {
        c.update_position();
        c
    }
}

/// The per-frame world state the renderer reads: the camera, the light, the
/// current input snapshot, timing, and whether the texture is applied.
#[derive(Debug)]
pub struct RenderContext {
    pub camera: Camera,
    pub light: Light,
    pub input_state: InputState,
    pub time_info: TimeInfo,
    pub use_texture: bool,
}

impl RenderContext {
    /// A context with every component in its default state.
    pub fn new() -> (r: RenderContext)
        ensures
            r.camera == (Camera {
                position: Vec3 { x: 0, y: 0, z: 0 },
                target: Vec3 { x: 0, y: 0, z: 0 },
                distance: SCALE,
                theta: HALF_PI,
                phi: 0,
            }),
            is_default_light(r.light),
            r.input_state == spec_input_state_new(),
            r.time_info == (TimeInfo { dt: 0, dt_sum: 0, frame_count: 0, avg_fps: 0 }),
            r.use_texture == true,
            light_well_formed(r.light),
            camera_well_formed(r.camera),
    {
        RenderContext {
            camera: Camera::default(),
            light: Light::default(),
            input_state: InputState::new(),
            time_info: TimeInfo::default(),
            use_texture: true,
        }
    }

    /// Apply the frame's accumulated input: drive the camera, toggle and
    /// advance the light, toggle the texture, recompute the camera position,
    /// let an unlocked light follow the camera, and honor a reset intent.
    pub fn update_state_after_inputs(&mut self, object: &Object)
        requires
            light_well_formed(old(self).light),
        ensures
            final(self).camera == spec_drive_camera(
                old(self).camera,
                old(self).input_state,
                old(self).time_info.dt,
                object.size,
                object.center,
            ),
            camera_well_formed(old(self).camera) ==> camera_well_formed(final(self).camera),
            light_well_formed(final(self).light),
            old(self).input_state.btn_reset ==> is_default_light(final(self).light),
            !old(self).input_state.btn_reset ==> ({
                let l0 = old(self).light;
                let locked = if old(self).input_state.btn_lock_light {
                    !l0.pos_locked
                } else {
                    l0.pos_locked
                };
                &&& final(self).light.pos_locked == locked
                &&& final(self).light.colors@ == l0.colors@
                &&& final(self).light.color.0 == (if old(self).input_state.btn_light_color {
                    (l0.color.0 + 1) % l0.colors@.len() as int
                } else {
                    l0.color.0 as int
                })
                &&& final(self).light.color.1 == l0.color.1
                &&& final(self).light.ambient_color == l0.ambient_color
                &&& final(self).light.position == (if !locked {
                    final(self).camera.position
                } else {
                    l0.position
                })
            }),
            final(self).use_texture == (if old(self).input_state.btn_texture {
                !old(self).use_texture
            } else {
                old(self).use_texture
            }),
            final(self).input_state == old(self).input_state,
            final(self).time_info == old(self).time_info,
    {
        if self.input_state.btn_lock_light {
            self.light.pos_locked = !self.light.pos_locked;
        }
        if self.input_state.btn_light_color {
            let n = self.light.colors.len();
            self.light.color.0 = (self.light.color.0 + 1) % n;
        }
        if self.input_state.btn_texture {
            self.use_texture = !self.use_texture;
        }
        self.camera = drive_camera(
            self.camera,
            &self.input_state,
            self.time_info.dt,
            object.size,
            object.center,
        );
        if !self.light.pos_locked {
            self.light.position = self.camera.position;
        }
        if self.input_state.btn_reset {
            self.light = Light::default();
        }
    }

    /// The running average frame rate.
    pub fn avg_fps(&self) -> (r: i64)
        ensures
            r == self.time_info.avg_fps,
    {
        self.time_info.avg_fps
    }

    /// Account one frame of `dt` elapsed seconds: once a whole second has
    /// accumulated, publish the average frame rate and restart the window.
    pub fn update_time(&mut self, dt: i64)
        ensures
            ({
                let t0 = old(self).time_info;
                let published = t0.dt_sum > SCALE;
                let base = if published {
                    TimeInfo {
                        avg_fps: fx_div(t0.frame_count as int, t0.dt_sum as int) as i64,
                        frame_count: 0,
                        dt_sum: 0,
                        ..t0
                    }
                } else {
                    t0
                };
                final(self).time_info == (TimeInfo {
                    dt,
                    dt_sum: fx_add(base.dt_sum as int, dt as int) as i64,
                    frame_count: fx_add(base.frame_count as int, SCALE as int) as i64,
                    avg_fps: base.avg_fps,
                })
            }),
            final(self).camera == old(self).camera,
            final(self).input_state == old(self).input_state,
            final(self).use_texture == old(self).use_texture,
    {
        if self.time_info.dt_sum > SCALE {
            self.time_info.avg_fps = crate::fixed::sat_div(
                self.time_info.frame_count,
                self.time_info.dt_sum,
            );
            self.time_info.frame_count = 0;
            self.time_info.dt_sum = 0;
        }
        self.time_info.dt = dt;
        self.time_info.dt_sum = crate::fixed::sat_add(self.time_info.dt_sum, dt);
        self.time_info.frame_count = crate::fixed::sat_add(self.time_info.frame_count, SCALE);
    }
}

} // verus!
