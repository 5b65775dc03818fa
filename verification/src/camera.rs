//! The spherical orbit camera: a look-at target, a distance and two angles,
//! from which a Cartesian position and an orthonormal view matrix are
//! derived.

use vstd::prelude::*;

use crate::fixed::{fx_add, fx_mul, fx_neg, SCALE};
use crate::matrix::{mat_wf, Mat4};
use crate::trig::{spec_cos, spec_sin, HALF_PI, TWO_PI};
use crate::vector::{spec_v3_cross, spec_v3_dot, spec_v3_normalize, spec_v3_sub, Vec3};

verus! {

/// An orbiting camera.  `position` is derived from the other four fields by
/// `update_position`, which must run after any of them changes.
#[derive(Clone, Copy, Debug, PartialEq, Eq, Structural)]
pub struct Camera {
    pub position: Vec3,
    pub target: Vec3,
    /// Distance from the target, nonnegative.
    pub distance: i64,
    /// Azimuth in micro-radians, reduced into `[0, 2*pi)`.
    pub theta: i64,
    /// Elevation in micro-radians, strictly between the poles.
    pub phi: i64,
}

/// The invariant the camera's driver maintains: nonnegative distance,
/// azimuth reduced into a full turn, elevation strictly inside the open
/// range around level (a tenth of a radian short of each pole).
pub open spec fn camera_well_formed(c: Camera) -> bool {
    &&& c.distance >= 0
    &&& 0 <= c.theta < TWO_PI
    &&& -(HALF_PI - 100_000) <= c.phi <= HALF_PI - 100_000
}

/// The spherical-to-Cartesian position:
/// `target + distance * (cos phi cos theta, sin phi, cos phi sin theta)`.
pub open spec fn spec_update_position(c: Camera) -> Camera {
    let cp = spec_cos(c.phi as int);
    let sp = spec_sin(c.phi as int);
    let ct = spec_cos(c.theta as int);
    let st = spec_sin(c.theta as int);
    Camera {
        position: Vec3 {
            x: fx_add(c.target.x as int, fx_mul(fx_mul(c.distance as int, cp), ct)) as i64,
            y: fx_add(c.target.y as int, fx_mul(c.distance as int, sp)) as i64,
            z: fx_add(c.target.z as int, fx_mul(fx_mul(c.distance as int, cp), st)) as i64,
        },
        ..c
    }
}

/// The orthonormal view basis built from a forward direction `w` and world
/// up: `u = normalize(cross(w, up))`, `v = cross(w, u)`, rotation columns
/// `u, v, w` and translation row `-dot(u, p), -dot(v, p), -dot(w, p)`.
pub open spec fn spec_direction_view(c: Camera, direction: Vec3) -> Seq<i64> {
    let w = spec_v3_normalize(direction);
    let u = spec_v3_normalize(spec_v3_cross(w, Vec3 { x: 0, y: SCALE, z: 0 }));
    let v = spec_v3_cross(w, u);
    seq![
        u.x, v.x, w.x, 0,
        u.y, v.y, w.y, 0,
        u.z, v.z, w.z, 0,
        fx_neg(spec_v3_dot(u, c.position)) as i64,
        fx_neg(spec_v3_dot(v, c.position)) as i64,
        fx_neg(spec_v3_dot(w, c.position)) as i64,
        SCALE,
    ]
}

impl Default for Camera {
    /// The camera the scene starts from: a unit away from the origin, a
    /// quarter turn of azimuth, level elevation.
    fn default() -> (r: Camera)
        ensures
            r == (Camera {
                position: Vec3 { x: 0, y: 0, z: 0 },
                target: Vec3 { x: 0, y: 0, z: 0 },
                distance: SCALE,
                theta: HALF_PI,
                phi: 0,
            }),
            camera_well_formed(r),
    {
        Camera {
            position: Vec3 { x: 0, y: 0, z: 0 },
            target: Vec3 { x: 0, y: 0, z: 0 },
            distance: SCALE,
            theta: HALF_PI,
            phi: 0,
        }
    }
}

impl Camera {
    /// Recompute `position` from target, distance and the two angles.
    pub fn update_position(&mut self)
        ensures
            *final(self) == spec_update_position(*old(self)),
            final(self).target == old(self).target,
            final(self).distance == old(self).distance,
            final(self).theta == old(self).theta,
            final(self).phi == old(self).phi,
    {
        let cp = crate::trig::cos(self.phi);
        let sp = crate::trig::sin(self.phi);
        let ct = crate::trig::cos(self.theta);
        let st = crate::trig::sin(self.theta);
        self.position = Vec3 {
            x: crate::fixed::sat_add(
                self.target.x,
                crate::fixed::sat_mul(crate::fixed::sat_mul(self.distance, cp), ct),
            ),
            y: crate::fixed::sat_add(self.target.y, crate::fixed::sat_mul(self.distance, sp)),
            z: crate::fixed::sat_add(
                self.target.z,
                crate::fixed::sat_mul(crate::fixed::sat_mul(self.distance, cp), st),
            ),
        };
    }

    /// The unit direction from the target toward the camera.
    pub fn target_dir(&self) -> (r: Vec3)
        ensures
            r == spec_v3_normalize(spec_v3_sub(self.position, self.target)),
    {
        self.position.sub(&self.target).normalize()
    }

    /// The view matrix looking along `direction` with world up `(0, 1, 0)`.
    /// A direction parallel to world up gives a degenerate (zero) horizontal
    /// basis vector rather than an error.
    pub fn direction_view_matrix(&self, direction: Vec3) -> (r: Mat4)
        ensures
            mat_wf(r),
            r.m@ == spec_direction_view(*self, direction),
    {
        let w = direction.normalize();
        let u = Vec3::cross(&w, &Vec3 { x: 0, y: SCALE, z: 0 }).normalize();
        let v = Vec3::cross(&w, &u);
        let mut m: Vec<i64> = Vec::new();
        m.push(u.x);
        m.push(v.x);
        m.push(w.x);
        m.push(0);
        m.push(u.y);
        m.push(v.y);
        m.push(w.y);
        m.push(0);
        m.push(u.z);
        m.push(v.z);
        m.push(w.z);
        m.push(0);
        m.push(crate::fixed::sat_neg(Vec3::dot(&u, &self.position)));
        m.push(crate::fixed::sat_neg(Vec3::dot(&v, &self.position)));
        m.push(crate::fixed::sat_neg(Vec3::dot(&w, &self.position)));
        m.push(SCALE);
        proof {
            assert(m@ =~= spec_direction_view(*self, direction));
        }
        Mat4 { m }
    }
}

} // verus!
