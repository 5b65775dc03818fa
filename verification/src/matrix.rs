//! Row-major 4x4 matrices over fixed-point scalars: identity and the
//! standard transform constructors, addition, and multiplication.

use vstd::prelude::*;

use crate::fixed::{fx_add, fx_div, fx_mul, fx_neg, fx_sub, sat_add, sat_div, sat_mul, SCALE};
use crate::trig::{spec_cos, spec_sin, spec_tan};

verus! {

/// A row-major 4x4 matrix: entry `(i, j)` lives at `m[i * 4 + j]`.
#[derive(Clone, Debug)]
pub struct Mat4 {
    pub m: Vec<i64>,
}

/// A well-formed matrix holds exactly sixteen entries.
pub open spec fn mat_wf(a: Mat4) -> bool {
    a.m@.len() == 16
}

/// The identity matrix.
pub open spec fn spec_mat_identity() -> Seq<i64> {
    seq![
        SCALE, 0, 0, 0,
        0, SCALE, 0, 0,
        0, 0, SCALE, 0,
        0, 0, 0, SCALE,
    ]
}

/// One entry of a matrix product: the dot product of row `i` of `a` with
/// column `j` of `b`, accumulated left to right from zero.
pub open spec fn spec_mat_entry(a: Seq<i64>, b: Seq<i64>, i: int, j: int) -> i64 {
    fx_add(
        fx_add(
            fx_add(
                fx_add(0, fx_mul(a[i * 4] as int, b[j] as int)),
                fx_mul(a[i * 4 + 1] as int, b[4 + j] as int),
            ),
            fx_mul(a[i * 4 + 2] as int, b[8 + j] as int),
        ),
        fx_mul(a[i * 4 + 3] as int, b[12 + j] as int),
    ) as i64
}

/// The matrix product.
pub open spec fn spec_mat_mul(a: Seq<i64>, b: Seq<i64>) -> Seq<i64> {
    Seq::new(16, |n: int| spec_mat_entry(a, b, n / 4, n % 4))
}

/// The componentwise sum.
pub open spec fn spec_mat_add(a: Seq<i64>, b: Seq<i64>) -> Seq<i64> {
    Seq::new(16, |n: int| fx_add(a[n] as int, b[n] as int) as i64)
}

impl Mat4 {
    /// The identity matrix.
    pub fn identity() -> (r: Mat4)
        ensures
            r.m@ == spec_mat_identity(),
            mat_wf(r),
    {
        let mut m: Vec<i64> = Vec::new();
        m.push(SCALE);
        m.push(0);
        m.push(0);
        m.push(0);
        m.push(0);
        m.push(SCALE);
        m.push(0);
        m.push(0);
        m.push(0);
        m.push(0);
        m.push(SCALE);
        m.push(0);
        m.push(0);
        m.push(0);
        m.push(0);
        m.push(SCALE);
        proof {
            assert(m@ =~= spec_mat_identity());
        }
        Mat4 { m }
    }

    /// A diagonal scaling matrix.
    pub fn scale(x: i64, y: i64, z: i64) -> (r: Mat4)
        ensures
            mat_wf(r),
            r.m@ == spec_mat_identity().update(0, x).update(5, y).update(10, z),
    {
        let mut r = Mat4::identity();
        r.m[0] = x;
        r.m[5] = y;
        r.m[10] = z;
        proof {
            assert(r.m@ =~= spec_mat_identity().update(0, x).update(5, y).update(10, z));
        }
        r
    }

    /// A translation matrix (translation in the last column).
    pub fn translation(x: i64, y: i64, z: i64) -> (r: Mat4)
        ensures
            mat_wf(r),
            r.m@ == spec_mat_identity().update(3, x).update(7, y).update(11, z),
    {
        let mut r = Mat4::identity();
        r.m[3] = x;
        r.m[7] = y;
        r.m[11] = z;
        proof {
            assert(r.m@ =~= spec_mat_identity().update(3, x).update(7, y).update(11, z));
        }
        r
    }

    /// A right-handed rotation about the x axis, angle in micro-radians.
    pub fn rotate_x(angle: i64) -> (r: Mat4)
        ensures
            mat_wf(r),
            ({
                let c = spec_cos(angle as int);
                let s = spec_sin(angle as int);
                r.m@ == spec_mat_identity().update(5, c as i64).update(
                    6,
                    fx_neg(s) as i64,
                ).update(9, s as i64).update(10, c as i64)
            }),
    {
        let c = crate::trig::cos(angle);
        let s = crate::trig::sin(angle);
        let mut r = Mat4::identity();
        r.m[5] = c;
        r.m[6] = crate::fixed::sat_neg(s);
        r.m[9] = s;
        r.m[10] = c;
        proof {
            assert(r.m@ =~= spec_mat_identity().update(5, c).update(
                6,
                fx_neg(s as int) as i64,
            ).update(9, s).update(10, c));
        }
        r
    }

    /// A right-handed rotation about the y axis, angle in micro-radians.
    pub fn rotate_y(angle: i64) -> (r: Mat4)
        ensures
            mat_wf(r),
            ({
                let c = spec_cos(angle as int);
                let s = spec_sin(angle as int);
                r.m@ == spec_mat_identity().update(0, c as i64).update(2, s as i64).update(
                    8,
                    fx_neg(s) as i64,
                ).update(10, c as i64)
            }),
    {
        let c = crate::trig::cos(angle);
        let s = crate::trig::sin(angle);
        let mut r = Mat4::identity();
        r.m[0] = c;
        r.m[2] = s;
        r.m[8] = crate::fixed::sat_neg(s);
        r.m[10] = c;
        proof {
            assert(r.m@ =~= spec_mat_identity().update(0, c).update(2, s).update(
                8,
                fx_neg(s as int) as i64,
            ).update(10, c));
        }
        r
    }

    /// A right-handed rotation about the z axis, angle in micro-radians.
    pub fn rotation_z(angle: i64) -> (r: Mat4)
        ensures
            mat_wf(r),
            ({
                let c = spec_cos(angle as int);
                let s = spec_sin(angle as int);
                r.m@ == spec_mat_identity().update(0, c as i64).update(
                    1,
                    fx_neg(s) as i64,
                ).update(4, s as i64).update(5, c as i64)
            }),
    {
        let c = crate::trig::cos(angle);
        let s = crate::trig::sin(angle);
        let mut r = Mat4::identity();
        r.m[0] = c;
        r.m[1] = crate::fixed::sat_neg(s);
        r.m[4] = s;
        r.m[5] = c;
        proof {
            assert(r.m@ =~= spec_mat_identity().update(0, c).update(
                1,
                fx_neg(s as int) as i64,
            ).update(4, s).update(5, c));
        }
        r
    }

    /// A perspective projection from a vertical field of view (micro-radians),
    /// aspect ratio, and near and far plane distances.
    pub fn perspective(vertical_fov: i64, aspect_ratio: i64, z_near: i64, z_far: i64) -> (r: Mat4)
        ensures
            mat_wf(r),
            r.m@ == spec_perspective(
                vertical_fov as int,
                aspect_ratio as int,
                z_near as int,
                z_far as int,
            ),
    {
        let inv_length = sat_div(SCALE, crate::fixed::sat_sub(z_near, z_far));
        let f = sat_div(SCALE, crate::trig::tan(sat_mul(500_000, vertical_fov)));
        let a = sat_div(f, aspect_ratio);
        let b = sat_mul(sat_add(z_near, z_far), inv_length);
        let c = sat_mul(sat_mul(sat_mul(2_000_000, z_near), z_far), inv_length);
        let mut m: Vec<i64> = Vec::new();
        m.push(a);
        m.push(0);
        m.push(0);
        m.push(0);
        m.push(0);
        m.push(f);
        m.push(0);
        m.push(0);
        m.push(0);
        m.push(0);
        m.push(b);
        m.push(-SCALE);
        m.push(0);
        m.push(0);
        m.push(c);
        m.push(0);
        proof {
            assert(m@ =~= spec_perspective(
                vertical_fov as int,
                aspect_ratio as int,
                z_near as int,
                z_far as int,
            ));
        }
        Mat4 { m }
    }

    /// The componentwise sum.
    pub fn add(&self, rhs: &Mat4) -> (r: Mat4)
        requires
            mat_wf(*self),
            mat_wf(*rhs),
        ensures
            mat_wf(r),
            r.m@ == spec_mat_add(self.m@, rhs.m@),
    {
        let mut m: Vec<i64> = Vec::new();
        let mut n: usize = 0;
        while n < 16
            invariant
                n <= 16,
                self.m@.len() == 16,
                rhs.m@.len() == 16,
                m@.len() == n,
                forall|k: int| 0 <= k < n ==> m@[k] == spec_mat_add(self.m@, rhs.m@)[k],
            decreases 16 - n,
        {
            m.push(sat_add(self.m[n], rhs.m[n]));
            n = n + 1;
        }
        proof {
            assert(m@ =~= spec_mat_add(self.m@, rhs.m@));
        }
        Mat4 { m }
    }

    /// The matrix product: entry `(i, j)` is the dot product of row `i` of
    /// `self` with column `j` of `rhs`.
    pub fn mul(&self, rhs: &Mat4) -> (r: Mat4)
        requires
            mat_wf(*self),
            mat_wf(*rhs),
        ensures
            mat_wf(r),
            r.m@ == spec_mat_mul(self.m@, rhs.m@),
    {
        let mut m: Vec<i64> = Vec::new();
        let mut n: usize = 0;
        while n < 16
            invariant
                n <= 16,
                self.m@.len() == 16,
                rhs.m@.len() == 16,
                m@.len() == n,
                forall|k: int| 0 <= k < n ==> m@[k] == spec_mat_mul(self.m@, rhs.m@)[k],
            decreases 16 - n,
        {
            let i = n / 4;
            let j = n % 4;
            let e = sat_add(
                sat_add(
                    sat_add(
                        sat_add(0, sat_mul(self.m[i * 4], rhs.m[j])),
                        sat_mul(self.m[i * 4 + 1], rhs.m[4 + j]),
                    ),
                    sat_mul(self.m[i * 4 + 2], rhs.m[8 + j]),
                ),
                sat_mul(self.m[i * 4 + 3], rhs.m[12 + j]),
            );
            m.push(e);
            n = n + 1;
        }
        proof {
            assert(m@ =~= spec_mat_mul(self.m@, rhs.m@));
        }
        Mat4 { m }
    }

    /// Multiply in place.
    pub fn mul_assign(&mut self, rhs: &Mat4)
        requires
            mat_wf(*old(self)),
            mat_wf(*rhs),
        ensures
            mat_wf(*final(self)),
            final(self).m@ == spec_mat_mul(old(self).m@, rhs.m@),
    {
        let r = self.mul(rhs);
        self.m = r.m;
    }
}

/// The perspective projection entries, following the right-handed
/// near/far convention of the renderer: `[a 0 0 0; 0 f 0 0; 0 0 b -1;
/// 0 0 c 0]` with `f = 1 / tan(fov / 2)`, `a = f / aspect`,
/// `b = (near + far) / (near - far)` and `c = 2 * near * far / (near - far)`.
pub open spec fn spec_perspective(fov: int, aspect: int, z_near: int, z_far: int) -> Seq<i64> {
    let inv_length = fx_div(SCALE as int, fx_sub(z_near, z_far));
    let f = fx_div(SCALE as int, spec_tan(fx_mul(500_000, fov)));
    let a = fx_div(f, aspect);
    let b = fx_mul(fx_add(z_near, z_far), inv_length);
    let c = fx_mul(fx_mul(fx_mul(2_000_000, z_near), z_far), inv_length);
    seq![
        a as i64, 0, 0, 0,
        0, f as i64, 0, 0,
        0, 0, b as i64, (-SCALE) as i64,
        0, 0, c as i64, 0,
    ]
}

} // verus!
