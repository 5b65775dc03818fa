//! Three-component vectors over fixed-point scalars.

use vstd::prelude::*;

use crate::fixed::{
    clip, fx_add, fx_div, fx_mul, fx_neg, fx_sub, is_sqrt_floor, lemma_sqrt_floor, mag, mag64,
    sat_add, sat_div, sat_mul, sat_neg, sat_sub, sqrt_floor, FIXED_MAX,
};

verus! {

/// A 3-vector of fixed-point scalars (millionths of a unit).
#[derive(Clone, Copy, Debug, PartialEq, Eq, Structural)]
pub struct Vec3 {
    pub x: i64,
    pub y: i64,
    pub z: i64,
}

/// Componentwise saturating sum.
pub open spec fn spec_v3_add(a: Vec3, b: Vec3) -> Vec3 {
    Vec3 {
        x: fx_add(a.x as int, b.x as int) as i64,
        y: fx_add(a.y as int, b.y as int) as i64,
        z: fx_add(a.z as int, b.z as int) as i64,
    }
}

/// Componentwise saturating difference.
pub open spec fn spec_v3_sub(a: Vec3, b: Vec3) -> Vec3 {
    Vec3 {
        x: fx_sub(a.x as int, b.x as int) as i64,
        y: fx_sub(a.y as int, b.y as int) as i64,
        z: fx_sub(a.z as int, b.z as int) as i64,
    }
}

/// Componentwise (Hadamard) product.
pub open spec fn spec_v3_mul(a: Vec3, b: Vec3) -> Vec3 {
    Vec3 {
        x: fx_mul(a.x as int, b.x as int) as i64,
        y: fx_mul(a.y as int, b.y as int) as i64,
        z: fx_mul(a.z as int, b.z as int) as i64,
    }
}

/// Product with a scalar.
pub open spec fn spec_v3_scale(a: Vec3, s: int) -> Vec3 {
    Vec3 {
        x: fx_mul(a.x as int, s) as i64,
        y: fx_mul(a.y as int, s) as i64,
        z: fx_mul(a.z as int, s) as i64,
    }
}

/// Componentwise negation.
pub open spec fn spec_v3_neg(a: Vec3) -> Vec3 {
    Vec3 {
        x: fx_neg(a.x as int) as i64,
        y: fx_neg(a.y as int) as i64,
        z: fx_neg(a.z as int) as i64,
    }
}

/// Dot product, accumulated left to right.
pub open spec fn spec_v3_dot(a: Vec3, b: Vec3) -> int {
    fx_add(
        fx_add(fx_mul(a.x as int, b.x as int), fx_mul(a.y as int, b.y as int)),
        fx_mul(a.z as int, b.z as int),
    )
}

/// Cross product.
pub open spec fn spec_v3_cross(a: Vec3, b: Vec3) -> Vec3 {
    Vec3 {
        x: fx_sub(fx_mul(a.y as int, b.z as int), fx_mul(a.z as int, b.y as int)) as i64,
        y: fx_sub(fx_mul(a.z as int, b.x as int), fx_mul(a.x as int, b.z as int)) as i64,
        z: fx_sub(fx_mul(a.x as int, b.y as int), fx_mul(a.y as int, b.x as int)) as i64,
    }
}

/// Euclidean length: the rounded-down square root of the sum of the raw
/// component squares, which lands back on the fixed-point scale.
pub open spec fn spec_v3_len(a: Vec3) -> int {
    clip(
        sqrt_floor(
            (a.x as int) * (a.x as int) + (a.y as int) * (a.y as int) + (a.z as int) * (a.z
                as int),
        ),
    )
}

/// The vector scaled to unit length by `fx_div`; the zero vector (length
/// zero) maps to itself by the total division rule.
pub open spec fn spec_v3_normalize(a: Vec3) -> Vec3 {
    let l = spec_v3_len(a);
    Vec3 {
        x: fx_div(a.x as int, l) as i64,
        y: fx_div(a.y as int, l) as i64,
        z: fx_div(a.z as int, l) as i64,
    }
}

impl Vec3 {
    /// The zero vector.
    pub fn zero() -> (r: Vec3)
        ensures
            r == (Vec3 { x: 0i64, y: 0i64, z: 0i64 }),
    {
        Vec3 { x: 0, y: 0, z: 0 }
    }

    /// Componentwise saturating sum.
    pub fn add(&self, rhs: &Vec3) -> (r: Vec3)
        ensures
            r == spec_v3_add(*self, *rhs),
    {
        Vec3 {
            x: sat_add(self.x, rhs.x),
            y: sat_add(self.y, rhs.y),
            z: sat_add(self.z, rhs.z),
        }
    }

    /// Componentwise saturating difference.
    pub fn sub(&self, rhs: &Vec3) -> (r: Vec3)
        ensures
            r == spec_v3_sub(*self, *rhs),
    {
        Vec3 {
            x: sat_sub(self.x, rhs.x),
            y: sat_sub(self.y, rhs.y),
            z: sat_sub(self.z, rhs.z),
        }
    }

    /// Componentwise (Hadamard) product.
    pub fn mul(&self, rhs: &Vec3) -> (r: Vec3)
        ensures
            r == spec_v3_mul(*self, *rhs),
    {
        Vec3 {
            x: sat_mul(self.x, rhs.x),
            y: sat_mul(self.y, rhs.y),
            z: sat_mul(self.z, rhs.z),
        }
    }

    /// Product with a scalar.
    pub fn scale(&self, s: i64) -> (r: Vec3)
        ensures
            r == spec_v3_scale(*self, s as int),
    {
        Vec3 { x: sat_mul(self.x, s), y: sat_mul(self.y, s), z: sat_mul(self.z, s) }
    }

    /// Componentwise negation.
    pub fn neg(&self) -> (r: Vec3)
        ensures
            r == spec_v3_neg(*self),
    {
        Vec3 { x: sat_neg(self.x), y: sat_neg(self.y), z: sat_neg(self.z) }
    }

    /// Euclidean length, saturating at `FIXED_MAX`.
    pub fn length(&self) -> (r: i64)
        ensures
            r == spec_v3_len(*self),
    {
        let xx = mag64(self.x);
        let yy = mag64(self.y);
        let zz = mag64(self.z);
        proof {
            assert(xx * xx <= 0x8000_0000_0000_0000u128 * 0x8000_0000_0000_0000u128
                && yy * yy <= 0x8000_0000_0000_0000u128 * 0x8000_0000_0000_0000u128
                && zz * zz <= 0x8000_0000_0000_0000u128 * 0x8000_0000_0000_0000u128)
                by (nonlinear_arith)
                requires
                    xx <= 0x8000_0000_0000_0000u128,
                    yy <= 0x8000_0000_0000_0000u128,
                    zz <= 0x8000_0000_0000_0000u128,
            ;
            assert(xx * xx == (self.x as int) * (self.x as int) && yy * yy == (self.y as int)
                * (self.y as int) && zz * zz == (self.z as int) * (self.z as int))
                by (nonlinear_arith)
                requires
                    xx == mag(self.x as int),
                    yy == mag(self.y as int),
                    zz == mag(self.z as int),
            ;
        }
        let s: u128 = xx * xx + yy * yy + zz * zz;
        let root = crate::fixed::isqrt_u128(s);
        proof {
            lemma_sqrt_floor(s as int);
        }
        if root > FIXED_MAX as u128 {
            FIXED_MAX
        } else {
            root as i64
        }
    }

    /// The vector scaled to unit length; the zero vector maps to itself.
    pub fn normalize(&self) -> (r: Vec3)
        ensures
            r == spec_v3_normalize(*self),
    {
        let l = self.length();
        Vec3 { x: sat_div(self.x, l), y: sat_div(self.y, l), z: sat_div(self.z, l) }
    }

    /// Cross product.
    pub fn cross(a: &Vec3, b: &Vec3) -> (r: Vec3)
        ensures
            r == spec_v3_cross(*a, *b),
    {
        Vec3 {
            x: sat_sub(sat_mul(a.y, b.z), sat_mul(a.z, b.y)),
            y: sat_sub(sat_mul(a.z, b.x), sat_mul(a.x, b.z)),
            z: sat_sub(sat_mul(a.x, b.y), sat_mul(a.y, b.x)),
        }
    }

    /// Dot product.
    pub fn dot(a: &Vec3, b: &Vec3) -> (r: i64)
        ensures
            r == spec_v3_dot(*a, *b),
    {
        sat_add(sat_add(sat_mul(a.x, b.x), sat_mul(a.y, b.y)), sat_mul(a.z, b.z))
    }

    /// The components as an array.
    pub fn to_array(&self) -> (r: [i64; 3])
        ensures
            r[0] == self.x,
            r[1] == self.y,
            r[2] == self.z,
    {
        [self.x, self.y, self.z]
    }

    /// A vector from an array of components.
    pub fn from(array: &[i64; 3]) -> (r: Vec3)
        ensures
            r == (Vec3 { x: array[0], y: array[1], z: array[2] }),
    {
        Vec3 { x: array[0], y: array[1], z: array[2] }
    }
}

} // verus!
