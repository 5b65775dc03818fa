//! Fixed-point trigonometry for the camera and rotation matrices.
//!
//! Angles are scalars in micro-radians.  Sine and cosine reduce the angle
//! into one quadrant of `[0, 2*pi)` and evaluate a Taylor polynomial there;
//! the polynomial is the definition, so results are exact and deterministic,
//! and the functions are exact at the quadrant boundaries (`sin 0 = 0`,
//! `cos 0 = 1`).

use vstd::prelude::*;

use crate::fixed::{div_t, div_trunc, fx_div, fx_mul, fx_sub, mag, sat_div, sat_mul, sat_sub};

verus! {

/// One full turn (two pi), in micro-radians.
pub const TWO_PI: i64 = 6_283_185;

/// Half a turn (pi), in micro-radians.
pub const PI_RAD: i64 = 3_141_593;

/// A quarter turn (pi over two), in micro-radians.
pub const HALF_PI: i64 = 1_570_796;

/// An angle reduced into `[0, 2*pi)`: the remainder of Euclidean division
/// by a full turn.
pub open spec fn spec_wrap_angle(a: int) -> int {
    if a >= 0 {
        a % (TWO_PI as int)
    } else {
        let m = (-a) % (TWO_PI as int);
        if m == 0 {
            0
        } else {
            TWO_PI - m
        }
    }
}

/// Reduce an angle into `[0, 2*pi)`.
pub fn wrap_angle(a: i64) -> (r: i64)
    ensures
        r == spec_wrap_angle(a as int),
        0 <= r < TWO_PI,
{
    if a >= 0 {
        ((a as u64) % (TWO_PI as u64)) as i64
    } else {
        let m = (((-(a as i128)) as u128) % (TWO_PI as u128)) as i64;
        if m == 0 {
            0
        } else {
            TWO_PI - m
        }
    }
}

/// The sine Taylor polynomial on one quadrant:
/// `x - x^3/6 + x^5/120 - x^7/5040 + x^9/362880`, in fixed point.
pub open spec fn spec_sin_quarter(x: int) -> int {
    let x2 = fx_mul(x, x);
    let x3 = fx_mul(x2, x);
    let x5 = fx_mul(x3, x2);
    let x7 = fx_mul(x5, x2);
    let x9 = fx_mul(x7, x2);
    fx_sub(
        crate::fixed::fx_add(
            fx_sub(crate::fixed::fx_add(x, div_t(x5, 120)), div_t(x3, 6)),
            div_t(x9, 362880),
        ),
        div_t(x7, 5040),
    )
}

/// The cosine Taylor polynomial on one quadrant:
/// `1 - x^2/2 + x^4/24 - x^6/720 + x^8/40320`, in fixed point.
pub open spec fn spec_cos_quarter(x: int) -> int {
    let x2 = fx_mul(x, x);
    let x4 = fx_mul(x2, x2);
    let x6 = fx_mul(x4, x2);
    let x8 = fx_mul(x6, x2);
    fx_sub(
        crate::fixed::fx_add(
            fx_sub(crate::fixed::fx_add(crate::fixed::SCALE as int, div_t(x4, 24)), div_t(x2, 2)),
            div_t(x8, 40320),
        ),
        div_t(x6, 720),
    )
}

fn sin_quarter(x: i64) -> (r: i64)
    ensures
        r == spec_sin_quarter(x as int),
{
    let x2 = sat_mul(x, x);
    let x3 = sat_mul(x2, x);
    let x5 = sat_mul(x3, x2);
    let x7 = sat_mul(x5, x2);
    let x9 = sat_mul(x7, x2);
    crate::fixed::sat_sub(
        crate::fixed::sat_add(
            crate::fixed::sat_sub(crate::fixed::sat_add(x, div_trunc(x5, 120)), div_trunc(x3, 6)),
            div_trunc(x9, 362880),
        ),
        div_trunc(x7, 5040),
    )
}

fn cos_quarter(x: i64) -> (r: i64)
    ensures
        r == spec_cos_quarter(x as int),
{
    let x2 = sat_mul(x, x);
    let x4 = sat_mul(x2, x2);
    let x6 = sat_mul(x4, x2);
    let x8 = sat_mul(x6, x2);
    crate::fixed::sat_sub(
        crate::fixed::sat_add(
            crate::fixed::sat_sub(
                crate::fixed::sat_add(crate::fixed::SCALE, div_trunc(x4, 24)),
                div_trunc(x2, 2),
            ),
            div_trunc(x8, 40320),
        ),
        div_trunc(x6, 720),
    )
}

/// Sine of an angle in micro-radians, by quadrant reduction.
pub open spec fn spec_sin(a: int) -> int {
    let r = spec_wrap_angle(a);
    if r <= HALF_PI {
        spec_sin_quarter(r)
    } else if r <= PI_RAD {
        spec_sin_quarter(PI_RAD - r)
    } else if r <= PI_RAD + HALF_PI {
        -spec_sin_quarter(r - PI_RAD)
    } else {
        -spec_sin_quarter(TWO_PI - r)
    }
}

/// Cosine of an angle in micro-radians, by quadrant reduction.
pub open spec fn spec_cos(a: int) -> int {
    let r = spec_wrap_angle(a);
    if r <= HALF_PI {
        spec_cos_quarter(r)
    } else if r <= PI_RAD {
        -spec_cos_quarter(PI_RAD - r)
    } else if r <= PI_RAD + HALF_PI {
        -spec_cos_quarter(r - PI_RAD)
    } else {
        spec_cos_quarter(TWO_PI - r)
    }
}

/// Tangent: sine over cosine (saturating where cosine vanishes).
pub open spec fn spec_tan(a: int) -> int {
    fx_div(spec_sin(a), spec_cos(a))
}

/// Sine of an angle in micro-radians.
pub fn sin(a: i64) -> (r: i64)
    ensures
        r == spec_sin(a as int),
{
    let w = wrap_angle(a);
    if w <= HALF_PI {
        sin_quarter(w)
    } else if w <= PI_RAD {
        sin_quarter(PI_RAD - w)
    } else if w <= PI_RAD + HALF_PI {
        let s = sin_quarter(w - PI_RAD);
        proof {
            lemma_quarter_small(w - PI_RAD);
        }
        -s
    } else {
        let s = sin_quarter(TWO_PI - w);
        proof {
            lemma_quarter_small(TWO_PI - w);
        }
        -s
    }
}

/// Cosine of an angle in micro-radians.
pub fn cos(a: i64) -> (r: i64)
    ensures
        r == spec_cos(a as int),
{
    let w = wrap_angle(a);
    if w <= HALF_PI {
        cos_quarter(w)
    } else if w <= PI_RAD {
        let c = cos_quarter(PI_RAD - w);
        proof {
            lemma_quarter_small_cos(PI_RAD - w);
        }
        -c
    } else if w <= PI_RAD + HALF_PI {
        let c = cos_quarter(w - PI_RAD);
        proof {
            lemma_quarter_small_cos(w - PI_RAD);
        }
        -c
    } else {
        cos_quarter(TWO_PI - w)
    }
}

/// Tangent of an angle in micro-radians.
pub fn tan(a: i64) -> (r: i64)
    ensures
        r == spec_tan(a as int),
{
    sat_div(sin(a), cos(a))
}

/// On one quadrant the sine polynomial stays small enough to negate.
proof fn lemma_quarter_small(x: int)
    requires
        0 <= x <= TWO_PI,
    ensures
        mag(spec_sin_quarter(x)) <= crate::fixed::FIXED_MAX,
{
}

/// On one quadrant the cosine polynomial stays small enough to negate.
proof fn lemma_quarter_small_cos(x: int)
    requires
        0 <= x <= TWO_PI,
    ensures
        mag(spec_cos_quarter(x)) <= crate::fixed::FIXED_MAX,
{
}

/// At a zero angle the reductions and polynomials are exact: the sine is
/// zero and the cosine is one, so a level camera at zero azimuth sits
/// exactly on the x axis.
pub proof fn lemma_trig_exact_at_zero()
    ensures
        spec_sin(0) == 0,
        spec_cos(0) == crate::fixed::SCALE,
{
    assert(spec_wrap_angle(0) == 0);
    assert(spec_sin_quarter(0) == 0);
    assert(spec_cos_quarter(0) == crate::fixed::SCALE);
}

} // verus!
