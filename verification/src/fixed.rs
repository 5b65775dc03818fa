//! Fixed-point scalars.
//!
//! A scalar is an `i64` counting millionths of a unit (`SCALE` per unit).
//! All operations saturate at `FIXED_MAX`, so they are total: no operation
//! overflows or panics, whatever its inputs.  Multiplication and division
//! truncate toward zero, as the corresponding machine division does.

use vstd::prelude::*;

verus! {

/// Number of fixed-point quanta in one unit.
pub const SCALE: i64 = 1_000_000;

/// Largest representable scalar magnitude (one trillion units).
pub const FIXED_MAX: i64 = 1_000_000_000_000_000_000;

/// Magnitude of an integer.
pub open spec fn mag(a: int) -> int {
    if a >= 0 {
        a
    } else {
        -a
    }
}

/// Saturation: values beyond `FIXED_MAX` in either direction are pinned to it.
pub open spec fn clip(v: int) -> int {
    if v > FIXED_MAX {
        FIXED_MAX as int
    } else if v < -(FIXED_MAX as int) {
        -(FIXED_MAX as int)
    } else {
        v
    }
}

/// Integer division truncating toward zero; `b` must not be zero.
pub open spec fn div_t(a: int, b: int) -> int {
    let q = mag(a) / mag(b);
    if (a < 0) <==> (b < 0) {
        q
    } else {
        -q
    }
}

/// Saturating fixed-point addition.
pub open spec fn fx_add(a: int, b: int) -> int {
    clip(a + b)
}

/// Saturating fixed-point subtraction.
pub open spec fn fx_sub(a: int, b: int) -> int {
    clip(a - b)
}

/// Fixed-point negation.
pub open spec fn fx_neg(a: int) -> int {
    clip(-a)
}

/// Saturating fixed-point multiplication: `a * b` rescaled by `SCALE`,
/// truncating toward zero.
pub open spec fn fx_mul(a: int, b: int) -> int {
    clip(div_t(a * b, SCALE as int))
}

/// Saturating fixed-point division: `a / b` rescaled by `SCALE`, truncating
/// toward zero.  Division by zero saturates with the sign of `a` (zero for a
/// zero numerator), so the operation is total.
pub open spec fn fx_div(a: int, b: int) -> int {
    if b == 0 {
        if a == 0 {
            0
        } else if a > 0 {
            FIXED_MAX as int
        } else {
            -(FIXED_MAX as int)
        }
    } else {
        clip(div_t(a * SCALE, b))
    }
}

/// Magnitude of an `i64`, widened so that `i64::MIN` is representable.
pub fn mag64(a: i64) -> (r: u128)
    ensures
        r == mag(a as int),
        r <= 0x8000_0000_0000_0000u128,
{
    if a >= 0 {
        a as u128
    } else {
        (-(a as i128)) as u128
    }
}

/// Pin a magnitude to `FIXED_MAX` and reapply the sign.
fn clip_signed(neg: bool, m: u128) -> (r: i64)
    ensures
        r == clip(if neg { -(m as int) } else { m as int }),
{
    let capped: u128 = if m > FIXED_MAX as u128 {
        FIXED_MAX as u128
    } else {
        m
    };
    if neg {
        -(capped as i64)
    } else {
        capped as i64
    }
}

/// Saturating addition of two scalars.
pub fn sat_add(a: i64, b: i64) -> (r: i64)
    ensures
        r == fx_add(a as int, b as int),
{
    let s: i128 = a as i128 + b as i128;
    if s >= 0 {
        clip_signed(false, s as u128)
    } else {
        clip_signed(true, (-s) as u128)
    }
}

/// Saturating subtraction of two scalars.
pub fn sat_sub(a: i64, b: i64) -> (r: i64)
    ensures
        r == fx_sub(a as int, b as int),
{
    let s: i128 = a as i128 - b as i128;
    if s >= 0 {
        clip_signed(false, s as u128)
    } else {
        clip_signed(true, (-s) as u128)
    }
}

/// Saturating negation of a scalar.
pub fn sat_neg(a: i64) -> (r: i64)
    ensures
        r == fx_neg(a as int),
{
    if a >= 0 {
        clip_signed(true, a as u128)
    } else {
        clip_signed(false, (-(a as i128)) as u128)
    }
}

/// Saturating fixed-point multiplication.
pub fn sat_mul(a: i64, b: i64) -> (r: i64)
    ensures
        r == fx_mul(a as int, b as int),
{
    let neg = (a < 0) != (b < 0);
    let ma = mag64(a);
    let mb = mag64(b);
    proof {
        lemma_mag_mul(a as int, b as int);
        assert(ma * mb <= 0x8000_0000_0000_0000u128 * 0x8000_0000_0000_0000u128)
            by (nonlinear_arith)
            requires
                ma <= 0x8000_0000_0000_0000u128,
                mb <= 0x8000_0000_0000_0000u128,
        ;
    }
    let p: u128 = ma * mb;
    let q: u128 = p / (SCALE as u128);
    clip_signed(neg && q > 0, q)
}

/// Saturating fixed-point division, total by the division-by-zero rule of
/// `fx_div`.
pub fn sat_div(a: i64, b: i64) -> (r: i64)
    ensures
        r == fx_div(a as int, b as int),
{
    if b == 0 {
        if a == 0 {
            0
        } else if a > 0 {
            FIXED_MAX
        } else {
            -FIXED_MAX
        }
    } else {
        let neg = (a < 0) != (b < 0);
        let ma = mag64(a);
        let mb = mag64(b);
        proof {
            lemma_mag_mul(a as int, SCALE as int);
            assert(ma * (SCALE as u128) <= 0x8000_0000_0000_0000u128 * 1_000_000u128)
                by (nonlinear_arith)
                requires
                    ma <= 0x8000_0000_0000_0000u128,
            ;
            assert(mag((a * SCALE) as int) == mag(a as int) * (SCALE as int));
        }
        let p: u128 = ma * (SCALE as u128);
        let q: u128 = p / mb;
        clip_signed(neg && q > 0, q)
    }
}

/// Halve a scalar, truncating toward zero.
pub open spec fn fx_half(a: int) -> int {
    clip(div_t(a, 2))
}

/// Halve a scalar, truncating toward zero.
pub fn sat_half(a: i64) -> (r: i64)
    ensures
        r == fx_half(a as int),
{
    if a >= 0 {
        clip_signed(false, (a as u128) / 2)
    } else {
        let m: u128 = (-(a as i128)) as u128;
        clip_signed(m / 2 > 0, m / 2)
    }
}

/// Division truncating toward zero, for a positive divisor; the result never
/// exceeds the dividend in magnitude, so it needs no saturation.
pub fn div_trunc(a: i64, d: i64) -> (r: i64)
    requires
        d > 0,
    ensures
        r == div_t(a as int, d as int),
{
    let m = mag64(a);
    let q = m / (d as u128);
    proof {
        assert(q <= m) by (nonlinear_arith)
            requires
                d >= 1,
                q == m / (d as u128),
                m <= 0x8000_0000_0000_0000u128,
        ;
    }
    if a >= 0 {
        q as i64
    } else {
        -(q as i128) as i64
    }
}

/// `r` is the integer square root of `n`, rounded down.
pub open spec fn is_sqrt_floor(n: int, r: int) -> bool {
    0 <= r && r * r <= n && n < (r + 1) * (r + 1)
}

/// The integer square root of `n`, rounded down (for `n >= 0`; see
/// `lemma_sqrt_floor`).
pub open spec fn sqrt_floor(n: int) -> int {
    choose|r: int| #[trigger] is_sqrt_floor(n, r)
}

/// For every nonnegative `n` there is exactly one rounded-down square root,
/// and `sqrt_floor` returns it.
pub proof fn lemma_sqrt_floor(n: int)
    requires
        n >= 0,
    ensures
        is_sqrt_floor(n, sqrt_floor(n)),
        forall|r: int| is_sqrt_floor(n, r) ==> r == sqrt_floor(n),
{
    lemma_sqrt_floor_exists(n);
    let w = choose|r: int| #[trigger] is_sqrt_floor(n, r);
    assert forall|r: int| is_sqrt_floor(n, r) implies r == sqrt_floor(n) by {
        lemma_sqrt_floor_unique(n, r, w);
    }
}

proof fn lemma_sqrt_floor_exists(n: int)
    requires
        n >= 0,
    ensures
        exists|r: int| #[trigger] is_sqrt_floor(n, r),
    decreases n,
{
    if n == 0 {
        assert(is_sqrt_floor(0, 0));
    } else {
        lemma_sqrt_floor_exists(n - 1);
        let p = choose|r: int| #[trigger] is_sqrt_floor(n - 1, r);
        if n < (p + 1) * (p + 1) {
            assert(is_sqrt_floor(n, p));
        } else {
            assert((p + 1) * (p + 1) <= n && n <= (p + 1) * (p + 1));
            assert((p + 2) * (p + 2) > (p + 1) * (p + 1)) by (nonlinear_arith)
                requires
                    p >= 0,
            ;
            assert(is_sqrt_floor(n, p + 1));
        }
    }
}

proof fn lemma_sqrt_floor_unique(n: int, r1: int, r2: int)
    requires
        is_sqrt_floor(n, r1),
        is_sqrt_floor(n, r2),
    ensures
        r1 == r2,
{
    assert(r1 <= r2 && r2 <= r1) by (nonlinear_arith)
        requires
            0 <= r1 && r1 * r1 <= n && n < (r1 + 1) * (r1 + 1),
            0 <= r2 && r2 * r2 <= n && n < (r2 + 1) * (r2 + 1),
    ;
}

/// Integer square root of a `u128`, rounded down, by bisection.
pub fn isqrt_u128(n: u128) -> (r: u128)
    ensures
        r as int == sqrt_floor(n as int),
        is_sqrt_floor(n as int, r as int),
{
    let mut lo: u128 = 0;
    let mut hi: u128 = 1u128 << 64;
    proof {
        assert((1u128 << 64) as int == 0x1_0000_0000_0000_0000int) by (bit_vector);
        assert(0x1_0000_0000_0000_0000int * 0x1_0000_0000_0000_0000int > u128::MAX as int);
    }
    while hi - lo > 1
        invariant
            lo < hi,
            hi <= 0x1_0000_0000_0000_0000u128,
            (lo as int) * (lo as int) <= n as int,
            (n as int) < (hi as int) * (hi as int),
        decreases hi - lo,
    {
        let mid = lo + (hi - lo) / 2;
        proof {
            assert((mid as int) * (mid as int) <= 0xffff_ffff_ffff_ffffint
                * 0xffff_ffff_ffff_ffffint) by (nonlinear_arith)
                requires
                    0 <= mid as int <= 0xffff_ffff_ffff_ffffint,
            ;
        }
        if mid * mid <= n {
            lo = mid;
        } else {
            hi = mid;
        }
    }
    proof {
        assert(is_sqrt_floor(n as int, lo as int));
        lemma_sqrt_floor(n as int);
    }
    lo
}

/// The magnitude of a product is the product of the magnitudes, and the
/// product is negative exactly when the nonzero factors disagree in sign.
proof fn lemma_mag_mul(a: int, b: int)
    ensures
        mag(a * b) == mag(a) * mag(b),
        a * b < 0 <==> ((a < 0) != (b < 0)) && a != 0 && b != 0,
{
    if a >= 0 && b >= 0 {
        vstd::arithmetic::mul::lemma_mul_nonnegative(a, b);
    } else if a < 0 && b < 0 {
        assert(a * b == (-a) * (-b)) by (nonlinear_arith);
        vstd::arithmetic::mul::lemma_mul_strictly_positive(-a, -b);
    } else if a >= 0 && b < 0 {
        assert(a * b == -(a * (-b))) by (nonlinear_arith);
        vstd::arithmetic::mul::lemma_mul_nonnegative(a, -b);
        if a != 0 {
            vstd::arithmetic::mul::lemma_mul_strictly_positive(a, -b);
        }
    } else {
        assert(a * b == -((-a) * b)) by (nonlinear_arith);
        vstd::arithmetic::mul::lemma_mul_nonnegative(-a, b);
        if b != 0 {
            vstd::arithmetic::mul::lemma_mul_strictly_positive(-a, b);
        }
    }
}

} // verus!
