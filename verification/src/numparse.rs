//! Verified parsing of decimal tokens: signed integers (for face indices)
//! and fixed-point scalars (for coordinates).
//!
//! A scalar literal is `sign? (digits ('.' digits?)? | '.' digits)`; its
//! value is truncated toward zero to millionth-of-a-unit resolution, and a
//! literal whose magnitude exceeds `SCALAR_LIT_MAX` is rejected, so that
//! bounding-box arithmetic over parsed coordinates can never saturate.

use vstd::prelude::*;

use crate::fixed::SCALE;

verus! {

/// Largest accepted magnitude of a scalar literal, in millionths: half of
/// `crate::fixed::FIXED_MAX`, so that the difference of two parsed
/// coordinates is always exact.
pub const SCALAR_LIT_MAX: i64 = 500_000_000_000_000_000;

/// Largest accepted integer part of a scalar literal, in units.
const SCALAR_INT_MAX: u64 = 500_000_000_000;

/// An ASCII decimal digit.
pub open spec fn is_digit(b: u8) -> bool {
    48 <= b <= 57
}

pub open spec fn all_digits(s: Seq<u8>) -> bool {
    forall|i: int| 0 <= i < s.len() ==> is_digit(#[trigger] s[i])
}

/// Value of a sequence of ASCII digits, most significant first.
pub open spec fn digits_val(s: Seq<u8>) -> int
    decreases s.len(),
{
    if s.len() == 0 {
        0
    } else {
        digits_val(s.drop_last()) * 10 + (s.last() - 48)
    }
}

/// Length of the longest digit prefix.
pub open spec fn digit_prefix_len(s: Seq<u8>) -> int
    decreases s.len(),
{
    if s.len() == 0 || !is_digit(s[0]) {
        0
    } else {
        1 + digit_prefix_len(s.drop_first())
    }
}

/// Ten to the `k`.
pub open spec fn pow10(k: int) -> int
    decreases k,
{
    if k <= 0 {
        1
    } else {
        10 * pow10(k - 1)
    }
}

/// Micro-units contributed by the fraction digits `f`: the first six digits,
/// padded with zeros to six places; further digits are truncated away.
pub open spec fn frac_micro(f: Seq<u8>) -> int {
    if f.len() >= 6 {
        digits_val(f.take(6))
    } else {
        digits_val(f) * pow10(6 - f.len())
    }
}

/// The unsigned part of a scalar literal after the sign: digit and fraction
/// shape, and its value in micro-units, if well formed.
pub open spec fn spec_unsigned_scalar(t: Seq<u8>) -> Option<int> {
    let k = digit_prefix_len(t);
    let rest = t.skip(k);
    if rest.len() == 0 {
        if k == 0 {
            None
        } else {
            Some(digits_val(t.take(k)) * (SCALE as int))
        }
    } else if rest[0] == 46 && all_digits(rest.drop_first()) && (k > 0 || rest.len() > 1) {
        Some(digits_val(t.take(k)) * (SCALE as int) + frac_micro(rest.drop_first()))
    } else {
        None
    }
}

/// A scalar literal: optional sign, then digits with an optional fraction;
/// rejected when malformed or larger in magnitude than `SCALAR_LIT_MAX`.
pub open spec fn spec_parse_scalar(s: Seq<u8>) -> Option<i64> {
    let neg = s.len() > 0 && s[0] == 45;
    let t = if s.len() > 0 && (s[0] == 45 || s[0] == 43) {
        s.drop_first()
    } else {
        s
    };
    match spec_unsigned_scalar(t) {
        Some(m) => if m > SCALAR_LIT_MAX {
            None
        } else if neg {
            Some((-m) as i64)
        } else {
            Some(m as i64)
        },
        None => None,
    }
}

/// A signed integer literal within the 32-bit signed range (the range the
/// face-index grammar admits): optional sign, then only digits.
pub open spec fn spec_parse_i32(s: Seq<u8>) -> Option<i64> {
    let neg = s.len() > 0 && s[0] == 45;
    let t = if s.len() > 0 && (s[0] == 45 || s[0] == 43) {
        s.drop_first()
    } else {
        s
    };
    if t.len() == 0 || !all_digits(t) {
        None
    } else {
        let m = digits_val(t);
        if neg && m <= 0x8000_0000 {
            Some((-m) as i64)
        } else if !neg && m <= 0x7fff_ffff {
            Some(m as i64)
        } else {
            None
        }
    }
}

/// Digit sequences have nonnegative values.
pub proof fn lemma_digits_val_nonneg(s: Seq<u8>)
    requires
        all_digits(s),
    ensures
        digits_val(s) >= 0,
    decreases s.len(),
{
    if s.len() > 0 {
        assert(all_digits(s.drop_last()));
        lemma_digits_val_nonneg(s.drop_last());
        vstd::arithmetic::mul::lemma_mul_nonnegative(digits_val(s.drop_last()), 10);
    }
}

/// Appending a digit multiplies the value by ten and adds the digit.
proof fn lemma_digits_val_push(s: Seq<u8>, d: u8)
    ensures
        digits_val(s.push(d)) == digits_val(s) * 10 + (d - 48),
{
    assert(s.push(d).drop_last() =~= s);
    assert(s.push(d).last() == d);
}

/// `digit_prefix_len` is the position of the first non-digit.
proof fn lemma_digit_prefix_len_is(s: Seq<u8>, k: int)
    requires
        0 <= k <= s.len(),
        forall|i: int| 0 <= i < k ==> is_digit(#[trigger] s[i]),
        k == s.len() || !is_digit(s[k as int]),
    ensures
        digit_prefix_len(s) == k,
    decreases s.len(),
{
    if s.len() == 0 || !is_digit(s[0]) {
        assert(k == 0);
    } else {
        assert(k >= 1);
        let t = s.drop_first();
        assert(forall|i: int| 0 <= i < k - 1 ==> is_digit(#[trigger] t[i]));
        lemma_digit_prefix_len_is(t, k - 1);
    }
}

/// Accumulate the value of the digit run starting at `i`, stopping at the
/// first non-digit.  Returns the value (capped detection via `limit`), the
/// number of digits consumed, and the new position.
fn scan_digits(s: &[u8], start: usize, limit: u64) -> (r: (u64, usize, bool))
    requires
        start <= s@.len(),
        limit <= 0x1000_0000_0000_0000u64,
    ensures
        start <= r.1 <= s@.len(),
        r.1 - start == digit_prefix_len(s@.skip(start as int)),
        r.1 < s@.len() ==> !is_digit(s@[r.1 as int]),
        ({
            let run = s@.subrange(start as int, r.1 as int);
            &&& all_digits(run)
            &&& (!r.2 ==> r.0 == digits_val(run) && r.0 <= limit)
            &&& (r.2 ==> digits_val(run) > limit)
        }),
{
    let ghost t = s@.skip(start as int);
    let mut i = start;
    let mut acc: u64 = 0;
    let mut over = false;
    let n = s.len();
    while i < n && s[i] >= 48 && s[i] <= 57
        invariant
            start <= i <= n,
            n == s@.len(),
            limit <= 0x1000_0000_0000_0000u64,
            forall|j: int| start <= j < i ==> is_digit(#[trigger] s@[j]),
            !over ==> acc == digits_val(s@.subrange(start as int, i as int)) && acc <= limit,
            over ==> digits_val(s@.subrange(start as int, i as int)) > limit,
        decreases n - i,
    {
        let d = s[i];
        proof {
            let run = s@.subrange(start as int, i as int);
            let run2 = s@.subrange(start as int, i + 1);
            assert(run2 =~= run.push(d));
            lemma_digits_val_push(run, d);
            assert(all_digits(run)) by {
                assert(forall|j: int| 0 <= j < run.len() ==> run[j] == #[trigger] s@[start + j]);
            }
            lemma_digits_val_nonneg(run);
            if over {
                assert(digits_val(run) * 10 >= digits_val(run)) by (nonlinear_arith)
                    requires
                        digits_val(run) >= 0,
                ;
            }
        }
        if !over {
            let next = acc * 10 + (d as u64 - 48);
            if next > limit {
                over = true;
            } else {
                acc = next;
            }
        }
        i = i + 1;
    }
    proof {
        lemma_digit_prefix_len_is(t, i - start);
        assert(forall|j: int|
            0 <= j < i - start ==> t[j] == #[trigger] s@[start + j] && is_digit(s@[start + j]));
        if (i as int - start) < t.len() {
            assert(t[i - start] == s@[i as int]);
        }
    }
    (acc, i, over)
}

/// Parse a face-index token: a signed decimal integer in the 32-bit range.
pub fn parse_i32_token(s: &[u8]) -> (r: Option<i64>)
    ensures
        r == spec_parse_i32(s@),
        r is Some ==> -0x8000_0000 <= r.unwrap() <= 0x7fff_ffff,
{
    let n = s.len();
    let mut i: usize = 0;
    let mut neg = false;
    if n > 0 && (s[0] == 45 || s[0] == 43) {
        neg = s[0] == 45;
        i = 1;
    }
    let ghost t = s@.skip(i as int);
    proof {
        if i == 0 {
            assert(t =~= s@);
        } else {
            assert(t =~= s@.drop_first());
        }
    }
    let (acc, j, over) = scan_digits(s, i, 0x1_0000_0000u64);
    if j == i || j != n {
        proof {
            if j != n {
                assert(t[j - i] == s@[j as int]);
                assert(!all_digits(t));
            }
        }
        return None;
    }
    proof {
        assert(s@.subrange(i as int, j as int) =~= t);
    }
    if over {
        return None;
    }
    if neg {
        if acc <= 0x8000_0000u64 {
            Some(-(acc as i64))
        } else {
            None
        }
    } else {
        if acc <= 0x7fff_ffffu64 {
            Some(acc as i64)
        } else {
            None
        }
    }
}

/// Ten to the `k`, for small `k`.
fn pow10_exec(k: usize) -> (r: u64)
    requires
        k <= 6,
    ensures
        r == pow10(k as int),
{
    proof {
        assert(pow10(0) == 1);
        assert(pow10(1) == 10);
        assert(pow10(2) == 100);
        assert(pow10(3) == 1000);
        assert(pow10(4) == 10000);
        assert(pow10(5) == 100000);
        assert(pow10(6) == 1000000);
    }
    if k == 0 {
        1
    } else if k == 1 {
        10
    } else if k == 2 {
        100
    } else if k == 3 {
        1000
    } else if k == 4 {
        10000
    } else if k == 5 {
        100000
    } else {
        1000000
    }
}

/// Parse a scalar token into a fixed-point value (millionths of a unit).
/// Scan the fraction digits after the dot: their count, the end position,
/// and the value of the first six, padded understanding left to the caller.
fn scan_frac(s: &[u8], start: usize) -> (r: (u64, usize))
    requires
        start <= s@.len(),
    ensures
        start <= r.1 <= s@.len(),
        r.1 - start == digit_prefix_len(s@.skip(start as int)),
        r.1 < s@.len() ==> !is_digit(s@[r.1 as int]),
        ({
            let fr = s@.subrange(start as int, r.1 as int);
            &&& all_digits(fr)
            &&& r.0 <= 999_999
            &&& (fr.len() <= 6 ==> r.0 == digits_val(fr) && r.0 < pow10(fr.len() as int))
            &&& (fr.len() > 6 ==> r.0 == digits_val(fr.take(6)))
        }),
{
    let ghost t = s@.skip(start as int);
    let n = s.len();
    let mut k = start;
    let mut f: u64 = 0;
    while k < n && s[k] >= 48 && s[k] <= 57
        invariant
            start <= k <= n,
            n == s@.len(),
            forall|m: int| start <= m < k ==> is_digit(#[trigger] s@[m]),
            f <= 999_999,
            ({
                let fr = s@.subrange(start as int, k as int);
                &&& (fr.len() <= 6 ==> f == digits_val(fr) && f < pow10(fr.len() as int))
                &&& (fr.len() > 6 ==> f == digits_val(fr.take(6)))
            }),
        decreases n - k,
    {
        let d = s[k];
        let cnt = k - start;
        proof {
            let fr = s@.subrange(start as int, k as int);
            let fr2 = s@.subrange(start as int, k + 1);
            if cnt < 6 {
                assert(fr2 =~= fr.push(d));
                lemma_digits_val_push(fr, d);
                lemma_pow10_bounds(cnt as int);
                lemma_pow10_bounds(cnt + 1);
                assert(pow10(cnt + 1) == 10 * pow10(cnt as int));
                assert(f * 10 + (d - 48) < pow10(cnt + 1)) by (nonlinear_arith)
                    requires
                        f < pow10(cnt as int),
                        48 <= d <= 57,
                        pow10(cnt + 1) == 10 * pow10(cnt as int),
                ;
            } else {
                assert(fr2.take(6) =~= fr.take(6));
                if cnt == 6 {
                    assert(fr.take(6) =~= fr);
                }
            }
        }
        if cnt < 6 {
            f = f * 10 + (d as u64 - 48);
        }
        k = k + 1;
    }
    proof {
        lemma_digit_prefix_len_is(t, k - start);
        assert(forall|m: int|
            0 <= m < k - start ==> t[m] == #[trigger] s@[start + m] && is_digit(s@[start + m]));
        if (k as int - start) < t.len() {
            assert(t[k - start] == s@[k as int]);
        }
        let fr = s@.subrange(start as int, k as int);
        assert(all_digits(fr)) by {
            assert(forall|m: int| 0 <= m < fr.len() ==> fr[m] == #[trigger] s@[start + m]);
        }
    }
    (f, k)
}

/// `spec_unsigned_scalar` with the magnitude bound applied.
pub open spec fn spec_unsigned_scalar_capped(t: Seq<u8>) -> Option<int> {
    match spec_unsigned_scalar(t) {
        Some(m) => if m > SCALAR_LIT_MAX {
            None
        } else {
            Some(m)
        },
        None => None,
    }
}

/// Parse the unsigned part of a scalar literal starting at `i`.
fn parse_unsigned_scalar(s: &[u8], i: usize) -> (r: Option<u64>)
    requires
        i <= s@.len(),
    ensures
        match r {
            Some(m) => spec_unsigned_scalar_capped(s@.skip(i as int)) == Some(m as int),
            None => spec_unsigned_scalar_capped(s@.skip(i as int)) is None,
        },
{
    let ghost t = s@.skip(i as int);
    let n = s.len();
    let (int_acc, j, over_int) = scan_digits(s, i, SCALAR_INT_MAX);
    let int_digits = j - i;
    let ghost int_run = s@.subrange(i as int, j as int);
    let ghost rest = t.skip(j - i);
    proof {
        assert(int_run =~= t.take(j - i));
        assert(rest =~= s@.subrange(j as int, n as int));
    }
    if j == n {
        // no fraction
        if int_digits == 0 {
            return None;
        }
        if over_int {
            proof {
                lemma_int_part_too_large(int_run);
            }
            return None;
        }
        proof {
            lemma_lit_product_bound(int_acc as int);
        }
        Some(int_acc * (SCALE as u64))
    } else if s[j] == 46 {
        let ghost fr = s@.skip(j + 1);
        let (f, k) = scan_frac(s, j + 1);
        let cnt = k - j - 1;
        let ghost frun = s@.subrange(j + 1, k as int);
        proof {
            assert(rest[0] == 46);
            assert(rest.drop_first() =~= fr);
            assert(frun =~= fr.take(k - j - 1));
        }
        if k != n {
            proof {
                assert(fr[k - j - 1] == s@[k as int]);
                assert(!all_digits(fr));
            }
            return None;
        }
        proof {
            assert(frun =~= fr);
        }
        if int_digits == 0 && cnt == 0 {
            return None;
        }
        if over_int {
            proof {
                lemma_int_part_too_large(int_run);
                lemma_frac_micro_nonneg(fr);
            }
            return None;
        }
        let frac_val: u64 = if cnt >= 6 {
            f
        } else {
            let p = pow10_exec(6 - cnt);
            proof {
                lemma_pow10_bounds(6 - cnt as int);
                assert(f * p <= 999_999u64 * 1_000_000u64) by (nonlinear_arith)
                    requires
                        f <= 999_999u64,
                        p <= 1_000_000u64,
                ;
            }
            f * p
        };
        proof {
            assert(frac_val == frac_micro(fr));
            lemma_lit_product_bound(int_acc as int);
        }
        let total = int_acc * (SCALE as u64) + frac_val;
        if total > SCALAR_LIT_MAX as u64 {
            None
        } else {
            Some(total)
        }
    } else {
        proof {
            assert(rest[0] == s@[j as int]);
            assert(rest[0] != 46);
        }
        None
    }
}

/// Parse a scalar token into a fixed-point value (millionths of a unit).
pub fn parse_scalar_token(s: &[u8]) -> (r: Option<i64>)
    ensures
        r == spec_parse_scalar(s@),
{
    let n = s.len();
    let mut i: usize = 0;
    let mut neg = false;
    if n > 0 && (s[0] == 45 || s[0] == 43) {
        neg = s[0] == 45;
        i = 1;
    }
    proof {
        if i == 0 {
            assert(s@.skip(0) =~= s@);
        } else {
            assert(s@.skip(1) =~= s@.drop_first());
        }
    }
    match parse_unsigned_scalar(s, i) {
        Some(m) => if neg {
            Some(-(m as i64))
        } else {
            Some(m as i64)
        },
        None => None,
    }
}

/// An in-range integer part times the scale stays within the literal bound.
proof fn lemma_lit_product_bound(v: int)
    requires
        0 <= v <= SCALAR_INT_MAX,
    ensures
        0 <= v * (SCALE as int) <= SCALAR_LIT_MAX,
{
    vstd::arithmetic::mul::lemma_mul_nonnegative(v, SCALE as int);
    vstd::arithmetic::mul::lemma_mul_inequality(v, SCALAR_INT_MAX as int, SCALE as int);
}

/// A digit run longer than the integer limit pushes the scalar value past
/// `SCALAR_LIT_MAX`.
proof fn lemma_int_part_too_large(run: Seq<u8>)
    requires
        all_digits(run),
        digits_val(run) > SCALAR_INT_MAX,
    ensures
        digits_val(run) * (SCALE as int) > SCALAR_LIT_MAX,
{
    vstd::arithmetic::mul::lemma_mul_inequality(
        SCALAR_INT_MAX as int + 1,
        digits_val(run),
        SCALE as int,
    );
}

/// The fraction contribution is nonnegative.
pub proof fn lemma_frac_micro_nonneg(f: Seq<u8>)
    requires
        all_digits(f),
    ensures
        frac_micro(f) >= 0,
{
    if f.len() >= 6 {
        assert(all_digits(f.take(6))) by {
            assert(forall|m: int| 0 <= m < 6 ==> f.take(6)[m] == #[trigger] f[m]);
        }
        lemma_digits_val_nonneg(f.take(6));
    } else {
        lemma_digits_val_nonneg(f);
        lemma_pow10_bounds(6 - f.len());
        vstd::arithmetic::mul::lemma_mul_nonnegative(digits_val(f), pow10(6 - f.len()));
    }
}

/// Bounds on small powers of ten.
proof fn lemma_pow10_bounds(k: int)
    requires
        0 <= k <= 6,
    ensures
        1 <= pow10(k) <= 1_000_000,
{
    assert(pow10(0) == 1);
    assert(pow10(1) == 10);
    assert(pow10(2) == 100);
    assert(pow10(3) == 1000);
    assert(pow10(4) == 10000);
    assert(pow10(5) == 100000);
    assert(pow10(6) == 1000000);
}

/// A run of at most six digits stays below one million.
proof fn lemma_digits_val_small(s: Seq<u8>)
    requires
        all_digits(s),
        s.len() <= 6,
    ensures
        digits_val(s) < pow10(s.len() as int),
    decreases s.len(),
{
    lemma_pow10_bounds(s.len() as int);
    if s.len() == 0 {
    } else {
        assert(all_digits(s.drop_last()));
        lemma_digits_val_small(s.drop_last());
        lemma_pow10_bounds(s.len() - 1);
        assert(digits_val(s.drop_last()) * 10 <= (pow10(s.len() - 1) - 1) * 10)
            by (nonlinear_arith)
            requires
                digits_val(s.drop_last()) <= pow10(s.len() - 1) - 1,
        ;
        assert(pow10(s.len() as int) == 10 * pow10(s.len() - 1));
    }
}

/// An unsigned integer literal within the 32-bit range: an optional plus
/// sign, then only digits.
pub open spec fn spec_parse_u32(s: Seq<u8>) -> Option<u32> {
    let t = if s.len() > 0 && s[0] == 43 {
        s.drop_first()
    } else {
        s
    };
    if t.len() == 0 || !all_digits(t) {
        None
    } else {
        let m = digits_val(t);
        if m <= 0xffff_ffff {
            Some(m as u32)
        } else {
            None
        }
    }
}

/// Parse an unsigned 32-bit decimal token.
pub fn parse_u32_token(s: &[u8]) -> (r: Option<u32>)
    ensures
        r == spec_parse_u32(s@),
{
    let n = s.len();
    let mut i: usize = 0;
    if n > 0 && s[0] == 43 {
        i = 1;
    }
    let ghost t = s@.skip(i as int);
    proof {
        if i == 0 {
            assert(t =~= s@);
        } else {
            assert(t =~= s@.drop_first());
        }
    }
    let (acc, j, over) = scan_digits(s, i, 0x1_0000_0000u64);
    if j == i || j != n {
        proof {
            if j != n {
                assert(t[j - i] == s@[j as int]);
                assert(!all_digits(t));
            }
        }
        return None;
    }
    proof {
        assert(s@.subrange(i as int, j as int) =~= t);
    }
    if over {
        return None;
    }
    if acc <= 0xffff_ffffu64 {
        Some(acc as u32)
    } else {
        None
    }
}

} // verus!
