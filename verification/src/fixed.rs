//! Fixed-point arithmetic on `i64` values scaled by `SCALE`.
//!
//! A value `v` stands for the real number `v / SCALE`. All operations have
//! exact integer specifications; additions and subtractions saturate at the
//! `i64` range instead of overflowing.

use vstd::prelude::*;

verus! {

/// Number of fixed-point steps per whole unit: a stored value `v` means
/// `v / SCALE`.
pub const SCALE: i64 = 1_000_000;

/// Mathematical result of clamping `x` into the `i64` range.
pub open spec fn sat64(x: int) -> int {
    if x > i64::MAX {
        i64::MAX as int
    } else if x < i64::MIN {
        i64::MIN as int
    } else {
        x
    }
}

/// Saturating addition.
pub fn sat_add(a: i64, b: i64) -> (r: i64)
    ensures
        r == sat64(a + b),
{
    match a.checked_add(b) {
        Some(v) => v,
        None => {
            if b > 0 {
                i64::MAX
            } else {
                i64::MIN
            }
        },
    }
}

/// Saturating subtraction.
pub fn sat_sub(a: i64, b: i64) -> (r: i64)
    ensures
        r == sat64(a - b),
{
    match a.checked_sub(b) {
        Some(v) => v,
        None => {
            if b < 0 {
                i64::MAX
            } else {
                i64::MIN
            }
        },
    }
}

/// Mathematical product of two fixed-point values, truncated toward zero
/// as the executable division does, and clamped into the `i64` range.
pub open spec fn scaled(a: int, w: int) -> int {
    let p = a * w;
    sat64(
        if p >= 0 {
            p / (SCALE as int)
        } else {
            -((-p) / (SCALE as int))
        },
    )
}

/// Multiplies two fixed-point values, saturating at the `i64` range.
pub fn mul_weight(a: i64, w: i64) -> (r: i64)
    ensures
        r == scaled(a as int, w as int),
{
    proof {
        let ai = a as int;
        let wi = w as int;
        assert(-0x4000_0000_0000_0000_0000_0000_0000_0000 <= ai * wi
            <= 0x4000_0000_0000_0000_0000_0000_0000_0000) by (nonlinear_arith)
            requires i64::MIN <= ai <= i64::MAX, i64::MIN <= wi <= i64::MAX;
    }
    let p: i128 = (a as i128) * (w as i128);
    let q: i128 = if p >= 0 {
        proof {
            vstd::arithmetic::div_mod::lemma_div_pos_is_pos(p as int, SCALE as int);
            vstd::arithmetic::div_mod::lemma_div_nonincreasing(p as int, SCALE as int);
        }
        p / (SCALE as i128)
    } else {
        proof {
            vstd::arithmetic::div_mod::lemma_div_pos_is_pos(-(p as int), SCALE as int);
            vstd::arithmetic::div_mod::lemma_div_nonincreasing(-(p as int), SCALE as int);
        }
        -((-p) / (SCALE as i128))
    };
    if q > (i64::MAX as i128) {
        i64::MAX
    } else if q < (i64::MIN as i128) {
        i64::MIN
    } else {
        q as i64
    }
}

/// The fraction `part / whole` as a fixed-point value in `[0, SCALE]`,
/// truncated.
pub open spec fn ratio(part: int, whole: int) -> int
    recommends
        0 <= part <= whole,
        whole > 0,
{
    part * (SCALE as int) / whole
}

/// Computes `ratio(part, whole)` for a non-empty whole.
pub fn ratio_of(part: usize, whole: usize) -> (r: i64)
    requires
        part <= whole,
        whole > 0,
    ensures
        r == ratio(part as int, whole as int),
        0 <= r <= SCALE,
{
    let p: u128 = (part as u128) * (SCALE as u128) / (whole as u128);
    proof {
        let pi = part as int;
        let wi = whole as int;
        assert(pi * SCALE <= wi * SCALE) by (nonlinear_arith)
            requires 0 <= pi <= wi;
        assert(wi * SCALE / wi == SCALE) by (nonlinear_arith)
            requires wi > 0;
        vstd::arithmetic::div_mod::lemma_div_is_ordered(pi * SCALE, wi * SCALE, wi);
        vstd::arithmetic::div_mod::lemma_div_pos_is_pos(pi * SCALE, wi);
    }
    p as i64
}

} // verus!
