//! Fixed-point arithmetic core.
//!
//! A quantity is an integer number of units of `1 / SCALE`; `SCALE` units
//! stand for the real number one.  Every operation here truncates toward
//! zero, and every contract pins the result to the corresponding exact
//! integer expression.

use vstd::prelude::*;

verus! {

/// Number of units in 1.0: quantities are integers scaled by this factor.
pub const SCALE: u64 = 1_000_000_000;

/// Largest magnitude a result may take (`i64::MAX`), so that every result
/// fits a signed 64-bit quantity.
pub const MAX_UNITS: u64 = 9_223_372_036_854_775_807;

/// Scaled product of two nonnegative quantities, rounded down:
/// the fixed-point image of `(a / SCALE) * (b / SCALE)`.
pub open spec fn mul_down(a: int, b: int) -> int {
    (a * b) / (SCALE as int)
}

/// Scaled quotient of two nonnegative quantities, rounded down:
/// the fixed-point image of `(a / SCALE) / (b / SCALE)`.
pub open spec fn div_down(a: int, b: int) -> int {
    (a * (SCALE as int)) / b
}

/// Scaled product of two signed quantities, truncated toward zero.
pub open spec fn mul_trunc(a: int, b: int) -> int {
    if (a >= 0) == (b >= 0) {
        mul_down(vstd::math::abs(a) as int, vstd::math::abs(b) as int)
    } else {
        -mul_down(vstd::math::abs(a) as int, vstd::math::abs(b) as int)
    }
}

/// Scaled quotient of two signed quantities, truncated toward zero.
pub open spec fn div_trunc(a: int, b: int) -> int {
    if (a >= 0) == (b >= 0) {
        div_down(vstd::math::abs(a) as int, vstd::math::abs(b) as int)
    } else {
        -div_down(vstd::math::abs(a) as int, vstd::math::abs(b) as int)
    }
}

/// Scaled power: `base` multiplied into one, `e` times, rounding down at
/// each step; the fixed-point image of `(base / SCALE) ^ e`.
pub open spec fn pow_down(base: int, e: nat) -> int
    decreases e,
{
    if e == 0 {
        SCALE as int
    } else {
        mul_down(pow_down(base, (e - 1) as nat), base)
    }
}

/// Whether every partial power of `base` up to `e` stays within
/// `MAX_UNITS`, so that the running product of `pow_units` never leaves
/// the representable range.
pub open spec fn pow_fits(base: int, e: nat) -> bool
    decreases e,
{
    if e == 0 {
        true
    } else {
        pow_fits(base, (e - 1) as nat) && pow_down(base, e) <= MAX_UNITS
    }
}

/// Scaled product of two nonnegative quantities; `None` exactly when the
/// mathematical result leaves the representable range.
pub fn mul_units(a: u64, b: u64) -> (r: Option<u64>)
    ensures
        match r {
            Some(v) => mul_down(a as int, b as int) <= MAX_UNITS && v == mul_down(
                a as int,
                b as int,
            ),
            None => mul_down(a as int, b as int) > MAX_UNITS,
        },
{
    proof {
        assert((a as int) * (b as int) <= u128::MAX) by (nonlinear_arith)
            requires
                a <= u64::MAX,
                b <= u64::MAX,
        ;
    }
    let p: u128 = (a as u128) * (b as u128);
    let q: u128 = p / (SCALE as u128);
    if q > (MAX_UNITS as u128) {
        None
    } else {
        Some(q as u64)
    }
}

/// Scaled quotient of two nonnegative quantities, the divisor nonzero;
/// `None` exactly when the mathematical result leaves the representable
/// range.
pub fn div_units(a: u64, b: u64) -> (r: Option<u64>)
    requires
        b >= 1,
    ensures
        match r {
            Some(v) => div_down(a as int, b as int) <= MAX_UNITS && v == div_down(
                a as int,
                b as int,
            ),
            None => div_down(a as int, b as int) > MAX_UNITS,
        },
{
    proof {
        assert((a as int) * (SCALE as int) <= u128::MAX) by (nonlinear_arith)
            requires
                a <= u64::MAX,
        ;
    }
    let p: u128 = (a as u128) * (SCALE as u128);
    let q: u128 = p / (b as u128);
    if q > (MAX_UNITS as u128) {
        None
    } else {
        Some(q as u64)
    }
}

/// The fitting predicate is closed under taking a smaller exponent.
pub proof fn lemma_pow_fits_prefix(base: int, e1: nat, e2: nat)
    requires
        e1 <= e2,
        pow_fits(base, e2),
    ensures
        pow_fits(base, e1),
    decreases e2,
{
    if e1 < e2 {
        lemma_pow_fits_prefix(base, e1, (e2 - 1) as nat);
    }
}

/// Scaled power of a nonnegative base; `None` exactly when some partial
/// power leaves the representable range.
pub fn pow_units(base: u64, e: u128) -> (r: Option<u64>)
    ensures
        match r {
            Some(v) => pow_fits(base as int, e as nat) && v == pow_down(base as int, e as nat),
            None => !pow_fits(base as int, e as nat),
        },
{
    let mut acc: u64 = SCALE;
    let mut i: u128 = 0;
    while i < e
        invariant
            i <= e,
            acc == pow_down(base as int, i as nat),
            pow_fits(base as int, i as nat),
            acc <= MAX_UNITS,
        decreases e - i,
    {
        match mul_units(acc, base) {
            Some(v) => {
                proof {
                    assert(pow_down(base as int, (i + 1) as nat) == mul_down(
                        pow_down(base as int, i as nat),
                        base as int,
                    ));
                }
                acc = v;
                i = i + 1;
            },
            None => {
                proof {
                    assert(pow_down(base as int, (i + 1) as nat) == mul_down(
                        pow_down(base as int, i as nat),
                        base as int,
                    ));
                    assert(!pow_fits(base as int, (i + 1) as nat));
                    if pow_fits(base as int, e as nat) {
                        lemma_pow_fits_prefix(base as int, (i + 1) as nat, e as nat);
                    }
                }
                return None;
            },
        }
    }
    Some(acc)
}

/// Scaled reciprocal of a positive quantity, rounded down: the
/// fixed-point image of `1 / (x / SCALE)`.
pub open spec fn recip_down(x: int) -> int {
    ((SCALE as int) * (SCALE as int)) / x
}

/// Scaled reciprocal of a positive quantity; always representable, since
/// the divisor is at least one unit.
pub fn recip_units(x: u64) -> (r: u64)
    requires
        x >= 1,
    ensures
        r == recip_down(x as int),
        r <= MAX_UNITS,
{
    proof {
        vstd::arithmetic::div_mod::lemma_div_is_ordered_by_denominator(
            (SCALE as int) * (SCALE as int),
            1,
            x as int,
        );
        vstd::arithmetic::div_mod::lemma_div_pos_is_pos(
            (SCALE as int) * (SCALE as int),
            x as int,
        );
    }
    let num: u128 = (SCALE as u128) * (SCALE as u128);
    let q: u128 = num / (x as u128);
    q as u64
}

/// Magnitude of a signed quantity.
pub fn magnitude(a: i64) -> (m: u64)
    ensures
        m == vstd::math::abs(a as int),
{
    if a >= 0 {
        a as u64
    } else {
        let w: i128 = -(a as i128);
        w as u64
    }
}

/// Scaled product of two signed quantities, truncated toward zero;
/// `None` exactly when the magnitude of the result leaves the
/// representable range.
pub fn mul_units_signed(a: i64, b: i64) -> (r: Option<i64>)
    ensures
        match r {
            Some(v) => vstd::math::abs(mul_trunc(a as int, b as int)) <= MAX_UNITS && v
                == mul_trunc(a as int, b as int),
            None => vstd::math::abs(mul_trunc(a as int, b as int)) > MAX_UNITS,
        },
{
    proof {
        vstd::arithmetic::mul::lemma_mul_nonnegative(
            vstd::math::abs(a as int) as int,
            vstd::math::abs(b as int) as int,
        );
        vstd::arithmetic::div_mod::lemma_div_pos_is_pos(
            (vstd::math::abs(a as int) as int) * (vstd::math::abs(b as int) as int),
            SCALE as int,
        );
    }
    let ma: u64 = magnitude(a);
    let mb: u64 = magnitude(b);
    match mul_units(ma, mb) {
        Some(v) => {
            if (a >= 0) == (b >= 0) {
                Some(v as i64)
            } else {
                Some(-(v as i64))
            }
        },
        None => None,
    }
}

/// Scaled quotient of two signed quantities, the divisor nonzero,
/// truncated toward zero; `None` exactly when the magnitude of the
/// result leaves the representable range.
pub fn div_units_signed(a: i64, b: i64) -> (r: Option<i64>)
    requires
        b != 0,
    ensures
        match r {
            Some(v) => vstd::math::abs(div_trunc(a as int, b as int)) <= MAX_UNITS && v
                == div_trunc(a as int, b as int),
            None => vstd::math::abs(div_trunc(a as int, b as int)) > MAX_UNITS,
        },
{
    proof {
        vstd::arithmetic::mul::lemma_mul_nonnegative(
            vstd::math::abs(a as int) as int,
            SCALE as int,
        );
        vstd::arithmetic::div_mod::lemma_div_pos_is_pos(
            (vstd::math::abs(a as int) as int) * (SCALE as int),
            vstd::math::abs(b as int) as int,
        );
    }
    let ma: u64 = magnitude(a);
    let mb: u64 = magnitude(b);
    match div_units(ma, mb) {
        Some(v) => {
            if (a >= 0) == (b >= 0) {
                Some(v as i64)
            } else {
                Some(-(v as i64))
            }
        },
        None => None,
    }
}

} // verus!
