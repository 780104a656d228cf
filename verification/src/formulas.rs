//! Compound-interest formulas.
//!
//! Both formulas take the principal, the annual rate, the number of
//! compounding periods per year and the span of years, and return the
//! projected amount.  Rates above one are read as percentages and divided
//! by one hundred first; a zero period count is rejected as
//! `FinError::InvalidPeriod`; a result or intermediate value outside the
//! representable fixed-point range is rejected as `FinError::Overflow`.

use vstd::prelude::*;

verus! {

use crate::fixed::MAX_UNITS;
use crate::fixed::SCALE;
use crate::fixed::div_trunc;
use crate::fixed::div_units_signed;
use crate::fixed::magnitude;
use crate::fixed::mul_trunc;
use crate::fixed::mul_units_signed;
use crate::fixed::pow_down;
use crate::fixed::pow_fits;
use crate::fixed::pow_units;
use crate::fixed::recip_down;
use crate::fixed::recip_units;

/// Errors of the projection formulas.
#[derive(Clone, Copy, Debug, PartialEq, Eq, Structural)]
pub enum FinError {
    /// Zero compounding periods per year: the formulas divide by the
    /// period count, so a zero count is rejected up front.
    InvalidPeriod,
    /// The exact fixed-point result, or one of its intermediate powers or
    /// terms, leaves the representable range.
    Overflow,
}

/// A rate above one is a percentage and is divided by one hundred; a rate
/// at or below one is already a decimal fraction.
pub open spec fn normalized_rate(r: int) -> int {
    if r > SCALE {
        r / 100
    } else {
        r
    }
}

/// Normalized rate per compounding period, truncated toward zero.
pub open spec fn rate_per_period(r: int, n: int) -> int {
    let q = normalized_rate(r);
    if q >= 0 {
        q / n
    } else {
        -((-q) / n)
    }
}

/// Total number of compounding periods over `t` scaled years at `n`
/// periods per year; negative for a span reaching into the past.
pub open spec fn periods_exp(n: int, t: int) -> int {
    (n * t) / (SCALE as int)
}

/// Scaled growth factor `(1 + rate/n) ^ (n*t)`; a negative period count
/// discounts through the fixed-point reciprocal of the positive power.
pub open spec fn growth_factor(r: int, n: int, t: int) -> int {
    let base = SCALE + rate_per_period(r, n);
    let e = periods_exp(n, t);
    if e >= 0 {
        pow_down(base, e as nat)
    } else {
        recip_down(pow_down(base, (-e) as nat))
    }
}

/// Whether the growth factor is representable: every partial power stays
/// in range, and a power that is inverted for discounting is not zero.
pub open spec fn growth_fits(r: int, n: int, t: int) -> bool {
    let base = SCALE + rate_per_period(r, n);
    let e = periods_exp(n, t);
    if e >= 0 {
        pow_fits(base, e as nat)
    } else {
        pow_fits(base, (-e) as nat) && pow_down(base, (-e) as nat) >= 1
    }
}

/// Exact fixed-point value of `p * (1 + rate/n) ^ (n*t)`.
pub open spec fn spec_compound_interest(p: int, r: int, n: int, t: int) -> int {
    mul_trunc(p, growth_factor(r, n, t))
}

/// Whether the compound-interest computation stays representable from end
/// to end.
pub open spec fn compound_interest_fits(p: int, r: int, n: int, t: int) -> bool {
    growth_fits(r, n, t) && vstd::math::abs(spec_compound_interest(p, r, n, t)) <= MAX_UNITS
}

/// Full behaviour of `compound_interest`: the result value on success,
/// and which error comes on which inputs.
pub open spec fn compound_interest_post(
    p: i64,
    r: i64,
    n: u32,
    t: i64,
    res: Result<i64, FinError>,
) -> bool {
    match res {
        Ok(v) => n >= 1 && compound_interest_fits(p as int, r as int, n as int, t as int) && v
            == spec_compound_interest(p as int, r as int, n as int, t as int),
        Err(e) => if n == 0 {
            e == FinError::InvalidPeriod
        } else {
            !compound_interest_fits(p as int, r as int, n as int, t as int) && e
                == FinError::Overflow
        },
    }
}

/// Magnitude and sign of the normalized rate per period.  A negative rate
/// may reach down to minus one whole unit per period, the floor of the
/// nonnegative growth base.
fn period_rate(r: i64, n: u32) -> (out: (u64, bool))
    requires
        n >= 1,
        r >= -((n as int) * (SCALE as int)),
    ensures
        rate_per_period(r as int, n as int) == if out.1 {
            -(out.0 as int)
        } else {
            out.0 as int
        },
        out.0 <= MAX_UNITS,
        out.1 ==> out.0 <= SCALE,
        out.1 == (r < 0),
{
    if r >= 0 {
        let rs: u64 = r as u64;
        let rnorm: u64 = if rs > SCALE {
            rs / 100
        } else {
            rs
        };
        proof {
            vstd::arithmetic::div_mod::lemma_div_nonincreasing(rs as int, 100);
            vstd::arithmetic::div_mod::lemma_div_pos_is_pos(rs as int, 100);
            vstd::arithmetic::div_mod::lemma_div_nonincreasing(rnorm as int, n as int);
            vstd::arithmetic::div_mod::lemma_div_pos_is_pos(rnorm as int, n as int);
        }
        (rnorm / (n as u64), false)
    } else {
        let mag: u64 = magnitude(r);
        proof {
            vstd::arithmetic::div_mod::lemma_multiply_divide_le(mag as int, n as int, SCALE as int);
            vstd::arithmetic::div_mod::lemma_div_pos_is_pos(mag as int, n as int);
        }
        (mag / (n as u64), true)
    }
}

/// Magnitude and sign of the whole number of compounding periods that
/// `t` scaled years come to at `n` periods per year.
fn period_count(n: u32, t: i64) -> (out: (u128, bool))
    requires
        ((n as int) * (t as int)) % (SCALE as int) == 0,
    ensures
        out.0 == vstd::math::abs(periods_exp(n as int, t as int)),
        out.1 == (periods_exp(n as int, t as int) < 0),
        out.0 <= 0x8000000000000000000000000,
{
    let ghost nt: int = (n as int) * (t as int);
    let ghost k: int = periods_exp(n as int, t as int);
    proof {
        assert((n as int) * (t as int) <= 0x8000000000000000000000000 && (n as int) * (t as int)
            >= -0x8000000000000000000000000) by (nonlinear_arith)
            requires
                n <= 0xFFFFFFFFu32,
                -0x8000000000000000 <= t <= 0x7FFFFFFFFFFFFFFF,
        ;
        vstd::arithmetic::div_mod::lemma_fundamental_div_mod(nt, SCALE as int);
        assert(nt == (SCALE as int) * k);
    }
    let prod: i128 = (n as i128) * (t as i128);
    let emag128: u128 = if prod < 0 {
        (-prod) as u128
    } else {
        prod as u128
    };
    let emag: u128 = emag128 / (SCALE as u128);
    proof {
        if prod < 0 {
            if k >= 0 {
                vstd::arithmetic::mul::lemma_mul_nonnegative(SCALE as int, k);
            }
            assert(k < 0);
            assert(emag128 == (SCALE as int) * (-k));
            vstd::arithmetic::div_mod::lemma_div_multiples_vanish(-k, SCALE as int);
            assert(emag == -k);
        } else {
            assert(emag == k);
            vstd::arithmetic::div_mod::lemma_div_pos_is_pos(nt, SCALE as int);
        }
        vstd::arithmetic::div_mod::lemma_div_nonincreasing(emag128 as int, SCALE as int);
    }
    (emag, prod < 0)
}

/// Projected amount of a principal `p` compounded `n` times a year over
/// `t` scaled years at annual rate `r`: `p * (1 + r/n) ^ (n*t)`.
///
/// The span must come to a whole number of compounding periods, since a
/// fixed-point power is only defined for whole exponents; the rate must
/// not fall below minus one whole unit per period, the floor of the
/// nonnegative growth base.
pub fn compound_interest(p: i64, r: i64, n: u32, t: i64) -> (res: Result<i64, FinError>)
    requires
        n == 0 || r >= -((n as int) * (SCALE as int)),
        ((n as int) * (t as int)) % (SCALE as int) == 0,
    ensures
        compound_interest_post(p, r, n, t, res),
{
    if n == 0 {
        return Err(FinError::InvalidPeriod);
    }
    let (rper_mag, rneg): (u64, bool) = period_rate(r, n);
    let base: u64 = if rneg {
        SCALE - rper_mag
    } else {
        SCALE + rper_mag
    };
    proof {
        assert(base == SCALE + rate_per_period(r as int, n as int));
    }
    let (emag, eneg): (u128, bool) = period_count(n, t);
    match pow_units(base, emag) {
        None => {
            proof {
                assert(!growth_fits(r as int, n as int, t as int));
            }
            Err(FinError::Overflow)
        },
        Some(pv) => {
            if eneg && pv == 0 {
                // Discounting through a growth base of zero: the real
                // quotient has no finite value.
                proof {
                    assert(!growth_fits(r as int, n as int, t as int));
                }
                Err(FinError::Overflow)
            } else {
                let g: u64 = if eneg {
                    recip_units(pv)
                } else {
                    pv
                };
                proof {
                    assert(g == growth_factor(r as int, n as int, t as int));
                    assert(growth_fits(r as int, n as int, t as int));
                    if emag == 0 {
                        assert(pv == SCALE);
                    }
                }
                match mul_units_signed(p, g as i64) {
                    Some(v) => Ok(v),
                    None => Err(FinError::Overflow),
                }
            }
        },
    }
}

/// Exact fixed-point value of the projection with a periodic
/// contribution: `p * (1 + r/n)^(n*t) + c * ((1 + r/n)^(n*t) - 1) / (r/n)`.
/// When the rate per period rounds to zero the annuity term degenerates
/// to one contribution per period: `p + c * (n*t)`.
pub open spec fn spec_compound_interest_with_contrib(
    p: int,
    r: int,
    n: int,
    t: int,
    c: int,
) -> int {
    let rn = rate_per_period(r, n);
    let e = periods_exp(n, t);
    if rn == 0 {
        p + c * e
    } else {
        let g = growth_factor(r, n, t);
        mul_trunc(p, g) + mul_trunc(c, div_trunc(g - SCALE, rn))
    }
}

/// Whether the projection with contribution stays representable from end
/// to end: the growth factor, the annuity quotient, both terms and their
/// sum.
pub open spec fn compound_interest_with_contrib_fits(
    p: int,
    r: int,
    n: int,
    t: int,
    c: int,
) -> bool {
    let rn = rate_per_period(r, n);
    let e = periods_exp(n, t);
    if rn == 0 {
        vstd::math::abs(c * e) <= MAX_UNITS && vstd::math::abs(p + c * e) <= MAX_UNITS
    } else {
        let g = growth_factor(r, n, t);
        let q = div_trunc(g - SCALE, rn);
        growth_fits(r, n, t) && vstd::math::abs(q) <= MAX_UNITS && vstd::math::abs(
            mul_trunc(p, g),
        ) <= MAX_UNITS && vstd::math::abs(mul_trunc(c, q)) <= MAX_UNITS && vstd::math::abs(
            mul_trunc(p, g) + mul_trunc(c, q),
        ) <= MAX_UNITS
    }
}

/// Full behaviour of `compound_interest_with_contrib`: the result value
/// on success, and which error comes on which inputs.
pub open spec fn compound_interest_with_contrib_post(
    p: i64,
    r: i64,
    n: u32,
    t: i64,
    c: i64,
    res: Result<i64, FinError>,
) -> bool {
    match res {
        Ok(v) => n >= 1 && compound_interest_with_contrib_fits(
            p as int,
            r as int,
            n as int,
            t as int,
            c as int,
        ) && v == spec_compound_interest_with_contrib(
            p as int,
            r as int,
            n as int,
            t as int,
            c as int,
        ),
        Err(e) => if n == 0 {
            e == FinError::InvalidPeriod
        } else {
            !compound_interest_with_contrib_fits(
                p as int,
                r as int,
                n as int,
                t as int,
                c as int,
            ) && e == FinError::Overflow
        },
    }
}

/// Projected amount of a principal `p` compounded `n` times a year over
/// `t` scaled years at annual rate `r`, with a contribution `c` added
/// every compounding period.
///
/// The span must come to a whole number of compounding periods, since a
/// fixed-point power is only defined for whole exponents; the rate must
/// not fall below minus one whole unit per period, the floor of the
/// nonnegative growth base.
pub fn compound_interest_with_contrib(p: i64, r: i64, n: u32, t: i64, c: i64) -> (res: Result<
    i64,
    FinError,
>)
    requires
        n == 0 || r >= -((n as int) * (SCALE as int)),
        ((n as int) * (t as int)) % (SCALE as int) == 0,
    ensures
        compound_interest_with_contrib_post(p, r, n, t, c, res),
{
    if n == 0 {
        return Err(FinError::InvalidPeriod);
    }
    let (rper_mag, rneg): (u64, bool) = period_rate(r, n);
    let (emag, eneg): (u128, bool) = period_count(n, t);
    let ghost k: int = periods_exp(n as int, t as int);
    if rper_mag == 0 {
        let ei: i128 = if eneg {
            -(emag as i128)
        } else {
            emag as i128
        };
        proof {
            assert(ei == k);
        }
        if c != 0 && emag > (MAX_UNITS as u128) {
            // One unit of contribution per period already exceeds the
            // representable range, so any nonzero contribution does.
            proof {
                let ac = vstd::math::abs(c as int) as int;
                let ae = vstd::math::abs(k) as int;
                assert(ac * ae >= ae) by (nonlinear_arith)
                    requires
                        ac >= 1,
                        ae >= 0,
                ;
                if c >= 0 && k >= 0 {
                    vstd::arithmetic::mul::lemma_mul_nonnegative(c as int, k);
                } else if c >= 0 && k < 0 {
                    vstd::arithmetic::mul::lemma_mul_unary_negation(c as int, -k);
                    vstd::arithmetic::mul::lemma_mul_nonnegative(c as int, -k);
                } else if c < 0 && k >= 0 {
                    vstd::arithmetic::mul::lemma_mul_unary_negation(-(c as int), k);
                    vstd::arithmetic::mul::lemma_mul_nonnegative(-(c as int), k);
                } else {
                    vstd::arithmetic::mul::lemma_mul_cancels_negatives(-(c as int), -k);
                    vstd::arithmetic::mul::lemma_mul_nonnegative(-(c as int), -k);
                }
                assert(vstd::math::abs((c as int) * k) == ac * ae);
            }
            return Err(FinError::Overflow);
        }
        let ce: i128 = if c == 0 {
            0
        } else {
            proof {
                assert((c as int) * (ei as int) < 0x80000000000000000000000000000000 && (c as int)
                    * (ei as int) > -0x80000000000000000000000000000000) by (nonlinear_arith)
                    requires
                        -0x8000000000000000 <= c <= 0x7FFFFFFFFFFFFFFF,
                        -0x7FFFFFFFFFFFFFFF <= ei <= 0x7FFFFFFFFFFFFFFF,
                ;
            }
            (c as i128) * ei
        };
        proof {
            assert(ce == (c as int) * k);
        }
        if ce > (MAX_UNITS as i128) || ce < -(MAX_UNITS as i128) {
            return Err(FinError::Overflow);
        }
        let sum: i128 = (p as i128) + ce;
        if sum > (MAX_UNITS as i128) || sum < -(MAX_UNITS as i128) {
            return Err(FinError::Overflow);
        }
        return Ok(sum as i64);
    }
    let base: u64 = if rneg {
        SCALE - rper_mag
    } else {
        SCALE + rper_mag
    };
    proof {
        assert(base == SCALE + rate_per_period(r as int, n as int));
    }
    match pow_units(base, emag) {
        None => {
            proof {
                assert(!growth_fits(r as int, n as int, t as int));
            }
            Err(FinError::Overflow)
        },
        Some(pv) => {
            if eneg && pv == 0 {
                // Discounting through a growth base of zero: the real
                // quotient has no finite value.
                proof {
                    assert(!growth_fits(r as int, n as int, t as int));
                }
                Err(FinError::Overflow)
            } else {
                let g: u64 = if eneg {
                    recip_units(pv)
                } else {
                    pv
                };
                proof {
                    assert(g == growth_factor(r as int, n as int, t as int));
                    assert(growth_fits(r as int, n as int, t as int));
                    if emag == 0 {
                        assert(pv == SCALE);
                    }
                }
                let diff: i64 = (g as i64) - (SCALE as i64);
                let rn_signed: i64 = if rneg {
                    -(rper_mag as i64)
                } else {
                    rper_mag as i64
                };
                match div_units_signed(diff, rn_signed) {
                    None => Err(FinError::Overflow),
                    Some(q) => {
                        match mul_units_signed(p, g as i64) {
                            None => Err(FinError::Overflow),
                            Some(t1) => {
                                match mul_units_signed(c, q) {
                                    None => Err(FinError::Overflow),
                                    Some(t2) => {
                                        let sum: i128 = (t1 as i128) + (t2 as i128);
                                        if sum > (MAX_UNITS as i128) || sum < -(MAX_UNITS
                                            as i128) {
                                            Err(FinError::Overflow)
                                        } else {
                                            Ok(sum as i64)
                                        }
                                    },
                                }
                            },
                        }
                    },
                }
            }
        },
    }
}

/// A rate handed over as a percentage and the same rate handed over as a
/// decimal fraction produce the same projections, as long as the
/// percentage does not itself exceed one hundred.
pub proof fn lemma_rate_normalization(p: int, r: int, n: int, t: int, c: int)
    requires
        (SCALE as int) < r <= 100 * (SCALE as int),
    ensures
        spec_compound_interest(p, r, n, t) == spec_compound_interest(p, r / 100, n, t),
        compound_interest_fits(p, r, n, t) == compound_interest_fits(p, r / 100, n, t),
        spec_compound_interest_with_contrib(p, r, n, t, c)
            == spec_compound_interest_with_contrib(p, r / 100, n, t, c),
        compound_interest_with_contrib_fits(p, r, n, t, c)
            == compound_interest_with_contrib_fits(p, r / 100, n, t, c),
{
    vstd::arithmetic::div_mod::lemma_div_is_ordered(r, 100 * (SCALE as int), 100);
    vstd::arithmetic::div_mod::lemma_div_multiples_vanish(SCALE as int, 100);
    vstd::arithmetic::div_mod::lemma_div_pos_is_pos(r, 100);
    assert(normalized_rate(r) == normalized_rate(r / 100));
}

/// With a rate of zero the projection is linear: the principal plus one
/// contribution for every compounding period.
pub proof fn lemma_zero_rate_linear(p: int, n: int, t: int, c: int)
    requires
        n >= 1,
    ensures
        spec_compound_interest_with_contrib(p, 0, n, t, c) == p + c * periods_exp(n, t),
{
    vstd::arithmetic::div_mod::lemma_div_of0(n);
    assert(rate_per_period(0, n) == 0);
}

/// The formulas are pure: on one and the same input the contract admits
/// one result only, so two calls always agree.
pub proof fn lemma_compound_interest_pure(
    p: i64,
    r: i64,
    n: u32,
    t: i64,
    r1: Result<i64, FinError>,
    r2: Result<i64, FinError>,
)
    requires
        compound_interest_post(p, r, n, t, r1),
        compound_interest_post(p, r, n, t, r2),
    ensures
        r1 == r2,
{
}

/// The projection with contribution is pure in the same sense.
pub proof fn lemma_compound_interest_with_contrib_pure(
    p: i64,
    r: i64,
    n: u32,
    t: i64,
    c: i64,
    r1: Result<i64, FinError>,
    r2: Result<i64, FinError>,
)
    requires
        compound_interest_with_contrib_post(p, r, n, t, c, r1),
        compound_interest_with_contrib_post(p, r, n, t, c, r2),
    ensures
        r1 == r2,
{
}

} // verus!
