use retirement_math::formulas::FinError;
use retirement_math::formulas::compound_interest;
use retirement_math::formulas::compound_interest_with_contrib;

const S: i64 = 1_000_000_000;

fn to_f64(units: i64) -> f64 {
    (units as f64) / 1e9
}

#[test]
fn test_compound_interest() {
    // 100 at 10% compounded monthly over 10 years, rate as a percentage
    // and as a decimal fraction.
    let pct = compound_interest(100 * S, 10 * S, 12, 10 * S).unwrap();
    let frac = compound_interest(100 * S, S / 10, 12, 10 * S).unwrap();
    assert_eq!(pct, frac);
    assert!((to_f64(pct) - 270.7039).abs() < 1e-3);
}

#[test]
fn test_compound_interest_with_contrib() {
    // 100 at 10% compounded monthly over 10 years with 100 added every
    // period, rate as a percentage and as a decimal fraction.
    let pct = compound_interest_with_contrib(100 * S, 10 * S, 12, 10 * S, 100 * S).unwrap();
    let frac = compound_interest_with_contrib(100 * S, S / 10, 12, 10 * S, 100 * S).unwrap();
    assert_eq!(pct, frac);
    assert_eq!(pct, 20_755_200_379_900);
    // Lump-sum term plus annuity term, computed in floating point.
    let g: f64 = (1.0_f64 + 0.10 / 12.0).powi(120);
    let expect: f64 = 100.0 * g + 100.0 * (g - 1.0) / (0.10 / 12.0);
    assert!((to_f64(pct) - expect).abs() < 1e-2);
}

#[test]
fn test_zero_rate_is_linear() {
    // With a zero rate the balance grows by one contribution per period:
    // 100 + 100 * 12 * 10.
    let r = compound_interest_with_contrib(100 * S, 0, 12, 10 * S, 100 * S).unwrap();
    assert_eq!(r, 12_100 * S);
}

#[test]
fn test_rate_below_one_period_unit_is_linear() {
    // A positive rate so small that it rounds to zero per period takes
    // the same linear limiting path.
    let r = compound_interest_with_contrib(100 * S, 5, 12, 10 * S, 100 * S).unwrap();
    assert_eq!(r, 12_100 * S);
}

#[test]
fn test_invalid_period() {
    assert_eq!(
        compound_interest(100 * S, 10 * S, 0, 10 * S),
        Err(FinError::InvalidPeriod)
    );
    assert_eq!(
        compound_interest_with_contrib(100 * S, 10 * S, 0, 10 * S, 100 * S),
        Err(FinError::InvalidPeriod)
    );
}

#[test]
fn test_negative_years_discount() {
    // Ten years backward at 10% monthly discounts the principal.
    let r = compound_interest(100 * S, 10 * S, 12, -10 * S).unwrap();
    assert_eq!(r, 36_940_699_900);
    assert!((to_f64(r) - 100.0 / (1.0_f64 + 0.10 / 12.0).powi(120)).abs() < 1e-3);
}

#[test]
fn test_zero_years_returns_principal() {
    let r = compound_interest(100 * S, 10 * S, 12, 0).unwrap();
    assert_eq!(r, 100 * S);
    let rc = compound_interest_with_contrib(100 * S, 10 * S, 12, 0, 100 * S).unwrap();
    assert_eq!(rc, 100 * S);
}

#[test]
fn test_negative_principal_flips_sign() {
    let pos = compound_interest(100 * S, 10 * S, 12, 10 * S).unwrap();
    let neg = compound_interest(-100 * S, 10 * S, 12, 10 * S).unwrap();
    assert_eq!(neg, -pos);
}

#[test]
fn test_fractional_years_whole_periods() {
    // Half a year at monthly compounding is six whole periods.
    let r = compound_interest(100 * S, 10 * S, 12, S / 2).unwrap();
    assert_eq!(r, 105_105_330_900);
    assert!((to_f64(r) - 100.0 * (1.0_f64 + 0.10 / 12.0).powi(6)).abs() < 1e-3);
}

#[test]
fn test_negative_rate_decays() {
    // Minus five percent a year, compounded monthly over 10 years.
    let r = compound_interest(100 * S, -50_000_000, 12, 10 * S).unwrap();
    assert_eq!(r, 60_589_742_700);
    assert!((to_f64(r) - 100.0 * (1.0_f64 - 0.05 / 12.0).powi(120)).abs() < 1e-3);
}

#[test]
fn test_negative_rate_with_contrib() {
    let r = compound_interest_with_contrib(100 * S, -50_000_000, 12, 10 * S, 100 * S).unwrap();
    assert_eq!(r, 9_519_053_008_000);
    let g: f64 = (1.0_f64 - 0.05 / 12.0).powi(120);
    let expect: f64 = 100.0 * g + 100.0 * (g - 1.0) / (-0.05 / 12.0);
    assert!((to_f64(r) - expect).abs() < 1e-2);
}

#[test]
fn test_full_decay_keeps_last_contribution() {
    // Minus one whole unit per period wipes the balance each month; only
    // the final contribution is left standing.
    let r = compound_interest_with_contrib(100 * S, -12 * S, 12, 10 * S, 100 * S).unwrap();
    assert_eq!(r, 100 * S);
}

#[test]
fn test_full_decay_discounting_overflows() {
    // Looking backward through a wiped-out balance has no finite value.
    assert_eq!(
        compound_interest(100 * S, -12 * S, 12, -10 * S),
        Err(FinError::Overflow)
    );
}

#[test]
fn test_overflow_reported() {
    // Doubling every year for a century leaves the representable range.
    assert_eq!(
        compound_interest(100 * S, 100 * S, 1, 100 * S),
        Err(FinError::Overflow)
    );
}

#[test]
fn test_pure_repeat_calls() {
    let a1 = compound_interest(100 * S, 10 * S, 12, 10 * S);
    let a2 = compound_interest(100 * S, 10 * S, 12, 10 * S);
    assert_eq!(a1, a2);
    let b1 = compound_interest_with_contrib(100 * S, 10 * S, 12, 10 * S, 100 * S);
    let b2 = compound_interest_with_contrib(100 * S, 10 * S, 12, 10 * S, 100 * S);
    assert_eq!(b1, b2);
}
