use retirement_math::financial::Info;
use retirement_math::financial::Period;

const S: i64 = 1_000_000_000;

fn snapshot(age: i64, death: i64, retire: i64, social: i64) -> Info {
    Info {
        age,
        age_of_death: death,
        age_of_retire: retire,
        age_of_social: social,
        starting_balance: 0,
        ss_monthly: 0,
        contrib_monthly: 0,
        yield_before_retire: 0,
        yield_after_retire: 0,
        inflation_rate: 0,
        annual_income_post: 0,
        annual_income_post_decay: 0,
    }
}

#[test]
fn test_time_statistics_scenario() {
    // Ages 30 / 90 / 65 / 67 give spans 60 / 35 / 37 / 25 / 23.
    let info = snapshot(30 * S, 90 * S, 65 * S, 67 * S);
    let stats = info.get_time_stats();
    assert_eq!(stats.yrs_life_remaining, 60 * S);
    assert_eq!(stats.yrs_until_retirement, 35 * S);
    assert_eq!(stats.yrs_until_ss, 37 * S);
    assert_eq!(stats.yrs_of_retirement, 25 * S);
    assert_eq!(stats.yrs_of_ss, 23 * S);
}

#[test]
fn test_negative_spans_pass_through() {
    // A retirement age before the current age comes out as a negative
    // span, unchanged.
    let info = snapshot(70 * S, 90 * S, 65 * S, 67 * S);
    let stats = info.get_time_stats();
    assert_eq!(stats.yrs_until_retirement, -5 * S);
    assert_eq!(stats.yrs_until_ss, -3 * S);
    assert_eq!(stats.yrs_of_retirement, 25 * S);
}

#[test]
fn test_period_multipliers() {
    assert_eq!(Period::Annually.periods_per_year(), 1);
    assert_eq!(Period::Quarterly.periods_per_year(), 4);
    assert_eq!(Period::Monthly.periods_per_year(), 12);
    assert_eq!(Period::BiWeekly.periods_per_year(), 26);
    assert_eq!(Period::Weekly.periods_per_year(), 52);
    assert_eq!(Period::Daily.periods_per_year(), 365);
}
