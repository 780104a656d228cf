//! Parameter snapshot and derived time statistics.

use vstd::prelude::*;

verus! {

/// Compounding frequency, as a named periods-per-year multiplier.
#[derive(Clone, Copy, Debug, PartialEq, Eq, Structural)]
pub enum Period {
    Annually,
    Quarterly,
    Monthly,
    BiWeekly,
    Weekly,
    Daily,
}

/// Periods-per-year multiplier of each compounding frequency.
pub open spec fn spec_periods_per_year(p: Period) -> u32 {
    match p {
        Period::Annually => 1u32,
        Period::Quarterly => 4u32,
        Period::Monthly => 12u32,
        Period::BiWeekly => 26u32,
        Period::Weekly => 52u32,
        Period::Daily => 365u32,
    }
}

impl Period {
    /// How many compounding periods fit in one year; always at least one,
    /// so a period never triggers the zero-periods error of the formulas.
    pub fn periods_per_year(&self) -> (n: u32)
        ensures
            n == spec_periods_per_year(*self),
            n >= 1,
    {
        match self {
            Period::Annually => 1,
            Period::Quarterly => 4,
            Period::Monthly => 12,
            Period::BiWeekly => 26,
            Period::Weekly => 52,
            Period::Daily => 365,
        }
    }
}

/// Snapshot of the user-entered parameters, immutable once constructed.
/// Ages are in scaled years, balances and cash flows in scaled currency
/// units, rates in scaled percentage or fraction form.  The two
/// post-retirement income fields take part in no formula yet and are kept
/// for interface compatibility.
#[derive(Clone, Debug)]
pub struct Info {
    pub age: i64,
    pub age_of_death: i64,
    pub age_of_retire: i64,
    pub age_of_social: i64,
    pub starting_balance: i64,
    pub ss_monthly: i64,
    pub contrib_monthly: i64,
    pub yield_before_retire: i64,
    pub yield_after_retire: i64,
    pub inflation_rate: i64,
    pub annual_income_post: i64,
    pub annual_income_post_decay: i64,
}

/// Time spans derived from a snapshot by plain subtraction; a span whose
/// end lies before its start comes out negative unchanged.
#[derive(Clone, Debug)]
pub struct TimeStatistics {
    pub yrs_life_remaining: i64,
    pub yrs_until_retirement: i64,
    pub yrs_until_ss: i64,
    pub yrs_of_retirement: i64,
    pub yrs_of_ss: i64,
}

/// The five time spans a snapshot derives, each the exact difference of
/// two of its ages.
pub open spec fn time_stats_post(info: Info, s: TimeStatistics) -> bool {
    s.yrs_life_remaining == info.age_of_death - info.age && s.yrs_until_retirement
        == info.age_of_retire - info.age && s.yrs_until_ss == info.age_of_social - info.age
        && s.yrs_of_retirement == info.age_of_death - info.age_of_retire && s.yrs_of_ss
        == info.age_of_death - info.age_of_social
}

/// The derivation is pure: a snapshot admits one statistics record only,
/// so recomputing always gives the same fresh value.
pub proof fn lemma_time_stats_pure(info: Info, s1: TimeStatistics, s2: TimeStatistics)
    requires
        time_stats_post(info, s1),
        time_stats_post(info, s2),
    ensures
        s1 == s2,
{
}

impl Info {
    /// The five derived time spans, each the exact difference of two ages
    /// of the snapshot.  A fresh value is computed on every call and no
    /// field of the snapshot changes.
    pub fn get_time_stats(&self) -> (s: TimeStatistics)
        requires
            i64::MIN <= self.age_of_death - self.age <= i64::MAX,
            i64::MIN <= self.age_of_retire - self.age <= i64::MAX,
            i64::MIN <= self.age_of_social - self.age <= i64::MAX,
            i64::MIN <= self.age_of_death - self.age_of_retire <= i64::MAX,
            i64::MIN <= self.age_of_death - self.age_of_social <= i64::MAX,
        ensures
            time_stats_post(*self, s),
    {
        TimeStatistics {
            yrs_life_remaining: self.age_of_death - self.age,
            yrs_until_retirement: self.age_of_retire - self.age,
            yrs_until_ss: self.age_of_social - self.age,
            yrs_of_retirement: self.age_of_death - self.age_of_retire,
            yrs_of_ss: self.age_of_death - self.age_of_social,
        }
    }
}

} // verus!
