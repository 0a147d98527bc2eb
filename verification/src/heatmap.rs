//! The attendance heatmap's data: per-day session durations and the
//! intensity bucket each duration falls in. Drawing the map is a
//! presentation concern; the bucketing thresholds are the engine's.

use vstd::prelude::*;

use crate::date::{weekday_index_of, Date};

verus! {

pub const MS_IN_HOUR: u64 = 60 * 60 * 1000;

pub const MS_IN_2_HOURS: u64 = 2 * 60 * 60 * 1000;

pub const MS_IN_4_HOURS: u64 = 4 * 60 * 60 * 1000;

pub const MS_IN_8_HOURS: u64 = 8 * 60 * 60 * 1000;

pub const MS_IN_10_HOURS: u64 = 10 * 60 * 60 * 1000;

pub const MS_IN_12_HOURS: u64 = 12 * 60 * 60 * 1000;

/// Intensity bucket of one calendar day's session duration.
#[derive(Clone, Copy, Debug, PartialEq, Eq, Structural)]
pub enum ActivityLevel {
    NoActivity,
    UnderOneHour,
    OneToTwoHours,
    TwoToFourHours,
    FourToEightHours,
    EightToTenHours,
    TenToTwelveHours,
    OverTwelveHours,
}

/// The intensity bucket of a day's duration in milliseconds; `None` is a
/// day without activity.
pub open spec fn level_of(milliseconds: Option<u64>) -> ActivityLevel {
    match milliseconds {
        None => ActivityLevel::NoActivity,
        Some(ms) => if ms < MS_IN_HOUR {
            ActivityLevel::UnderOneHour
        } else if ms < MS_IN_2_HOURS {
            ActivityLevel::OneToTwoHours
        } else if ms < MS_IN_4_HOURS {
            ActivityLevel::TwoToFourHours
        } else if ms < MS_IN_8_HOURS {
            ActivityLevel::FourToEightHours
        } else if ms < MS_IN_10_HOURS {
            ActivityLevel::EightToTenHours
        } else if ms < MS_IN_12_HOURS {
            ActivityLevel::TenToTwelveHours
        } else {
            ActivityLevel::OverTwelveHours
        },
    }
}

/// The intensity bucket of a day's duration in milliseconds.
pub fn ms_to_level(milliseconds: Option<u64>) -> (r: ActivityLevel)
    ensures
        r == level_of(milliseconds),
{
    match milliseconds {
        None => ActivityLevel::NoActivity,
        Some(ms) => {
            if ms < MS_IN_HOUR {
                ActivityLevel::UnderOneHour
            } else if ms < MS_IN_2_HOURS {
                ActivityLevel::OneToTwoHours
            } else if ms < MS_IN_4_HOURS {
                ActivityLevel::TwoToFourHours
            } else if ms < MS_IN_8_HOURS {
                ActivityLevel::FourToEightHours
            } else if ms < MS_IN_10_HOURS {
                ActivityLevel::EightToTenHours
            } else if ms < MS_IN_12_HOURS {
                ActivityLevel::TenToTwelveHours
            } else {
                ActivityLevel::OverTwelveHours
            }
        },
    }
}

/// Number of leading heatmap squares to leave empty so the most recent day
/// lands in its weekday row: seven minus the days from Sunday to `today`.
pub fn days_to_skip(today: Date) -> (r: u64)
    ensures
        r == 7 - ((weekday_index_of(today.num as int) + 1) % 7),
{
    7 - ((today.weekday_index() + 1) % 7)
}

/// Per-day session durations to draw as a heatmap, most recent day first.
pub struct GithubMap<'a> {
    pub values: &'a [Option<u64>],
}

impl<'a> GithubMap<'a> {
    pub fn new(day_fractions: &'a [Option<u64>]) -> (r: Self)
        ensures
            r.values@ == day_fractions@,
    {
        Self { values: day_fractions }
    }

    /// The intensity bucket of every day, in order.
    pub fn levels(&self) -> (r: Vec<ActivityLevel>)
        ensures
            r@.len() == self.values@.len(),
            forall|i: int| 0 <= i < r@.len() ==> r@[i] == level_of(self.values@[i]),
    {
        let mut out: Vec<ActivityLevel> = Vec::new();
        let mut i: usize = 0;
        while i < self.values.len()
            invariant
                i <= self.values@.len(),
                out@.len() == i,
                forall|k: int| 0 <= k < i ==> out@[k] == level_of(self.values@[k]),
            decreases self.values@.len() - i,
        {
            out.push(ms_to_level(self.values[i]));
            i = i + 1;
        }
        out
    }
}

} // verus!
