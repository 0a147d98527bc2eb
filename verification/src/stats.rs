//! The statistics aggregator: pure functions over the session list and its
//! gap-filled expansion, and the `Stats` snapshot they produce.

use vstd::prelude::*;

use crate::calendar::{all_wf, expansion, strictly_descending, DayOrDate};
use crate::calendar::{expand, lemma_expansion_registers_input};
use crate::date::is_weekend_day;
use crate::day::{shifted_time_of_day, Day};

verus! {

/// The streak a sequence of calendar entries carries: scanning from the
/// front (most recent first), count `Registered` entries while each entry is
/// registered or an unregistered weekend day; stop at the first unregistered
/// weekday.
pub open spec fn streak_of(s: Seq<DayOrDate>) -> nat
    decreases s.len(),
{
    if s.len() == 0 {
        0
    } else {
        match s[0] {
            DayOrDate::Registered(_) => 1 + streak_of(s.drop_first()),
            DayOrDate::Unregistered(date) => if is_weekend_day(date.num as int) {
                streak_of(s.drop_first())
            } else {
                0
            },
        }
    }
}

/// Number of `Registered` entries among the first `n` entries.
pub open spec fn count_registered(s: Seq<DayOrDate>, n: int) -> nat
    decreases s.len(),
{
    if s.len() == 0 || n <= 0 {
        0
    } else {
        (if s[0] is Registered {
            1nat
        } else {
            0nat
        }) + count_registered(s.drop_first(), n - 1)
    }
}

/// The session with the longest span; the earliest (front-most, i.e. most
/// recent) one among equal spans.
pub open spec fn longest_of(days: Seq<Day>) -> Day
    recommends
        days.len() > 0,
    decreases days.len(),
{
    if days.len() <= 1 {
        days[0]
    } else {
        let rest = longest_of(days.drop_first());
        if days[0].spec_span_seconds() >= rest.spec_span_seconds() {
            days[0]
        } else {
            rest
        }
    }
}

/// The session whose start has the smallest clock time of day (after the
/// day-boundary offset); the front-most one among ties.
pub open spec fn earliest_of(days: Seq<Day>) -> Day
    recommends
        days.len() > 0,
    decreases days.len(),
{
    if days.len() <= 1 {
        days[0]
    } else {
        let rest = earliest_of(days.drop_first());
        if shifted_time_of_day(days[0].start as int) <= shifted_time_of_day(rest.start as int) {
            days[0]
        } else {
            rest
        }
    }
}

/// The session whose end has the largest clock time of day (after the
/// day-boundary offset); the front-most one among ties.
pub open spec fn latest_of(days: Seq<Day>) -> Day
    recommends
        days.len() > 0,
    decreases days.len(),
{
    if days.len() <= 1 {
        days[0]
    } else {
        let rest = latest_of(days.drop_first());
        if shifted_time_of_day(days[0].end as int) >= shifted_time_of_day(rest.end as int) {
            days[0]
        } else {
            rest
        }
    }
}

/// Session duration of a calendar entry, in milliseconds; `None` for a day
/// without activity.
pub open spec fn milliseconds_entry(x: DayOrDate) -> Option<u64> {
    match x {
        DayOrDate::Registered(day) => Some((day.spec_span_seconds() * 1000) as u64),
        DayOrDate::Unregistered(_) => None,
    }
}

/// Every `Registered` entry of the sequence carries a well-formed session.
pub open spec fn all_registered_wf(s: Seq<DayOrDate>) -> bool {
    forall|i: int|
        0 <= i < s.len() ==> ((#[trigger] s[i]) matches DayOrDate::Registered(day) ==> day.wf())
}

/// Current streak of the gap-filled sequence, most recent entry first.
pub fn get_streak(days: &Vec<DayOrDate>) -> (r: usize)
    ensures
        r == streak_of(days@),
{
    let mut acc: usize = 0;
    let mut i: usize = 0;
    proof {
        assert(days@.skip(0) =~= days@);
    }
    while i < days.len()
        invariant
            i <= days@.len(),
            acc <= i,
            streak_of(days@) == acc + streak_of(days@.skip(i as int)),
        decreases days@.len() - i,
    {
        proof {
            assert(days@.skip(i as int).drop_first() =~= days@.skip(i as int + 1));
            assert(days@.skip(i as int)[0] == days@[i as int]);
        }
        match days[i] {
            DayOrDate::Registered(_) => {
                acc = acc + 1;
            },
            DayOrDate::Unregistered(date) => {
                if !date.is_weekend() {
                    return acc;
                }
            },
        }
        i = i + 1;
    }
    proof {
        assert(days@.skip(days@.len() as int) =~= Seq::<DayOrDate>::empty());
    }
    acc
}

/// Law: a weekday without activity breaks the streak. Prepending an
/// `Unregistered` weekday entry to the front of the sequence makes the
/// streak zero, which is bounded by the streak of what follows it.
pub proof fn lemma_streak_weekday_gap_breaks(entry: DayOrDate, s: Seq<DayOrDate>)
    requires
        entry is Unregistered,
        !is_weekend_day(entry.spec_date_num()),
    ensures
        streak_of(seq![entry] + s) == 0,
        streak_of(seq![entry] + s) <= streak_of(s),
{
    assert((seq![entry] + s)[0] == entry);
}

/// The session with the longest span; the most recent one among ties.
#[verifier::loop_isolation(false)]
pub fn get_longest_day(days: &Vec<Day>) -> (r: Day)
    requires
        days@.len() > 0,
        all_wf(days@),
    ensures
        r == longest_of(days@),
{
    let mut best: Day = days[days.len() - 1];
    let mut i: usize = days.len() - 1;
    proof {
        assert(days@.skip(i as int) =~= seq![days@[i as int]]);
    }
    while i > 0
        invariant
            i < days@.len(),
            best.wf(),
            best == longest_of(days@.skip(i as int)),
        decreases i,
    {
        i = i - 1;
        proof {
            assert(days@.skip(i as int).drop_first() =~= days@.skip(i as int + 1));
            assert(days@.skip(i as int)[0] == days@[i as int]);
        }
        if days[i].span_seconds() >= best.span_seconds() {
            best = days[i];
        }
    }
    proof {
        assert(days@.skip(0) =~= days@);
    }
    best
}

/// The session arriving earliest in the day; the most recent one among ties.
#[verifier::loop_isolation(false)]
pub fn get_earliest(days: &Vec<Day>) -> (r: Day)
    requires
        days@.len() > 0,
        all_wf(days@),
    ensures
        r == earliest_of(days@),
{
    let mut best: Day = days[days.len() - 1];
    let mut i: usize = days.len() - 1;
    proof {
        assert(days@.skip(i as int) =~= seq![days@[i as int]]);
    }
    while i > 0
        invariant
            i < days@.len(),
            best.wf(),
            best == earliest_of(days@.skip(i as int)),
        decreases i,
    {
        i = i - 1;
        proof {
            assert(days@.skip(i as int).drop_first() =~= days@.skip(i as int + 1));
            assert(days@.skip(i as int)[0] == days@[i as int]);
        }
        if days[i].shifted_start() <= best.shifted_start() {
            best = days[i];
        }
    }
    proof {
        assert(days@.skip(0) =~= days@);
    }
    best
}

/// The session leaving latest in the day; the most recent one among ties.
#[verifier::loop_isolation(false)]
pub fn get_latest(days: &Vec<Day>) -> (r: Day)
    requires
        days@.len() > 0,
        all_wf(days@),
    ensures
        r == latest_of(days@),
{
    let mut best: Day = days[days.len() - 1];
    let mut i: usize = days.len() - 1;
    proof {
        assert(days@.skip(i as int) =~= seq![days@[i as int]]);
    }
    while i > 0
        invariant
            i < days@.len(),
            best.wf(),
            best == latest_of(days@.skip(i as int)),
        decreases i,
    {
        i = i - 1;
        proof {
            assert(days@.skip(i as int).drop_first() =~= days@.skip(i as int + 1));
            assert(days@.skip(i as int)[0] == days@[i as int]);
        }
        if days[i].shifted_end() >= best.shifted_end() {
            best = days[i];
        }
    }
    proof {
        assert(days@.skip(0) =~= days@);
    }
    best
}

/// Session duration per calendar entry, in milliseconds.
#[verifier::loop_isolation(false)]
pub fn get_milliseconds(days: &Vec<DayOrDate>) -> (r: Vec<Option<u64>>)
    requires
        all_registered_wf(days@),
    ensures
        r@.len() == days@.len(),
        forall|i: int| 0 <= i < days@.len() ==> r@[i] == milliseconds_entry(days@[i]),
{
    let mut out: Vec<Option<u64>> = Vec::new();
    let mut i: usize = 0;
    while i < days.len()
        invariant
            i <= days@.len(),
            out@.len() == i,
            forall|k: int| 0 <= k < i ==> out@[k] == milliseconds_entry(days@[k]),
        decreases days@.len() - i,
    {
        match days[i] {
            DayOrDate::Registered(day) => {
                out.push(Some(day.span_milliseconds()));
            },
            DayOrDate::Unregistered(_) => {
                out.push(None);
            },
        }
        i = i + 1;
    }
    out
}

/// Number of `Registered` entries among the most recent `n` calendar days.
pub fn get_last_n(n: usize, days: &Vec<DayOrDate>) -> (r: usize)
    ensures
        r == count_registered(days@, n as int),
{
    let mut acc: usize = 0;
    let mut i: usize = 0;
    proof {
        assert(days@.skip(0) =~= days@);
    }
    while i < days.len() && i < n
        invariant
            i <= days@.len(),
            i <= n,
            acc <= i,
            count_registered(days@, n as int) == acc + count_registered(
                days@.skip(i as int),
                n - i,
            ),
        decreases days@.len() - i,
    {
        proof {
            assert(days@.skip(i as int).drop_first() =~= days@.skip(i as int + 1));
            assert(days@.skip(i as int)[0] == days@[i as int]);
        }
        if days[i].is_registered() {
            acc = acc + 1;
        }
        i = i + 1;
    }
    proof {
        if i as int == days@.len() {
            assert(days@.skip(days@.len() as int) =~= Seq::<DayOrDate>::empty());
        }
    }
    acc
}

/// Derived statistics of one person's attendance history. Recomputed from
/// scratch on every load; never updated in place. An empty history is a
/// valid state: every extreme is then absent and every count zero.
#[derive(Debug, Clone)]
pub struct Stats {
    /// Consecutive attended days, counting back from the most recent session
    /// and skipping unregistered weekends.
    pub streak: usize,
    /// The session with the longest duration, if any.
    pub longest_day: Option<Day>,
    /// The most recent session, if any.
    pub today: Option<Day>,
    /// The session with the earliest start time of day, if any.
    pub earliest_arrival: Option<Day>,
    /// The session with the latest end time of day, if any.
    pub latest_departure: Option<Day>,
    /// The gap-filled calendar sequence, most recent date first.
    pub days: Vec<DayOrDate>,
    /// Session duration per calendar entry, in milliseconds.
    pub days_milliseconds: Vec<Option<u64>>,
    /// Registered days among the last 7 calendar days.
    pub last_week_count: usize,
    /// Registered days among the last 30 calendar days.
    pub last_month_count: usize,
}

impl Stats {
    /// What `from_days` promises of its result for a non-empty history.
    pub open spec fn matches_days(self, days: Seq<Day>) -> bool {
        &&& self.days@ == expansion(days)
        &&& self.streak == streak_of(expansion(days))
        &&& self.today == Some(days[0])
        &&& self.longest_day == Some(longest_of(days))
        &&& self.earliest_arrival == Some(earliest_of(days))
        &&& self.latest_departure == Some(latest_of(days))
        &&& self.days_milliseconds@.len() == expansion(days).len()
        &&& forall|i: int|
            0 <= i < expansion(days).len() ==> self.days_milliseconds@[i] == milliseconds_entry(
                expansion(days)[i],
            )
        &&& self.last_week_count == count_registered(expansion(days), 7)
        &&& self.last_month_count == count_registered(expansion(days), 30)
    }

    /// The empty snapshot an empty history produces.
    pub open spec fn is_empty_stats(self) -> bool {
        &&& self.streak == 0
        &&& self.longest_day is None
        &&& self.today is None
        &&& self.earliest_arrival is None
        &&& self.latest_departure is None
        &&& self.days@ == Seq::<DayOrDate>::empty()
        &&& self.days_milliseconds@ == Seq::<Option<u64>>::empty()
        &&& self.last_week_count == 0
        &&& self.last_month_count == 0
    }

    /// Compute the full statistics snapshot of a session history, newest
    /// session first. An empty history yields the empty snapshot rather
    /// than an error.
    pub fn from_days(days: &Vec<Day>) -> (r: Stats)
        requires
            strictly_descending(days@),
            all_wf(days@),
        ensures
            days@.len() > 0 ==> r.matches_days(days@),
            days@.len() == 0 ==> r.is_empty_stats(),
    {
        if days.len() == 0 {
            return Stats {
                streak: 0,
                longest_day: None,
                today: None,
                earliest_arrival: None,
                latest_departure: None,
                days: Vec::new(),
                days_milliseconds: Vec::new(),
                last_week_count: 0,
                last_month_count: 0,
            };
        }
        let day_or_dates = expand(days);
        proof {
            lemma_expansion_registers_input(days@);
            assert forall|i: int|
                0 <= i < day_or_dates@.len() implies ((#[trigger] day_or_dates@[i]) matches
            DayOrDate::Registered(day) ==> day.wf()) by {
                if day_or_dates@[i] is Registered {
                    let day = day_or_dates@[i]->Registered_0;
                    assert(days@.contains(day));
                    let k = choose|k: int| 0 <= k < days@.len() && days@[k] == day;
                    assert(days@[k].wf());
                }
            }
        }
        let streak = get_streak(&day_or_dates);
        let today = days[0];
        let longest_day = get_longest_day(days);
        let earliest_arrival = get_earliest(days);
        let latest_departure = get_latest(days);
        let days_milliseconds = get_milliseconds(&day_or_dates);
        let last_week_count = get_last_n(7, &day_or_dates);
        let last_month_count = get_last_n(30, &day_or_dates);
        Stats {
            streak,
            longest_day: Some(longest_day),
            today: Some(today),
            earliest_arrival: Some(earliest_arrival),
            latest_departure: Some(latest_departure),
            days: day_or_dates,
            days_milliseconds,
            last_week_count,
            last_month_count,
        }
    }
}

} // verus!
