//! A `Day` is one contiguous attendance session: the first and the last
//! event timestamp that fall in one calendar bucket.
//!
//! Timestamps are local wall-clock seconds since 0000-01-01T00:00:00.
//! A calendar bucket starts `DAY_BOUNDARY_SECONDS` after civil midnight, so
//! late-night activity still counts toward the prior date: the bucket of a
//! timestamp `t` is the day number of `t - DAY_BOUNDARY_SECONDS`.

use vstd::prelude::*;

use crate::date::Date;

verus! {

/// A calendar bucket begins this many seconds after civil midnight (05:00).
pub const DAY_BOUNDARY_SECONDS: u64 = 5 * 3600;

pub const SECONDS_PER_DAY: u64 = 24 * 3600;

/// The calendar bucket (as a day number) that a local timestamp falls in.
pub open spec fn bucket_of(t: int) -> int {
    (t - DAY_BOUNDARY_SECONDS) / (SECONDS_PER_DAY as int)
}

/// Clock time of day of a local timestamp after applying the day-boundary
/// offset, as seconds since the bucket began.
pub open spec fn shifted_time_of_day(t: int) -> int {
    (t - DAY_BOUNDARY_SECONDS) % (SECONDS_PER_DAY as int)
}

/// One attendance session: earliest and latest event timestamp in one bucket.
#[derive(Clone, Copy, Debug, PartialEq, Eq, Structural)]
pub struct Day {
    /// The bucket's date under the day-boundary convention.
    pub date: Date,
    /// Local timestamp of the earliest event in the bucket.
    pub start: u64,
    /// Local timestamp of the latest event in the bucket.
    pub end: u64,
}

impl Day {
    /// The session is internally consistent: it starts no later than it ends,
    /// and both endpoints fall in the bucket named by its date.
    pub open spec fn wf(self) -> bool {
        &&& self.start >= DAY_BOUNDARY_SECONDS
        &&& self.start <= self.end
        &&& bucket_of(self.start as int) == self.date.num as int
        &&& bucket_of(self.end as int) == self.date.num as int
    }

    /// Session duration in seconds.
    pub open spec fn spec_span_seconds(self) -> int {
        self.end - self.start
    }

    /// Build a session from its parts; `None` when they violate the session
    /// invariant (which indicates corrupt stored data).
    pub fn new(date: Date, start: u64, end: u64) -> (r: Option<Day>)
        ensures
            r is Some <==> (Day { date, start, end }).wf(),
            r matches Some(day) ==> day == (Day { date, start, end }),
    {
        let day = Day { date, start, end };
        if start >= DAY_BOUNDARY_SECONDS && start <= end && bucket_of_exec(start) == date.num
            && bucket_of_exec(end) == date.num {
            Some(day)
        } else {
            None
        }
    }

    /// Duration of the session, in seconds.
    pub fn span_seconds(&self) -> (r: u64)
        requires
            self.wf(),
        ensures
            r == self.spec_span_seconds(),
    {
        self.end - self.start
    }

    /// Duration of the session, in milliseconds.
    pub fn span_milliseconds(&self) -> (r: u64)
        requires
            self.wf(),
        ensures
            r == self.spec_span_seconds() * 1000,
    {
        proof {
            lemma_same_bucket_close(self.start as int, self.end as int);
        }
        (self.end - self.start) * 1000
    }

    /// Time of day the session started, measured from the bucket boundary.
    pub fn shifted_start(&self) -> (r: u64)
        requires
            self.wf(),
        ensures
            r == shifted_time_of_day(self.start as int),
    {
        (self.start - DAY_BOUNDARY_SECONDS) % SECONDS_PER_DAY
    }

    /// Time of day the session ended, measured from the bucket boundary.
    pub fn shifted_end(&self) -> (r: u64)
        requires
            self.wf(),
        ensures
            r == shifted_time_of_day(self.end as int),
    {
        proof {
            lemma_same_bucket_close(self.start as int, self.end as int);
        }
        (self.end - DAY_BOUNDARY_SECONDS) % SECONDS_PER_DAY
    }
}

/// Two timestamps in one bucket are less than one calendar day apart.
pub proof fn lemma_same_bucket_close(s: int, e: int)
    requires
        s >= DAY_BOUNDARY_SECONDS,
        s <= e,
        bucket_of(s) == bucket_of(e),
    ensures
        e - s < SECONDS_PER_DAY,
{
    let d = SECONDS_PER_DAY as int;
    vstd::arithmetic::div_mod::lemma_fundamental_div_mod(s - DAY_BOUNDARY_SECONDS, d);
    vstd::arithmetic::div_mod::lemma_fundamental_div_mod(e - DAY_BOUNDARY_SECONDS, d);
    vstd::arithmetic::div_mod::lemma_mod_bound(s - DAY_BOUNDARY_SECONDS, d);
    vstd::arithmetic::div_mod::lemma_mod_bound(e - DAY_BOUNDARY_SECONDS, d);
}

/// The calendar bucket that a local timestamp falls in.
pub fn bucket_of_exec(t: u64) -> (r: u64)
    requires
        t >= DAY_BOUNDARY_SECONDS,
    ensures
        r == bucket_of(t as int),
{
    (t - DAY_BOUNDARY_SECONDS) / SECONDS_PER_DAY
}

} // verus!
