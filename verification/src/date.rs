//! Calendar dates as day numbers in the proleptic Gregorian calendar.
//!
//! A date is the number of days since 0000-01-01 (a Saturday). All calendar
//! arithmetic the engine needs (ordering, distance, stepping one day back,
//! weekday tests) is plain integer arithmetic on that number.

use vstd::prelude::*;

verus! {

/// A calendar date: days since the proleptic Gregorian date 0000-01-01.
#[derive(Clone, Copy, Debug, PartialEq, Eq, Structural)]
pub struct Date {
    pub num: u64,
}

pub open spec fn is_leap_year(y: int) -> bool {
    (y % 4 == 0 && y % 100 != 0) || y % 400 == 0
}

pub open spec fn year_length(y: int) -> int {
    if is_leap_year(y) {
        366
    } else {
        365
    }
}

/// Days in month `m` (1 through 12) of year `y`.
pub open spec fn month_length(y: int, m: int) -> int {
    if m == 2 {
        if is_leap_year(y) {
            29
        } else {
            28
        }
    } else if m == 4 || m == 6 || m == 9 || m == 11 {
        30
    } else {
        31
    }
}

/// Number of days in all years strictly before year `y`.
pub open spec fn days_before_year(y: nat) -> nat
    decreases y,
{
    if y == 0 {
        0
    } else {
        (days_before_year((y - 1) as nat) + year_length(y - 1)) as nat
    }
}

/// Number of days in the months of year `y` strictly before month `m`.
pub open spec fn days_before_month(y: int, m: nat) -> nat
    decreases m,
{
    if m <= 1 {
        0
    } else {
        (days_before_month(y, (m - 1) as nat) + month_length(y, m - 1)) as nat
    }
}

/// A real calendar date, with no bound on the year.
pub open spec fn is_civil(y: int, m: int, d: int) -> bool {
    y >= 0 && 1 <= m <= 12 && 1 <= d <= month_length(y, m)
}

/// The civil dates this library accepts as input.
pub open spec fn valid_ymd(y: int, m: int, d: int) -> bool {
    is_civil(y, m, d) && y <= 9999
}

/// The calendar successor of a civil date.
pub open spec fn next_ymd(y: int, m: int, d: int) -> (int, int, int) {
    if d < month_length(y, m) {
        (y, m, d + 1)
    } else if m < 12 {
        (y, m + 1, 1)
    } else {
        (y + 1, 1, 1)
    }
}

/// The civil date reached by counting `num` days forward from 0000-01-01:
/// the most direct statement of what a day number means.
pub open spec fn ymd_of(num: nat) -> (int, int, int)
    decreases num,
{
    if num == 0 {
        (0, 1, 1)
    } else {
        let (y, m, d) = ymd_of((num - 1) as nat);
        next_ymd(y, m, d)
    }
}

/// The day number of a civil date: days since 0000-01-01.
pub open spec fn day_number_of(y: int, m: int, d: int) -> int
    recommends
        valid_ymd(y, m, d),
{
    days_before_year(y as nat) + days_before_month(y, m as nat) + d - 1
}

/// Weekday of a day number, with Monday = 0 through Sunday = 6.
/// Day 0 (0000-01-01) is a Saturday, index 5.
pub open spec fn weekday_index_of(num: int) -> int {
    ((num % 7) + 5) % 7
}

pub open spec fn is_weekend_day(num: int) -> bool {
    weekday_index_of(num) >= 5
}

proof fn lemma_days_before_year_bound(y: nat)
    ensures
        days_before_year(y) <= y * 366,
    decreases y,
{
    if y > 0 {
        lemma_days_before_year_bound((y - 1) as nat);
    }
}

proof fn lemma_days_before_year_lower(y: nat)
    ensures
        days_before_year(y) >= y * 365,
    decreases y,
{
    if y > 0 {
        lemma_days_before_year_lower((y - 1) as nat);
    }
}

proof fn lemma_days_before_month_lower(y: int, m: nat)
    ensures
        m >= 2 ==> days_before_month(y, m) >= 28,
    decreases m,
{
    if m > 2 {
        lemma_days_before_month_lower(y, (m - 1) as nat);
    }
}

/// All twelve months of a year sum to the year's length.
proof fn lemma_days_before_month_13(y: int)
    ensures
        days_before_month(y, 13) == year_length(y),
{
    assert(days_before_month(y, 13) == days_before_month(y, 12) + month_length(y, 12));
    assert(days_before_month(y, 12) == days_before_month(y, 11) + month_length(y, 11));
    assert(days_before_month(y, 11) == days_before_month(y, 10) + month_length(y, 10));
    assert(days_before_month(y, 10) == days_before_month(y, 9) + month_length(y, 9));
    assert(days_before_month(y, 9) == days_before_month(y, 8) + month_length(y, 8));
    assert(days_before_month(y, 8) == days_before_month(y, 7) + month_length(y, 7));
    assert(days_before_month(y, 7) == days_before_month(y, 6) + month_length(y, 6));
    assert(days_before_month(y, 6) == days_before_month(y, 5) + month_length(y, 5));
    assert(days_before_month(y, 5) == days_before_month(y, 4) + month_length(y, 4));
    assert(days_before_month(y, 4) == days_before_month(y, 3) + month_length(y, 3));
    assert(days_before_month(y, 3) == days_before_month(y, 2) + month_length(y, 2));
    assert(days_before_month(y, 2) == days_before_month(y, 1) + month_length(y, 1));
    assert(days_before_month(y, 1) == 0);
}

/// Stepping a civil date to its successor raises its day number by one.
pub proof fn lemma_day_number_next(y: int, m: int, d: int)
    requires
        is_civil(y, m, d),
    ensures
        ({
            let (y2, m2, d2) = next_ymd(y, m, d);
            is_civil(y2, m2, d2) && day_number_of(y2, m2, d2) == day_number_of(y, m, d) + 1
        }),
{
    if d < month_length(y, m) {
    } else if m < 12 {
        assert(days_before_month(y, (m + 1) as nat) == days_before_month(y, m as nat)
            + month_length(y, m));
    } else {
        lemma_days_before_month_13(y);
        assert(days_before_month(y, 13) == days_before_month(y, 12) + month_length(y, 12));
        assert(days_before_year((y + 1) as nat) == days_before_year(y as nat) + year_length(y));
        assert(days_before_month(y + 1, 1nat) == 0);
    }
}

/// Counting `day_number_of(y, m, d)` days from 0000-01-01 lands on the civil
/// date `(y, m, d)`: the closed arithmetic and the day-by-day count agree.
pub proof fn lemma_ymd_of_day_number(y: int, m: int, d: int)
    requires
        is_civil(y, m, d),
    ensures
        ymd_of(day_number_of(y, m, d) as nat) == (y, m, d),
    decreases day_number_of(y, m, d),
{
    let num = day_number_of(y, m, d);
    lemma_days_before_month_lower(y, m as nat);
    assert(num >= 0);
    if num == 0 {
        lemma_days_before_year_lower(y as nat);
        assert(y == 0 && m == 1 && d == 1);
    } else if d > 1 {
        lemma_ymd_of_day_number(y, m, d - 1);
        lemma_day_number_next(y, m, d - 1);
    } else if m > 1 {
        assert(days_before_month(y, m as nat) == days_before_month(y, (m - 1) as nat)
            + month_length(y, m - 1));
        lemma_ymd_of_day_number(y, m - 1, month_length(y, m - 1));
        lemma_day_number_next(y, m - 1, month_length(y, m - 1));
    } else {
        lemma_days_before_year_lower(y as nat);
        assert(y >= 1);
        assert(days_before_year(y as nat) == days_before_year((y - 1) as nat) + year_length(y - 1));
        lemma_days_before_month_13(y - 1);
        assert(days_before_month(y - 1, 13) == days_before_month(y - 1, 12) + month_length(
            y - 1,
            12,
        ));
        lemma_ymd_of_day_number(y - 1, 12, 31);
        lemma_day_number_next(y - 1, 12, 31);
    }
}

proof fn lemma_days_before_month_bound(y: int, m: nat)
    ensures
        days_before_month(y, m) <= m * 31,
    decreases m,
{
    if m > 1 {
        lemma_days_before_month_bound(y, (m - 1) as nat);
    }
}

fn is_leap_year_exec(y: u64) -> (r: bool)
    ensures
        r == is_leap_year(y as int),
{
    (y % 4 == 0 && y % 100 != 0) || y % 400 == 0
}

fn year_length_exec(y: u64) -> (r: u64)
    ensures
        r == year_length(y as int),
{
    if is_leap_year_exec(y) {
        366
    } else {
        365
    }
}

fn month_length_exec(y: u64, m: u64) -> (r: u64)
    ensures
        r == month_length(y as int, m as int),
{
    if m == 2 {
        if is_leap_year_exec(y) {
            29
        } else {
            28
        }
    } else if m == 4 || m == 6 || m == 9 || m == 11 {
        30
    } else {
        31
    }
}

impl Date {
    /// Build a date from a civil year, month and day; `None` when the triple
    /// is not a real calendar date (or lies outside years 0 through 9999).
    pub fn from_ymd(y: u64, m: u64, d: u64) -> (r: Option<Date>)
        ensures
            r is Some <==> valid_ymd(y as int, m as int, d as int),
            r matches Some(date) ==> date.num == day_number_of(y as int, m as int, d as int),
    {
        if !(y <= 9999 && 1 <= m && m <= 12) {
            return None;
        }
        let ml = month_length_exec(y, m);
        if !(1 <= d && d <= ml) {
            return None;
        }
        let mut acc: u64 = 0;
        let mut i: u64 = 0;
        while i < y
            invariant
                i <= y <= 9999,
                acc == days_before_year(i as nat),
                acc <= i * 366,
            decreases y - i,
        {
            acc = acc + year_length_exec(i);
            i = i + 1;
            proof {
                lemma_days_before_year_bound(i as nat);
            }
        }
        let mut j: u64 = 1;
        while j < m
            invariant
                1 <= j <= m <= 12,
                y <= 9999,
                acc == days_before_year(y as nat) + days_before_month(y as int, j as nat),
                acc <= y * 366 + j * 31,
            decreases m - j,
        {
            acc = acc + month_length_exec(y, j);
            j = j + 1;
            proof {
                lemma_days_before_year_bound(y as nat);
                lemma_days_before_month_bound(y as int, j as nat);
            }
        }
        Some(Date { num: acc + d - 1 })
    }

    /// Recover the civil year, month and day this day number stands for.
    pub fn to_ymd(&self) -> (r: (u64, u64, u64))
        ensures
            ymd_of(self.num as nat) == (r.0 as int, r.1 as int, r.2 as int),
            is_civil(r.0 as int, r.1 as int, r.2 as int),
            day_number_of(r.0 as int, r.1 as int, r.2 as int) == self.num,
    {
        let num = self.num;
        let mut y: u64 = 0;
        let mut acc: u64 = 0;
        loop
            invariant_except_break
                acc == days_before_year(y as nat),
                acc <= num,
                365 * y <= acc,
            ensures
                acc == days_before_year(y as nat),
                acc <= num,
                num - acc < year_length(y as int),
                365 * y <= acc,
            decreases num - acc,
        {
            let yl = year_length_exec(y);
            if num - acc < yl {
                break ;
            }
            proof {
                lemma_days_before_year_lower((y + 1) as nat);
            }
            acc = acc + yl;
            y = y + 1;
        }
        let rem = num - acc;
        let mut m: u64 = 1;
        let mut macc: u64 = 0;
        loop
            invariant_except_break
                1 <= m <= 12,
                macc == days_before_month(y as int, m as nat),
                macc <= rem,
                rem < year_length(y as int),
            ensures
                1 <= m <= 12,
                macc == days_before_month(y as int, m as nat),
                macc <= rem,
                rem - macc < month_length(y as int, m as int),
            decreases 12 - m,
        {
            let ml = month_length_exec(y, m);
            if rem - macc < ml {
                break ;
            }
            if m == 12 {
                proof {
                    lemma_days_before_month_13(y as int);
                    assert(false);
                }
                break ;
            }
            macc = macc + ml;
            m = m + 1;
        }
        let d = rem - macc + 1;
        proof {
            lemma_ymd_of_day_number(y as int, m as int, d as int);
        }
        (y, m, d)
    }

    /// Weekday of this date, Monday = 0 through Sunday = 6.
    pub fn weekday_index(&self) -> (r: u64)
        ensures
            r == weekday_index_of(self.num as int),
    {
        ((self.num % 7) + 5) % 7
    }

    /// Whether this date falls on a Saturday or Sunday.
    pub fn is_weekend(&self) -> (r: bool)
        ensures
            r == is_weekend_day(self.num as int),
    {
        self.weekday_index() >= 5
    }
}

} // verus!
