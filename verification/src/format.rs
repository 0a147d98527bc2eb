//! Human-readable rendering of sessions, and decimal parsing of card input.
//!
//! All strings are built from verified decimal formatting of the session's
//! numeric fields; the duration phrasing follows the session length (hours
//! and minutes for sessions of an hour or more, else minutes and seconds).

use vstd::prelude::*;
use vstd::string::StrSliceExecFns;
use vstd::string::StringExecFns;

use crate::date::{is_civil, ymd_of, Date};
use crate::day::Day;

verus! {

pub open spec fn digit_char(d: int) -> char {
    if d == 0 {
        '0'
    } else if d == 1 {
        '1'
    } else if d == 2 {
        '2'
    } else if d == 3 {
        '3'
    } else if d == 4 {
        '4'
    } else if d == 5 {
        '5'
    } else if d == 6 {
        '6'
    } else if d == 7 {
        '7'
    } else if d == 8 {
        '8'
    } else {
        '9'
    }
}

/// The decimal digits of `n`, most significant first, no leading zeros.
pub open spec fn decimal_digits(n: nat) -> Seq<char>
    decreases n,
{
    if n < 10 {
        seq![digit_char(n as int)]
    } else {
        decimal_digits(n / 10) + seq![digit_char((n % 10) as int)]
    }
}

/// Two decimal digits, zero-padded.
pub open spec fn two_digits(n: int) -> Seq<char>
    recommends
        0 <= n < 100,
{
    seq![digit_char(n / 10), digit_char(n % 10)]
}

/// Clock time `hh:mm` of a local timestamp (civil time, no offset applied).
pub open spec fn clock_hm(t: int) -> Seq<char> {
    two_digits((t % 86400) / 3600) + ":"@ + two_digits(((t % 86400) % 3600) / 60)
}

/// Day and month of a day number, as `dd/mm`.
pub open spec fn day_month_text(num: nat) -> Seq<char> {
    let (y, m, d) = ymd_of(num);
    two_digits(d) + "/"@ + two_digits(m)
}

/// Duration phrased as hours and minutes when it reaches one hour, else as
/// minutes and seconds; `s` is the duration in seconds.
pub open spec fn duration_text(s: int) -> Seq<char> {
    if s / 3600 >= 1 {
        decimal_digits((s / 3600) as nat) + " timer og "@ + decimal_digits(((s / 60) % 60) as nat)
            + " minutter"@
    } else {
        decimal_digits(((s / 60) % 60) as nat) + " minutter og "@ + decimal_digits((s % 60) as nat)
            + " sekunder"@
    }
}

fn digit_str(d: u64) -> (r: &'static str)
    requires
        d < 10,
    ensures
        r@ == seq![digit_char(d as int)],
{
    if d == 0 {
        proof {
            reveal_strlit("0");
        }
        "0"
    } else if d == 1 {
        proof {
            reveal_strlit("1");
        }
        "1"
    } else if d == 2 {
        proof {
            reveal_strlit("2");
        }
        "2"
    } else if d == 3 {
        proof {
            reveal_strlit("3");
        }
        "3"
    } else if d == 4 {
        proof {
            reveal_strlit("4");
        }
        "4"
    } else if d == 5 {
        proof {
            reveal_strlit("5");
        }
        "5"
    } else if d == 6 {
        proof {
            reveal_strlit("6");
        }
        "6"
    } else if d == 7 {
        proof {
            reveal_strlit("7");
        }
        "7"
    } else if d == 8 {
        proof {
            reveal_strlit("8");
        }
        "8"
    } else {
        proof {
            reveal_strlit("9");
        }
        "9"
    }
}

/// Decimal rendering of an unsigned number, no leading zeros.
pub fn u64_to_string(n: u64) -> (r: String)
    ensures
        r@ == decimal_digits(n as nat),
    decreases n,
{
    if n < 10 {
        digit_str(n).to_owned()
    } else {
        let mut prefix = u64_to_string(n / 10);
        prefix.append(digit_str(n % 10));
        prefix
    }
}

/// Two-digit zero-padded decimal rendering.
pub fn two_digit_string(n: u64) -> (r: String)
    requires
        n < 100,
    ensures
        r@ == two_digits(n as int),
{
    let mut s = digit_str(n / 10).to_owned();
    s.append(digit_str(n % 10));
    proof {
        assert(s@ =~= two_digits(n as int));
    }
    s
}

/// Clock time `hh:mm` of a local timestamp.
pub fn clock_hm_string(t: u64) -> (r: String)
    ensures
        r@ == clock_hm(t as int),
{
    let in_day = t % 86400;
    let mut s = two_digit_string(in_day / 3600);
    s.append(":");
    let minutes = two_digit_string((in_day % 3600) / 60);
    s.append(minutes.as_str());
    proof {
        assert(s@ =~= clock_hm(t as int));
    }
    s
}

/// Day and month of a day number, as `dd/mm`.
pub fn day_month_string(num: u64) -> (r: String)
    ensures
        r@ == day_month_text(num as nat),
{
    let date = Date { num };
    let (_year, m, d) = date.to_ymd();
    let mut s = two_digit_string(d);
    s.append("/");
    let month = two_digit_string(m);
    s.append(month.as_str());
    proof {
        assert(s@ =~= day_month_text(num as nat));
    }
    s
}

/// Duration text of a duration in seconds.
pub fn duration_string(s: u64) -> (r: String)
    ensures
        r@ == duration_text(s as int),
{
    let hours = s / 3600;
    let minutes = (s / 60) % 60;
    if hours >= 1 {
        let mut out = u64_to_string(hours);
        out.append(" timer og ");
        let mins = u64_to_string(minutes);
        out.append(mins.as_str());
        out.append(" minutter");
        proof {
            assert(out@ =~= duration_text(s as int));
        }
        out
    } else {
        let seconds = s % 60;
        let mut out = u64_to_string(minutes);
        out.append(" minutter og ");
        let secs = u64_to_string(seconds);
        out.append(secs.as_str());
        out.append(" sekunder");
        proof {
            assert(out@ =~= duration_text(s as int));
        }
        out
    }
}

/// Human-readable rendering of one session.
#[derive(Debug, Clone)]
pub struct DayStats {
    /// Day and month the session started, as `dd/mm`.
    pub date: String,
    /// Clock time the session started, as `hh:mm`.
    pub start: String,
    /// Clock time the session ended, as `hh:mm`.
    pub end: String,
    /// The session's duration, phrased in words.
    pub diff: String,
}

impl Day {
    /// Render this session for display. The date shown is the civil date of
    /// the session's first event (not the bucket date), as the clock shows it.
    pub fn stats(&self) -> (r: DayStats)
        requires
            self.wf(),
        ensures
            r.date@ == day_month_text((self.start / 86400) as nat),
            r.start@ == clock_hm(self.start as int),
            r.end@ == clock_hm(self.end as int),
            r.diff@ == duration_text(self.spec_span_seconds()),
    {
        DayStats {
            date: day_month_string(self.start / 86400),
            start: clock_hm_string(self.start),
            end: clock_hm_string(self.end),
            diff: duration_string(self.span_seconds()),
        }
    }
}

pub open spec fn is_digit(c: char) -> bool {
    48 <= c as u32 <= 57
}

pub open spec fn digit_value(c: char) -> int {
    c as u32 - 48
}

pub open spec fn all_digits(s: Seq<char>) -> bool {
    forall|i: int| 0 <= i < s.len() ==> is_digit(#[trigger] s[i])
}

/// The number the decimal digit string stands for.
pub open spec fn decimal_value(s: Seq<char>) -> int
    decreases s.len(),
{
    if s.len() == 0 {
        0
    } else {
        decimal_value(s.drop_last()) * 10 + digit_value(s.last())
    }
}

spec fn ten_pow(n: nat) -> nat
    decreases n,
{
    if n == 0 {
        1
    } else {
        10 * ten_pow((n - 1) as nat)
    }
}

/// Parse a card identifier: exactly ten decimal digits. Anything else (too
/// short, too long, or a non-digit anywhere) is rejected.
pub fn parse_card_id(s: &str) -> (r: Option<u64>)
    ensures
        r is Some <==> s@.len() == 10 && all_digits(s@),
        r matches Some(v) ==> v == decimal_value(s@),
{
    let len = s.unicode_len();
    if len != 10 {
        return None;
    }
    let mut value: u64 = 0;
    let mut i: usize = 0;
    proof {
        assert(s@.take(0) =~= Seq::<char>::empty());
    }
    while i < 10
        invariant
            i <= 10,
            s@.len() == 10,
            all_digits(s@.take(i as int)),
            value == decimal_value(s@.take(i as int)),
            value < ten_pow(i as nat),
        decreases 10 - i,
    {
        let c = s.get_char(i);
        let v = c as u32;
        if v < 48 || v > 57 {
            return None;
        }
        proof {
            assert(s@.take(i as int + 1).drop_last() =~= s@.take(i as int));
            assert(s@.take(i as int + 1).last() == s@[i as int]);
            reveal_with_fuel(ten_pow, 11);
            assert(ten_pow(i as nat + 1) == 10 * ten_pow(i as nat));
            assert(ten_pow(10nat) == 10_000_000_000) by {
                reveal_with_fuel(ten_pow, 11);
            }
        }
        value = value * 10 + ((v - 48) as u64);
        i = i + 1;
    }
    proof {
        assert(s@.take(10) =~= s@);
    }
    Some(value)
}

} // verus!
