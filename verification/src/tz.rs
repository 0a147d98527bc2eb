//! Conversion from UTC instants (Unix seconds) to local wall-clock time in
//! the engine's fixed civil zone (Europe/Oslo), and the bucket computation
//! built on it.
//!
//! Local timestamps in this library count wall-clock seconds since
//! 0000-01-01T00:00:00; Unix instants count seconds since 1970-01-01T00:00:00
//! UTC. The two are bridged by the zone's offset and the fixed epoch shift.

use vstd::prelude::*;

use crate::date::Date;
use crate::day::{bucket_of, bucket_of_exec, DAY_BOUNDARY_SECONDS};

verus! {

/// Seconds from 0000-01-01T00:00:00 to 1970-01-01T00:00:00 (719528 days).
pub const UNIX_EPOCH_OFFSET_SECONDS: u64 = 62_167_219_200;

/// Last supported UTC instant: 9999-12-31T23:59:59Z.
pub const MAX_UTC_SECONDS: i64 = 253_402_300_799;

/// The local wall-clock reading (seconds since the Unix epoch, as the local
/// clock shows them) of the UTC instant `t`. A function of the instant
/// alone: the time zone database is fixed at build time.
pub uninterp spec fn oslo_wall_of(t: int) -> int;

/// Relies on chrono's `DateTime::from_timestamp`, `with_timezone` and
/// `naive_local`, and on chrono_tz's `Europe::Oslo` zone: the wall-clock
/// reading of an instant is a function of the instant alone, and the zone's
/// total offset from UTC is one or two hours for every instant since 1970
/// (its transition table lists only CET, +1h, and CEST, +2h, there).
#[verifier::external_body]
fn oslo_wall_clock(t: i64) -> (r: i64)
    requires
        0 <= t <= MAX_UTC_SECONDS,
    ensures
        r == oslo_wall_of(t as int),
        t + 3600 <= r <= t + 7200,
{
    let utc = chrono::DateTime::<chrono::Utc>::from_timestamp(t, 0).unwrap();
    utc.with_timezone(&chrono_tz::Europe::Oslo).naive_local().and_utc().timestamp()
}

/// The local timestamp (seconds since 0000-01-01, local wall clock) of the
/// UTC instant `t`.
pub open spec fn local_of_utc(t: int) -> int {
    oslo_wall_of(t) + UNIX_EPOCH_OFFSET_SECONDS
}

/// Whether a UTC instant lies in the range the conversion supports.
pub open spec fn utc_in_range(t: int) -> bool {
    0 <= t <= MAX_UTC_SECONDS
}

/// Convert a UTC instant to the local timestamp; `None` outside the
/// supported range.
pub fn local_timestamp_of_utc(t: i64) -> (r: Option<u64>)
    ensures
        r is Some <==> utc_in_range(t as int),
        r matches Some(local) ==> local == local_of_utc(t as int),
        r matches Some(local) ==> t + 3600 + UNIX_EPOCH_OFFSET_SECONDS <= local <= t + 7200
            + UNIX_EPOCH_OFFSET_SECONDS,
{
    if t < 0 || t > MAX_UTC_SECONDS {
        return None;
    }
    let w = oslo_wall_clock(t);
    Some(UNIX_EPOCH_OFFSET_SECONDS + (w as u64))
}

/// The calendar bucket a registration at UTC instant `t` belongs to: the
/// local date of the instant five hours before its local wall-clock time.
/// `None` outside the supported range.
pub fn registration_date(t: i64) -> (r: Option<Date>)
    ensures
        r is Some <==> utc_in_range(t as int),
        r matches Some(date) ==> date.num == bucket_of(local_of_utc(t as int)),
{
    match local_timestamp_of_utc(t) {
        None => None,
        Some(local) => {
            assert(local >= DAY_BOUNDARY_SECONDS);
            Some(Date { num: bucket_of_exec(local) })
        },
    }
}

} // verus!
