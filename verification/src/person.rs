//! Loading one person's snapshot: materializing sessions from the event
//! store's grouped rows, resolving aliases that share one display name, and
//! assembling the derived statistics.

use vstd::prelude::*;

use crate::calendar::{all_wf, strictly_descending};
use crate::date::Date;
use crate::day::Day;
use crate::format::{decimal_digits, u64_to_string};
use crate::stats::Stats;
use crate::tz::{local_of_utc, local_timestamp_of_utc, utc_in_range};

verus! {

/// One row of the event store's grouped-by-day query: the bucket's day
/// number and the UTC instants (Unix seconds) of its first and last event.
#[derive(Clone, Copy, Debug, PartialEq, Eq, Structural)]
pub struct DayRow {
    pub date_num: u64,
    pub start_utc: i64,
    pub end_utc: i64,
}

/// The stored history handed back by the event store violates the session
/// or ordering invariants: store corruption, fatal for this load.
#[derive(Clone, Copy, Debug, PartialEq, Eq, Structural)]
pub struct CorruptStore;

/// The session a stored row stands for, in local wall-clock time.
pub open spec fn row_day(row: DayRow) -> Day {
    Day {
        date: Date { num: row.date_num },
        start: local_of_utc(row.start_utc as int) as u64,
        end: local_of_utc(row.end_utc as int) as u64,
    }
}

/// The sessions a row list stands for, in order.
pub open spec fn loaded_days(rows: Seq<DayRow>) -> Seq<Day> {
    Seq::new(rows.len(), |i: int| row_day(rows[i]))
}

/// The row list is loadable: every instant in range, every session
/// well-formed, and dates strictly descending.
pub open spec fn rows_ok(rows: Seq<DayRow>) -> bool {
    &&& forall|i: int|
        0 <= i < rows.len() ==> utc_in_range((#[trigger] rows[i]).start_utc as int) && utc_in_range(
            rows[i].end_utc as int,
        ) && row_day(rows[i]).wf()
    &&& forall|i: int, j: int| 0 <= i < j < rows.len() ==> rows[i].date_num > rows[j].date_num
}

/// Materialize the session of one stored row; `None` when the row violates
/// the session invariant or lies outside the supported timestamp range.
pub fn day_from_row(row: DayRow) -> (r: Option<Day>)
    ensures
        r is Some <==> utc_in_range(row.start_utc as int) && utc_in_range(row.end_utc as int)
            && row_day(row).wf(),
        r matches Some(day) ==> day == row_day(row),
{
    match local_timestamp_of_utc(row.start_utc) {
        None => None,
        Some(start) => match local_timestamp_of_utc(row.end_utc) {
            None => None,
            Some(end) => Day::new(Date { num: row.date_num }, start, end),
        },
    }
}

proof fn lemma_adjacent_chain(rows: Seq<DayRow>, i: int, j: int)
    requires
        forall|k: int|
            0 < k < rows.len() ==> rows[k - 1].date_num > (#[trigger] rows[k]).date_num,
        0 <= i < j < rows.len(),
    ensures
        rows[i].date_num > rows[j].date_num,
    decreases j - i,
{
    if j > i + 1 {
        lemma_adjacent_chain(rows, i, j - 1);
    }
}

/// Materialize the sessions of a grouped-by-day query result, newest first.
/// Fails exactly when the store handed back malformed or misordered rows.
#[verifier::loop_isolation(false)]
pub fn days_from_rows(rows: &Vec<DayRow>) -> (r: Result<Vec<Day>, CorruptStore>)
    ensures
        r is Ok <==> rows_ok(rows@),
        r matches Ok(days) ==> days@ == loaded_days(rows@) && strictly_descending(days@) && all_wf(
            days@,
        ),
{
    let mut days: Vec<Day> = Vec::new();
    let mut i: usize = 0;
    while i < rows.len()
        invariant
            i <= rows@.len(),
            days@.len() == i,
            forall|k: int|
                0 <= k < i ==> utc_in_range((#[trigger] rows@[k]).start_utc as int) && utc_in_range(
                    rows@[k].end_utc as int,
                ) && row_day(rows@[k]).wf(),
            forall|k: int| 0 <= k < i ==> days@[k] == row_day(rows@[k]),
            forall|k: int| 0 < k < i ==> rows@[k - 1].date_num > (#[trigger] rows@[k]).date_num,
        decreases rows@.len() - i,
    {
        match day_from_row(rows[i]) {
            None => {
                return Err(CorruptStore);
            },
            Some(day) => {
                if i > 0 {
                    let prev = days[i - 1];
                    if prev.date.num <= day.date.num {
                        return Err(CorruptStore);
                    }
                }
                days.push(day);
            },
        }
        i = i + 1;
    }
    proof {
        assert forall|a: int, b: int| 0 <= a < b < rows@.len() implies rows@[a].date_num
            > rows@[b].date_num by {
            lemma_adjacent_chain(rows@, a, b);
        }
        assert(days@ =~= loaded_days(rows@));
    }
    Ok(days)
}

/// Resolve the identity behind a card identifier from what the identity
/// store returned: a stored display name shares all identifiers registered
/// under it; an unknown identifier stands alone, named by its decimal form.
pub fn resolve_identity(uid: u64, stored_username: Option<String>, ids_for_username: Vec<u64>) -> (r:
    (String, Vec<u64>))
    requires
        stored_username is Some ==> ids_for_username@.len() > 0,
    ensures
        stored_username matches Some(name) ==> r.0@ == name@ && r.1@ == ids_for_username@,
        stored_username is None ==> r.0@ == decimal_digits(uid as nat) && r.1@ == seq![uid],
        r.1@.len() > 0,
{
    match stored_username {
        Some(name) => (name, ids_for_username),
        None => {
            let mut ids: Vec<u64> = Vec::new();
            ids.push(uid);
            proof {
                assert(ids@ =~= seq![uid]);
            }
            (u64_to_string(uid), ids)
        },
    }
}

/// One person's self-contained snapshot: the queried identifier, every
/// identifier sharing its display name, the name itself, and the derived
/// statistics. Loaded fresh on every beep; never cached.
#[derive(Debug, Clone)]
pub struct Person {
    pub id: u64,
    pub ids: Vec<u64>,
    pub username: String,
    pub stats: Stats,
}

impl Person {
    /// Assemble a person's snapshot from what the stores returned for one
    /// card identifier: the stored display name (if any), the identifiers
    /// sharing it, and the grouped-by-day event rows of those identifiers.
    /// Fails exactly when the stored rows are malformed or misordered; an
    /// empty history is a valid state, not an error.
    pub fn assemble(
        uid: u64,
        stored_username: Option<String>,
        ids_for_username: Vec<u64>,
        rows: &Vec<DayRow>,
    ) -> (r: Result<Person, CorruptStore>)
        requires
            stored_username is Some ==> ids_for_username@.len() > 0,
        ensures
            r is Ok <==> rows_ok(rows@),
            r matches Ok(p) ==> p.id == uid,
            r matches Ok(p) ==> (stored_username matches Some(name) ==> p.username@ == name@
                && p.ids@ == ids_for_username@),
            r matches Ok(p) ==> (stored_username is None ==> p.username@ == decimal_digits(
                uid as nat,
            ) && p.ids@ == seq![uid]),
            r matches Ok(p) ==> p.ids@.len() > 0,
            r matches Ok(p) ==> (rows@.len() > 0 ==> p.stats.matches_days(loaded_days(rows@))),
            r matches Ok(p) ==> (rows@.len() == 0 ==> p.stats.is_empty_stats()),
    {
        let days = match days_from_rows(rows) {
            Err(e) => {
                return Err(e);
            },
            Ok(d) => d,
        };
        let (username, ids) = resolve_identity(uid, stored_username, ids_for_username);
        let stats = Stats::from_days(&days);
        Ok(Person { id: uid, ids, username, stats })
    }
}

} // verus!
