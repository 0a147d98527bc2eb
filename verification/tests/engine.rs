use salstatistikk::calendar::{expand, DayOrDate};
use salstatistikk::date::Date;
use salstatistikk::day::Day;
use salstatistikk::stats::{
    get_earliest, get_last_n, get_latest, get_longest_day, get_milliseconds, get_streak, Stats,
};

fn date(y: u64, m: u64, d: u64) -> Date {
    Date::from_ymd(y, m, d).expect("valid date")
}

fn session(y: u64, m: u64, d: u64, start_h: u64, start_m: u64, end_h: u64, end_m: u64) -> Day {
    let dt = date(y, m, d);
    let base = dt.num * 86400;
    Day::new(dt, base + start_h * 3600 + start_m * 60, base + end_h * 3600 + end_m * 60)
        .expect("well-formed session")
}

#[test]
fn weekdays_of_known_dates() {
    assert_eq!(date(2024, 6, 3).weekday_index(), 0); // Monday
    assert_eq!(date(2024, 6, 7).weekday_index(), 4); // Friday
    assert_eq!(date(2024, 6, 1).weekday_index(), 5); // Saturday
    assert_eq!(date(2024, 6, 2).weekday_index(), 6); // Sunday
    assert!(date(2024, 6, 1).is_weekend());
    assert!(date(2024, 6, 2).is_weekend());
    assert!(!date(2024, 6, 3).is_weekend());
    assert_eq!(date(1970, 1, 1).num, 719528);
    assert_eq!(date(1970, 1, 1).weekday_index(), 3); // Thursday
}

#[test]
fn day_number_roundtrip() {
    for &(y, m, d) in
        &[(2024u64, 2u64, 29u64), (2024, 6, 3), (0, 1, 1), (1999, 12, 31), (2000, 1, 1)]
    {
        assert_eq!(date(y, m, d).to_ymd(), (y, m, d));
    }
    assert!(Date::from_ymd(2023, 2, 29).is_none());
    assert!(Date::from_ymd(2024, 13, 1).is_none());
    assert!(Date::from_ymd(2024, 4, 31).is_none());
    assert!(Date::from_ymd(10000, 1, 1).is_none());
}

#[test]
fn session_invariant_rejects_malformed() {
    let dt = date(2024, 6, 3);
    let base = dt.num * 86400;
    // ends before it starts
    assert!(Day::new(dt, base + 9 * 3600, base + 8 * 3600).is_none());
    // belongs to another bucket
    assert!(Day::new(date(2024, 6, 4), base + 8 * 3600, base + 9 * 3600).is_none());
    // before the bucket boundary: 03:00 belongs to the prior date's bucket
    assert!(Day::new(dt, base + 3 * 3600, base + 9 * 3600).is_none());
    // late-night activity at 03:00 counts toward the prior date
    let late = Day::new(date(2024, 6, 2), base + 3 * 3600, base + 4 * 3600);
    assert!(late.is_some());
}

#[test]
fn expansion_covers_range_once() {
    // Three sessions over a nine-day range.
    let days = vec![
        session(2024, 6, 11, 9, 0, 17, 0),
        session(2024, 6, 7, 9, 0, 17, 0),
        session(2024, 6, 3, 8, 0, 16, 0),
    ];
    let expanded = expand(&days);
    assert_eq!(expanded.len(), 9);
    for (i, entry) in expanded.iter().enumerate() {
        assert_eq!(entry.date().num, date(2024, 6, 11).num - i as u64);
    }
    let registered: Vec<u64> = expanded
        .iter()
        .filter(|e| e.is_registered())
        .map(|e| e.date().num)
        .collect();
    assert_eq!(
        registered,
        vec![date(2024, 6, 11).num, date(2024, 6, 7).num, date(2024, 6, 3).num]
    );
}

#[test]
fn expansion_registers_each_input_at_its_date() {
    let days = vec![session(2024, 6, 5, 9, 0, 10, 0), session(2024, 6, 3, 8, 0, 16, 0)];
    let expanded = expand(&days);
    assert_eq!(expanded.len(), 3);
    match expanded[0] {
        DayOrDate::Registered(d) => assert_eq!(d, days[0]),
        DayOrDate::Unregistered(_) => panic!("newest session must be registered"),
    }
    match expanded[1] {
        DayOrDate::Unregistered(d) => assert_eq!(d.num, date(2024, 6, 4).num),
        DayOrDate::Registered(_) => panic!("gap day must be unregistered"),
    }
    match expanded[2] {
        DayOrDate::Registered(d) => assert_eq!(d, days[1]),
        DayOrDate::Unregistered(_) => panic!("oldest session must be registered"),
    }
}

#[test]
fn expansion_of_single_session() {
    let days = vec![session(2024, 6, 3, 8, 0, 16, 0)];
    let expanded = expand(&days);
    assert_eq!(expanded.len(), 1);
    assert!(expanded[0].is_registered());
}

#[test]
fn expansion_is_idempotent() {
    let days = vec![
        session(2024, 6, 11, 9, 0, 17, 0),
        session(2024, 6, 7, 9, 0, 17, 0),
        session(2024, 6, 3, 8, 0, 16, 0),
    ];
    let expanded = expand(&days);
    let registered_only: Vec<Day> = expanded
        .iter()
        .filter_map(|e| match e {
            DayOrDate::Registered(d) => Some(*d),
            DayOrDate::Unregistered(_) => None,
        })
        .collect();
    assert_eq!(registered_only, days);
    let again = expand(&registered_only);
    assert_eq!(again, expanded);
}

#[test]
fn streak_breaks_on_weekday_gap() {
    // Mon 2024-06-03, Tue 2024-06-04, Fri 2024-06-07: the Wed/Thu weekday
    // gap breaks continuity before Tuesday is reached.
    let days = vec![
        session(2024, 6, 7, 9, 0, 17, 0),
        session(2024, 6, 4, 9, 0, 17, 30),
        session(2024, 6, 3, 8, 0, 16, 0),
    ];
    let expanded = expand(&days);
    assert_eq!(get_streak(&expanded), 1);
}

#[test]
fn streak_continues_over_weekend_gap() {
    // Fri 2024-05-31 and Mon 2024-06-03: only Sat/Sun in between.
    let days = vec![session(2024, 6, 3, 9, 0, 17, 0), session(2024, 5, 31, 9, 0, 17, 0)];
    let expanded = expand(&days);
    assert_eq!(get_streak(&expanded), 2);
}

#[test]
fn streak_zero_after_prepended_weekday_gap() {
    let days = vec![session(2024, 6, 3, 9, 0, 17, 0), session(2024, 5, 31, 9, 0, 17, 0)];
    let expanded = expand(&days);
    let mut with_gap = vec![DayOrDate::Unregistered(date(2024, 6, 4))]; // a Tuesday
    with_gap.extend(expanded.iter().copied());
    assert_eq!(get_streak(&with_gap), 0);
    assert!(get_streak(&with_gap) <= get_streak(&expanded));
}

#[test]
fn longest_day_prefers_recent_among_ties() {
    // Durations oldest to newest: 2h, 5h, 5h; the more recent 5h wins.
    let days = vec![
        session(2024, 6, 5, 9, 0, 14, 0),
        session(2024, 6, 4, 9, 0, 14, 0),
        session(2024, 6, 3, 9, 0, 11, 0),
    ];
    let longest = get_longest_day(&days);
    assert_eq!(longest, days[0]);
    assert_eq!(longest.span_seconds(), 5 * 3600);
}

#[test]
fn earliest_arrival_prefers_recent_among_ties() {
    // Start times oldest to newest: 08:15, 07:50, 07:50.
    let days = vec![
        session(2024, 6, 5, 7, 50, 16, 0),
        session(2024, 6, 4, 7, 50, 16, 0),
        session(2024, 6, 3, 8, 15, 16, 0),
    ];
    let earliest = get_earliest(&days);
    assert_eq!(earliest, days[0]);
}

#[test]
fn latest_departure_prefers_recent_among_ties() {
    let days = vec![
        session(2024, 6, 5, 9, 0, 17, 30),
        session(2024, 6, 4, 9, 0, 17, 30),
        session(2024, 6, 3, 9, 0, 16, 0),
    ];
    let latest = get_latest(&days);
    assert_eq!(latest, days[0]);
}

#[test]
fn rolling_week_count_over_ten_entries() {
    // A ten-entry gap-filled sequence with four registered entries among the
    // first seven slots.
    let newest = date(2024, 6, 13);
    let days = vec![
        session(2024, 6, 13, 9, 0, 17, 0),
        session(2024, 6, 11, 9, 0, 17, 0),
        session(2024, 6, 9, 9, 0, 17, 0),
        session(2024, 6, 7, 9, 0, 17, 0),
        session(2024, 6, 4, 9, 0, 17, 0),
    ];
    let expanded = expand(&days);
    assert_eq!(expanded.len(), 10);
    assert_eq!(expanded[0].date().num, newest.num);
    assert_eq!(get_last_n(7, &expanded), 4);
    assert_eq!(get_last_n(30, &expanded), 5);
    assert_eq!(get_last_n(0, &expanded), 0);
}

#[test]
fn milliseconds_per_entry() {
    let days = vec![session(2024, 6, 5, 9, 0, 11, 0), session(2024, 6, 3, 8, 0, 8, 30)];
    let expanded = expand(&days);
    let ms = get_milliseconds(&expanded);
    assert_eq!(
        ms,
        vec![Some(2 * 3600 * 1000), None, Some(30 * 60 * 1000)]
    );
}

#[test]
fn stats_snapshot_of_history() {
    let days = vec![
        session(2024, 6, 7, 9, 0, 17, 0),
        session(2024, 6, 4, 9, 0, 17, 30),
        session(2024, 6, 3, 8, 0, 16, 0),
    ];
    let stats = Stats::from_days(&days);
    assert_eq!(stats.streak, 1);
    assert_eq!(stats.today, Some(days[0]));
    assert_eq!(stats.longest_day, Some(days[1])); // 8.5 hours
    assert_eq!(stats.earliest_arrival, Some(days[2])); // 08:00
    assert_eq!(stats.latest_departure, Some(days[1])); // 17:30
    assert_eq!(stats.days.len(), 5);
    assert_eq!(stats.days_milliseconds.len(), 5);
    assert_eq!(stats.last_week_count, 3);
    assert_eq!(stats.last_month_count, 3);
}

#[test]
fn stats_of_empty_history() {
    let stats = Stats::from_days(&Vec::new());
    assert_eq!(stats.streak, 0);
    assert!(stats.longest_day.is_none());
    assert!(stats.today.is_none());
    assert!(stats.earliest_arrival.is_none());
    assert!(stats.latest_departure.is_none());
    assert!(stats.days.is_empty());
    assert!(stats.days_milliseconds.is_empty());
    assert_eq!(stats.last_week_count, 0);
    assert_eq!(stats.last_month_count, 0);
}
