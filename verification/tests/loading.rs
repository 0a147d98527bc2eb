use salstatistikk::date::Date;
use salstatistikk::format::{
    clock_hm_string, day_month_string, duration_string, parse_card_id, two_digit_string,
    u64_to_string,
};
use salstatistikk::heatmap::{
    days_to_skip, ActivityLevel, GithubMap, MS_IN_10_HOURS, MS_IN_12_HOURS, MS_IN_2_HOURS,
    MS_IN_4_HOURS, MS_IN_8_HOURS, MS_IN_HOUR, ms_to_level,
};
use salstatistikk::person::{days_from_rows, resolve_identity, DayRow, Person};
use salstatistikk::tz::{local_timestamp_of_utc, registration_date, MAX_UTC_SECONDS};

fn dnum(y: u64, m: u64, d: u64) -> u64 {
    Date::from_ymd(y, m, d).expect("valid date").num
}

/// Unix seconds of a UTC instant.
fn unix(y: u64, m: u64, d: u64, h: i64, min: i64) -> i64 {
    (dnum(y, m, d) as i64 - 719528) * 86400 + h * 3600 + min * 60
}

#[test]
fn decimal_rendering() {
    assert_eq!(u64_to_string(0), "0");
    assert_eq!(u64_to_string(7), "7");
    assert_eq!(u64_to_string(1204), "1204");
    assert_eq!(u64_to_string(u64::MAX), "18446744073709551615");
    assert_eq!(two_digit_string(5), "05");
    assert_eq!(two_digit_string(42), "42");
}

#[test]
fn clock_and_date_rendering() {
    let base = dnum(2024, 6, 3) * 86400;
    assert_eq!(clock_hm_string(base + 8 * 3600 + 5 * 60), "08:05");
    assert_eq!(clock_hm_string(base + 17 * 3600 + 30 * 60), "17:30");
    assert_eq!(day_month_string(dnum(2024, 6, 3)), "03/06");
    assert_eq!(day_month_string(dnum(2024, 12, 24)), "24/12");
}

#[test]
fn duration_phrasing() {
    assert_eq!(duration_string(8 * 3600), "8 timer og 0 minutter");
    assert_eq!(duration_string(8 * 3600 + 30 * 60), "8 timer og 30 minutter");
    assert_eq!(duration_string(5 * 60 + 30), "5 minutter og 30 sekunder");
    assert_eq!(duration_string(59), "0 minutter og 59 sekunder");
    assert_eq!(duration_string(3600), "1 timer og 0 minutter");
}

#[test]
fn session_rendering() {
    let dt = Date::from_ymd(2024, 6, 3).unwrap();
    let base = dt.num * 86400;
    let day =
        salstatistikk::day::Day::new(dt, base + 8 * 3600, base + 16 * 3600 + 30 * 60).unwrap();
    let rendered = day.stats();
    assert_eq!(rendered.date, "03/06");
    assert_eq!(rendered.start, "08:00");
    assert_eq!(rendered.end, "16:30");
    assert_eq!(rendered.diff, "8 timer og 30 minutter");
}

#[test]
fn card_id_parsing() {
    assert_eq!(parse_card_id("1234567890"), Some(1234567890));
    assert_eq!(parse_card_id("0000000000"), Some(0));
    assert_eq!(parse_card_id("9999999999"), Some(9999999999));
    assert_eq!(parse_card_id("123456789"), None);
    assert_eq!(parse_card_id("12345678901"), None);
    assert_eq!(parse_card_id("12345678a0"), None);
    assert_eq!(parse_card_id(""), None);
}

#[test]
fn local_conversion_applies_oslo_offset() {
    // 2024-06-15T06:00:00Z is 08:00 in Oslo (CEST, +2h).
    let t = unix(2024, 6, 15, 6, 0);
    let local = local_timestamp_of_utc(t).expect("in range");
    assert_eq!(local, dnum(2024, 6, 15) * 86400 + 8 * 3600);
    // 2024-01-15T06:00:00Z is 07:00 in Oslo (CET, +1h).
    let t_winter = unix(2024, 1, 15, 6, 0);
    let local_winter = local_timestamp_of_utc(t_winter).expect("in range");
    assert_eq!(local_winter, dnum(2024, 1, 15) * 86400 + 7 * 3600);
    assert_eq!(local_timestamp_of_utc(-1), None);
    assert_eq!(local_timestamp_of_utc(MAX_UTC_SECONDS + 1), None);
}

#[test]
fn registration_buckets_late_night_to_prior_date() {
    // 03:30 local (01:30 UTC in summer) still counts toward the prior date.
    let t = unix(2024, 6, 15, 1, 30);
    assert_eq!(registration_date(t).unwrap().num, dnum(2024, 6, 14));
    // 05:30 local belongs to its own date.
    let t_morning = unix(2024, 6, 15, 3, 30);
    assert_eq!(registration_date(t_morning).unwrap().num, dnum(2024, 6, 15));
    assert!(registration_date(-5).is_none());
}

#[test]
fn rows_materialize_to_sessions() {
    let rows = vec![
        DayRow {
            date_num: dnum(2024, 6, 15),
            start_utc: unix(2024, 6, 15, 6, 0),
            end_utc: unix(2024, 6, 15, 14, 0),
        },
        DayRow {
            date_num: dnum(2024, 6, 13),
            start_utc: unix(2024, 6, 13, 7, 0),
            end_utc: unix(2024, 6, 13, 15, 30),
        },
    ];
    let days = days_from_rows(&rows).expect("loadable rows");
    assert_eq!(days.len(), 2);
    assert_eq!(days[0].date.num, dnum(2024, 6, 15));
    assert_eq!(days[0].start, dnum(2024, 6, 15) * 86400 + 8 * 3600);
    assert_eq!(days[0].end, dnum(2024, 6, 15) * 86400 + 16 * 3600);
    assert_eq!(days[1].span_seconds(), 8 * 3600 + 30 * 60);
}

#[test]
fn corrupt_rows_are_rejected() {
    let good = DayRow {
        date_num: dnum(2024, 6, 15),
        start_utc: unix(2024, 6, 15, 6, 0),
        end_utc: unix(2024, 6, 15, 14, 0),
    };
    // End before start.
    let swapped = DayRow { start_utc: good.end_utc, end_utc: good.start_utc, ..good };
    assert!(days_from_rows(&vec![swapped]).is_err());
    // Bucket date does not match the timestamps.
    let wrong_date = DayRow { date_num: dnum(2024, 6, 16), ..good };
    assert!(days_from_rows(&vec![wrong_date]).is_err());
    // Timestamp outside the supported range.
    let out_of_range = DayRow { start_utc: -10, ..good };
    assert!(days_from_rows(&vec![out_of_range]).is_err());
    // Rows out of order (ascending instead of descending).
    let earlier = DayRow {
        date_num: dnum(2024, 6, 13),
        start_utc: unix(2024, 6, 13, 7, 0),
        end_utc: unix(2024, 6, 13, 15, 30),
    };
    assert!(days_from_rows(&vec![earlier, good]).is_err());
    assert!(days_from_rows(&vec![good, earlier]).is_ok());
    // Duplicate dates are misordered too.
    assert!(days_from_rows(&vec![good, good]).is_err());
}

#[test]
fn identity_of_known_and_unknown_users() {
    let (name, ids) =
        resolve_identity(42, Some(String::from("kari")), vec![42, 7, 1900000000]);
    assert_eq!(name, "kari");
    assert_eq!(ids, vec![42, 7, 1900000000]);
    let (fallback_name, fallback_ids) = resolve_identity(394769250, None, Vec::new());
    assert_eq!(fallback_name, "394769250");
    assert_eq!(fallback_ids, vec![394769250]);
}

#[test]
fn person_snapshot_from_store_results() {
    let rows = vec![DayRow {
        date_num: dnum(2024, 6, 15),
        start_utc: unix(2024, 6, 15, 6, 0),
        end_utc: unix(2024, 6, 15, 14, 0),
    }];
    let person =
        Person::assemble(42, Some(String::from("ola")), vec![42, 43], &rows).expect("loadable");
    assert_eq!(person.id, 42);
    assert_eq!(person.username, "ola");
    assert_eq!(person.ids, vec![42, 43]);
    assert_eq!(person.stats.streak, 1);
    assert_eq!(person.stats.today.unwrap().date.num, dnum(2024, 6, 15));

    let empty = Person::assemble(7, None, Vec::new(), &Vec::new()).expect("empty history is valid");
    assert_eq!(empty.username, "7");
    assert_eq!(empty.ids, vec![7]);
    assert_eq!(empty.stats.streak, 0);
    assert!(empty.stats.today.is_none());
}

#[test]
fn activity_levels_at_thresholds() {
    assert_eq!(ms_to_level(None), ActivityLevel::NoActivity);
    assert_eq!(ms_to_level(Some(0)), ActivityLevel::UnderOneHour);
    assert_eq!(ms_to_level(Some(MS_IN_HOUR - 1)), ActivityLevel::UnderOneHour);
    assert_eq!(ms_to_level(Some(MS_IN_HOUR)), ActivityLevel::OneToTwoHours);
    assert_eq!(ms_to_level(Some(MS_IN_2_HOURS)), ActivityLevel::TwoToFourHours);
    assert_eq!(ms_to_level(Some(MS_IN_4_HOURS)), ActivityLevel::FourToEightHours);
    assert_eq!(ms_to_level(Some(MS_IN_8_HOURS)), ActivityLevel::EightToTenHours);
    assert_eq!(ms_to_level(Some(MS_IN_10_HOURS)), ActivityLevel::TenToTwelveHours);
    assert_eq!(ms_to_level(Some(MS_IN_12_HOURS)), ActivityLevel::OverTwelveHours);
}

#[test]
fn heatmap_skip_aligns_weekdays() {
    let monday = Date::from_ymd(2024, 6, 3).unwrap();
    let sunday = Date::from_ymd(2024, 6, 2).unwrap();
    let saturday = Date::from_ymd(2024, 6, 1).unwrap();
    assert_eq!(days_to_skip(monday), 6);
    assert_eq!(days_to_skip(saturday), 1);
    assert_eq!(days_to_skip(sunday), 7);
}

#[test]
fn heatmap_levels_follow_values() {
    let values = vec![None, Some(0), Some(MS_IN_4_HOURS + 1)];
    let map = GithubMap::new(&values);
    let levels = map.levels();
    assert_eq!(
        levels,
        vec![
            ActivityLevel::NoActivity,
            ActivityLevel::UnderOneHour,
            ActivityLevel::FourToEightHours
        ]
    );
}
