use lookxy::datetime::{
    add_minutes, all_day_bounds, format_local, parse_end, parse_start, utc_to_display,
    LocalDateTime,
};

// 2026-07-19 10:00 local, UTC+3 (offset_min = 180).
fn now() -> LocalDateTime {
    LocalDateTime {
        year: 2026,
        month: 7,
        day: 19,
        hour: 10,
        min: 0,
    }
}
const OFF: i64 = 180;

#[test]
fn parses_fixed_datetime_to_utc() {
    // 14:00 local at +3 → 11:00 UTC
    assert_eq!(
        parse_start("2026-07-20 14:00", now(), OFF),
        Some("2026-07-20T11:00:00Z".into())
    );
}
#[test]
fn parses_bare_date_as_midnight() {
    // 2026-07-20 00:00 local at +3 → 2026-07-19 21:00 UTC
    assert_eq!(
        parse_start("2026-07-20", now(), OFF),
        Some("2026-07-19T21:00:00Z".into())
    );
}
#[test]
fn parses_today_and_tomorrow_with_time() {
    assert_eq!(
        parse_start("today 09:30", now(), OFF),
        Some("2026-07-19T06:30:00Z".into())
    );
    assert_eq!(
        parse_start("tomorrow 09:30", now(), OFF),
        Some("2026-07-20T06:30:00Z".into())
    );
}
#[test]
fn parses_bare_time_and_12h() {
    assert_eq!(
        parse_start("14:00", now(), OFF),
        Some("2026-07-19T11:00:00Z".into())
    );
    assert_eq!(
        parse_start("2pm", now(), OFF),
        Some("2026-07-19T11:00:00Z".into())
    );
    assert_eq!(
        parse_start("2:30pm", now(), OFF),
        Some("2026-07-19T11:30:00Z".into())
    );
    // 12am → 00:00 today (2026-07-19) local; at +3 that's 21:00 the PREVIOUS UTC day
    assert_eq!(
        parse_start("12am", now(), OFF),
        Some("2026-07-18T21:00:00Z".into())
    );
}
#[test]
fn end_accepts_relative_to_start() {
    let start = "2026-07-20T11:00:00Z"; // 14:00 local
    assert_eq!(
        parse_end("+1h", start, now(), OFF),
        Some("2026-07-20T12:00:00Z".into())
    );
    assert_eq!(
        parse_end("+90m", start, now(), OFF),
        Some("2026-07-20T12:30:00Z".into())
    );
    assert_eq!(
        parse_end("+1d", start, now(), OFF),
        Some("2026-07-21T11:00:00Z".into())
    );
    // non-relative end still works
    assert_eq!(
        parse_end("2026-07-20 15:00", start, now(), OFF),
        Some("2026-07-20T12:00:00Z".into())
    );
}
#[test]
fn rejects_garbage() {
    assert_eq!(parse_start("", now(), OFF), None);
    assert_eq!(parse_start("not a time", now(), OFF), None);
    assert_eq!(parse_start("25:99", now(), OFF), None);
    assert_eq!(parse_start("2026-13-40", now(), OFF), None);
}
#[test]
fn rejects_invalid_day_of_month() {
    let now = LocalDateTime {
        year: 2026,
        month: 7,
        day: 19,
        hour: 10,
        min: 0,
    };
    assert_eq!(parse_start("2026-02-30", now, 180), None); // Feb never has 30
    assert_eq!(parse_start("2026-04-31", now, 180), None); // Apr has 30
    assert_eq!(parse_start("2026-02-29", now, 180), None); // 2026 not a leap year
    // valid boundaries still parse:
    assert!(parse_start("2024-02-29", now, 180).is_some()); // 2024 IS a leap year
    assert!(parse_start("2026-01-31", now, 180).is_some());
}

#[test]
fn all_day_bounds_single_day_is_start_to_next_midnight() {
    let now = LocalDateTime {
        year: 2026,
        month: 7,
        day: 19,
        hour: 10,
        min: 0,
    };
    // same start/end date → a one-day event: [date, date+1)
    assert_eq!(
        all_day_bounds("2026-07-20", "2026-07-20", now),
        Some(("2026-07-20T00:00:00Z".into(), "2026-07-21T00:00:00Z".into()))
    );
    // a blank/unparseable End also means a single day
    assert_eq!(
        all_day_bounds("2026-07-20", "", now),
        Some(("2026-07-20T00:00:00Z".into(), "2026-07-21T00:00:00Z".into()))
    );
}

#[test]
fn all_day_bounds_multi_day_end_is_last_day_plus_one() {
    let now = LocalDateTime {
        year: 2026,
        month: 7,
        day: 19,
        hour: 10,
        min: 0,
    };
    // 20th..=22nd inclusive → stored end = the 23rd (exclusive)
    assert_eq!(
        all_day_bounds("2026-07-20", "2026-07-22", now),
        Some(("2026-07-20T00:00:00Z".into(), "2026-07-23T00:00:00Z".into()))
    );
}

#[test]
fn all_day_bounds_end_before_start_collapses_to_single_day() {
    let now = LocalDateTime {
        year: 2026,
        month: 7,
        day: 19,
        hour: 10,
        min: 0,
    };
    assert_eq!(
        all_day_bounds("2026-07-20", "2026-07-18", now),
        Some(("2026-07-20T00:00:00Z".into(), "2026-07-21T00:00:00Z".into()))
    );
}

#[test]
fn all_day_bounds_ignores_time_and_handles_rollover_and_relative() {
    let now = LocalDateTime {
        year: 2026,
        month: 12,
        day: 31,
        hour: 10,
        min: 0,
    };
    // time part ignored; Dec 31 single day → end rolls to Jan 1 next year
    assert_eq!(
        all_day_bounds("2026-12-31 14:00", "2026-12-31 15:00", now),
        Some(("2026-12-31T00:00:00Z".into(), "2027-01-01T00:00:00Z".into()))
    );
    // "today" resolves via `now`
    assert_eq!(
        all_day_bounds("today", "today", now),
        Some(("2026-12-31T00:00:00Z".into(), "2027-01-01T00:00:00Z".into()))
    );
}

#[test]
fn all_day_bounds_rejects_unparseable_start() {
    let now = LocalDateTime {
        year: 2026,
        month: 7,
        day: 19,
        hour: 10,
        min: 0,
    };
    assert_eq!(all_day_bounds("not a date", "", now), None);
}

#[test]
fn minutes_roll_over_into_the_next_year() {
    let t = LocalDateTime { year: 2026, month: 12, day: 31, hour: 23, min: 50 };
    let u = add_minutes(t, 25);
    assert_eq!((u.year, u.month, u.day, u.hour, u.min), (2027, 1, 1, 0, 15));
    let v = add_minutes(u, -25);
    assert_eq!((v.year, v.month, v.day, v.hour, v.min), (2026, 12, 31, 23, 50));
}

#[test]
fn local_instants_are_shown_as_they_are_typed() {
    assert_eq!(format_local(now()), "2026-07-19 10:00");
    let typed = format_local(now());
    assert_eq!(parse_start(&typed, now(), OFF), Some("2026-07-19T07:00:00Z".into()));
    assert_eq!(utc_to_display("2026-07-19T07:00:00Z", OFF), "2026-07-19 10:00");
    assert_eq!(utc_to_display("", OFF), "");
}
