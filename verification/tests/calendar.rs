use lookxy::app::{RsvpField, RsvpPrompt, RsvpTarget};
use lookxy::model::{Attendee, EventRow};
use lookxy::ui::agenda::{
    agenda_lines, agenda_window, attendee_lines, date_of_utc, day_header, detail_header_lines,
    event_row, is_multi_day, local_offset_minutes, offset_minutes, response_glyph, rsvp_lines,
    rsvp_title, to_local, visual_selected, AgendaLine,
};
use lookxy::ui::calendar::{civil_from_days, days_from_civil, parse_iso_utc, unix_to_iso8601};

/// A moment far from the dates below: 2026-07-19T10:00:00Z.
const NOW: i64 = 1_784_455_200;

fn row(id: &str, start: &str, end: &str, is_all_day: bool) -> EventRow {
    EventRow {
        id: id.into(),
        subject: format!("Subject {id}"),
        start_utc: start.into(),
        end_utc: end.into(),
        is_all_day,
        location: "".into(),
        organizer_name: "".into(),
        organizer_addr: "".into(),
        response_status: "none".into(),
        series_master_id: None,
        reminder_minutes: 0,
        is_reminder_on: false,
    }
}

#[test]
fn days_from_civil_and_civil_from_days_round_trip() {
    for (y, m, d) in [(1970, 1, 1), (2026, 7, 17), (2000, 2, 29), (1969, 12, 31)] {
        let days = days_from_civil(y, m, d);
        assert_eq!(civil_from_days(days), (y, m, d), "{y}-{m}-{d}");
    }
}

#[test]
fn parse_iso_utc_round_trips_through_unix_to_iso8601() {
    let secs = parse_iso_utc("2026-07-17T09:30:15Z");
    assert_eq!(unix_to_iso8601(secs), "2026-07-17T09:30:15Z");
}

#[test]
fn parse_iso_utc_falls_back_to_epoch_on_malformed_input() {
    assert_eq!(parse_iso_utc(""), 0);
    assert_eq!(parse_iso_utc("garbage"), 0);
}

#[test]
fn only_real_dates_and_times_are_time_stamps() {
    for malformed in [
        "2026/07/17 09:30:15",
        "2026-07-17T09:30:15",
        "2026-07-17T09:30:15+",
        "2026-07-17T09:30:15Z ",
        "2026-13-17T09:30:15Z",
        "2026-02-29T09:30:15Z",
        "2026-00-17T09:30:15Z",
        "2026-07-17T24:30:15Z",
        "2026-07-17T09:60:15Z",
        "2026-07-17T09:30:60Z",
        "+026-07-17T09:30:15Z",
        "2026-07--1T09:30:15Z",
    ] {
        assert_eq!(parse_iso_utc(malformed), 0, "{malformed}");
    }
    assert_eq!(parse_iso_utc("1970-01-02T00:00:01Z"), 86_401);
    assert_eq!(parse_iso_utc("2024-02-29T00:00:00Z"), 1_709_164_800);
    assert_eq!(parse_iso_utc("1969-12-31T23:59:59Z"), -1);
}

#[test]
fn local_offset_minutes_is_within_a_plausible_range() {
    let mins = local_offset_minutes();
    assert!((-12 * 60..=14 * 60).contains(&mins));
}

#[test]
fn response_glyph_maps_known_statuses() {
    assert_eq!(response_glyph("accepted"), '✓');
    assert_eq!(response_glyph("declined"), '✗');
    assert_eq!(response_glyph("tentativelyAccepted"), '?');
    assert_eq!(response_glyph("none"), '•');
    assert_eq!(response_glyph("notResponded"), '•');
    assert_eq!(response_glyph(""), '•');
}

#[test]
fn agenda_lines_groups_events_on_different_days_into_separate_headers() {
    let events = vec![
        row("e1", "2020-01-05T12:00:00Z", "2020-01-05T13:00:00Z", false),
        row("e2", "2020-06-15T12:00:00Z", "2020-06-15T13:00:00Z", false),
    ];
    let lines = agenda_lines(&events, NOW, 0);
    let headers: Vec<&String> = lines
        .iter()
        .filter_map(|l| match l {
            AgendaLine::Header(h) => Some(h),
            AgendaLine::Event(_) => None,
        })
        .collect();
    assert_eq!(headers.len(), 2, "expected two distinct day groups");
    let event_indices: Vec<usize> = lines
        .iter()
        .filter_map(|l| match l {
            AgendaLine::Event(i) => Some(*i),
            AgendaLine::Header(_) => None,
        })
        .collect();
    assert_eq!(event_indices, vec![0, 1]);
}

#[test]
fn agenda_lines_on_an_empty_list_is_empty() {
    assert!(agenda_lines(&Vec::new(), NOW, 0).is_empty());
}

#[test]
fn is_multi_day_detects_events_crossing_midnight_local() {
    let e = row("e1", "2026-07-17T23:00:00Z", "2026-07-18T01:00:00Z", false);
    for offset in [-120, 0, 120] {
        let start = to_local(&e.start_utc, offset);
        let end = to_local(&e.end_utc, offset);
        let expected = (start.year, start.month, start.day) != (end.year, end.month, end.day);
        assert_eq!(is_multi_day(&e, offset), expected);
    }
    assert!(is_multi_day(&e, 0));
    assert!(!is_multi_day(&e, 120));
}

#[test]
fn date_of_utc_extracts_the_calendar_date() {
    assert_eq!(date_of_utc("2026-07-20T00:00:00Z"), (2026, 7, 20));
    assert_eq!(date_of_utc("2027-01-01T00:00:00Z"), (2027, 1, 1));
}

#[test]
fn single_day_all_day_event_is_not_multi_day() {
    let e = row("e1", "2026-07-20T00:00:00Z", "2026-07-21T00:00:00Z", true);
    assert!(!is_multi_day(&e, 0));
    assert!(!is_multi_day(&e, 180));
}

#[test]
fn three_day_all_day_event_is_multi_day() {
    let e = row("e2", "2026-07-20T00:00:00Z", "2026-07-23T00:00:00Z", true);
    assert!(is_multi_day(&e, 0));
    assert!(is_multi_day(&e, -300));
}

#[test]
fn all_day_event_buckets_under_its_stored_start_date_regardless_of_offset() {
    assert_eq!(date_of_utc("2026-07-20T00:00:00Z"), (2026, 7, 20));
}

#[test]
fn rsvp_prompt_shows_proposed_rows_for_decline_only() {
    let mut p = RsvpPrompt {
        target: RsvpTarget::Event("E1".into()),
        kind: "declined".into(),
        comment: String::new(),
        proposed_start: String::new(),
        proposed_end: String::new(),
        focus: RsvpField::ProposedStart,
    };
    let text = rsvp_lines(&p).join("\n");
    assert!(text.contains("Proposed start"));
    assert!(text.contains("Proposed end"));
    p.kind = "accepted".into();
    let text = rsvp_lines(&p).join("\n");
    assert!(!text.contains("Proposed start"));
    assert!(!rsvp_title(&p).is_empty());
}

#[test]
fn the_window_spans_past_and_future_days() {
    let (from, to) = agenda_window(NOW);
    assert!(from < "2026-07-19T10:00:00Z".to_string());
    assert!(to > "2026-07-19T10:00:00Z".to_string());
    assert_eq!((parse_iso_utc(&to) - parse_iso_utc(&from)) % 86_400, 0);
}

#[test]
fn the_offset_is_the_bias_with_its_sign_turned() {
    // Standard time, bias -180 minutes: three hours east.
    assert_eq!(offset_minutes(1, -180, 0, -60), 180);
    // Daylight time adds its own bias.
    assert_eq!(offset_minutes(2, -60, 0, -60), 120);
}

#[test]
fn days_are_named_relative_to_today() {
    let today = (2026, 7, 19);
    assert!(day_header((2026, 7, 19), today).starts_with("Today"));
    assert!(day_header((2026, 7, 20), today).starts_with("Tomorrow"));
    assert!(!day_header((2026, 7, 25), today).starts_with("T"));
}

#[test]
fn the_cursor_skips_the_headers() {
    let events = vec![
        row("e1", "2020-01-05T12:00:00Z", "2020-01-05T13:00:00Z", false),
        row("e2", "2020-06-15T12:00:00Z", "2020-06-15T13:00:00Z", false),
    ];
    let lines = agenda_lines(&events, NOW, 0);
    assert_eq!(visual_selected(&lines, 0), Some(1));
    assert_eq!(visual_selected(&lines, 1), Some(3));
    assert_eq!(visual_selected(&lines, 2), None);
}

#[test]
fn event_rows_show_the_time_and_the_answer() {
    let mut e = row("e1", "2020-01-05T12:00:00Z", "2020-01-05T13:00:00Z", false);
    e.response_status = "accepted".into();
    let text = event_row(&e, 60);
    assert!(text.contains("13:00"), "{text}");
    assert!(text.contains('✓'), "{text}");
    assert!(text.contains("Subject e1"), "{text}");
}

#[test]
fn the_detail_names_the_attendees() {
    let e = row("e1", "2020-01-05T12:00:00Z", "2020-01-05T13:00:00Z", false);
    let head = detail_header_lines(&e, 0).join("\n");
    assert!(head.contains("Subject e1"), "{head}");
    let who = attendee_lines(&vec![Attendee {
        name: "Alice".into(),
        addr: "alice@example.com".into(),
        response: "accepted".into(),
    }])
    .join("\n");
    assert!(who.contains("Alice"), "{who}");
}

#[test]
fn an_all_day_event_that_ends_as_it_starts_is_not_multi_day() {
    let e = row("e3", "2026-07-20T00:00:00Z", "2026-07-20T00:00:00Z", true);
    assert!(!is_multi_day(&e, 0));
}
