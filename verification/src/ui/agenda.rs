//! Calendar mode's two panes: the agenda, with its events grouped by local day,
//! and the detail of the opened event; and the rows of the RSVP prompt.

use crate::app::{RsvpField, RsvpPrompt};
use crate::datetime;
use crate::datetime::LocalDateTime;
use crate::model::{Attendee, EventRow};
use crate::text;
use crate::ui::calendar;
use crate::ui::reading;
use crate::ui::reading::{StyledLine, StyledSpan};
use crate::ui::style;
use crate::ui::style::{Color, Line, Shown, Style};
use vstd::prelude::*;

verus! {

// ---------------------------------------------------------------------------
// Wall-clock time
// ---------------------------------------------------------------------------

/// How many seconds before and after now the agenda reaches: a week, and
/// thirty days.
pub const WINDOW_PAST: i64 = 604800;

pub const WINDOW_FUTURE: i64 = 2592000;

/// The `[from, to)` bounds of the agenda, in UTC.
pub fn agenda_window(now: i64) -> (r: (String, String))
    requires
        i64::MIN + WINDOW_PAST <= now <= i64::MAX - WINDOW_FUTURE,
    ensures
        r.0@ == calendar::iso_of_unix(now - 7 * 86400),
        r.1@ == calendar::iso_of_unix(now + 30 * 86400),
{
    (calendar::unix_to_iso8601(now - WINDOW_PAST), calendar::unix_to_iso8601(now + WINDOW_FUTURE))
}

/// The offset from UTC to local time, in minutes, that a time zone's biases
/// give: `zone` is 2 while daylight saving is in force, 1 while it is not, and
/// 0 where the zone has no such rule. A bias counts from local time to UTC.
pub open spec fn offset_of(zone: u32, bias: int, standard: int, daylight: int) -> int {
    if zone == 2 {
        -(bias + daylight)
    } else if zone == 1 {
        -(bias + standard)
    } else if zone == 0 {
        -bias
    } else {
        0
    }
}

/// The offset that a time zone's biases give; UTC where the zone is unknown.
pub fn offset_minutes(zone: u32, bias: i32, standard_bias: i32, daylight_bias: i32) -> (r: i64)
    ensures
        r == offset_of(zone, bias as int, standard_bias as int, daylight_bias as int),
{
    if zone == 2 {
        -(bias as i64 + daylight_bias as i64)
    } else if zone == 1 {
        -(bias as i64 + standard_bias as i64)
    } else if zone == 0 {
        -(bias as i64)
    } else {
        0
    }
}

/// The offset where no time zone can be asked for.
pub fn local_offset_minutes() -> (r: i64)
    ensures
        r == 0,
{
    0
}

/// Where a clock stands `secs` seconds after the epoch: date, hour, minute.
pub open spec fn clock_at(secs: int) -> (int, int, int, int, int) {
    let (y, m, d) = calendar::civil(secs / 86400);
    let rem = secs % 86400;
    (y, m, d, rem / 3600, (rem % 3600) / 60)
}

/// Where a local clock stands when a UTC time stamp is reached.
pub open spec fn local_clock(iso: Seq<char>, offset: int) -> (int, int, int, int, int) {
    clock_at(calendar::unix_of_iso(iso) + offset * 60)
}

pub open spec fn fields(t: LocalDateTime) -> (int, int, int, int, int) {
    (t.year as int, t.month as int, t.day as int, t.hour as int, t.min as int)
}

/// The local time `offset` minutes east of UTC, `secs` seconds after the epoch.
pub fn local_time(secs: i64, offset: i64) -> (r: LocalDateTime)
    ensures
        fields(r) == clock_at(secs + offset * 60),
        datetime::is_instant(r),
        i32::MIN <= offset <= i32::MAX ==> datetime::is_countable(r),
{
    let at: i128 = secs as i128 + offset as i128 * 60;
    let days: i128 = calendar::floor_div(at, 86400);
    let rem: i128 = calendar::floor_mod(at, 86400);
    let (y, m, d) = calendar::date_of_day(days);
    proof {
        calendar::lemma_year_within_days(y as int, m as int, d as int);
        if i32::MIN <= offset <= i32::MAX {
            assert(-200_000_000_000_000 < days < 200_000_000_000_000);
        }
    }
    LocalDateTime {
        year: y as i64,
        month: m,
        day: d,
        hour: (rem / 3600) as u32,
        min: ((rem % 3600) / 60) as u32,
    }
}

/// Converts a UTC time stamp to local wall-clock time.
pub fn to_local(iso: &str, offset: i64) -> (r: LocalDateTime)
    ensures
        fields(r) == local_clock(iso@, offset as int),
        datetime::is_instant(r),
{
    local_time(calendar::parse_iso_utc(iso), offset)
}

/// `HH:MM`.
pub open spec fn hhmm(h: int, mi: int) -> Seq<char> {
    text::padded(h, 2) + ":"@ + text::padded(mi, 2)
}

pub open spec fn local_time_of_day(iso: Seq<char>, offset: int) -> Seq<char> {
    let t = local_clock(iso, offset);
    hhmm(t.3, t.4)
}

fn push_hhmm(s: &mut String, t: LocalDateTime)
    ensures
        final(s)@ == old(s)@ + hhmm(t.hour as int, t.min as int),
{
    let ghost start = s@;
    text::push_padded(s, t.hour as i128, 2);
    s.append(":");
    text::push_padded(s, t.min as i128, 2);
    assert(s@ =~= start + hhmm(t.hour as int, t.min as int));
}

/// The local `HH:MM` of a UTC time stamp.
pub fn local_hhmm(iso: &str, offset: i64) -> (r: String)
    ensures
        r@ == local_time_of_day(iso@, offset as int),
{
    let t = to_local(iso, offset);
    let mut s: String = String::new();
    push_hhmm(&mut s, t);
    assert(s@ =~= local_time_of_day(iso@, offset as int));
    s
}

/// The date that a time stamp begins with, read as it stands: year 0, January
/// or the first where a part is missing or not a number.
pub open spec fn leading_date(iso: Seq<char>) -> (int, int, int) {
    let b = vstd::utf8::encode_utf8(iso);
    (
        match calendar::field(b, 0, 4) {
            Some(y) => y,
            None => 0,
        },
        match datetime::unsigned_field(b, 5, 7) {
            Some(m) => m,
            None => 1,
        },
        match datetime::unsigned_field(b, 8, 10) {
            Some(d) => d,
            None => 1,
        },
    )
}

proof fn lemma_two_digits(b: Seq<u8>, from: int, to: int)
    requires
        0 <= from,
        to == from + 2,
    ensures
        datetime::unsigned_field(b, from, to) matches Some(n) ==> 0 <= n <= 99,
{
    if to <= b.len() {
        let t = text::latin(b.subrange(from, to));
        calendar::lemma_short_value(t);
        calendar::lemma_short_value(t.skip(1));
    }
}

/// The `(year, month, day)` in the leading `YYYY-MM-DD` of a time stamp: the
/// floating date of an all-day event, which no offset shifts.
pub fn date_of_utc(iso: &str) -> (r: (i64, u32, u32))
    ensures
        (r.0 as int, r.1 as int, r.2 as int) == leading_date(iso@),
        -9999 <= r.0 <= 9999,
        r.1 <= 99,
        r.2 <= 99,
{
    let b = iso.as_bytes();
    proof {
        lemma_two_digits(b@, 5, 7);
        lemma_two_digits(b@, 8, 10);
    }
    let y: i64 = match calendar::read_field(b, 0, 4) {
        Some(n) => n,
        None => 0,
    };
    let m: u32 = match datetime::read_unsigned_field(b, 5, 7) {
        Some(n) => n,
        None => 1,
    };
    let d: u32 = match datetime::read_unsigned_field(b, 8, 10) {
        Some(n) => n,
        None => 1,
    };
    (y, m, d)
}

/// The date that the time stamp of a midnight begins with is that day's, as long
/// as its year has four digits.
pub proof fn midnight_has_its_date(z: int)
    requires
        0 <= calendar::civil(z).0 <= 9999,
    ensures
        leading_date(datetime::midnight(z)) == calendar::civil(z),
{
    let (y, m, d) = calendar::civil(z);
    calendar::civil_is_inverse_of_day_number(z);
    calendar::lemma_stamp_layout(y, m, d, 0, 0, 0);
    text::lemma_padded(y, 4);
    text::lemma_padded(m, 2);
    text::lemma_padded(d, 2);
    let s = datetime::midnight(z);
    calendar::lemma_field_ascii(s, 0, 4);
    text::lemma_latin_ascii(s);
    let b = vstd::utf8::encode_utf8(s);
    assert(text::latin(b.subrange(5, 7)) =~= text::latin(b).subrange(5, 7));
    assert(text::latin(b.subrange(8, 10)) =~= text::latin(b).subrange(8, 10));
}

// ---------------------------------------------------------------------------
// Names of days and months
// ---------------------------------------------------------------------------

/// `Sun` to `Sat`, for a count of days since the epoch, a Thursday.
pub open spec fn weekday_of(z: int) -> Seq<char> {
    let w = (z + 4) % 7;
    if w == 0 {
        "Sun"@
    } else if w == 1 {
        "Mon"@
    } else if w == 2 {
        "Tue"@
    } else if w == 3 {
        "Wed"@
    } else if w == 4 {
        "Thu"@
    } else if w == 5 {
        "Fri"@
    } else {
        "Sat"@
    }
}

pub fn weekday_abbrev(z: i128) -> (r: &'static str)
    requires
        -0x1_0000_0000_0000_0000_0000_0000 < z < 0x1_0000_0000_0000_0000_0000_0000,
    ensures
        r@ == weekday_of(z as int),
{
    let w: i128 = calendar::floor_mod(z + 4, 7);
    if w == 0 {
        "Sun"
    } else if w == 1 {
        "Mon"
    } else if w == 2 {
        "Tue"
    } else if w == 3 {
        "Wed"
    } else if w == 4 {
        "Thu"
    } else if w == 5 {
        "Fri"
    } else {
        "Sat"
    }
}

pub open spec fn month_name(m: int) -> Seq<char> {
    if m == 0 || m == 1 {
        "Jan"@
    } else if m == 2 {
        "Feb"@
    } else if m == 3 {
        "Mar"@
    } else if m == 4 {
        "Apr"@
    } else if m == 5 {
        "May"@
    } else if m == 6 {
        "Jun"@
    } else if m == 7 {
        "Jul"@
    } else if m == 8 {
        "Aug"@
    } else if m == 9 {
        "Sep"@
    } else if m == 10 {
        "Oct"@
    } else if m == 11 {
        "Nov"@
    } else if m == 12 {
        "Dec"@
    } else {
        "???"@
    }
}

pub fn month_abbrev(m: u32) -> (r: &'static str)
    ensures
        r@ == month_name(m as int),
{
    match m {
        0 | 1 => "Jan",
        2 => "Feb",
        3 => "Mar",
        4 => "Apr",
        5 => "May",
        6 => "Jun",
        7 => "Jul",
        8 => "Aug",
        9 => "Sep",
        10 => "Oct",
        11 => "Nov",
        12 => "Dec",
        _ => "???",
    }
}

/// `Mon Jul 21`.
pub open spec fn day_name(y: int, m: int, d: int) -> Seq<char> {
    weekday_of(calendar::day_number(y, m, d)) + " "@ + month_name(m) + " "@ + text::padded(d, 2)
}

/// A short label like `Mon Jul 21` for a date.
pub fn day_label(y: i64, m: u32, d: u32) -> (r: String)
    ensures
        r@ == day_name(y as int, m as int, d as int),
{
    let z: i128 = calendar::day_of_date(y as i128, m, d);
    let mut s: String = weekday_abbrev(z).to_string();
    s.append(" ");
    s.append(month_abbrev(m));
    s.append(" ");
    text::push_padded(&mut s, d as i128, 2);
    s
}

/// `Today`, `Tomorrow`, or `Wed 23 Jul`.
pub open spec fn header_of(day: (int, int, int), today: (int, int, int)) -> Seq<char> {
    let z = calendar::day_number(day.0, day.1, day.2);
    let ahead = z - calendar::day_number(today.0, today.1, today.2);
    if ahead == 0 {
        "Today"@
    } else if ahead == 1 {
        "Tomorrow"@
    } else {
        weekday_of(z) + " "@ + text::padded(day.2, 2) + " "@ + month_name(day.1)
    }
}

/// The header of a day of the agenda. Days are told apart by their count since
/// the epoch, so this holds across month and year boundaries.
pub fn day_header(day: (i64, u32, u32), today: (i64, u32, u32)) -> (r: String)
    ensures
        r@ == header_of(
            (day.0 as int, day.1 as int, day.2 as int),
            (today.0 as int, today.1 as int, today.2 as int),
        ),
{
    let z: i128 = calendar::day_of_date(day.0 as i128, day.1, day.2);
    let t: i128 = calendar::day_of_date(today.0 as i128, today.1, today.2);
    if z - t == 0 {
        return "Today".to_string();
    }
    if z - t == 1 {
        return "Tomorrow".to_string();
    }
    let mut s: String = weekday_abbrev(z).to_string();
    s.append(" ");
    text::push_padded(&mut s, day.2 as i128, 2);
    s.append(" ");
    s.append(month_abbrev(day.1));
    s
}

// ---------------------------------------------------------------------------
// The agenda
// ---------------------------------------------------------------------------

/// One row of the agenda: a day's header, or the event at an index.
#[derive(Debug, PartialEq, Eq)]
pub enum AgendaLine {
    Header(String),
    Event(usize),
}

/// What a row of the agenda shows.
pub enum AgendaRow {
    Header(Seq<char>),
    Event(int),
}

pub open spec fn row_of(l: AgendaLine) -> AgendaRow {
    match l {
        AgendaLine::Header(h) => AgendaRow::Header(h@),
        AgendaLine::Event(i) => AgendaRow::Event(i as int),
    }
}

pub open spec fn rows_of(v: Seq<AgendaLine>) -> Seq<AgendaRow> {
    v.map_values(|l: AgendaLine| row_of(l))
}

pub open spec fn date_part(t: (int, int, int, int, int)) -> (int, int, int) {
    (t.0, t.1, t.2)
}

/// The day an event is listed under: its own date where it is all-day, the
/// local day it starts on otherwise.
pub open spec fn day_of(e: EventRow, offset: int) -> (int, int, int) {
    if e.is_all_day {
        leading_date(e.start_utc@)
    } else {
        date_part(local_clock(e.start_utc@, offset))
    }
}

/// The rows of the first `n` events: a header before each event that begins
/// another day than the one before it.
pub open spec fn agenda_of(
    events: Seq<EventRow>,
    n: int,
    today: (int, int, int),
    offset: int,
) -> Seq<AgendaRow>
    decreases n,
{
    if n <= 0 {
        Seq::empty()
    } else {
        let before = agenda_of(events, n - 1, today, offset);
        let day = day_of(events[n - 1], offset);
        let headed = if n == 1 || day_of(events[n - 2], offset) != day {
            before.push(AgendaRow::Header(header_of(day, today)))
        } else {
            before
        };
        headed.push(AgendaRow::Event(n - 1))
    }
}

fn event_day(e: &EventRow, offset: i64) -> (r: (i64, u32, u32))
    ensures
        (r.0 as int, r.1 as int, r.2 as int) == day_of(*e, offset as int),
{
    if e.is_all_day {
        date_of_utc(e.start_utc.as_str())
    } else {
        let t = to_local(e.start_utc.as_str(), offset);
        (t.year, t.month, t.day)
    }
}

/// Groups events, in the order they start, under a header for each local day.
/// `now` is in seconds since the epoch.
pub fn agenda_lines(events: &Vec<EventRow>, now: i64, offset: i64) -> (r: Vec<AgendaLine>)
    ensures
        rows_of(r@) == agenda_of(
            events@,
            events@.len() as int,
            date_part(clock_at(now + offset * 60)),
            offset as int,
        ),
{
    let t = local_time(now, offset);
    let today = (t.year, t.month, t.day);
    let ghost day0 = date_part(clock_at(now + offset * 60));
    let mut lines: Vec<AgendaLine> = Vec::new();
    let mut last: Option<(i64, u32, u32)> = None;
    let mut i: usize = 0;
    assert(rows_of(lines@) =~= agenda_of(events@, 0, day0, offset as int));
    while i < events.len()
        invariant
            i <= events@.len(),
            rows_of(lines@) == agenda_of(events@, i as int, day0, offset as int),
            (today.0 as int, today.1 as int, today.2 as int) == day0,
            match last {
                None => i == 0,
                Some(d) => i > 0 && (d.0 as int, d.1 as int, d.2 as int) == day_of(
                    events@[i - 1],
                    offset as int,
                ),
            },
        decreases events@.len() - i,
    {
        let day = event_day(&events[i], offset);
        let new = match last {
            Some(d) => d.0 != day.0 || d.1 != day.1 || d.2 != day.2,
            None => true,
        };
        if new {
            let ghost v = lines@;
            lines.push(AgendaLine::Header(day_header(day, today)));
            assert(rows_of(lines@) =~= rows_of(v).push(row_of(lines@.last())));
        }
        let ghost w = lines@;
        lines.push(AgendaLine::Event(i));
        assert(rows_of(lines@) =~= rows_of(w).push(AgendaRow::Event(i as int)));
        last = Some(day);
        i += 1;
    }
    lines
}

/// The events of the agenda are listed once each, in their order.
pub proof fn agenda_lists_every_event(
    events: Seq<EventRow>,
    n: int,
    today: (int, int, int),
    offset: int,
)
    requires
        0 <= n <= events.len(),
    ensures
        agenda_of(events, n, today, offset).filter(|r: AgendaRow| r is Event) == Seq::new(
            n as nat,
            |i: int| AgendaRow::Event(i),
        ),
    decreases n,
{
    let p = |r: AgendaRow| r is Event;
    let all = |k: int| Seq::new(k as nat, |i: int| AgendaRow::Event(i));
    if n == 0 {
        reveal(Seq::filter);
        assert(agenda_of(events, 0, today, offset).filter(p) =~= all(0));
    } else {
        agenda_lists_every_event(events, n - 1, today, offset);
        let before = agenda_of(events, n - 1, today, offset);
        let day = day_of(events[n - 1], offset);
        let h = AgendaRow::Header(header_of(day, today));
        let headed = if n == 1 || day_of(events[n - 2], offset) != day {
            before.push(h)
        } else {
            before
        };
        crate::model::lemma_filter_push(before, h, p);
        crate::model::lemma_filter_push(headed, AgendaRow::Event(n - 1), p);
        assert(all(n) =~= all(n - 1).push(AgendaRow::Event(n - 1)));
    }
}

/// The row on which the highlight belongs: headers before it shift it down.
pub fn visual_selected(lines: &Vec<AgendaLine>, index: usize) -> (r: Option<usize>)
    ensures
        match r {
            Some(i) => i < lines@.len() && lines@[i as int] == AgendaLine::Event(index) && forall|j: int|
                0 <= j < i ==> lines@[j] != AgendaLine::Event(index),
            None => forall|j: int| 0 <= j < lines@.len() ==> lines@[j] != AgendaLine::Event(index),
        },
{
    let mut i: usize = 0;
    while i < lines.len()
        invariant
            i <= lines@.len(),
            forall|j: int| 0 <= j < i ==> lines@[j] != AgendaLine::Event(index),
        decreases lines@.len() - i,
    {
        if let AgendaLine::Event(k) = &lines[i] {
            if *k == index {
                return Some(i);
            }
        }
        i += 1;
    }
    None
}

/// `✓` accepted, `✗` declined, `?` tentative, `•` anything else.
pub open spec fn glyph_of(status: Seq<char>) -> char {
    if status == "accepted"@ {
        '\u{2713}'
    } else if status == "declined"@ {
        '\u{2717}'
    } else if status == "tentativelyAccepted"@ {
        '?'
    } else {
        '\u{2022}'
    }
}

/// The glyph of a response status.
pub fn response_glyph(status: &str) -> (r: char)
    ensures
        r == glyph_of(status@),
{
    if text::same(status, "accepted") {
        '\u{2713}'
    } else if text::same(status, "declined") {
        '\u{2717}'
    } else if text::same(status, "tentativelyAccepted") {
        '?'
    } else {
        '\u{2022}'
    }
}

/// Whether an event spans more than one day. The end of an all-day event is
/// the midnight after its last day.
pub open spec fn spans_days(e: EventRow, offset: int) -> bool {
    if e.is_all_day {
        let (sy, sm, sd) = leading_date(e.start_utc@);
        let (ey, em, ed) = leading_date(e.end_utc@);
        calendar::day_number(sy, sm, sd) < calendar::day_number(ey, em, ed) - 1
    } else {
        date_part(local_clock(e.start_utc@, offset)) != date_part(local_clock(e.end_utc@, offset))
    }
}

pub fn is_multi_day(e: &EventRow, offset: i64) -> (r: bool)
    ensures
        r == spans_days(*e, offset as int),
{
    if e.is_all_day {
        let (sy, sm, sd) = date_of_utc(e.start_utc.as_str());
        let (ey, em, ed) = date_of_utc(e.end_utc.as_str());
        let start: i128 = calendar::day_of_date(sy as i128, sm, sd);
        let end: i128 = calendar::day_of_date(ey as i128, em, ed);
        return start < end - 1;
    }
    let a = to_local(e.start_utc.as_str(), offset);
    let b = to_local(e.end_utc.as_str(), offset);
    a.year != b.year || a.month != b.month || a.day != b.day
}

/// `HH:MM–HH:MM`, or `all day`.
pub open spec fn span_of(e: EventRow, offset: int) -> Seq<char> {
    if e.is_all_day {
        "all day"@
    } else {
        local_time_of_day(e.start_utc@, offset) + "\u{2013}"@ + local_time_of_day(
            e.end_utc@,
            offset,
        )
    }
}

/// One row of the agenda: the response, the time, the subject, the location
/// where there is one, and a mark where it spans days.
pub open spec fn event_text(e: EventRow, offset: int) -> Seq<char> {
    let head = seq![glyph_of(e.response_status@)] + " "@ + span_of(e, offset) + "  "@ + e.subject@;
    let placed = if e.location@.len() == 0 {
        head
    } else {
        head + " \u{2014} "@ + e.location@
    };
    if spans_days(e, offset) {
        placed + " (multi-day)"@
    } else {
        placed
    }
}

fn push_span(s: &mut String, e: &EventRow, offset: i64)
    ensures
        final(s)@ == old(s)@ + span_of(*e, offset as int),
{
    let ghost start = s@;
    if e.is_all_day {
        s.append("all day");
    } else {
        let a = to_local(e.start_utc.as_str(), offset);
        let b = to_local(e.end_utc.as_str(), offset);
        push_hhmm(s, a);
        s.append("\u{2013}");
        push_hhmm(s, b);
    }
    assert(s@ =~= start + span_of(*e, offset as int));
}

/// One row of the agenda.
pub fn event_row(e: &EventRow, offset: i64) -> (r: String)
    ensures
        r@ == event_text(*e, offset as int),
{
    let mut s: String = String::new();
    s.push(response_glyph(e.response_status.as_str()));
    assert(s@ =~= seq![glyph_of(e.response_status@)]);
    s.append(" ");
    push_span(&mut s, e, offset);
    s.append("  ");
    s.append(e.subject.as_str());
    if text::chars_of(e.location.as_str()).len() > 0 {
        s.append(" \u{2014} ");
        s.append(e.location.as_str());
    }
    if is_multi_day(e, offset) {
        s.append(" (multi-day)");
    }
    s
}

// ---------------------------------------------------------------------------
// The detail pane
// ---------------------------------------------------------------------------

/// The position of the first event with this id, or the length where there is
/// none.
pub open spec fn event_at(v: Seq<EventRow>, id: Seq<char>) -> int
    decreases v.len(),
{
    if v.len() == 0 || v[0].id@ == id {
        0
    } else {
        1 + event_at(v.skip(1), id)
    }
}

/// Where the first event with this id stands.
pub fn find_event(v: &Vec<EventRow>, id: &String) -> (r: usize)
    ensures
        r == event_at(v@, id@),
        r <= v@.len(),
        r < v@.len() ==> v@[r as int].id@ == id@,
        forall|j: int| 0 <= j < r ==> (#[trigger] v@[j]).id@ != id@,
{
    let mut i: usize = 0;
    assert(v@.skip(0) =~= v@);
    while i < v.len()
        invariant
            i <= v@.len(),
            event_at(v@, id@) == i + event_at(v@.skip(i as int), id@),
            forall|j: int| 0 <= j < i ==> (#[trigger] v@[j]).id@ != id@,
        decreases v@.len() - i,
    {
        if v[i].id == *id {
            return i;
        }
        assert(v@.skip(i as int).skip(1) =~= v@.skip(i + 1));
        i += 1;
    }
    i
}

/// The opened event, as long as the agenda still holds it.
pub fn selected_event<'a>(agenda: &'a Vec<EventRow>, selected: &Option<String>) -> (r: Option<
    &'a EventRow,
>)
    ensures
        match selected {
            Some(id) => {
                let i = event_at(agenda@, id@);
                if i < agenda@.len() {
                    r == Some(&agenda@[i])
                } else {
                    r is None
                }
            },
            None => r is None,
        },
{
    match selected {
        Some(id) => {
            let i = find_event(agenda, id);
            if i < agenda.len() {
                Some(&agenda[i])
            } else {
                None
            }
        },
        None => None,
    }
}

/// When an event takes place: its own date where it is all-day, else the local
/// day and times.
pub open spec fn when_of(e: EventRow, offset: int) -> Seq<char> {
    if e.is_all_day {
        let (y, m, d) = leading_date(e.start_utc@);
        calendar::iso_date(y, m, d) + " (all day)"@
    } else {
        let t = local_clock(e.start_utc@, offset);
        calendar::iso_date(t.0, t.1, t.2) + " "@ + local_time_of_day(e.start_utc@, offset)
            + "\u{2013}"@ + local_time_of_day(e.end_utc@, offset)
    }
}

/// The rows above the attendees.
pub open spec fn detail_of(e: EventRow, offset: int) -> Seq<Seq<char>> {
    let rows = seq![
        "Subject: "@ + e.subject@,
        "When: "@ + when_of(e, offset),
        "Organizer: "@ + e.organizer_name@ + " <"@ + e.organizer_addr@ + ">"@,
        "Location: "@ + e.location@,
    ];
    if e.series_master_id is Some {
        rows.push("\u{21bb} repeats"@)
    } else {
        rows
    }
}

fn when_text(e: &EventRow, offset: i64) -> (r: String)
    ensures
        r@ == when_of(*e, offset as int),
{
    if e.is_all_day {
        let (y, m, d) = date_of_utc(e.start_utc.as_str());
        let mut s = calendar::date_text(y as i128, m, d);
        s.append(" (all day)");
        return s;
    }
    let a = to_local(e.start_utc.as_str(), offset);
    let b = to_local(e.end_utc.as_str(), offset);
    let mut s = calendar::date_text(a.year as i128, a.month, a.day);
    s.append(" ");
    push_hhmm(&mut s, a);
    s.append("\u{2013}");
    push_hhmm(&mut s, b);
    s
}

/// The rows above the attendees.
pub fn detail_header_lines(e: &EventRow, offset: i64) -> (r: Vec<String>)
    ensures
        crate::model::texts(r@) == detail_of(*e, offset as int),
{
    let mut v: Vec<String> = Vec::new();
    let mut a: String = "Subject: ".to_string();
    a.append(e.subject.as_str());
    v.push(a);
    let mut b: String = "When: ".to_string();
    b.append(when_text(e, offset).as_str());
    v.push(b);
    let mut c: String = "Organizer: ".to_string();
    c.append(e.organizer_name.as_str());
    c.append(" <");
    c.append(e.organizer_addr.as_str());
    c.append(">");
    v.push(c);
    let mut d: String = "Location: ".to_string();
    d.append(e.location.as_str());
    v.push(d);
    if e.series_master_id.is_some() {
        v.push("\u{21bb} repeats".to_string());
    }
    assert(crate::model::texts(v@) =~= detail_of(*e, offset as int));
    v
}

/// The row of one attendee.
pub open spec fn attendee_row(a: Attendee) -> Seq<char> {
    "  "@ + seq![glyph_of(a.response@)] + " "@ + a.name@ + " <"@ + a.addr@ + "> \u{2014} "@
        + a.response@
}

/// The attendees' rows.
pub open spec fn attendees_of(v: Seq<Attendee>) -> Seq<Seq<char>> {
    if v.len() == 0 {
        seq!["Attendees: (none)"@]
    } else {
        seq!["Attendees:"@] + v.map_values(|a: Attendee| attendee_row(a))
    }
}

/// The attendees' rows.
pub fn attendee_lines(v: &Vec<Attendee>) -> (r: Vec<String>)
    ensures
        crate::model::texts(r@) == attendees_of(v@),
{
    let mut out: Vec<String> = Vec::new();
    if v.len() == 0 {
        out.push("Attendees: (none)".to_string());
        assert(crate::model::texts(out@) =~= attendees_of(v@));
        return out;
    }
    out.push("Attendees:".to_string());
    let ghost rows = v@.map_values(|a: Attendee| attendee_row(a));
    let mut i: usize = 0;
    assert(crate::model::texts(out@) =~= seq!["Attendees:"@] + rows.take(0));
    while i < v.len()
        invariant
            i <= v@.len(),
            rows == v@.map_values(|a: Attendee| attendee_row(a)),
            crate::model::texts(out@) == seq!["Attendees:"@] + rows.take(i as int),
        decreases v@.len() - i,
    {
        let a = &v[i];
        let mut s: String = "  ".to_string();
        s.push(response_glyph(a.response.as_str()));
        assert(s@ =~= "  "@ + seq![glyph_of(a.response@)]);
        s.append(" ");
        s.append(a.name.as_str());
        s.append(" <");
        s.append(a.addr.as_str());
        s.append("> \u{2014} ");
        s.append(a.response.as_str());
        assert(s@ == attendee_row(*a));
        let ghost w = out@;
        out.push(s);
        proof {
            crate::model::lemma_texts_push(w, s);
        }
        i += 1;
        assert(crate::model::texts(out@) =~= seq!["Attendees:"@] + rows.take(i as int));
    }
    assert(rows.take(i as int) =~= rows);
    out
}

/// In the detail pane a link is cyan.
pub open spec fn detail_style(s: StyledSpan) -> Style {
    Style {
        fg: if s.link is Some {
            Some(Color::Cyan)
        } else {
            None
        },
        ..reading::span_style(s, None)
    }
}

/// What a row of an event's body shows: `unit` columns per level of indent, then
/// its spans.
pub open spec fn body_row(l: StyledLine, unit: int) -> Seq<Shown> {
    (if l.indent * unit > 0 {
        seq![style::shown(text::spaces(l.indent * unit), style::plain_style())]
    } else {
        Seq::empty()
    }) + l.spans@.map_values(|s: StyledSpan| style::shown(s.text@, detail_style(s)))
}

/// Lays out one row of an event's body.
pub fn body_line(l: &StyledLine, unit: u16) -> (r: Line)
    ensures
        r@ == body_row(*l, unit as int),
{
    let ghost spans = l.spans@.map_values(
        |s: StyledSpan| style::shown(s.text@, detail_style(s)),
    );
    assert(l.indent * unit <= 0xffff * 0xffff) by (nonlinear_arith)
        requires
            l.indent <= 0xffff,
            unit <= 0xffff,
    ;
    let n: u32 = l.indent as u32 * unit as u32;
    let mut line = Line::empty();
    if n > 0 {
        let mut s: String = String::new();
        text::push_spaces(&mut s, n as usize);
        assert(s@ =~= text::spaces(n as int));
        line.push(s, Style::plain());
    }
    let ghost start = line@;
    let mut i: usize = 0;
    while i < l.spans.len()
        invariant
            i <= l.spans@.len(),
            spans == l.spans@.map_values(
                |s: StyledSpan| style::shown(s.text@, detail_style(s)),
            ),
            line@ =~= start + spans.take(i as int),
        decreases l.spans@.len() - i,
    {
        let ghost before = line@;
        let mut st = reading::style_of(&l.spans[i], &None);
        if l.spans[i].link.is_some() {
            st.fg = Some(Color::Cyan);
        }
        line.push(l.spans[i].text.clone(), st);
        assert(spans.take(i + 1) =~= spans.take(i as int).push(spans[i as int]));
        i += 1;
    }
    assert(spans.take(i as int) =~= spans);
    assert(line@ =~= body_row(*l, unit as int));
    line
}

// ---------------------------------------------------------------------------
// The RSVP prompt
// ---------------------------------------------------------------------------

/// What a response is called in the prompt's title.
pub open spec fn verb_of(kind: Seq<char>) -> Seq<char> {
    if kind == "accepted"@ {
        "Accept"@
    } else if kind == "declined"@ {
        "Decline"@
    } else if kind == "tentativelyAccepted"@ {
        "Tentative"@
    } else {
        kind
    }
}

/// The prompt's title.
pub fn rsvp_title(p: &RsvpPrompt) -> (r: String)
    ensures
        r@ == verb_of(p.kind@) + " \u{2014} Tab: field  Enter: send  Esc: send without"@,
{
    let kind = p.kind.as_str();
    let mut s: String = if text::same(kind, "accepted") {
        "Accept".to_string()
    } else if text::same(kind, "declined") {
        "Decline".to_string()
    } else if text::same(kind, "tentativelyAccepted") {
        "Tentative".to_string()
    } else {
        kind.to_string()
    };
    s.append(" \u{2014} Tab: field  Enter: send  Esc: send without");
    s
}

/// `label: value`, with a caret where the field has the focus.
pub open spec fn rsvp_row(label: Seq<char>, value: Seq<char>, focused: bool) -> Seq<char> {
    let s = label + ": "@ + value;
    if focused {
        s + "_"@
    } else {
        s
    }
}

fn rsvp_field(label: &str, value: &str, focused: bool) -> (r: String)
    ensures
        r@ == rsvp_row(label@, value@, focused),
{
    let mut s: String = label.to_string();
    s.append(": ");
    s.append(value);
    if focused {
        s.append("_");
    }
    s
}

/// The prompt's rows: the proposed times, where this kind of response can carry
/// them, and the comment.
pub open spec fn rsvp_rows(p: RsvpPrompt) -> Seq<Seq<char>> {
    let comment = rsvp_row("Comment"@, p.comment@, p.focus == RsvpField::Comment);
    if p.may_propose() {
        seq![
            "Propose new time (blank = no proposal):"@,
            rsvp_row(
                "  Proposed start"@,
                p.proposed_start@,
                p.focus == RsvpField::ProposedStart,
            ),
            rsvp_row("  Proposed end"@, p.proposed_end@, p.focus == RsvpField::ProposedEnd),
            ""@,
            comment,
        ]
    } else {
        seq![comment]
    }
}

/// The prompt's rows.
pub fn rsvp_lines(p: &RsvpPrompt) -> (r: Vec<String>)
    ensures
        crate::model::texts(r@) == rsvp_rows(*p),
{
    let mut v: Vec<String> = Vec::new();
    if p.proposes() {
        v.push("Propose new time (blank = no proposal):".to_string());
        v.push(
            rsvp_field(
                "  Proposed start",
                p.proposed_start.as_str(),
                p.focus == RsvpField::ProposedStart,
            ),
        );
        v.push(
            rsvp_field(
                "  Proposed end",
                p.proposed_end.as_str(),
                p.focus == RsvpField::ProposedEnd,
            ),
        );
        v.push("".to_string());
    }
    v.push(rsvp_field("Comment", p.comment.as_str(), p.focus == RsvpField::Comment));
    assert(crate::model::texts(v@) =~= rsvp_rows(*p));
    v
}

}
