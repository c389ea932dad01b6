//! Parses local-time event-form input into UTC ISO timestamps. A bounded,
//! deterministic grammar (fixed format, `today`/`tomorrow`, bare/12-hour time,
//! `+Nh/m/d` relative), not open-ended natural language. `now` and
//! `offset_min` are passed in, never read from the clock.

use crate::text;
use crate::ui::calendar;
use vstd::prelude::*;

verus! {

/// A local wall-clock instant, no timezone.
#[derive(Clone, Copy, PartialEq, Eq, Structural, Debug)]
pub struct LocalDateTime {
    pub year: i64,
    pub month: u32,
    pub day: u32,
    pub hour: u32,
    pub min: u32,
}

// ---------------------------------------------------------------------------
// Model
// ---------------------------------------------------------------------------

/// A date of the calendar and a time of day.
pub open spec fn is_instant(t: LocalDateTime) -> bool {
    &&& calendar::is_date(t.year as int, t.month as int, t.day as int)
    &&& t.hour < 24
    &&& t.min < 60
}

/// A clock reading whose minutes since the epoch can be counted in an `i64`.
pub open spec fn is_countable(t: LocalDateTime) -> bool {
    -17_000_000_000_000 <= t.year <= 17_000_000_000_000
}

/// Minutes since the Unix epoch.
pub open spec fn epoch_min(t: LocalDateTime) -> int {
    calendar::day_number(t.year as int, t.month as int, t.day as int) * 1440 + t.hour * 60 + t.min
}

/// `t` is the instant `total` minutes after the epoch.
pub open spec fn is_at(t: LocalDateTime, total: int) -> bool {
    &&& (t.year as int, t.month as int, t.day as int) == calendar::civil(total / 1440)
    &&& t.hour == (total % 1440) / 60
    &&& t.min == total % 60
}

/// The time stamp `total` minutes after the epoch.
pub open spec fn iso_of_min(total: int) -> Seq<char> {
    let (y, m, d) = calendar::civil(total / 1440);
    calendar::iso_stamp(y, m, d, (total % 1440) / 60, total % 60, 0)
}

/// The time stamp of midnight on day `days`.
pub open spec fn midnight(days: int) -> Seq<char> {
    let (y, m, d) = calendar::civil(days);
    calendar::iso_stamp(y, m, d, 0, 0, 0)
}

pub open spec fn u32_of(s: Seq<char>) -> Option<int> {
    text::parse_unsigned(s, u32::MAX as int)
}

/// `year-month-day`, denoting a date of the calendar.
pub open spec fn ymd_of(s: Seq<char>) -> Option<(int, int, int)> {
    let parts = text::split(s, '-');
    if parts.len() == 3 {
        match (text::parse_signed(parts[0]), u32_of(parts[1]), u32_of(parts[2])) {
            (Some(y), Some(m), Some(d)) => if calendar::is_date(y, m, d) {
                Some((y, m, d))
            } else {
                None
            },
            _ => None,
        }
    } else {
        None
    }
}

/// `hour` (1 to 12) and `min` of a twelve-hour clock, in 24 hours.
pub open spec fn half_day(hour: int, min: int, pm: bool) -> Option<(int, int)> {
    if 1 <= hour <= 12 && min <= 59 {
        Some((hour % 12 + if pm {
            12int
        } else {
            0
        }, min))
    } else {
        None
    }
}

/// `HH:MM`, or `H` or `H:MM` followed by `am` or `pm`, as hour and minute of
/// a 24-hour day.
pub open spec fn time_of(s: Seq<char>) -> Option<(int, int)> {
    let t = text::ascii_lowercase(text::trim(s));
    let pm = text::has_suffix(t, "pm"@);
    if pm || text::has_suffix(t, "am"@) {
        let rest = t.take(t.len() - 2);
        match text::split_once(rest, ':') {
            Some((h, m)) => match (u32_of(text::trim(h)), u32_of(text::trim(m))) {
                (Some(h), Some(m)) => half_day(h, m, pm),
                _ => None,
            },
            None => match u32_of(text::trim(rest)) {
                Some(h) => half_day(h, 0, pm),
                None => None,
            },
        }
    } else {
        match text::split_once(t, ':') {
            Some((h, m)) => match (u32_of(h), u32_of(m)) {
                (Some(h), Some(m)) => if h <= 23 && m <= 59 {
                    Some((h, m))
                } else {
                    None
                },
                _ => None,
            },
            None => None,
        }
    }
}

/// The date and time that an input denotes.
#[verifier::ext_equal]
pub struct Reading {
    pub year: int,
    pub month: int,
    pub day: int,
    pub hour: int,
    pub min: int,
}

pub open spec fn reading(t: LocalDateTime) -> Reading {
    Reading {
        year: t.year as int,
        month: t.month as int,
        day: t.day as int,
        hour: t.hour as int,
        min: t.min as int,
    }
}

pub open spec fn reading_min(r: Reading) -> int {
    calendar::day_number(r.year, r.month, r.day) * 1440 + r.hour * 60 + r.min
}

/// What follows `today` or `tomorrow`: nothing, meaning midnight, or a time.
pub open spec fn on_day(now: LocalDateTime, ahead: int, rest: Seq<char>) -> Option<Reading> {
    let (y, m, d) = calendar::civil(
        calendar::day_number(now.year as int, now.month as int, now.day as int) + ahead,
    );
    if text::trim(rest).len() == 0 {
        Some(Reading { year: y, month: m, day: d, hour: 0, min: 0 })
    } else {
        match time_of(rest) {
            Some((h, mi)) => Some(Reading { year: y, month: m, day: d, hour: h, min: mi }),
            None => None,
        }
    }
}

/// Whether the input is read as a date: ten bytes or more, the fifth a `-`.
pub open spec fn looks_like_date(s: Seq<char>) -> bool {
    let b = vstd::utf8::encode_utf8(s);
    b.len() >= 10 && b[4] == 0x2d
}

/// What one non-relative input denotes: `today` or `tomorrow` with an
/// optional time, a date with an optional time, or a time of the current day.
pub open spec fn local_of(input: Seq<char>, now: LocalDateTime) -> Option<Reading> {
    let s = text::trim(input);
    if s.len() == 0 {
        None
    } else if text::has_prefix(s, "today"@) {
        on_day(now, 0, s.skip(5))
    } else if text::has_prefix(s, "tomorrow"@) {
        on_day(now, 1, s.skip(8))
    } else if looks_like_date(s) {
        let (date, time) = match text::split_once(s, ' ') {
            Some((d, t)) => (d, Some(t)),
            None => (s, None),
        };
        match ymd_of(date) {
            Some((y, m, d)) => match time {
                Some(t) => match time_of(t) {
                    Some((h, mi)) => Some(Reading { year: y, month: m, day: d, hour: h, min: mi }),
                    None => None,
                },
                None => Some(Reading { year: y, month: m, day: d, hour: 0, min: 0 }),
            },
            None => None,
        }
    } else {
        match time_of(s) {
            Some((h, mi)) => Some(
                Reading {
                    year: now.year as int,
                    month: now.month as int,
                    day: now.day as int,
                    hour: h,
                    min: mi,
                },
            ),
            None => None,
        }
    }
}

/// `Nh`, `Nm` or `Nd`, in minutes.
pub open spec fn relative_of(s: Seq<char>) -> Option<int> {
    let t = text::trim(s);
    if t.len() == 0 {
        None
    } else {
        match text::parse_signed(text::trim(t.drop_last())) {
            Some(n) => {
                let u = text::ascii_lower(t.last());
                if u == 'h' {
                    Some(n * 60)
                } else if u == 'm' {
                    Some(n)
                } else if u == 'd' {
                    Some(n * 1440)
                } else {
                    None
                }
            },
            None => None,
        }
    }
}

/// The minutes since the epoch that a UTC time stamp denotes.
pub open spec fn min_of_iso(utc: Seq<char>) -> Option<int> {
    match text::split_once(utc, 'T') {
        Some((date, rest)) => {
            let b = vstd::utf8::encode_utf8(rest);
            match (ymd_of(date), unsigned_field(b, 0, 2), unsigned_field(b, 3, 5)) {
                (Some((y, m, d)), Some(h), Some(mi)) => Some(
                    calendar::day_number(y, m, d) * 1440 + h * 60 + mi,
                ),
                _ => None,
            }
        },
        None => None,
    }
}

/// The unsigned number in bytes `from..to`, where there are that many.
pub open spec fn unsigned_field(b: Seq<u8>, from: int, to: int) -> Option<int> {
    if to <= b.len() {
        u32_of(text::latin(b.subrange(from, to)))
    } else {
        None
    }
}

/// The time stamp of a Start field's text.
pub open spec fn start_of(input: Seq<char>, now: LocalDateTime, offset_min: int) -> Option<
    Seq<char>,
> {
    match local_of(input, now) {
        Some(r) => Some(iso_of_min(reading_min(r) - offset_min)),
        None => None,
    }
}

/// The time stamp of an End field's text: `+N` and a unit counts from the
/// start, anything else is read as a Start field is.
pub open spec fn end_of(
    input: Seq<char>,
    start_utc: Seq<char>,
    now: LocalDateTime,
    offset_min: int,
) -> Option<Seq<char>> {
    let s = text::trim(input);
    if s.len() > 0 && s[0] == '+' {
        match (min_of_iso(start_utc), relative_of(s.skip(1))) {
            (Some(base), Some(delta)) => Some(iso_of_min(base + delta)),
            _ => None,
        }
    } else {
        start_of(s, now, offset_min)
    }
}

/// The first day of an all-day event, and the day after its last.
pub open spec fn all_day_of(start: Seq<char>, end: Seq<char>, now: LocalDateTime) -> Option<
    (int, int),
> {
    match local_of(start, now) {
        Some(s) => {
            let first = calendar::day_number(s.year, s.month, s.day);
            let last = match local_of(end, now) {
                Some(e) => {
                    let d = calendar::day_number(e.year, e.month, e.day);
                    if d >= first {
                        d
                    } else {
                        first
                    }
                },
                None => first,
            };
            Some((first, last + 1))
        },
        None => None,
    }
}

// ---------------------------------------------------------------------------
// Conversion
// ---------------------------------------------------------------------------

/// Minutes since the Unix epoch.
fn to_epoch_min(t: LocalDateTime) -> (r: i128)
    ensures
        r == epoch_min(t),
        -0x100_0000_0000_0000_0000_0000 < r < 0x100_0000_0000_0000_0000_0000,
{
    calendar::day_of_date(t.year as i128, t.month, t.day) * 1440 + (t.hour as i128) * 60 + (
    t.min as i128)
}

/// The days, hours and minutes that make up `total` minutes.
proof fn lemma_clock(total: int)
    ensures
        total == (total / 1440) * 1440 + ((total % 1440) / 60) * 60 + total % 60,
        (total % 1440) % 60 == total % 60,
        0 <= (total % 1440) / 60 < 24,
        0 <= total % 60 < 60,
{
    let rem = total % 1440;
    assert(total == 60 * (24 * (total / 1440)) + rem);
    assert(rem == 60 * (rem / 60) + rem % 60);
}

/// The instant `total` minutes after the epoch.
#[verifier::spinoff_prover]
#[verifier::rlimit(40)]
fn from_epoch_min(total: i128) -> (r: LocalDateTime)
    requires
        -0x1000_0000_0000_0000_0000_0000 < total < 0x1000_0000_0000_0000_0000_0000,
        i64::MIN <= calendar::civil(total as int / 1440).0 <= i64::MAX,
    ensures
        is_at(r, total as int),
        is_instant(r),
        epoch_min(r) == total,
{
    let days: i128 = calendar::floor_div(total, 1440);
    let rem: i128 = calendar::floor_mod(total, 1440);
    let (y, m, d) = calendar::date_of_day(days);
    proof {
        lemma_clock(total as int);
    }
    LocalDateTime {
        year: y as i64,
        month: m,
        day: d,
        hour: (rem / 60) as u32,
        min: (rem % 60) as u32,
    }
}

/// The time stamp `total` minutes after the epoch.
#[verifier::spinoff_prover]
#[verifier::rlimit(40)]
fn stamp_of_min(total: i128) -> (r: String)
    requires
        -0x1000_0000_0000_0000_0000_0000 < total < 0x1000_0000_0000_0000_0000_0000,
    ensures
        r@ == iso_of_min(total as int),
{
    let days: i128 = calendar::floor_div(total, 1440);
    let rem: i128 = calendar::floor_mod(total, 1440);
    let (y, m, d) = calendar::date_of_day(days);
    proof {
        lemma_clock(total as int);
    }
    calendar::stamp_text(y, m, d, (rem / 60) as u32, (rem % 60) as u32, 0)
}

/// Formats a local instant as a UTC ISO timestamp, subtracting the local
/// offset (`offset_min` minutes east of UTC).
pub fn to_utc_iso(t: LocalDateTime, offset_min: i64) -> (r: String)
    ensures
        r@ == iso_of_min(epoch_min(t) - offset_min),
{
    stamp_of_min(to_epoch_min(t) - offset_min as i128)
}


pub fn is_leap_year(y: i64) -> (r: bool)
    ensures
        r == calendar::is_leap(y as int),
{
    (y % 4 == 0 && y % 100 != 0) || y % 400 == 0
}

pub fn days_in_month(year: i64, month: u32) -> (r: u32)
    ensures
        r == calendar::month_length(year as int, month as int),
{
    match month {
        1 | 3 | 5 | 7 | 8 | 10 | 12 => 31,
        4 | 6 | 9 | 11 => 30,
        2 => {
            if is_leap_year(year) {
                29
            } else {
                28
            }
        },
        _ => 0,
    }
}

// ---------------------------------------------------------------------------
// Parsing
// ---------------------------------------------------------------------------

fn parse_ymd(s: &[char]) -> (r: Option<(i64, u32, u32)>)
    ensures
        match r {
            Some((y, m, d)) => ymd_of(s@) == Some((y as int, m as int, d as int)),
            None => ymd_of(s@) is None,
        },
{
    proof {
        reveal_with_fuel(text::split, 4);
    }
    let (a, r1) = match text::split_at_first(s, '-') {
        Some(p) => p,
        None => {
            return None;
        },
    };
    assert(text::split(s@, '-') =~= seq![a@] + text::split(r1@, '-'));
    let (b, c) = match text::split_at_first(r1, '-') {
        Some(p) => p,
        None => {
            assert(text::split(r1@, '-') =~= seq![r1@]);
            return None;
        },
    };
    assert(text::split(r1@, '-') =~= seq![b@] + text::split(c@, '-'));
    match text::split_at_first(c, '-') {
        Some((x, y)) => {
            assert(text::split(c@, '-') =~= seq![x@] + text::split(y@, '-'));
            assert(text::split(y@, '-').len() >= 1);
            return None;
        },
        None => {
            assert(text::split(c@, '-') =~= seq![c@]);
        },
    }
    let ghost parts = text::split(s@, '-');
    assert(parts[0] == a@ && parts[1] == b@ && parts[2] == c@);
    match (text::read_i64(a), text::read_u32(b), text::read_u32(c)) {
        (Some(y), Some(m), Some(d)) => {
            if m >= 1 && m <= 12 && d >= 1 && d <= days_in_month(y, m) {
                Some((y, m, d))
            } else {
                None
            }
        },
        _ => None,
    }
}

fn twelve_hour(h: u32, m: u32, pm: bool) -> (r: Option<(u32, u32)>)
    ensures
        match r {
            Some((a, b)) => half_day(h as int, m as int, pm) == Some((a as int, b as int)) && a < 24
                && b < 60,
            None => half_day(h as int, m as int, pm) is None,
        },
{
    if h < 1 || h > 12 || m > 59 {
        return None;
    }
    let h24: u32 = if h == 12 {
        if pm {
            12
        } else {
            0
        }
    } else if pm {
        h + 12
    } else {
        h
    };
    Some((h24, m))
}

/// `HH:MM` (24-hour) or `H[:MM]am|pm` (12-hour). Returns (hour, min) in 24h.
fn parse_time(s: &[char]) -> (r: Option<(u32, u32)>)
    ensures
        match r {
            Some((h, m)) => time_of(s@) == Some((h as int, m as int)) && h < 24 && m < 60,
            None => time_of(s@) is None,
        },
{
    let t = text::lowercase(text::trimmed(s));
    let v = t.as_slice();
    proof {
        reveal_strlit("am");
        reveal_strlit("pm");
    }
    let pm = text::ends_with(v, "pm");
    if pm || text::ends_with(v, "am") {
        let rest = vstd::slice::slice_subrange(v, 0, v.len() - 2);
        assert(rest@ =~= v@.take(v@.len() - 2));
        match text::split_at_first(rest, ':') {
            Some((h, m)) => match (
                text::read_u32(text::trimmed(h)),
                text::read_u32(text::trimmed(m)),
            ) {
                (Some(h), Some(m)) => twelve_hour(h, m, pm),
                _ => None,
            },
            None => match text::read_u32(text::trimmed(rest)) {
                Some(h) => twelve_hour(h, 0, pm),
                None => None,
            },
        }
    } else {
        match text::split_at_first(v, ':') {
            Some((h, m)) => match (text::read_u32(h), text::read_u32(m)) {
                (Some(h), Some(m)) => {
                    if h > 23 || m > 59 {
                        None
                    } else {
                        Some((h, m))
                    }
                },
                _ => None,
            },
            None => None,
        }
    }
}

fn on_day_ahead(now: LocalDateTime, ahead: i128, rest: &[char]) -> (r: Option<LocalDateTime>)
    requires
        is_countable(now),
        0 <= ahead <= 1,
    ensures
        match r {
            Some(t) => on_day(now, ahead as int, rest@) == Some(reading(t)),
            None => on_day(now, ahead as int, rest@) is None,
        },
{
    let (y, m, d) = calendar::date_of_day(
        calendar::day_of_date(now.year as i128, now.month, now.day) + ahead,
    );
    proof {
        calendar::lemma_year_within_days(y as int, m as int, d as int);
    }
    if text::trimmed(rest).len() == 0 {
        return Some(LocalDateTime { year: y as i64, month: m, day: d, hour: 0, min: 0 });
    }
    match parse_time(rest) {
        Some((h, mi)) => Some(
            LocalDateTime { year: y as i64, month: m, day: d, hour: h, min: mi },
        ),
        None => None,
    }
}

/// Parses one non-relative local input.
pub fn parse_local(input: &str, now: LocalDateTime) -> (r: Option<LocalDateTime>)
    requires
        is_countable(now),
    ensures
        match r {
            Some(t) => local_of(input@, now) == Some(reading(t)),
            None => local_of(input@, now) is None,
        },
{
    let t = text::trim_str(input);
    let s = t.as_slice();
    if s.len() == 0 {
        return None;
    }
    proof {
        reveal_strlit("today");
        reveal_strlit("tomorrow");
    }
    if text::starts_with(s, "today") {
        let rest = vstd::slice::slice_subrange(s, 5, s.len());
        assert(rest@ =~= s@.skip(5));
        return on_day_ahead(now, 0, rest);
    }
    if text::starts_with(s, "tomorrow") {
        let rest = vstd::slice::slice_subrange(s, 8, s.len());
        assert(rest@ =~= s@.skip(8));
        return on_day_ahead(now, 1, rest);
    }
    let whole = text::string_of(s);
    let b = whole.as_str().as_bytes();
    if b.len() >= 10 && b[4] == 0x2d {
        let (date, time) = match text::split_at_first(s, ' ') {
            Some((d, t)) => (d, Some(t)),
            None => (s, None),
        };
        let (y, m, d) = match parse_ymd(date) {
            Some(p) => p,
            None => {
                return None;
            },
        };
        let (h, mi) = match time {
            Some(t) => match parse_time(t) {
                Some(p) => p,
                None => {
                    return None;
                },
            },
            None => (0u32, 0u32),
        };
        return Some(LocalDateTime { year: y, month: m, day: d, hour: h, min: mi });
    }
    match parse_time(s) {
        Some((h, mi)) => Some(
            LocalDateTime { year: now.year, month: now.month, day: now.day, hour: h, min: mi },
        ),
        None => None,
    }
}

/// `Nh`, `Nm` or `Nd` (the leading `+` already stripped). Returns minutes.
fn parse_relative_minutes(s: &[char]) -> (r: Option<i128>)
    ensures
        match r {
            Some(n) => relative_of(s@) == Some(n as int) && -0x1_0000_0000_0000_0000_0000 < n
                < 0x1_0000_0000_0000_0000_0000,
            None => relative_of(s@) is None,
        },
{
    let t = text::trimmed(s);
    if t.len() == 0 {
        return None;
    }
    let num = vstd::slice::slice_subrange(t, 0, t.len() - 1);
    assert(num@ =~= t@.drop_last());
    let n: i128 = match text::read_i64(text::trimmed(num)) {
        Some(n) => n as i128,
        None => {
            return None;
        },
    };
    let unit = text::lower(t[t.len() - 1]);
    if unit == 'h' {
        Some(n * 60)
    } else if unit == 'm' {
        Some(n)
    } else if unit == 'd' {
        Some(n * 1440)
    } else {
        None
    }
}

pub fn read_unsigned_field(b: &[u8], from: usize, to: usize) -> (r: Option<u32>)
    requires
        from <= to,
    ensures
        match r {
            Some(n) => unsigned_field(b@, from as int, to as int) == Some(n as int),
            None => unsigned_field(b@, from as int, to as int) is None,
        },
{
    if to <= b.len() {
        let v = text::latin_of(b, from, to);
        text::read_u32(v.as_slice())
    } else {
        None
    }
}

/// The minutes since the epoch that a UTC time stamp denotes.
fn minutes_of_iso(utc: &str) -> (r: Option<i128>)
    ensures
        match r {
            Some(n) => min_of_iso(utc@) == Some(n as int) && -0x1000_0000_0000_0000_0000_000 < n
                < 0x1000_0000_0000_0000_0000_000,
            None => min_of_iso(utc@) is None,
        },
{
    let v = text::chars_of(utc);
    let (date, rest) = match text::split_at_first(v.as_slice(), 'T') {
        Some(p) => p,
        None => {
            return None;
        },
    };
    let after = text::string_of(rest);
    let b = after.as_str().as_bytes();
    match (parse_ymd(date), read_unsigned_field(b, 0, 2), read_unsigned_field(b, 3, 5)) {
        (Some((y, m, d)), Some(h), Some(mi)) => Some(
            calendar::day_of_date(y as i128, m, d) * 1440 + (h as i128) * 60 + (mi as i128),
        ),
        _ => None,
    }
}

/// UTC ISO to local instant.
pub fn utc_iso_to_local(utc: &str, offset_min: i64) -> (r: Option<LocalDateTime>)
    requires
        min_of_iso(utc@) matches Some(n) ==> i64::MIN <= calendar::civil(
            (n + offset_min) / 1440,
        ).0 <= i64::MAX,
    ensures
        match min_of_iso(utc@) {
            Some(n) => r matches Some(t) && is_at(t, n + offset_min) && is_instant(t),
            None => r is None,
        },
{
    match minutes_of_iso(utc) {
        Some(n) => Some(from_epoch_min(n + offset_min as i128)),
        None => None,
    }
}

/// Formats a local instant as the event form's display text (`YYYY-MM-DD
/// HH:MM`): the inverse direction of what `parse_start`/`parse_end` accept as
/// input.
pub fn format_local(t: LocalDateTime) -> (r: String)
    ensures
        r@ == display_of(t),
{
    let mut s: String = calendar::date_text(t.year as i128, t.month, t.day);
    s.append(" ");
    text::push_padded(&mut s, t.hour as i128, 2);
    s.append(":");
    text::push_padded(&mut s, t.min as i128, 2);
    s
}

/// The display text of the instant `total` minutes after the epoch.
pub open spec fn display_at(total: int) -> Seq<char> {
    let (y, m, d) = calendar::civil(total / 1440);
    calendar::iso_date(y, m, d) + " "@ + text::padded((total % 1440) / 60, 2) + ":"@ + text::padded(
        total % 60,
        2,
    )
}

/// The display text of a UTC time stamp, `offset_min` minutes east; empty where
/// it is no time stamp.
pub open spec fn display_of_utc(utc: Seq<char>, offset_min: int) -> Seq<char> {
    match min_of_iso(utc) {
        Some(n) => display_at(n + offset_min),
        None => Seq::empty(),
    }
}

/// Renders a UTC time stamp to the form's local text, or nothing when it is
/// empty or unparseable.
#[verifier::spinoff_prover]
#[verifier::rlimit(30)]
pub fn utc_to_display(utc: &str, offset_min: i64) -> (r: String)
    ensures
        r@ == display_of_utc(utc@, offset_min as int),
{
    match minutes_of_iso(utc) {
        Some(n) => {
            let total: i128 = n + offset_min as i128;
            let days: i128 = calendar::floor_div(total, 1440);
            let rem: i128 = calendar::floor_mod(total, 1440);
            proof {
                lemma_clock(total as int);
            }
            let (y, m, d) = calendar::date_of_day(days);
            let mut s: String = calendar::date_text(y, m, d);
            s.append(" ");
            text::push_padded(&mut s, rem / 60, 2);
            s.append(":");
            text::push_padded(&mut s, rem % 60, 2);
            s
        },
        None => String::new(),
    }
}

/// `YYYY-MM-DD HH:MM`.
pub open spec fn display_of(t: LocalDateTime) -> Seq<char> {
    calendar::iso_date(t.year as int, t.month as int, t.day as int) + " "@ + text::padded(
        t.hour as int,
        2,
    ) + ":"@ + text::padded(t.min as int, 2)
}

/// Adds `minutes` to a local instant, handling hour/day/month/year rollover.
pub fn add_minutes(t: LocalDateTime, minutes: i64) -> (r: LocalDateTime)
    requires
        i64::MIN <= calendar::civil((epoch_min(t) + minutes) / 1440).0 <= i64::MAX,
    ensures
        is_at(r, epoch_min(t) + minutes),
        is_instant(r),
        epoch_min(r) == epoch_min(t) + minutes,
{
    from_epoch_min(to_epoch_min(t) + minutes as i128)
}

/// The minutes since the epoch of a countable reading, and the year a few of
/// them later, are small.
pub proof fn lemma_countable(t: LocalDateTime, minutes: int)
    requires
        is_countable(t),
        -0x1_0000_0000 <= minutes <= 0x1_0000_0000,
    ensures
        i64::MIN <= calendar::civil((epoch_min(t) + minutes) / 1440).0 <= i64::MAX,
{
    assert(-10_000_000_000_000_000 <= calendar::day_number(
        t.year as int,
        t.month as int,
        t.day as int,
    ) <= 10_000_000_000_000_000) by {
        reveal(calendar::day_number);
    }
    let z = (epoch_min(t) + minutes) / 1440;
    calendar::civil_is_inverse_of_day_number(z);
    let (y, m, d) = calendar::civil(z);
    calendar::lemma_year_within_days(y, m, d);
}

/// Parses the Start field's display text into a UTC ISO timestamp.
pub fn parse_start(input: &str, now: LocalDateTime, offset_min: i64) -> (r: Option<String>)
    requires
        is_countable(now),
    ensures
        match r {
            Some(s) => start_of(input@, now, offset_min as int) == Some(s@),
            None => start_of(input@, now, offset_min as int) is None,
        },
{
    match parse_local(input, now) {
        Some(t) => Some(to_utc_iso(t, offset_min)),
        None => None,
    }
}

/// Parses the End field's display text into a UTC ISO timestamp.
pub fn parse_end(input: &str, start_utc: &str, now: LocalDateTime, offset_min: i64) -> (r: Option<
    String,
>)
    requires
        is_countable(now),
    ensures
        match r {
            Some(s) => end_of(input@, start_utc@, now, offset_min as int) == Some(s@),
            None => end_of(input@, start_utc@, now, offset_min as int) is None,
        },
{
    let t = text::trim_str(input);
    let s = t.as_slice();
    if s.len() > 0 && s[0] == '+' {
        let rel = vstd::slice::slice_subrange(s, 1, s.len());
        assert(rel@ =~= s@.skip(1));
        return match (minutes_of_iso(start_utc), parse_relative_minutes(rel)) {
            (Some(base), Some(delta)) => Some(stamp_of_min(base + delta)),
            _ => None,
        };
    }
    let rest = text::string_of(s);
    parse_start(rest.as_str(), now, offset_min)
}

/// A day as a floating all-day boundary: that date at nominal midnight UTC.
fn day_at_midnight_utc(days: i128) -> (r: String)
    requires
        -0x1_0000_0000_0000_0000_0000_0000 < days < 0x1_0000_0000_0000_0000_0000_0000,
    ensures
        r@ == midnight(days as int),
{
    let (y, m, d) = calendar::date_of_day(days);
    calendar::stamp_text(y, m, d, 0, 0, 0)
}

/// Bounds for an all-day event from the form's Start/End fields. The date of
/// each field is used (any time is ignored); the dates are floating (not
/// offset-converted). Start is that date at midnight; End is the exclusive
/// next-day midnight after the last inclusive day (the End field's date, or
/// the Start date when End is missing or earlier). `None` if the Start
/// field's date can't be parsed.
pub fn all_day_bounds(start_input: &str, end_input: &str, now: LocalDateTime) -> (r: Option<
    (String, String),
>)
    requires
        is_countable(now),
    ensures
        match r {
            Some((a, b)) => all_day_of(start_input@, end_input@, now) matches Some((first, next))
                && a@ == midnight(first) && b@ == midnight(next),
            None => all_day_of(start_input@, end_input@, now) is None,
        },
{
    let s = match parse_local(start_input, now) {
        Some(s) => s,
        None => {
            return None;
        },
    };
    let first: i128 = calendar::day_of_date(s.year as i128, s.month, s.day);
    let last: i128 = match parse_local(end_input, now) {
        Some(e) => {
            let d: i128 = calendar::day_of_date(e.year as i128, e.month, e.day);
            if d >= first {
                d
            } else {
                first
            }
        },
        None => first,
    };
    Some((day_at_midnight_utc(first), day_at_midnight_utc(last + 1)))
}


// ---------------------------------------------------------------------------
// Laws
// ---------------------------------------------------------------------------

/// An instant is determined by its minutes since the epoch, and the other way
/// round.
pub proof fn epoch_minutes_round_trip(t: LocalDateTime)
    requires
        is_instant(t),
    ensures
        is_at(t, epoch_min(t)),
{
    calendar::day_number_is_inverse_of_civil(t.year as int, t.month as int, t.day as int);
    lemma_minutes_apart(
        calendar::day_number(t.year as int, t.month as int, t.day as int),
        t.hour as int,
        t.min as int,
    );
}

/// Days, hours and minutes can be told apart in a count of minutes.
proof fn lemma_minutes_apart(days: int, h: int, m: int)
    requires
        0 <= h < 24,
        0 <= m < 60,
    ensures
        ({
            let total = days * 1440 + h * 60 + m;
            total / 1440 == days && (total % 1440) / 60 == h && total % 60 == m
        }),
{
    let total = days * 1440 + h * 60 + m;
    let rem = h * 60 + m;
    assert(total / 1440 == days);
    assert(total % 1440 == rem);
    assert(rem / 60 == h);
    assert(total == 60 * (days * 24 + h) + m);
    assert(total % 60 == m);
}

proof fn lemma_at(t: LocalDateTime, total: int)
    requires
        is_at(t, total),
    ensures
        epoch_min(t) == total,
{
    calendar::civil_is_inverse_of_day_number(total / 1440);
    let rem = total % 1440;
    assert(total % 60 == rem % 60);
    assert(rem == (rem / 60) * 60 + rem % 60);
}

/// Adding minutes twice is adding their sum.
pub proof fn adding_minutes_is_additive(
    t: LocalDateTime,
    u: LocalDateTime,
    v: LocalDateTime,
    a: int,
    b: int,
)
    requires
        is_at(u, epoch_min(t) + a),
        is_at(v, epoch_min(u) + b),
    ensures
        is_at(v, epoch_min(t) + (a + b)),
        epoch_min(v) == epoch_min(t) + a + b,
{
    lemma_at(u, epoch_min(t) + a);
    lemma_at(v, epoch_min(u) + b);
}

/// An all-day event ends after it starts.
pub proof fn all_day_event_is_not_empty(start: Seq<char>, end: Seq<char>, now: LocalDateTime)
    ensures
        all_day_of(start, end, now) matches Some((first, next)) ==> first < next,
{
}

proof fn lemma_ymd_of_date(y: int, m: int, d: int)
    requires
        calendar::is_date(y, m, d),
        0 <= y <= 9999,
    ensures
        ymd_of(calendar::iso_date(y, m, d)) == Some((y, m, d)),
        calendar::iso_date(y, m, d).len() == 10,
{
    let s = calendar::iso_date(y, m, d);
    text::lemma_padded(y, 4);
    text::lemma_padded(m, 2);
    text::lemma_padded(d, 2);
    reveal_strlit("-");
    reveal_with_fuel(text::split, 4);
    let py = text::padded(y, 4);
    let pm = text::padded(m, 2);
    let pd = text::padded(d, 2);
    assert forall|j: int| 0 <= j < 4 implies s[j] != '-' by {
        assert(s[j] == py[j]);
        assert(text::is_digit(py[j]));
    }
    text::lemma_position(s, '-', 4);
    assert(s.take(4) =~= py);
    let r1 = s.skip(5);
    assert(r1 =~= pm + "-"@ + pd);
    assert forall|j: int| 0 <= j < 2 implies r1[j] != '-' by {
        assert(r1[j] == pm[j]);
        assert(text::is_digit(pm[j]));
    }
    text::lemma_position(r1, '-', 2);
    assert(r1.take(2) =~= pm);
    let r2 = r1.skip(3);
    assert(r2 =~= pd);
    assert forall|j: int| 0 <= j < 2 implies r2[j] != '-' by {
        assert(text::is_digit(pd[j]));
    }
    text::lemma_no_position(r2, '-');
    assert(text::split(s, '-') =~= seq![py, pm, pd]);
}

/// Time stamps are read back as the minute they were written for, as long as
/// the year has four digits.
#[verifier::spinoff_prover]
#[verifier::rlimit(40)]
pub proof fn utc_stamp_round_trips(total: int)
    requires
        0 <= calendar::civil(total / 1440).0 <= 9999,
    ensures
        min_of_iso(iso_of_min(total)) == Some(total),
{
    let (y, m, d) = calendar::civil(total / 1440);
    calendar::civil_is_inverse_of_day_number(total / 1440);
    let h = (total % 1440) / 60;
    let mi = total % 60;
    let s = iso_of_min(total);
    calendar::lemma_stamp_layout(y, m, d, h, mi, 0);
    assert forall|j: int| 0 <= j < 10 implies s[j] != 'T' by {
        if j != 4 && j != 7 {
            assert(text::is_digit(s[j]));
        }
    }
    text::lemma_position(s, 'T', 10);
    assert(s.take(10) =~= s.subrange(0, 10));
    lemma_ymd_of_date(y, m, d);
    let rest = s.skip(11);
    assert(vstd::utf8::is_ascii_chars(rest)) by {
        assert forall|i: int| 0 <= i < rest.len() implies '\0' <= #[trigger] rest[i]
            <= '\u{7f}' by {
            assert(rest[i] == s[i + 11]);
        }
    }
    text::lemma_latin_ascii(rest);
    let b = vstd::utf8::encode_utf8(rest);
    assert(text::latin(b.subrange(0, 2)) =~= text::latin(b).subrange(0, 2));
    assert(text::latin(b.subrange(3, 5)) =~= text::latin(b).subrange(3, 5));
    assert(rest.subrange(0, 2) =~= s.subrange(11, 13));
    assert(rest.subrange(3, 5) =~= s.subrange(14, 16));
    text::lemma_padded(h, 2);
    text::lemma_padded(mi, 2);
    let rem = total % 1440;
    assert(total % 60 == rem % 60);
    assert(rem == (rem / 60) * 60 + rem % 60);
}

/// What `format_local` shows is read back as the same instant, as long as the
/// year has four digits.
pub proof fn display_round_trips(t: LocalDateTime, now: LocalDateTime)
    requires
        is_instant(t),
        0 <= t.year <= 9999,
    ensures
        local_of(display_of(t), now) == Some(reading(t)),
{
    let (y, m, d) = (t.year as int, t.month as int, t.day as int);
    let (h, mi) = (t.hour as int, t.min as int);
    let s = display_of(t);
    text::lemma_padded(y, 4);
    text::lemma_padded(m, 2);
    text::lemma_padded(d, 2);
    text::lemma_padded(h, 2);
    text::lemma_padded(mi, 2);
    reveal_strlit("-");
    reveal_strlit(" ");
    reveal_strlit(":");
    reveal_strlit("today");
    reveal_strlit("tomorrow");
    reveal_strlit("am");
    reveal_strlit("pm");
    lemma_ymd_of_date(y, m, d);
    let date = calendar::iso_date(y, m, d);
    let ph = text::padded(h, 2);
    let pmi = text::padded(mi, 2);
    let time = ph + ":"@ + pmi;
    assert(s =~= date + " "@ + time);
    assert(s.len() == 16);
    let py = text::padded(y, 4);
    assert(s[0] == py[0] && text::is_digit(py[0]));
    assert(s[15] == pmi[1] && text::is_digit(pmi[1]));
    text::lemma_trim_none(s);
    assert(s.take(5)[0] != "today"@[0]);
    assert(s.take(8)[0] != "tomorrow"@[0]);
    assert forall|i: int| 0 <= i < 16 implies ('0' <= #[trigger] s[i] <= '9' || s[i] == '-' || s[i]
        == ' ' || s[i] == ':') by {
        if i < 4 {
            assert(s[i] == py[i] && text::is_digit(py[i]));
        } else if i == 4 || i == 7 || i == 10 || i == 13 {
        } else if i < 7 {
            assert(s[i] == text::padded(m, 2)[i - 5] && text::is_digit(text::padded(m, 2)[i - 5]));
        } else if i < 10 {
            assert(s[i] == text::padded(d, 2)[i - 8] && text::is_digit(text::padded(d, 2)[i - 8]));
        } else if i < 13 {
            assert(s[i] == ph[i - 11] && text::is_digit(ph[i - 11]));
        } else {
            assert(s[i] == pmi[i - 14] && text::is_digit(pmi[i - 14]));
        }
    }
    assert(vstd::utf8::is_ascii_chars(s));
    text::lemma_latin_ascii(s);
    let b = vstd::utf8::encode_utf8(s);
    assert(text::latin(b)[4] == s[4]);
    assert(s[4] == '-');
    assert(b[4] == 0x2d);
    assert forall|j: int| 0 <= j < 10 implies s[j] != ' ' by {
        if j < 4 {
            assert(s[j] == py[j] && text::is_digit(py[j]));
        } else if j == 4 || j == 7 {
        } else if j < 7 {
            assert(s[j] == text::padded(m, 2)[j - 5] && text::is_digit(text::padded(m, 2)[j - 5]));
        } else {
            assert(s[j] == text::padded(d, 2)[j - 8] && text::is_digit(text::padded(d, 2)[j - 8]));
        }
    }
    text::lemma_position(s, ' ', 10);
    assert(s.take(10) =~= date);
    assert(s.skip(11) =~= time);
    lemma_time_of_clock(h, mi);
}

/// A date alone is read as midnight of that date, as long as the year has four
/// digits.
pub proof fn date_round_trips(y: int, m: int, d: int, now: LocalDateTime)
    requires
        calendar::is_date(y, m, d),
        0 <= y <= 9999,
    ensures
        local_of(calendar::iso_date(y, m, d), now) == Some(
            Reading { year: y, month: m, day: d, hour: 0, min: 0 },
        ),
{
    let s = calendar::iso_date(y, m, d);
    let (py, pm, pd) = (text::padded(y, 4), text::padded(m, 2), text::padded(d, 2));
    text::lemma_padded(y, 4);
    text::lemma_padded(m, 2);
    text::lemma_padded(d, 2);
    reveal_strlit("-");
    reveal_strlit("today");
    reveal_strlit("tomorrow");
    lemma_ymd_of_date(y, m, d);
    assert forall|i: int| 0 <= i < 10 implies ('0' <= #[trigger] s[i] <= '9' || s[i] == '-') by {
        if i < 4 {
            assert(s[i] == py[i] && text::is_digit(py[i]));
        } else if i == 4 || i == 7 {
        } else if i < 7 {
            assert(s[i] == pm[i - 5] && text::is_digit(pm[i - 5]));
        } else {
            assert(s[i] == pd[i - 8] && text::is_digit(pd[i - 8]));
        }
    }
    assert(s[0] == py[0] && text::is_digit(py[0]));
    assert(s[9] == pd[1] && text::is_digit(pd[1]));
    text::lemma_trim_none(s);
    assert(s.take(5)[0] != "today"@[0]);
    assert(s.take(8)[0] != "tomorrow"@[0]);
    assert(vstd::utf8::is_ascii_chars(s));
    text::lemma_latin_ascii(s);
    assert(text::latin(vstd::utf8::encode_utf8(s))[4] == s[4]);
    assert(s[4] == '-');
    assert forall|j: int| 0 <= j < s.len() implies s[j] != ' ' by {
        assert('0' <= s[j] <= '9' || s[j] == '-');
    }
    text::lemma_no_position(s, ' ');
}

/// What a UTC time stamp is displayed as is read back as the same time stamp, as
/// long as its year, here and there, has four digits.
pub proof fn displayed_stamps_round_trip(total: int, now: LocalDateTime, offset: int)
    requires
        0 <= calendar::civil(total / 1440).0 <= 9999,
        0 <= calendar::civil((total + offset) / 1440).0 <= 9999,
    ensures
        start_of(display_of_utc(iso_of_min(total), offset), now, offset) == Some(iso_of_min(total)),
        display_of_utc(iso_of_min(total), offset) == display_at(total + offset),
        text::trim(display_at(total + offset)) == display_at(total + offset),
        display_at(total + offset)[0] != '+',
        display_at(total + offset).len() > 0,
{
    utc_stamp_round_trips(total);
    let at = total + offset;
    let (y, m, d) = calendar::civil(at / 1440);
    calendar::civil_is_inverse_of_day_number(at / 1440);
    let t = LocalDateTime {
        year: y as i64,
        month: m as u32,
        day: d as u32,
        hour: ((at % 1440) / 60) as u32,
        min: (at % 60) as u32,
    };
    assert(is_at(t, at));
    lemma_at(t, at);
    assert(display_of(t) == display_at(at));
    display_round_trips(t, now);
    assert(reading_min(reading(t)) == at);
    let s = display_at(at);
    text::lemma_padded(y, 4);
    text::lemma_padded(at % 60, 2);
    let py = text::padded(y, 4);
    let pmi = text::padded(at % 60, 2);
    assert(s[0] == py[0] && text::is_digit(py[0]));
    assert(s.last() == pmi[1] && text::is_digit(pmi[1]));
    text::lemma_trim_none(s);
}

proof fn lemma_time_of_clock(h: int, mi: int)
    requires
        0 <= h < 24,
        0 <= mi < 60,
    ensures
        time_of(text::padded(h, 2) + ":"@ + text::padded(mi, 2)) == Some((h, mi)),
{
    let ph = text::padded(h, 2);
    let pmi = text::padded(mi, 2);
    text::lemma_padded(h, 2);
    text::lemma_padded(mi, 2);
    reveal_strlit(":");
    reveal_strlit("am");
    reveal_strlit("pm");
    let t = ph + ":"@ + pmi;
    assert(t[0] == ph[0] && text::is_digit(ph[0]));
    assert(t[1] == ph[1] && text::is_digit(ph[1]));
    assert(t[3] == pmi[0] && text::is_digit(pmi[0]));
    assert(t[4] == pmi[1] && text::is_digit(pmi[1]));
    text::lemma_trim_none(t);
    text::lemma_lowercase_none(t);
    assert(t.skip(3)[1] == t[4]);
    assert("am"@[1] == 'm' && "pm"@[1] == 'm');
    assert(t[2] == ':');
    text::lemma_position(t, ':', 2);
    assert(t.take(2) =~= ph);
    assert(t.skip(3) =~= pmi);
}

}
