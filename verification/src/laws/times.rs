//! How dates and times are read and written.

use crate::datetime;
use crate::datetime::{LocalDateTime, Reading};
use crate::text;
use crate::ui::calendar;
use vstd::prelude::*;

verus! {

/// Digits read as a number, with no white space to trim.
proof fn lemma_digits(a: Seq<char>)
    requires
        a.len() > 0,
        text::all_digits(a),
        text::value(a) < 100,
    ensures
        text::trim(a) == a,
        datetime::u32_of(a) == Some(text::value(a)),
        0 <= text::value(a),
{
    assert(text::is_digit(a[0]));
    assert(text::is_digit(a.last()));
    text::lemma_trim_none(a);
    text::lemma_value_bounds(a);
}

/// What a clock shows, `a:b`, with neither white space nor capitals nor a mark of
/// the half of the day.
pub proof fn lemma_clock_text(a: Seq<char>, b: Seq<char>)
    requires
        a.len() > 0,
        b.len() > 0,
        text::all_digits(a),
        text::all_digits(b),
    ensures
        ({
            let t = a + ":"@ + b;
            &&& t.len() == a.len() + 1 + b.len()
            &&& text::trim(t) == t
            &&& text::ascii_lowercase(t) == t
            &&& text::split_once(t, ':') == Some((a, b))
            &&& !text::has_suffix(t, "am"@)
            &&& !text::has_suffix(t, "pm"@)
            &&& text::is_digit(t[0])
            &&& text::is_digit(t.last())
            &&& forall|i: int|
                0 <= i < t.len() ==> text::is_digit(#[trigger] t[i]) || t[i] == ':'
        }),
{
    reveal_strlit(":");
    reveal_strlit("am");
    reveal_strlit("pm");
    let t = a + ":"@ + b;
    assert forall|i: int| 0 <= i < t.len() implies text::is_digit(#[trigger] t[i]) || t[i] == ':' by {
        if i < a.len() {
            assert(t[i] == a[i]);
        } else if i > a.len() {
            assert(t[i] == b[i - a.len() - 1]);
        }
    }
    assert(t[0] == a[0] && text::is_digit(a[0]));
    assert(t.last() == b.last() && text::is_digit(b.last()));
    text::lemma_trim_none(t);
    text::lemma_lowercase_none(t);
    assert forall|j: int| 0 <= j < a.len() implies t[j] != ':' by {
        assert(t[j] == a[j] && text::is_digit(a[j]));
    }
    assert(t[a.len() as int] == ':');
    text::lemma_position(t, ':', a.len() as int);
    assert(t.take(a.len() as int) =~= a);
    assert(t.skip(a.len() as int + 1) =~= b);
    assert(t.skip(t.len() - 2)[1] == t.last());
}

/// What stands in front of `am` or `pm`, in capitals or not.
proof fn lemma_half_suffix(t: Seq<char>, mark: Seq<char>, pm: bool)
    requires
        t.len() > 0,
        !text::is_white_space(t[0]),
        text::ascii_lowercase(t) == t,
        text::ascii_lowercase(mark) == (if pm {
            "pm"@
        } else {
            "am"@
        }),
    ensures
        ({
            let w = t + mark;
            &&& text::trim(w) == w
            &&& text::ascii_lowercase(w) == t + (if pm {
                "pm"@
            } else {
                "am"@
            })
            &&& text::has_suffix(text::ascii_lowercase(w), "pm"@) == pm
            &&& text::has_suffix(text::ascii_lowercase(w), "am"@) == !pm
            &&& text::ascii_lowercase(w).take(w.len() - 2) == t
        }),
{
    reveal_strlit("am");
    reveal_strlit("pm");
    let w = t + mark;
    let low = if pm {
        "pm"@
    } else {
        "am"@
    };
    assert(low.len() == 2);
    assert(mark.len() == 2);
    assert(text::ascii_lower(mark[1]) == low[1]);
    assert(w.last() == mark[1]);
    assert(mark[1] == 'm' || mark[1] == 'M');
    text::lemma_trim_none(w);
    assert forall|i: int| 0 <= i < w.len() implies #[trigger] text::ascii_lowercase(w)[i] == (t
        + low)[i] by {
        if i < t.len() {
            assert(text::ascii_lowercase(t)[i] == t[i]);
        } else {
            assert(text::ascii_lowercase(mark)[i - t.len()] == low[i - t.len()]);
        }
    }
    assert(text::ascii_lowercase(w) =~= t + low);
    let z = t + low;
    assert(z.skip(z.len() - 2) =~= low);
    assert("am"@[0] != "pm"@[0]);
    assert(z.take(z.len() - 2) =~= t);
}

/// A time on the twelve-hour clock is the hour of the day it was written for:
/// midnight and noon are twelve o'clock, in the morning and in the afternoon.
pub proof fn twelve_hour_times_are_read(h: int, m: int, a: Seq<char>, b: Seq<char>, mark: Seq<char>)
    requires
        0 <= h < 24,
        0 <= m < 60,
        a.len() > 0,
        b.len() > 0,
        text::all_digits(a),
        text::all_digits(b),
        text::value(a) == (if h == 0 || h == 12 {
            12
        } else if h < 12 {
            h
        } else {
            h - 12
        }),
        text::value(b) == m,
        text::ascii_lowercase(mark) == (if h < 12 {
            "am"@
        } else {
            "pm"@
        }),
    ensures
        datetime::time_of(a + ":"@ + b + mark) == Some((h, m)),
        datetime::time_of(a + mark) == Some((h, 0int)),
{
    let pm = h >= 12;
    let t = a + ":"@ + b;
    lemma_clock_text(a, b);
    lemma_half_suffix(t, mark, pm);
    lemma_digits(a);
    lemma_digits(b);
    assert(text::is_digit(a[0]));
    assert forall|i: int| 0 <= i < a.len() implies !('A' <= #[trigger] a[i] <= 'Z') by {
        assert(text::is_digit(a[i]));
    }
    text::lemma_lowercase_none(a);
    lemma_half_suffix(a, mark, pm);
    assert forall|j: int| 0 <= j < a.len() implies a[j] != ':' by {
        assert(text::is_digit(a[j]));
    }
    text::lemma_no_position(a, ':');
}

/// A time on the twenty-four-hour clock is read as it is written.
pub proof fn times_are_read(h: int, m: int, a: Seq<char>, b: Seq<char>)
    requires
        0 <= h < 24,
        0 <= m < 60,
        a.len() > 0,
        b.len() > 0,
        text::all_digits(a),
        text::all_digits(b),
        text::value(a) == h,
        text::value(b) == m,
    ensures
        datetime::time_of(a + ":"@ + b) == Some((h, m)),
{
    lemma_clock_text(a, b);
    lemma_digits(a);
    lemma_digits(b);
}

/// What no clock shows is no time.
pub proof fn impossible_times_are_refused(a: Seq<char>, b: Seq<char>, mark: Seq<char>, pm: bool)
    requires
        a.len() > 0,
        b.len() > 0,
        text::all_digits(a),
        text::all_digits(b),
        text::value(a) < 100,
        text::value(b) < 100,
        text::ascii_lowercase(mark) == (if pm {
            "pm"@
        } else {
            "am"@
        }),
    ensures
        text::value(a) >= 24 || text::value(b) >= 60 ==> datetime::time_of(a + ":"@ + b) is None,
        text::value(a) == 0 || text::value(a) > 12 || text::value(b) >= 60 ==> datetime::time_of(
            a + ":"@ + b + mark,
        ) is None,
        datetime::time_of(a) is None,
{
    let t = a + ":"@ + b;
    lemma_clock_text(a, b);
    lemma_half_suffix(t, mark, pm);
    lemma_digits(a);
    lemma_digits(b);
    reveal_strlit("am");
    reveal_strlit("pm");
    assert forall|i: int| 0 <= i < a.len() implies !('A' <= #[trigger] a[i] <= 'Z') by {
        assert(text::is_digit(a[i]));
    }
    text::lemma_lowercase_none(a);
    assert(text::is_digit(a.last()));
    if a.len() >= 2 {
        assert(a.skip(a.len() - 2)[1] == a.last());
    }
    assert forall|j: int| 0 <= j < a.len() implies a[j] != ':' by {
        assert(text::is_digit(a[j]));
    }
    text::lemma_no_position(a, ':');
}

/// A time alone is one of the current day.
pub proof fn bare_times_are_today(h: int, m: int, now: LocalDateTime)
    requires
        0 <= h < 24,
        0 <= m < 60,
    ensures
        datetime::local_of(text::padded(h, 2) + ":"@ + text::padded(m, 2), now) == Some(
            Reading {
                year: now.year as int,
                month: now.month as int,
                day: now.day as int,
                hour: h,
                min: m,
            },
        ),
{
    let (a, b) = (text::padded(h, 2), text::padded(m, 2));
    text::lemma_padded(h, 2);
    text::lemma_padded(m, 2);
    times_are_read(h, m, a, b);
    lemma_clock_text(a, b);
    reveal_strlit("today");
    reveal_strlit("tomorrow");
    let s = a + ":"@ + b;
    assert(s.len() == 5);
    assert(s.take(5)[0] == s[0]);
    assert(text::is_digit(s[0]));
    assert("today"@[0] == 't');
    assert(vstd::utf8::is_ascii_chars(s)) by {
        assert forall|i: int| 0 <= i < s.len() implies '\0' <= #[trigger] s[i] <= '\u{7f}' by {
            assert(text::is_digit(s[i]) || s[i] == ':');
        }
    }
    text::lemma_latin_ascii(s);
}

/// A time of the day, with a blank in front of it.
proof fn lemma_time_behind_blank(h: int, m: int)
    requires
        0 <= h < 24,
        0 <= m < 60,
    ensures
        ({
            let time = text::padded(h, 2) + ":"@ + text::padded(m, 2);
            let rest = seq![' '] + time;
            &&& time.len() == 5
            &&& !text::is_white_space(time.last())
            &&& text::trim(rest) == time
            &&& datetime::time_of(rest) == Some((h, m))
        }),
{
    let (a, b) = (text::padded(h, 2), text::padded(m, 2));
    text::lemma_padded(h, 2);
    text::lemma_padded(m, 2);
    let time = a + ":"@ + b;
    lemma_clock_text(a, b);
    let rest = seq![' '] + time;
    assert(rest.skip(1) =~= time);
    assert(text::trim_start(rest) == text::trim_start(time));
    assert(text::trim(rest) == time);
    times_are_read(h, m, a, b);
}

/// `today` is the current date, at the time that follows or at midnight.
#[verifier::spinoff_prover]
pub proof fn today_is_the_current_date(h: int, m: int, now: LocalDateTime)
    requires
        datetime::is_instant(now),
        0 <= h < 24,
        0 <= m < 60,
    ensures
        ({
            let (y, mo, d) = (now.year as int, now.month as int, now.day as int);
            &&& datetime::local_of("today"@, now) == Some(
                Reading { year: y, month: mo, day: d, hour: 0, min: 0 },
            )
            &&& datetime::local_of(
                "today "@ + (text::padded(h, 2) + ":"@ + text::padded(m, 2)),
                now,
            ) == Some(Reading { year: y, month: mo, day: d, hour: h, min: m })
        }),
{
    let (y, mo, d) = (now.year as int, now.month as int, now.day as int);
    calendar::day_number_is_inverse_of_civil(y, mo, d);
    let time = text::padded(h, 2) + ":"@ + text::padded(m, 2);
    let rest = seq![' '] + time;
    lemma_time_behind_blank(h, m);
    reveal_strlit("today");
    reveal_strlit("today ");
    let none = Seq::<char>::empty();
    text::lemma_trim_none(none);
    let s0 = "today"@;
    text::lemma_trim_none(s0);
    assert(s0.take(5) =~= "today"@);
    assert(s0.skip(5) =~= none);
    let s1 = "today "@ + time;
    assert(s1.last() == time.last());
    text::lemma_trim_none(s1);
    assert(s1.take(5) =~= "today"@);
    assert(s1.skip(5) =~= rest);
}

/// `tomorrow` is the date after the current one, at the time that follows or at
/// midnight.
#[verifier::spinoff_prover]
pub proof fn tomorrow_is_the_next_date(h: int, m: int, now: LocalDateTime)
    requires
        datetime::is_instant(now),
        0 <= h < 24,
        0 <= m < 60,
    ensures
        ({
            let (y, mo, d) = (now.year as int, now.month as int, now.day as int);
            let next = if d < calendar::month_length(y, mo) {
                (y, mo, d + 1)
            } else if mo < 12 {
                (y, mo + 1, 1)
            } else {
                (y + 1, 1, 1)
            };
            &&& datetime::local_of("tomorrow"@, now) == Some(
                Reading { year: next.0, month: next.1, day: next.2, hour: 0, min: 0 },
            )
            &&& datetime::local_of(
                "tomorrow "@ + (text::padded(h, 2) + ":"@ + text::padded(m, 2)),
                now,
            ) == Some(Reading { year: next.0, month: next.1, day: next.2, hour: h, min: m })
        }),
{
    let (y, mo, d) = (now.year as int, now.month as int, now.day as int);
    let next = if d < calendar::month_length(y, mo) {
        (y, mo, d + 1)
    } else if mo < 12 {
        (y, mo + 1, 1)
    } else {
        (y + 1, 1, 1)
    };
    calendar::days_are_consecutive(y, mo, d);
    calendar::day_number_is_inverse_of_civil(next.0, next.1, next.2);
    let time = text::padded(h, 2) + ":"@ + text::padded(m, 2);
    let rest = seq![' '] + time;
    lemma_time_behind_blank(h, m);
    reveal_strlit("today");
    reveal_strlit("tomorrow");
    reveal_strlit("tomorrow ");
    let none = Seq::<char>::empty();
    text::lemma_trim_none(none);
    let t0 = "tomorrow"@;
    text::lemma_trim_none(t0);
    assert(t0.take(8) =~= "tomorrow"@);
    assert(t0.take(5)[2] == 'm' && "today"@[2] == 'd');
    assert(t0.skip(8) =~= none);
    let t1 = "tomorrow "@ + time;
    assert(t1.last() == time.last());
    text::lemma_trim_none(t1);
    assert(t1.take(8) =~= "tomorrow"@);
    assert(t1.take(5)[2] == 'm');
    assert(t1.skip(8) =~= rest);
}

/// A local time is sent as the same instant in UTC: `offset` minutes earlier on
/// the clock.
pub proof fn local_times_are_sent_in_utc(t: LocalDateTime, now: LocalDateTime, offset: int)
    requires
        datetime::is_instant(t),
        0 <= t.year <= 9999,
        0 <= calendar::civil((datetime::epoch_min(t) - offset) / 1440).0 <= 9999,
    ensures
        datetime::start_of(datetime::display_of(t), now, offset) matches Some(utc) && datetime::min_of_iso(utc) == Some(
            calendar::day_number(t.year as int, t.month as int, t.day as int) * 1440 + t.hour * 60
                + t.min - offset,
        ),
{
    datetime::display_round_trips(t, now);
    datetime::utc_stamp_round_trips(datetime::epoch_min(t) - offset);
}

/// `+N` and a unit ends an event that many hours, minutes or days after its
/// start.
pub proof fn relative_ends_count_from_the_start(
    total: int,
    n: nat,
    unit: char,
    now: LocalDateTime,
    offset: int,
)
    requires
        0 <= calendar::civil(total / 1440).0 <= 9999,
        n <= i64::MAX,
        "hHmMdD"@.contains(unit),
    ensures
        datetime::end_of(seq!['+'] + text::decimal(n) + seq![unit], datetime::iso_of_min(total), now, offset) == Some(
            datetime::iso_of_min(
                total + n * (if unit == 'h' || unit == 'H' {
                    60int
                } else if unit == 'm' || unit == 'M' {
                    1
                } else {
                    1440
                }),
            ),
        ),
{
    reveal_strlit("hHmMdD");
    datetime::utc_stamp_round_trips(total);
    let a = text::decimal(n);
    text::lemma_decimal_len(n);
    text::lemma_decimal_value(n);
    let s = seq!['+'] + a + seq![unit];
    text::lemma_trim_none(s);
    let r = a + seq![unit];
    assert(s.skip(1) =~= r);
    assert(text::is_digit(a[0]));
    assert(r[0] == a[0]);
    text::lemma_trim_none(r);
    assert(r.drop_last() =~= a);
    assert(text::is_digit(a.last()));
    text::lemma_trim_none(a);
}

/// An end that is a date and time is read as a start is.
pub proof fn ends_are_read_as_starts_are(
    t: LocalDateTime,
    start: Seq<char>,
    now: LocalDateTime,
    offset: int,
)
    requires
        datetime::is_instant(t),
        0 <= t.year <= 9999,
    ensures
        datetime::end_of(datetime::display_of(t), start, now, offset) == datetime::start_of(datetime::display_of(t), now, offset),
        datetime::start_of(datetime::display_of(t), now, offset) is Some,
{
    datetime::display_round_trips(t, now);
    let s = datetime::display_of(t);
    text::lemma_padded(t.year as int, 4);
    text::lemma_padded(t.min as int, 2);
    let py = text::padded(t.year as int, 4);
    let pmi = text::padded(t.min as int, 2);
    assert(s[0] == py[0] && text::is_digit(py[0]));
    assert(s.last() == pmi[1] && text::is_digit(pmi[1]));
    text::lemma_trim_none(s);
}

/// An all-day event lasts from its first day to its last; it lasts one day where
/// its end is blank or lies before its start.
pub proof fn all_day_events_last_to_their_end(
    y: int,
    m: int,
    d: int,
    ey: int,
    em: int,
    ed: int,
    now: LocalDateTime,
)
    requires
        calendar::is_date(y, m, d),
        calendar::is_date(ey, em, ed),
        0 <= y <= 9999,
        0 <= ey <= 9999,
    ensures
        ({
            let first = calendar::day_number(y, m, d);
            let last = calendar::day_number(ey, em, ed);
            let start = calendar::iso_date(y, m, d);
            &&& first <= last ==> datetime::all_day_of(start, calendar::iso_date(ey, em, ed), now) == Some(
                (first, last + 1),
            )
            &&& last < first ==> datetime::all_day_of(start, calendar::iso_date(ey, em, ed), now) == Some(
                (first, first + 1),
            )
            &&& datetime::all_day_of(start, Seq::empty(), now) == Some((first, first + 1))
        }),
{
    datetime::date_round_trips(y, m, d, now);
    datetime::date_round_trips(ey, em, ed, now);
    text::lemma_trim_none(Seq::<char>::empty());
}

/// A time stamp denotes the instant it is written for.
pub proof fn stamps_denote_their_instant(y: int, m: int, d: int, h: int, mi: int, se: int)
    requires
        calendar::is_date(y, m, d),
        0 <= y <= 9999,
        0 <= h < 24,
        0 <= mi < 60,
        0 <= se < 60,
    ensures
        calendar::unix_of_iso(calendar::iso_stamp(y, m, d, h, mi, se)) == calendar::day_number(y, m, d) * 86400 + h * 3600 + mi
            * 60 + se,
{
    calendar::lemma_stamp_layout(y, m, d, h, mi, se);
    text::lemma_padded(y, 4);
    text::lemma_padded(m, 2);
    text::lemma_padded(d, 2);
    text::lemma_padded(h, 2);
    text::lemma_padded(mi, 2);
    text::lemma_padded(se, 2);
}

/// A date is written as it is in a time stamp: the year, the month and the day.
pub proof fn dates_are_written_in_order(y: int, m: int, d: int)
    requires
        calendar::is_date(y, m, d),
        0 <= y <= 9999,
    ensures
        calendar::iso_date(y, m, d).len() == 10,
        calendar::iso_date(y, m, d)[4] == '-',
        calendar::iso_date(y, m, d)[7] == '-',
        text::value(calendar::iso_date(y, m, d).subrange(0, 4)) == y,
        text::value(calendar::iso_date(y, m, d).subrange(5, 7)) == m,
        text::value(calendar::iso_date(y, m, d).subrange(8, 10)) == d,
{
    calendar::lemma_stamp_layout(y, m, d, 0, 0, 0);
    let s = calendar::iso_stamp(y, m, d, 0, 0, 0);
    let t = calendar::iso_date(y, m, d);
    text::lemma_padded(y, 4);
    text::lemma_padded(m, 2);
    text::lemma_padded(d, 2);
    assert(t.subrange(0, 4) =~= s.subrange(0, 4));
    assert(t.subrange(5, 7) =~= s.subrange(5, 7));
    assert(t.subrange(8, 10) =~= s.subrange(8, 10));
    assert(t[4] == s.subrange(0, 10)[4]);
    assert(t[7] == s.subrange(0, 10)[7]);
}

}
