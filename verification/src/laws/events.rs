//! Events: what the form takes and refuses, what it shows, and whose time is
//! looked up.

use crate::app::attendees;
use crate::app::calendar as meetings;
use crate::app::events;
use crate::app::{Action, App, Clock};
use crate::datetime;
use crate::datetime::LocalDateTime;
use crate::laws::agenda::stamps_begin_with_their_date;
use crate::laws::order::minutes_are_ordered_in_time;
use crate::laws::times::lemma_clock_text;
use crate::model;
use crate::model::{EventFields, RecurrenceKind, StoredEvent, SyncCommand};
use crate::text;
use crate::ui::calendar;
use crate::ui::eventform::EventForm;
use vstd::prelude::*;

verus! {

/// What the form says of how an event repeats falls on the date that the event
/// starts on.
pub proof fn recurrences_start_with_the_event(
    f: EventForm,
    clock: Clock,
    r: events::Repeats,
    y: int,
    m: int,
    d: int,
    h: int,
    mi: int,
    se: int,
)
    requires
        calendar::is_date(y, m, d),
        0 <= y <= 9999,
        0 <= h < 24,
        0 <= mi < 60,
        0 <= se < 60,
        events::repeats_of(f, calendar::iso_stamp(y, m, d, h, mi, se), clock) == Ok::<
            Option<events::Repeats>,
            Seq<char>,
        >(Some(r)),
    ensures
        r.day_of_month == d,
        Some(r.kind) == f.repeat,
        r.interval >= 1,
        forall|n: nat|
            text::trim(f.interval@) == #[trigger] text::decimal(n) ==> r.interval == n,
{
    stamps_begin_with_their_date(y, m, d, h, mi, se);
    assert forall|n: nat| text::trim(f.interval@) == #[trigger] text::decimal(
        n,
    ) implies r.interval == n by {
        text::lemma_decimal_len(n);
        text::lemma_decimal_value(n);
    }
}

/// An event that would end before it starts is not saved: the form stays as it
/// is, and says so.
pub proof fn events_that_end_too_early_are_refused(
    pre: App,
    post: App,
    clock: Clock,
    form: EventForm,
    start: int,
    end: int,
)
    requires
        events::event_saved(pre, post, clock),
        pre.event_form == Some(form),
        !form.all_day,
        form.start@ == datetime::display_at(start + clock.offset),
        form.end@ == datetime::display_at(end + clock.offset),
        0 <= calendar::civil(start / 1440).0 <= 9999,
        0 <= calendar::civil(end / 1440).0 <= 9999,
        0 <= calendar::civil((start + clock.offset) / 1440).0 <= 9999,
        0 <= calendar::civil((end + clock.offset) / 1440).0 <= 9999,
        end < start,
    ensures
        post.actions == pre.actions,
        post.event_form matches Some(g) && g.error is Some && g.title == form.title && g.start
            == form.start && g.end == form.end && g.location == form.location && g.attendees
            == form.attendees && g.body == form.body && g.repeat == form.repeat,
{
    minutes_are_ordered_in_time(start, end);
    datetime::displayed_stamps_round_trip(start, clock.now, clock.offset as int);
    datetime::displayed_stamps_round_trip(end, clock.now, clock.offset as int);
    assert(datetime::start_of(form.start@, clock.now, clock.offset as int) == Some(
        datetime::iso_of_min(start),
    ));
    assert(datetime::end_of(
        form.end@,
        datetime::iso_of_min(start),
        clock.now,
        clock.offset as int,
    ) == Some(datetime::iso_of_min(end)));
}

/// An event that lasts a time from its start, `+N` hours, minutes or days, ends
/// that much after it.
pub proof fn events_last_as_long_as_typed(
    pre: App,
    post: App,
    clock: Clock,
    form: EventForm,
    start: int,
    n: nat,
    unit: char,
) -> (r: (EventFields, String))
    requires
        events::event_saved(pre, post, clock),
        pre.event_form == Some(form),
        form.editing_id is None,
        !form.all_day,
        form.repeat is None,
        form.start@ == datetime::display_at(start + clock.offset),
        form.end@ == seq!['+'] + text::decimal(n) + seq![unit],
        unit == 'h' || unit == 'm' || unit == 'd',
        n <= i64::MAX,
        0 <= calendar::civil(start / 1440).0 <= 9999,
        0 <= calendar::civil((start + clock.offset) / 1440).0 <= 9999,
        ({
            let minutes = n * (if unit == 'h' {
                60int
            } else if unit == 'm' {
                1
            } else {
                1440
            });
            0 <= calendar::civil((start + minutes) / 1440).0 <= 9999
        }),
    ensures
        post.actions@ == pre.actions@.push(Action::CreateEvent { fields: r.0, account: r.1 }),
        r.0.start_utc@ == datetime::iso_of_min(start),
        unit == 'h' ==> r.0.end_utc@ == datetime::iso_of_min(start + n * 60),
        unit == 'm' ==> r.0.end_utc@ == datetime::iso_of_min(start + n),
        unit == 'd' ==> r.0.end_utc@ == datetime::iso_of_min(start + n * 1440),
        r.0.recurrence is None,
{
    datetime::displayed_stamps_round_trip(start, clock.now, clock.offset as int);
    reveal_strlit("hHmMdD");
    assert("hHmMdD"@[0] == 'h' && "hHmMdD"@[2] == 'm' && "hHmMdD"@[4] == 'd');
    crate::laws::times::relative_ends_count_from_the_start(
        start,
        n,
        unit,
        clock.now,
        clock.offset as int,
    );
    let minutes = n * (if unit == 'h' {
        60int
    } else if unit == 'm' {
        1
    } else {
        1440
    });
    assert(minutes >= 0) by (nonlinear_arith)
        requires
            n >= 0,
            minutes == n * 60 || minutes == n * 1 || minutes == n * 1440,
    ;
    minutes_are_ordered_in_time(start, start + minutes);
    assert(events::times_of(form, clock) == Ok::<_, Seq<char>>(
        (datetime::iso_of_min(start), datetime::iso_of_min(start + minutes)),
    ));
    let d = events::described(form, clock)->Ok_0;
    let (f, a) = choose|f: EventFields, a: String|
        {
            &&& events::holds(f, d)
            &&& a@ == match pre.account {
                Some(x) => x@,
                None => Seq::empty(),
            }
            &&& crate::app::emitted(pre, post, seq![#[trigger] events::create_event(f, a)])
        };
    assert(post.actions@ =~= pre.actions@.push(Action::CreateEvent { fields: f, account: a }));
    (f, a)
}

/// An all-day event lasts from midnight of its first day to midnight after its
/// last, whatever the clock's offset.
pub proof fn all_day_events_are_saved_by_their_days(
    pre: App,
    post: App,
    clock: Clock,
    form: EventForm,
    y: int,
    m: int,
    d: int,
    ey: int,
    em: int,
    ed: int,
) -> (r: (EventFields, String))
    requires
        events::event_saved(pre, post, clock),
        pre.event_form == Some(form),
        form.editing_id is None,
        form.all_day,
        form.repeat is None,
        calendar::is_date(y, m, d),
        calendar::is_date(ey, em, ed),
        0 <= y <= 9999,
        0 <= ey <= 9999,
        calendar::day_number(y, m, d) <= calendar::day_number(ey, em, ed),
        form.start@ == calendar::iso_date(y, m, d),
        form.end@ == calendar::iso_date(ey, em, ed),
    ensures
        post.actions@ == pre.actions@.push(Action::CreateEvent { fields: r.0, account: r.1 }),
        r.0.is_all_day,
        r.0.start_utc@ == calendar::iso_stamp(y, m, d, 0, 0, 0),
        r.0.end_utc@ == datetime::midnight(calendar::day_number(ey, em, ed) + 1),
{
    datetime::date_round_trips(y, m, d, clock.now);
    datetime::date_round_trips(ey, em, ed, clock.now);
    calendar::day_number_is_inverse_of_civil(y, m, d);
    assert(events::described(form, clock) is Ok);
    let x = events::described(form, clock)->Ok_0;
    let (f, a) = choose|f: EventFields, a: String|
        {
            &&& events::holds(f, x)
            &&& a@ == match pre.account {
                Some(x) => x@,
                None => Seq::empty(),
            }
            &&& crate::app::emitted(pre, post, seq![#[trigger] events::create_event(f, a)])
        };
    assert(post.actions@ =~= pre.actions@.push(Action::CreateEvent { fields: f, account: a }));
    (f, a)
}

/// A form on a stored event changes that event, and no other, to what was typed.
pub proof fn stored_events_are_changed(
    pre: App,
    post: App,
    clock: Clock,
    form: EventForm,
    id: String,
)
    requires
        events::event_saved(pre, post, clock),
        pre.event_form == Some(form),
        form.editing_id == Some(id),
        post.actions != pre.actions,
    ensures
        post.actions@.len() == pre.actions@.len() + 1,
        post.actions@.last() matches Action::UpdateEvent { id: at, fields } && at == id
            && fields.subject@ == form.title@ && fields.location@ == form.location@
            && fields.body_text@ == form.body@ && fields.is_all_day == form.all_day
            && fields.recurrence is None && attendees::pairs_of(fields.attendees@)
            == attendees::attendees_in(form.attendees@),
{
    match events::described(form, clock) {
        Err(why) => {},
        Ok(d) => {
            let f = choose|f: EventFields|
                events::holds(f, d) && crate::app::emitted(
                    pre,
                    post,
                    seq![#[trigger] events::update_event(id, f)],
                );
            assert(post.actions@.last() == events::update_event(id, f));
        },
    }
}

/// A recurrence that does not repeat, or that ends before it starts, is refused.
pub proof fn impossible_recurrences_are_refused(
    f: EventForm,
    clock: Clock,
    kind: RecurrenceKind,
    y: int,
    m: int,
    d: int,
    h: int,
    mi: int,
)
    requires
        f.repeat == Some(kind),
        f.editing_id is None,
        calendar::is_date(y, m, d),
        0 <= y <= 9999,
        0 <= h < 24,
        0 <= mi < 60,
    ensures
        ({
            let got = events::repeats_of(f, calendar::iso_stamp(y, m, d, h, mi, 0), clock);
            &&& text::trim(f.interval@).len() == 0 ==> got is Err
            &&& text::trim(f.interval@) == text::decimal(0) ==> got is Err
            &&& got is Ok && text::trim(f.until@).len() > 0 ==> text::text_le(
                events::date_of(calendar::iso_stamp(y, m, d, h, mi, 0)),
                text::trim(f.until@),
            )
        }),
{
    text::lemma_decimal_len(0);
    text::lemma_decimal_value(0);
}

/// The form shows a stored event with its own fields; a timed event is shown in
/// local time.
pub proof fn stored_events_are_shown(
    f: EventForm,
    id: String,
    e: StoredEvent,
    offset: int,
    start: int,
)
    requires
        events::shows_event(f, id, e, offset),
        e.start_utc@ == datetime::iso_of_min(start),
        0 <= calendar::civil(start / 1440).0 <= 9999,
    ensures
        f.editing_id == Some(id),
        f.title == e.subject,
        f.location == e.location,
        f.body == e.body_text,
        f.all_day == e.is_all_day,
        !e.is_all_day ==> f.start@ == datetime::display_at(start + offset),
        f.repeat is None,
{
    datetime::utc_stamp_round_trips(start);
}

// ---------------------------------------------------------------------------
// Availability
// ---------------------------------------------------------------------------

/// One's own time is looked up first, where one is signed in, and then that of
/// everybody who has an address, once each.
pub proof fn everybody_is_looked_up(
    account: Option<String>,
    pairs: Seq<attendees::Pair>,
    n: int,
    who: Seq<char>,
)
    requires
        0 <= n <= pairs.len(),
        who.len() > 0,
    ensures
        meetings::schedules_of(account, pairs, n).contains(who) <==> (account matches Some(me)
            && me@ == who) || (exists|i: int| 0 <= i < n && (#[trigger] pairs[i]).1 == who),
        account matches Some(me) ==> me@.len() > 0 ==> meetings::schedules_of(
            account,
            pairs,
            n,
        ).len() > 0 && meetings::schedules_of(account, pairs, n)[0] == me@,
    decreases n,
{
    let all = meetings::schedules_of(account, pairs, n);
    if n > 0 {
        everybody_is_looked_up(account, pairs, n - 1, who);
        let before = meetings::schedules_of(account, pairs, n - 1);
        let addr = pairs[n - 1].1;
        if before.contains(who) {
            let k = choose|k: int| 0 <= k < before.len() && before[k] == who;
            assert(all[k] == who);
        }
        if all.contains(who) && !before.contains(who) {
            let k = choose|k: int| 0 <= k < all.len() && all[k] == who;
            if k < before.len() {
                assert(before[k] == who);
            }
            assert(pairs[n - 1].1 == who);
        }
        if exists|i: int| 0 <= i < n && (#[trigger] pairs[i]).1 == who {
            let i = choose|i: int| 0 <= i < n && (#[trigger] pairs[i]).1 == who;
            if i == n - 1 && !before.contains(who) {
                assert(all[all.len() - 1] == who);
            } else if i < n - 1 {
                assert(pairs[i].1 == who);
            }
        }
    } else {
        if account is Some && account->0@.len() > 0 {
            assert(all =~= seq![account->0@]);
            assert(all[0] == account->0@);
        }
    }
}

/// The day that is looked up is the one that the event starts on, from eight to
/// eighteen o'clock, local time, in half hours.
pub proof fn the_working_day_is_looked_up(
    pre: App,
    post: App,
    clock: Clock,
    form: EventForm,
    t: LocalDateTime,
)
    requires
        meetings::free_busy_opened(pre, post, clock),
        pre.event_form == Some(form),
        datetime::is_instant(t),
        0 <= t.year <= 9999,
        form.start@ == datetime::display_of(t),
    ensures
        ({
            let z = calendar::day_number(t.year as int, t.month as int, t.day as int);
            &&& post.actions@.len() == pre.actions@.len() + 1
            &&& post.actions@.last() matches Action::Send(
                SyncCommand::FetchSchedule { schedules, start_utc, end_utc, interval_minutes },
            ) && {
                &&& start_utc@ == datetime::iso_of_min(z * 1440 + 8 * 60 - clock.offset)
                &&& end_utc@ == datetime::iso_of_min(z * 1440 + 18 * 60 - clock.offset)
                &&& interval_minutes == 30
                &&& pre.account matches Some(me) ==> me@.len() > 0 ==> schedules@.len() > 0
                    && schedules@[0]@ == me@
            }
            &&& post.free_busy matches Some(v) && v.slot_count == 20 && v.loading
                && v.entries@.len() == 0
        }),
{
    let (y, m, d) = (t.year as int, t.month as int, t.day as int);
    let date = calendar::iso_date(y, m, d);
    lemma_day(t, clock.now);
    let early = LocalDateTime { hour: 8, min: 0, ..t };
    let late = LocalDateTime { hour: 18, min: 0, ..t };
    datetime::display_round_trips(early, clock.now);
    datetime::display_round_trips(late, clock.now);
    lemma_eight_and_eighteen(date);
    assert(datetime::display_of(early) == date + " 08:00"@);
    assert(datetime::display_of(late) == date + " 18:00"@);
    let pairs = attendees::attendees_in(form.attendees@);
    let day = meetings::free_busy_day(form.start@, clock.now);
    assert(day == date);
    let from = meetings::free_busy_time(day, " 08:00"@, clock);
    let (v, s, e) = choose|v: Vec<String>, s: String, e: String|
        {
            &&& model::texts(v@) == meetings::schedules_of(pre.account, pairs, pairs.len() as int)
            &&& s@ == from
            &&& e@ == meetings::free_busy_time(day, " 18:00"@, clock)
            &&& post == (App { free_busy: post.free_busy, actions: post.actions, ..pre })
            &&& post.actions@ =~= pre.actions@ + seq![#[trigger] meetings::fetch_schedule(v, s, e)]
        };
    assert(post.actions@.last() == meetings::fetch_schedule(v, s, e));
    if pre.account is Some && pre.account->0@.len() > 0 {
        everybody_is_looked_up(pre.account, pairs, pairs.len() as int, pre.account->0@);
        assert(model::texts(v@)[0] == v@[0]@);
    }
}

proof fn lemma_eight_and_eighteen(date: Seq<char>)
    ensures
        date + " "@ + text::padded(8, 2) + ":"@ + text::padded(0, 2) == date + " 08:00"@,
        date + " "@ + text::padded(18, 2) + ":"@ + text::padded(0, 2) == date + " 18:00"@,
{
    reveal_strlit(" ");
    reveal_strlit(":");
    reveal_strlit(" 08:00");
    reveal_strlit(" 18:00");
    reveal_with_fuel(text::decimal, 3);
    assert(text::padded(8, 2) =~= seq!['0', '8']);
    assert(text::padded(0, 2) =~= seq!['0', '0']);
    assert(text::padded(18, 2) =~= seq!['1', '8']);
    assert(date + " "@ + text::padded(8, 2) + ":"@ + text::padded(0, 2) =~= date + " 08:00"@);
    assert(date + " "@ + text::padded(18, 2) + ":"@ + text::padded(0, 2) =~= date + " 18:00"@);
}

/// The day of a form is the date that its start begins with.
proof fn lemma_day(t: LocalDateTime, now: LocalDateTime)
    requires
        datetime::is_instant(t),
        0 <= t.year <= 9999,
    ensures
        meetings::free_busy_day(datetime::display_of(t), now) == calendar::iso_date(
            t.year as int,
            t.month as int,
            t.day as int,
        ),
{
    let (y, m, d) = (t.year as int, t.month as int, t.day as int);
    let date = calendar::iso_date(y, m, d);
    let s = datetime::display_of(t);
    calendar::lemma_stamp_layout(y, m, d, 0, 0, 0);
    let stamp = calendar::iso_stamp(y, m, d, 0, 0, 0);
    text::lemma_padded(t.hour as int, 2);
    text::lemma_padded(t.min as int, 2);
    lemma_clock_text(text::padded(t.hour as int, 2), text::padded(t.min as int, 2));
    reveal_strlit(" ");
    reveal_strlit(":");
    let time = text::padded(t.hour as int, 2) + ":"@ + text::padded(t.min as int, 2);
    assert(s =~= date + " "@ + time);
    assert(date.len() == 10);
    assert(vstd::utf8::is_ascii_chars(s)) by {
        assert forall|i: int| 0 <= i < s.len() implies '\0' <= #[trigger] s[i] <= '\u{7f}' by {
            if i < 10 {
                assert(s[i] == stamp.subrange(0, 10)[i]);
                assert('\0' <= stamp[i] <= '\u{7f}');
            } else if i > 10 {
                assert(s[i] == time[i - 11]);
                assert(text::is_digit(time[i - 11]) || time[i - 11] == ':');
            }
        }
    }
    assert(s.subrange(0, 10) =~= date);
    crate::laws::agenda::lemma_ascii_front(s, 10);
    assert(date[4] == stamp.subrange(0, 10)[4]);
    assert(vstd::utf8::is_ascii_chars(date)) by {
        assert forall|i: int| 0 <= i < date.len() implies '\0' <= #[trigger] date[i]
            <= '\u{7f}' by {
            assert(date[i] == s[i]);
        }
    }
    vstd::utf8::is_ascii_chars_encode_utf8(date);
    assert(date[4] as u8 == vstd::utf8::encode_utf8(date)[4]);
}

}
