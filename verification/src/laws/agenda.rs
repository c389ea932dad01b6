//! Reminders, and what the event form makes of what is typed into it.

use crate::app::events;
use crate::app::reminders;
use crate::app::{Action, App, Clock};
use crate::datetime;
use crate::model;
use crate::model::{EventFields, EventRow, Recurrence, RecurrenceKind};
use crate::text;
use crate::ui::agenda;
use crate::ui::calendar;
use crate::ui::eventform::EventForm;
use vstd::prelude::*;

verus! {

// ---------------------------------------------------------------------------
// Time stamps
// ---------------------------------------------------------------------------

/// The date that a time stamp begins with is the one it was written for.
pub proof fn stamps_begin_with_their_date(y: int, m: int, d: int, h: int, mi: int, se: int)
    requires
        calendar::is_date(y, m, d),
        0 <= y <= 9999,
        0 <= h < 24,
        0 <= mi < 60,
        0 <= se < 60,
    ensures
        agenda::leading_date(calendar::iso_stamp(y, m, d, h, mi, se)) == (y, m, d),
{
    calendar::lemma_stamp_layout(y, m, d, h, mi, se);
    text::lemma_padded(y, 4);
    text::lemma_padded(m, 2);
    text::lemma_padded(d, 2);
    let s = calendar::iso_stamp(y, m, d, h, mi, se);
    calendar::lemma_field_ascii(s, 0, 4);
    text::lemma_latin_ascii(s);
    let b = vstd::utf8::encode_utf8(s);
    assert(text::latin(b.subrange(5, 7)) =~= text::latin(b).subrange(5, 7));
    assert(text::latin(b.subrange(8, 10)) =~= text::latin(b).subrange(8, 10));
}

/// Two digits, as a signed number.
proof fn lemma_two_digits(n: int)
    requires
        0 <= n < 100,
    ensures
        reminders::number(text::padded(n, 2)) == n,
{
    text::lemma_padded(n, 2);
    let s = text::padded(n, 2);
    assert(text::is_digit(s[0]));
}

/// The instant that a reminder goes by is the one that the event's time stamp
/// was written for.
pub proof fn reminders_go_by_the_start(y: int, m: int, d: int, h: int, mi: int, se: int)
    requires
        calendar::is_date(y, m, d),
        0 <= y <= 9999,
        0 <= h < 24,
        0 <= mi < 60,
        0 <= se < 60,
    ensures
        reminders::epoch_of(calendar::iso_stamp(y, m, d, h, mi, se)) == calendar::day_number(
            y,
            m,
            d,
        ) * 86400 + h * 3600 + mi * 60 + se,
{
    stamps_begin_with_their_date(y, m, d, h, mi, se);
    calendar::lemma_stamp_layout(y, m, d, h, mi, se);
    let s = calendar::iso_stamp(y, m, d, h, mi, se);
    let (hh, mm, ss) = (text::padded(h, 2), text::padded(mi, 2), text::padded(se, 2));
    text::lemma_padded(h, 2);
    text::lemma_padded(mi, 2);
    text::lemma_padded(se, 2);
    lemma_two_digits(h);
    lemma_two_digits(mi);
    lemma_two_digits(se);
    assert forall|i: int| 0 <= i < 10 implies s[i] != 'T' by {
        if i != 4 && i != 7 {
            assert(text::is_digit(s[i]));
        }
    }
    text::lemma_position(s, 'T', 10);
    let rest = s.skip(11);
    assert forall|i: int| 0 <= i < rest.len() implies rest[i] != 'T' by {
        if i != 2 && i != 5 && i != 8 {
            assert(text::is_digit(s[i + 11]));
        }
    }
    text::lemma_no_position(rest, 'T');
    assert(rest.take(rest.len() as int) =~= rest);
    let t = s.subrange(11, 19);
    assert(rest.drop_last() =~= t);
    assert(rest.last() == 'Z');
    assert(text::is_digit(s[18]));
    assert(t.last() == s[18]);
    assert(reminders::without_zulu(t) == t);
    assert(reminders::without_zulu(rest) == t);
    assert(reminders::time_part(s) == t);
    assert forall|i: int| 0 <= i < 2 implies t[i] != ':' by {
        assert(text::is_digit(s[i + 11]));
    }
    text::lemma_position(t, ':', 2);
    assert(t.take(2) =~= s.subrange(11, 13));
    let u = t.skip(3);
    assert forall|i: int| 0 <= i < 2 implies u[i] != ':' by {
        assert(text::is_digit(s[i + 14]));
    }
    assert(u[2] == s[16]);
    text::lemma_position(u, ':', 2);
    assert(u.take(2) =~= s.subrange(14, 16));
    assert(u.skip(3) =~= s.subrange(17, 19));
}

// ---------------------------------------------------------------------------
// Reminders
// ---------------------------------------------------------------------------

/// A reminder that is on fires from as many minutes before the start as it says,
/// up to the start, unless it has fired; and at no other time.
pub proof fn reminders_are_due_within_their_lead(
    e: EventRow,
    alerted: Seq<Seq<char>>,
    now: int,
    y: int,
    m: int,
    d: int,
    h: int,
    mi: int,
    se: int,
)
    requires
        calendar::is_date(y, m, d),
        0 <= y <= 9999,
        0 <= h < 24,
        0 <= mi < 60,
        0 <= se < 60,
        e.start_utc@ == calendar::iso_stamp(y, m, d, h, mi, se),
    ensures
        ({
            let t = calendar::day_number(y, m, d) * 86400 + h * 3600 + mi * 60 + se;
            &&& e.reminder_minutes >= 0 ==> (reminders::is_due(e, alerted, now) <==> {
                &&& e.is_reminder_on
                &&& !alerted.contains(e.id@)
                &&& t - 60 * e.reminder_minutes <= now < t
            })
            &&& e.reminder_minutes < 0 ==> !reminders::is_due(e, alerted, now)
        }),
{
    reminders_go_by_the_start(y, m, d, h, mi, se);
}

/// An event on the agenda whose lead has begun, and which has not started, is
/// reminded of: its reminder counts as fired, and one is queued that says how
/// many minutes are left and when, in local time, it starts.
#[verifier::spinoff_prover]
#[verifier::rlimit(40)]
pub proof fn due_reminders_are_queued(
    pre: App,
    post: App,
    now: int,
    offset: int,
    i: int,
    y: int,
    m: int,
    d: int,
    h: int,
    mi: int,
    se: int,
) -> (r: (int, int))
    requires
        reminders::reminded(
            pre,
            post,
            reminders::due(pre.agenda@, model::texts(pre.alerted_reminders@), now),
            now,
            offset,
        ),
        0 <= i < pre.agenda@.len(),
        pre.agenda@[i].is_reminder_on,
        pre.agenda@[i].reminder_minutes >= 0,
        !model::texts(pre.alerted_reminders@).contains(pre.agenda@[i].id@),
        calendar::is_date(y, m, d),
        0 <= y <= 9999,
        0 <= h < 24,
        0 <= mi < 60,
        0 <= se < 60,
        pre.agenda@[i].start_utc@ == calendar::iso_stamp(y, m, d, h, mi, se),
        ({
            let t = calendar::day_number(y, m, d) * 86400 + h * 3600 + mi * 60 + se;
            t - 60 * pre.agenda@[i].reminder_minutes <= now < t
        }),
    ensures
        ({
            let e = pre.agenda@[i];
            let t = calendar::day_number(y, m, d) * 86400 + h * 3600 + mi * 60 + se;
            let (k, n) = r;
            let q = pre.reminder_queue@.len() + k;
            &&& model::texts(post.alerted_reminders@).contains(e.id@)
            &&& 0 <= k && q < post.reminder_queue@.len()
            &&& (60 * n <= t - now < 60 * n + 60 || (n == 1 && t - now < 60))
            &&& post.reminder_queue@[q]@ == "\u{23f0} "@ + e.subject@ + " "@ + ("starts in "@
                + text::integer(n) + " min ("@ + agenda::local_time_of_day(e.start_utc@, offset)
                + ")"@)
            &&& pre.reminders_notify ==> {
                &&& pre.actions@.len() + k < post.actions@.len()
                &&& post.actions@[pre.actions@.len() + k] matches Action::Notify(note) && note@
                    == post.reminder_queue@[q]@
            }
            &&& !pre.reminders_notify ==> post.actions@ == pre.actions@
        }),
{
    let alerted = model::texts(pre.alerted_reminders@);
    let p = |x: EventRow| reminders::is_due(x, alerted, now);
    let fired = reminders::due(pre.agenda@, alerted, now);
    let e = pre.agenda@[i];
    let t = calendar::day_number(y, m, d) * 86400 + h * 3600 + mi * 60 + se;
    reminders_are_due_within_their_lead(e, alerted, now, y, m, d, h, mi, se);
    reminders_go_by_the_start(y, m, d, h, mi, se);
    let all = alerted + reminders::event_ids(fired);
    assert(fired.contains(e)) by {
        broadcast use vstd::seq_lib::group_filter_ensures;

        assert(p(pre.agenda@[i]));
    }
    let k = choose|k: int| 0 <= k < fired.len() && fired[k] == e;
    assert(reminders::event_ids(fired)[k] == e.id@);
    assert(all[alerted.len() + k] == e.id@);
    let q = pre.reminder_queue@.len() + k;
    assert(post.reminder_queue@[q]@ == reminders::banner(e, now, offset));
    let w = (t - now) / 60;
    let n = if w > 1 {
        w
    } else {
        1
    };
    if pre.reminders_notify {
        assert(reminders::notifies(
            post.actions@[pre.actions@.len() + k],
            reminders::banner(e, now, offset),
        ));
    } else {
        assert(post.actions@ =~= post.actions@.take(pre.actions@.len() as int));
    }
    (k, n)
}

/// An event on the agenda that is not within its lead, and whose id no other has,
/// is not reminded of.
#[verifier::spinoff_prover]
#[verifier::rlimit(40)]
pub proof fn other_reminders_wait(
    pre: App,
    post: App,
    now: int,
    offset: int,
    i: int,
    y: int,
    m: int,
    d: int,
    h: int,
    mi: int,
    se: int,
)
    requires
        reminders::reminded(
            pre,
            post,
            reminders::due(pre.agenda@, model::texts(pre.alerted_reminders@), now),
            now,
            offset,
        ),
        0 <= i < pre.agenda@.len(),
        !model::texts(pre.alerted_reminders@).contains(pre.agenda@[i].id@),
        forall|j: int|
            0 <= j < pre.agenda@.len() && j != i ==> (#[trigger] pre.agenda@[j]).id@
                != pre.agenda@[i].id@,
        calendar::is_date(y, m, d),
        0 <= y <= 9999,
        0 <= h < 24,
        0 <= mi < 60,
        0 <= se < 60,
        pre.agenda@[i].start_utc@ == calendar::iso_stamp(y, m, d, h, mi, se),
        ({
            let e = pre.agenda@[i];
            let t = calendar::day_number(y, m, d) * 86400 + h * 3600 + mi * 60 + se;
            !e.is_reminder_on || now < t - 60 * e.reminder_minutes || t <= now
        }),
    ensures
        !model::texts(post.alerted_reminders@).contains(pre.agenda@[i].id@),
{
    let alerted = model::texts(pre.alerted_reminders@);
    let p = |x: EventRow| reminders::is_due(x, alerted, now);
    let fired = reminders::due(pre.agenda@, alerted, now);
    let e = pre.agenda@[i];
    reminders_are_due_within_their_lead(e, alerted, now, y, m, d, h, mi, se);
    let all = alerted + reminders::event_ids(fired);
    if all.contains(e.id@) {
        let k = choose|k: int| 0 <= k < all.len() && all[k] == e.id@;
        if k < alerted.len() {
            assert(alerted[k] == e.id@);
        } else {
            let x = fired[k - alerted.len()];
            assert(reminders::event_ids(fired)[k - alerted.len()] == x.id@);
            assert(p(x)) by {
                broadcast use vstd::seq_lib::group_filter_ensures;

            }
            assert(fired.contains(x));
            pre.agenda@.lemma_filter_contains_rev(p, x);
            let j = choose|j: int| 0 <= j < pre.agenda@.len() && pre.agenda@[j] == x;
            assert(pre.agenda@[j].id@ == e.id@);
        }
    }
}

// ---------------------------------------------------------------------------
// The event form
// ---------------------------------------------------------------------------

/// The first ten bytes of a time stamp are the date it was written for.
proof fn lemma_date_of_stamp(y: int, m: int, d: int, h: int, mi: int, se: int)
    requires
        calendar::is_date(y, m, d),
        0 <= y <= 9999,
        0 <= h < 24,
        0 <= mi < 60,
        0 <= se < 60,
    ensures
        events::date_of(calendar::iso_stamp(y, m, d, h, mi, se)) == calendar::iso_date(y, m, d),
{
    calendar::lemma_stamp_layout(y, m, d, h, mi, se);
    let s = calendar::iso_stamp(y, m, d, h, mi, se);
    let date = calendar::iso_date(y, m, d);
    lemma_ascii_front(s, 10);
    assert(s.subrange(0, 10) == date);
}

/// The first bytes of ASCII text are its first characters.
pub proof fn lemma_ascii_front(s: Seq<char>, n: int)
    requires
        vstd::utf8::is_ascii_chars(s),
        0 <= n <= s.len(),
    ensures
        text::get(s, 0, n) == Some(s.subrange(0, n)),
{
    let b = vstd::utf8::encode_utf8(s);
    let front = s.subrange(0, n);
    vstd::utf8::is_ascii_chars_encode_utf8(s);
    assert(vstd::utf8::is_ascii_chars(front));
    vstd::utf8::is_ascii_chars_encode_utf8(front);
    let f = vstd::utf8::encode_utf8(front);
    assert(b.subrange(0, n) =~= f) by {
        assert forall|i: int| 0 <= i < n implies b[i] == f[i] by {
            assert(s[i] as u8 == b[i]);
            assert(front[i] as u8 == f[i]);
        }
    }
    vstd::utf8::encode_utf8_decode_utf8(front);
    vstd::utf8::encode_utf8_valid_utf8(s);
    vstd::utf8::encode_utf8_valid_utf8(front);
    lemma_ascii_boundary(s, n);
}

/// Every index into the bytes of ASCII text lies between characters.
proof fn lemma_ascii_boundary(s: Seq<char>, n: int)
    requires
        vstd::utf8::is_ascii_chars(s),
        0 <= n <= s.len(),
    ensures
        vstd::utf8::is_char_boundary(vstd::utf8::encode_utf8(s), n),
    decreases s.len(),
{
    let b = vstd::utf8::encode_utf8(s);
    vstd::utf8::encode_utf8_valid_utf8(s);
    if n > 0 {
        vstd::utf8::is_ascii_chars_encode_utf8(s);
        vstd::utf8::encode_utf8_first_scalar(s);
        let rest = s.drop_first();
        assert(vstd::utf8::is_ascii_chars(rest));
        lemma_ascii_boundary(rest, n - 1);
        let w = vstd::utf8::encode_scalar(s[0] as u32);
        assert('\0' <= s[0] <= '\u{7f}');
        assert(w.len() == 1);
        assert(vstd::utf8::pop_first_scalar(b) =~= vstd::utf8::encode_utf8(rest));
    }
}

/// A form that is not for a stored event, and that is saved, asks for one event
/// with what was typed into it, on the account that is signed in.
pub proof fn new_events_hold_what_was_typed(
    pre: App,
    post: App,
    clock: Clock,
    form: EventForm,
    fields: EventFields,
    account: String,
)
    requires
        events::event_saved(pre, post, clock),
        pre.event_form == Some(form),
        form.editing_id is None,
        post.actions@ == pre.actions@.push(Action::CreateEvent { fields, account }),
    ensures
        fields.subject@ == form.title@,
        fields.location@ == form.location@,
        fields.body_text@ == form.body@,
        fields.is_all_day == form.all_day,
        pre.account matches Some(a) ==> account@ == a@,
        pre.account is None ==> account@.len() == 0,
        (fields.recurrence is Some) == (form.repeat is Some),
        post.event_form == pre.event_form,
{
    lemma_created(pre, post, clock, form, fields, account);
}

/// What is asked for is what the form describes.
proof fn lemma_created(
    pre: App,
    post: App,
    clock: Clock,
    form: EventForm,
    fields: EventFields,
    account: String,
)
    requires
        events::event_saved(pre, post, clock),
        pre.event_form == Some(form),
        form.editing_id is None,
        post.actions@ == pre.actions@.push(Action::CreateEvent { fields, account }),
    ensures
        events::described(form, clock) matches Ok(d) && events::holds(fields, d),
        account@ == match pre.account {
            Some(a) => a@,
            None => Seq::empty(),
        },
        post == (App { actions: post.actions, ..pre }),
{
    assert(post.actions@.len() == pre.actions@.len() + 1);
    match events::described(form, clock) {
        Err(why) => {
            assert(post.actions == pre.actions);
        },
        Ok(d) => {
            let (f, a) = choose|f: EventFields, a: String|
                {
                    &&& events::holds(f, d)
                    &&& a@ == match pre.account {
                        Some(x) => x@,
                        None => Seq::empty(),
                    }
                    &&& crate::app::emitted(pre, post, seq![#[trigger] events::create_event(f, a)])
                };
            assert((pre.actions@ + seq![events::create_event(f, a)]).last()
                == events::create_event(f, a));
            assert(post.actions@.last() == (Action::CreateEvent { fields, account }));
        },
    }
}

/// An event repeats as the form says, from the day it starts on: on that day of
/// the month, every so many days, weeks, months or years as were typed, and
/// where it is weekly and no day was chosen, on that day of the week.
pub proof fn repeats_fall_on_the_start(
    pre: App,
    post: App,
    clock: Clock,
    form: EventForm,
    fields: EventFields,
    account: String,
    r: Recurrence,
    y: int,
    m: int,
    d: int,
    h: int,
    mi: int,
    se: int,
)
    requires
        events::event_saved(pre, post, clock),
        pre.event_form == Some(form),
        form.editing_id is None,
        post.actions@ == pre.actions@.push(Action::CreateEvent { fields, account }),
        fields.recurrence == Some(r),
        calendar::is_date(y, m, d),
        0 <= y <= 9999,
        0 <= h < 24,
        0 <= mi < 60,
        0 <= se < 60,
        fields.start_utc@ == calendar::iso_stamp(y, m, d, h, mi, se),
    ensures
        form.repeat == Some(r.kind),
        r.day_of_month == d,
        r.start_date@ == calendar::iso_date(y, m, d),
        1 <= r.interval,
        forall|n: nat|
            text::trim(form.interval@) == #[trigger] text::decimal(n) ==> r.interval == n,
        text::trim(form.until@).len() == 0 ==> r.until is None,
        text::trim(form.until@).len() > 0 ==> (r.until matches Some(u) && u@ == text::trim(
            form.until@,
        )),
        forall|i: int|
            0 <= i < 7 && #[trigger] form.days@[i] ==> model::texts(r.days_of_week@).contains(
                events::day_name(i),
            ),
        forall|i: int|
            0 <= i < 7 && !#[trigger] form.days@[i] && (r.kind != RecurrenceKind::Weekly || (
            exists|j: int| 0 <= j < 7 && #[trigger] form.days@[j])) ==> !model::texts(
                r.days_of_week@,
            ).contains(events::day_name(i)),
        r.kind == RecurrenceKind::Weekly && (forall|i: int|
            0 <= i < 7 ==> !#[trigger] form.days@[i]) ==> model::texts(r.days_of_week@) == seq![
            events::day_name((calendar::day_number(y, m, d) + 3) % 7),
        ],
{
    lemma_created(pre, post, clock, form, fields, account);
    stamps_begin_with_their_date(y, m, d, h, mi, se);
    lemma_date_of_stamp(y, m, d, h, mi, se);
    lemma_chosen(form.days, 7);
    assert forall|n: nat| text::trim(form.interval@) == #[trigger] text::decimal(
        n,
    ) implies r.interval == n by {
        text::lemma_decimal_len(n);
        text::lemma_decimal_value(n);
    }
    let days = events::chosen(form.days, 7);
    if exists|j: int| 0 <= j < 7 && #[trigger] form.days@[j] {
        let j = choose|j: int| 0 <= j < 7 && #[trigger] form.days@[j];
        assert(days.contains(events::day_name(j)));
        assert(days.len() > 0);
    }
    if days.len() > 0 {
        assert(days.contains(days[0]));
    }
    assert forall|i: int| 0 <= i < 7 && #[trigger] form.days@[i] implies model::texts(
        r.days_of_week@,
    ).contains(events::day_name(i)) by {
        assert(days.contains(events::day_name(i)));
    }
}

/// The seven days of the week have seven names.
proof fn lemma_day_names(i: int, j: int)
    requires
        0 <= i < 7,
        0 <= j < 7,
        i != j,
    ensures
        events::day_name(i) != events::day_name(j),
{
    reveal_strlit("monday");
    reveal_strlit("tuesday");
    reveal_strlit("wednesday");
    reveal_strlit("thursday");
    reveal_strlit("friday");
    reveal_strlit("saturday");
    reveal_strlit("sunday");
    assert("monday"@[0] == 'm' && "tuesday"@[0] == 't' && "wednesday"@[0] == 'w'
        && "thursday"@[0] == 't' && "friday"@[0] == 'f' && "saturday"@[0] == 's' && "sunday"@[0]
        == 's');
    assert("tuesday"@[1] == 'u' && "thursday"@[1] == 'h' && "saturday"@[1] == 'a'
        && "sunday"@[1] == 'u');
}

/// One of the first `n` days, and chosen, is called `name`.
spec fn names_chosen(days: [bool; 7], n: int, name: Seq<char>) -> bool {
    exists|i: int| 0 <= i < n && #[trigger] days@[i] && name == events::day_name(i)
}

/// The names that are listed are those of the chosen days.
proof fn lemma_chosen(days: [bool; 7], n: int)
    requires
        0 <= n <= 7,
    ensures
        forall|i: int|
            0 <= i < n && #[trigger] days@[i] ==> events::chosen(days, n).contains(
                events::day_name(i),
            ),
        forall|i: int|
            0 <= i < 7 && (i >= n || !days@[i]) ==> !events::chosen(days, n).contains(
                #[trigger] events::day_name(i),
            ),
        forall|k: int|
            #![trigger events::chosen(days, n)[k]]
            0 <= k < events::chosen(days, n).len() ==> names_chosen(
                days,
                n,
                events::chosen(days, n)[k],
            ),
    decreases n,
{
    if n > 0 {
        lemma_chosen(days, n - 1);
        let before = events::chosen(days, n - 1);
        let now = events::chosen(days, n);
        assert forall|i: int| 0 <= i < n && #[trigger] days@[i] implies now.contains(
            events::day_name(i),
        ) by {
            if i == n - 1 {
                assert(now[now.len() - 1] == events::day_name(i));
            } else {
                let k = choose|k: int| 0 <= k < before.len() && before[k] == events::day_name(i);
                assert(now[k] == events::day_name(i));
            }
        }
        assert forall|k: int|
            #![trigger now[k]]
            0 <= k < now.len() implies names_chosen(days, n, now[k]) by {
            if k < before.len() {
                assert(now[k] == before[k]);
                let i = choose|i: int|
                    0 <= i < n - 1 && #[trigger] days@[i] && before[k] == events::day_name(i);
                assert(days@[i]);
            } else {
                assert(days@[n - 1]);
            }
        }
        assert forall|i: int| 0 <= i < 7 && (i >= n || !days@[i]) implies !now.contains(
            #[trigger] events::day_name(i),
        ) by {
            if now.contains(events::day_name(i)) {
                let k = choose|k: int| 0 <= k < now.len() && now[k] == events::day_name(i);
                let j = choose|j: int|
                    0 <= j < n && #[trigger] days@[j] && now[k] == events::day_name(j);
                lemma_day_names(i, j);
            }
        }
    } else {
        assert(events::chosen(days, n).len() == 0);
    }
}

/// Where a form's times are what the client itself would show, its interval is a
/// number and its end of the recurrence is blank, saving it asks for exactly one
/// event, at those times.
pub proof fn valid_forms_are_saved(
    pre: App,
    post: App,
    clock: Clock,
    form: EventForm,
    start: int,
    end: int,
    n: nat,
) -> (r: (EventFields, String))
    requires
        events::event_saved(pre, post, clock),
        pre.event_form == Some(form),
        form.editing_id is None,
        !form.all_day,
        form.start@ == datetime::display_at(start + clock.offset),
        form.end@ == datetime::display_at(end + clock.offset),
        0 <= calendar::civil(start / 1440).0 <= 9999,
        0 <= calendar::civil(end / 1440).0 <= 9999,
        0 <= calendar::civil((start + clock.offset) / 1440).0 <= 9999,
        0 <= calendar::civil((end + clock.offset) / 1440).0 <= 9999,
        start <= end,
        form.interval@ == text::decimal(n),
        1 <= n <= u32::MAX,
        form.until@.len() == 0,
    ensures
        post.actions@ == pre.actions@.push(Action::CreateEvent { fields: r.0, account: r.1 }),
        r.0.start_utc@ == datetime::iso_of_min(start),
        r.0.end_utc@ == datetime::iso_of_min(end),
        form.repeat is Some ==> (r.0.recurrence matches Some(rec) && rec.interval == n),
        form.repeat is None ==> r.0.recurrence is None,
{
    datetime::displayed_stamps_round_trip(start, clock.now, clock.offset as int);
    datetime::displayed_stamps_round_trip(end, clock.now, clock.offset as int);
    assert(datetime::start_of(form.start@, clock.now, clock.offset as int) == Some(
        datetime::iso_of_min(start),
    ));
    assert(datetime::end_of(
        form.end@,
        datetime::iso_of_min(start),
        clock.now,
        clock.offset as int,
    ) == Some(datetime::iso_of_min(end)));
    crate::laws::order::minutes_are_ordered_in_time(start, end);
    text::lemma_decimal_len(n);
    text::lemma_decimal_value(n);
    assert(text::is_digit(form.interval@[0]));
    assert(text::is_digit(form.interval@.last()));
    text::lemma_trim_none(form.interval@);
    assert(form.until@ =~= Seq::empty());
    text::lemma_trim_none(form.until@);
    assert(events::described(form, clock) is Ok);
    let d = events::described(form, clock)->Ok_0;
    let (f, a) = choose|f: EventFields, a: String|
        {
            &&& events::holds(f, d)
            &&& a@ == match pre.account {
                Some(x) => x@,
                None => Seq::empty(),
            }
            &&& crate::app::emitted(pre, post, seq![#[trigger] events::create_event(f, a)])
        };
    assert(post.actions@ =~= pre.actions@.push(Action::CreateEvent { fields: f, account: a }));
    (f, a)
}

/// Each day has the name that follows the name of the day before, and the first
/// of January 1970 was a Thursday.
pub proof fn weekdays_follow_each_other(z: int)
    ensures
        agenda::weekday_of(calendar::day_number(1970, 1, 1)) == "Thu"@,
        ({
            let (a, b) = (agenda::weekday_of(z), agenda::weekday_of(z + 1));
            &&& a == "Mon"@ ==> b == "Tue"@
            &&& a == "Tue"@ ==> b == "Wed"@
            &&& a == "Wed"@ ==> b == "Thu"@
            &&& a == "Thu"@ ==> b == "Fri"@
            &&& a == "Fri"@ ==> b == "Sat"@
            &&& a == "Sat"@ ==> b == "Sun"@
            &&& a == "Sun"@ ==> b == "Mon"@
        }),
{
    calendar::days_are_consecutive(1970, 1, 1);
    lemma_short_names();
}

/// The day of the week that a time stamp falls on is the one that the agenda
/// shows for its date.
pub proof fn weekdays_agree(y: int, m: int, d: int, h: int, mi: int, se: int)
    requires
        calendar::is_date(y, m, d),
        0 <= y <= 9999,
        0 <= h < 24,
        0 <= mi < 60,
        0 <= se < 60,
    ensures
        ({
            let name = events::weekday_of(calendar::iso_stamp(y, m, d, h, mi, se));
            let short = agenda::weekday_of(calendar::day_number(y, m, d));
            &&& short == "Mon"@ <==> name == "monday"@
            &&& short == "Tue"@ <==> name == "tuesday"@
            &&& short == "Wed"@ <==> name == "wednesday"@
            &&& short == "Thu"@ <==> name == "thursday"@
            &&& short == "Fri"@ <==> name == "friday"@
            &&& short == "Sat"@ <==> name == "saturday"@
            &&& short == "Sun"@ <==> name == "sunday"@
        }),
{
    stamps_begin_with_their_date(y, m, d, h, mi, se);
    let z = calendar::day_number(y, m, d);
    let i = (z + 3) % 7;
    assert((z + 4) % 7 == (i + 1) % 7);
    lemma_short_names();
    if i != 0 {
        lemma_day_names(i, 0);
    }
    if i != 1 {
        lemma_day_names(i, 1);
    }
    if i != 2 {
        lemma_day_names(i, 2);
    }
    if i != 3 {
        lemma_day_names(i, 3);
    }
    if i != 4 {
        lemma_day_names(i, 4);
    }
    if i != 5 {
        lemma_day_names(i, 5);
    }
    if i != 6 {
        lemma_day_names(i, 6);
    }
}

proof fn lemma_short_names()
    ensures
        "Mon"@ != "Tue"@ && "Mon"@ != "Wed"@ && "Mon"@ != "Thu"@ && "Mon"@ != "Fri"@ && "Mon"@
            != "Sat"@ && "Mon"@ != "Sun"@,
        "Tue"@ != "Wed"@ && "Tue"@ != "Thu"@ && "Tue"@ != "Fri"@ && "Tue"@ != "Sat"@ && "Tue"@
            != "Sun"@,
        "Wed"@ != "Thu"@ && "Wed"@ != "Fri"@ && "Wed"@ != "Sat"@ && "Wed"@ != "Sun"@,
        "Thu"@ != "Fri"@ && "Thu"@ != "Sat"@ && "Thu"@ != "Sun"@,
        "Fri"@ != "Sat"@ && "Fri"@ != "Sun"@,
        "Sat"@ != "Sun"@,
{
    reveal_strlit("Mon");
    reveal_strlit("Tue");
    reveal_strlit("Wed");
    reveal_strlit("Thu");
    reveal_strlit("Fri");
    reveal_strlit("Sat");
    reveal_strlit("Sun");
    assert("Mon"@[0] == 'M' && "Tue"@[0] == 'T' && "Wed"@[0] == 'W' && "Thu"@[0] == 'T' && "Fri"@[0]
        == 'F' && "Sat"@[0] == 'S' && "Sun"@[0] == 'S');
    assert("Tue"@[1] == 'u' && "Thu"@[1] == 'h' && "Sat"@[1] == 'a' && "Sun"@[1] == 'u');
}

}
