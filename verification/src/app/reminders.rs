//! Reminders: when one fires, and what it says.

use crate::app::{Action, App};
use crate::model;
use crate::model::EventRow;
use crate::text;
use crate::ui::agenda;
use crate::ui::calendar;
use vstd::prelude::*;

verus! {

// ---------------------------------------------------------------------------
// The instant of a time stamp
// ---------------------------------------------------------------------------

pub open spec fn without_zulu(s: Seq<char>) -> Seq<char>
    decreases s.len(),
{
    if s.len() > 0 && s.last() == 'Z' {
        without_zulu(s.drop_last())
    } else {
        s
    }
}

/// What follows the date: up to the next `T`, without the `Z`s at its end.
pub open spec fn time_part(iso: Seq<char>) -> Seq<char> {
    match text::split_once(iso, 'T') {
        Some((_, rest)) => {
            let i = text::position_of(rest, 'T') as int;
            without_zulu(rest.take(i))
        },
        None => Seq::empty(),
    }
}

/// The number a text denotes, or 0.
pub open spec fn number(s: Seq<char>) -> int {
    match text::parse_signed(s) {
        Some(n) => n,
        None => 0,
    }
}

/// Hours, minutes and seconds with colons between them, in seconds; what is
/// missing or not a number counts as 0.
pub open spec fn seconds_of(t: Seq<char>) -> int {
    match text::split_once(t, ':') {
        None => number(t) * 3600,
        Some((h, rest)) => match text::split_once(rest, ':') {
            None => number(h) * 3600 + number(rest) * 60,
            Some((mi, s)) => number(h) * 3600 + number(mi) * 60 + number(s),
        },
    }
}

/// The instant of a UTC time stamp, in seconds since the epoch.
pub open spec fn epoch_of(iso: Seq<char>) -> int {
    let (y, m, d) = agenda::leading_date(iso);
    calendar::day_number(y, m, d) * 86400 + seconds_of(time_part(iso))
}

fn read_number(v: &[char]) -> (r: i128)
    ensures
        r == number(v@),
        i64::MIN <= r <= i64::MAX,
{
    match text::read_i64(v) {
        Some(n) => n as i128,
        None => 0,
    }
}

fn seconds(t: &[char]) -> (r: i128)
    ensures
        r == seconds_of(t@),
        -0x1_0000_0000_0000_0000_0000 < r < 0x1_0000_0000_0000_0000_0000,
{
    match text::split_at_first(t, ':') {
        None => read_number(t) * 3600,
        Some((h, rest)) => match text::split_at_first(rest, ':') {
            None => read_number(h) * 3600 + read_number(rest) * 60,
            Some((mi, s)) => read_number(h) * 3600 + read_number(mi) * 60 + read_number(s),
        },
    }
}

fn trim_zulu(v: &[char]) -> (r: &[char])
    ensures
        r@ == without_zulu(v@),
{
    let mut n: usize = v.len();
    assert(v@.take(n as int) =~= v@);
    while n > 0 && v[n - 1] == 'Z'
        invariant
            n <= v@.len(),
            without_zulu(v@) == without_zulu(v@.take(n as int)),
        decreases n,
    {
        assert(v@.take(n as int).drop_last() =~= v@.take(n - 1));
        n -= 1;
    }
    let r = vstd::slice::slice_subrange(v, 0, n);
    assert(r@ =~= v@.take(n as int));
    r
}

/// The instant of a UTC time stamp, in seconds since the epoch.
pub fn instant_of(iso: &str) -> (r: i128)
    ensures
        r == epoch_of(iso@),
        -0x2_0000_0000_0000_0000_0000 < r < 0x2_0000_0000_0000_0000_0000,
{
    let (y, m, d) = agenda::date_of_utc(iso);
    let v = text::chars_of(iso);
    let secs: i128 = match text::split_at_first(v.as_slice(), 'T') {
        Some((_, rest)) => {
            let i = text::find(rest, 'T');
            let t = vstd::slice::slice_subrange(rest, 0, i);
            assert(t@ =~= rest@.take(i as int));
            seconds(trim_zulu(t))
        },
        None => {
            assert(text::position_of(Seq::<char>::empty(), ':') == 0);
            0
        },
    };
    calendar::day_of_date(y as i128, m, d) * 86400 + secs
}

/// Epoch seconds for a `YYYY-MM-DDTHH:MM:SSZ` time stamp.
pub fn utc_to_epoch(iso: &str) -> (r: i64)
    requires
        i64::MIN <= epoch_of(iso@) <= i64::MAX,
    ensures
        r == epoch_of(iso@),
{
    instant_of(iso) as i64
}

// ---------------------------------------------------------------------------
// Reminders
// ---------------------------------------------------------------------------

/// `starts now`, or `starts in N min (HH:MM)`.
pub open spec fn phrase_of(now: int, start: int, start_utc: Seq<char>, offset: int) -> Seq<char> {
    if now >= start {
        "starts now"@
    } else {
        let n = (start - now) / 60;
        "starts in "@ + text::integer(
            if n > 1 {
                n
            } else {
                1
            },
        ) + " min ("@ + agenda::local_time_of_day(start_utc, offset) + ")"@
    }
}

/// `starts now`, or `starts in N min (HH:MM)`, in local time.
pub fn starts_in_phrase(now: i64, start: i128, start_utc: &str, offset: i64) -> (r: String)
    requires
        -0x2_0000_0000_0000_0000_0000 < start < 0x2_0000_0000_0000_0000_0000,
    ensures
        r@ == phrase_of(now as int, start as int, start_utc@, offset as int),
{
    if now as i128 >= start {
        return "starts now".to_string();
    }
    let n: i128 = (start - now as i128) / 60;
    let mins: i128 = if n > 1 {
        n
    } else {
        1
    };
    let mut s: String = "starts in ".to_string();
    text::push_integer(&mut s, mins);
    s.append(" min (");
    s.append(agenda::local_hhmm(start_utc, offset).as_str());
    s.append(")");
    s
}

/// An event's reminder is on, has not fired yet, and the present lies between
/// it and the event's start.
pub open spec fn is_due(e: EventRow, alerted: Seq<Seq<char>>, now: int) -> bool {
    let start = epoch_of(e.start_utc@);
    let ahead = if e.reminder_minutes > 0 {
        e.reminder_minutes as int
    } else {
        0
    };
    &&& e.is_reminder_on
    &&& !alerted.contains(e.id@)
    &&& start - ahead * 60 <= now < start
}

/// The events whose reminders fire.
pub open spec fn due(agenda: Seq<EventRow>, alerted: Seq<Seq<char>>, now: int) -> Seq<EventRow> {
    agenda.filter(|e: EventRow| is_due(e, alerted, now))
}

/// What a reminder says.
pub open spec fn banner(e: EventRow, now: int, offset: int) -> Seq<char> {
    "\u{23f0} "@ + e.subject@ + " "@ + phrase_of(now, epoch_of(e.start_utc@), e.start_utc@, offset)
}

pub open spec fn event_ids(v: Seq<EventRow>) -> Seq<Seq<char>> {
    v.map_values(|e: EventRow| e.id@)
}

/// A notification with this text.
pub open spec fn notifies(a: Action, t: Seq<char>) -> bool {
    a matches Action::Notify(s) && s@ == t
}

/// The reminders of `fired` are queued, remembered and, if that is wanted,
/// raised as notifications.
pub open spec fn reminded(pre: App, post: App, fired: Seq<EventRow>, now: int, offset: int) -> bool {
    let k = pre.reminder_queue@.len() as int;
    let n = pre.actions@.len() as int;
    &&& post == (App {
        alerted_reminders: post.alerted_reminders,
        reminder_queue: post.reminder_queue,
        actions: post.actions,
        ..pre
    })
    &&& model::texts(post.alerted_reminders@) == model::texts(pre.alerted_reminders@) + event_ids(
        fired,
    )
    &&& post.reminder_queue@.len() == k + fired.len()
    &&& post.reminder_queue@.take(k) == pre.reminder_queue@
    &&& forall|i: int|
        0 <= i < fired.len() ==> (#[trigger] post.reminder_queue@[k + i])@ == banner(
            fired[i],
            now,
            offset,
        )
    &&& post.actions@.take(n) == pre.actions@
    &&& if pre.reminders_notify {
        &&& post.actions@.len() == n + fired.len()
        &&& forall|i: int|
            0 <= i < fired.len() ==> notifies(
                #[trigger] post.actions@[n + i],
                banner(fired[i], now, offset),
            )
    } else {
        post.actions@.len() == n
    }
}

fn due_now(e: &EventRow, alerted: &Vec<String>, now: i64) -> (r: bool)
    ensures
        r == is_due(*e, model::texts(alerted@), now as int),
{
    if !e.is_reminder_on || model::contains_text(alerted, &e.id) {
        return false;
    }
    let start: i128 = instant_of(e.start_utc.as_str());
    let ahead: i128 = if e.reminder_minutes > 0 {
        e.reminder_minutes as i128
    } else {
        0
    };
    start - ahead * 60 <= now as i128 && (now as i128) < start
}

fn banner_text(e: &EventRow, now: i64, offset: i64) -> (r: String)
    ensures
        r@ == banner(*e, now as int, offset as int),
{
    let mut s: String = "\u{23f0} ".to_string();
    s.append(e.subject.as_str());
    s.append(" ");
    let start: i128 = instant_of(e.start_utc.as_str());
    s.append(starts_in_phrase(now, start, e.start_utc.as_str(), offset).as_str());
    s
}

impl App {
    fn fire(&mut self, id: String, msg: String)
        ensures
            *final(self) == (App {
                alerted_reminders: final(self).alerted_reminders,
                reminder_queue: final(self).reminder_queue,
                actions: final(self).actions,
                ..*old(self)
            }),
            final(self).alerted_reminders@ == old(self).alerted_reminders@.push(id),
            final(self).reminder_queue@ == old(self).reminder_queue@.push(msg),
            final(self).actions@ == (if old(self).reminders_notify {
                old(self).actions@.push(Action::Notify(msg))
            } else {
                old(self).actions@
            }),
    {
        self.alerted_reminders.push(id);
        self.reminder_queue.push_back(msg.clone());
        if self.reminders_notify {
            self.actions.push(Action::Notify(msg));
        }
    }

    /// Fires the reminders that have come due: those whose window holds `now`
    /// and which have not fired before. Each is queued and, if that is wanted,
    /// raised as a notification.
    #[verifier::rlimit(30)]
    pub fn check_due_reminders(&mut self, now: i64, offset: i64)
        ensures
            reminded(
                *old(self),
                *final(self),
                due(old(self).agenda@, model::texts(old(self).alerted_reminders@), now as int),
                now as int,
                offset as int,
            ),
            old(self).rows_in_step() ==> final(self).rows_in_step(),
    {
        let ghost pre = *self;
        let ghost alerted = model::texts(pre.alerted_reminders@);
        let ghost p = |e: EventRow| is_due(e, alerted, now as int);
        let mut fired: Vec<usize> = Vec::new();
        let mut i: usize = 0;
        proof {
            reveal(Seq::filter);
            assert(picked(pre.agenda@, fired@) =~= pre.agenda@.take(0).filter(p));
        }
        while i < self.agenda.len()
            invariant
                i <= self.agenda@.len(),
                *self == pre,
                alerted == model::texts(pre.alerted_reminders@),
                p == (|e: EventRow| is_due(e, alerted, now as int)),
                forall|k: int| 0 <= k < fired@.len() ==> #[trigger] fired@[k] < self.agenda@.len(),
                picked(pre.agenda@, fired@) == pre.agenda@.take(i as int).filter(p),
            decreases self.agenda@.len() - i,
        {
            proof {
                assert(pre.agenda@.take(i + 1) =~= pre.agenda@.take(i as int).push(
                    pre.agenda@[i as int],
                ));
                model::lemma_filter_push(pre.agenda@.take(i as int), pre.agenda@[i as int], p);
            }
            if due_now(&self.agenda[i], &self.alerted_reminders, now) {
                let ghost before = fired@;
                fired.push(i);
                assert(picked(pre.agenda@, fired@) =~= picked(pre.agenda@, before).push(
                    pre.agenda@[i as int],
                ));
            }
            i += 1;
        }
        assert(pre.agenda@.take(i as int) =~= pre.agenda@);
        let ghost all = due(pre.agenda@, alerted, now as int);
        assert(picked(pre.agenda@, fired@) == all);
        let mut k: usize = 0;
        assert(reminded(pre, *self, all.take(0), now as int, offset as int)) by {
            assert(model::texts(pre.alerted_reminders@) + event_ids(all.take(0)) =~= model::texts(
                pre.alerted_reminders@,
            ));
            assert(pre.reminder_queue@.take(pre.reminder_queue@.len() as int)
                =~= pre.reminder_queue@);
            assert(pre.actions@.take(pre.actions@.len() as int) =~= pre.actions@);
        }
        while k < fired.len()
            invariant
                k <= fired@.len(),
                self.agenda == pre.agenda,
                all == picked(pre.agenda@, fired@),
                forall|j: int| 0 <= j < fired@.len() ==> #[trigger] fired@[j] < pre.agenda@.len(),
                reminded(pre, *self, all.take(k as int), now as int, offset as int),
            decreases fired@.len() - k,
        {
            let ghost mid = *self;
            let j = fired[k];
            let msg = banner_text(&self.agenda[j], now, offset);
            let id = self.agenda[j].id.clone();
            self.fire(id, msg);
            proof {
                let e = pre.agenda@[j as int];
                assert(all[k as int] == e);
                let was = all.take(k as int);
                let is = all.take(k + 1);
                assert(is =~= was.push(e));
                model::lemma_texts_push(mid.alerted_reminders@, id);
                assert(event_ids(is) =~= event_ids(was).push(e.id@));
                assert(model::texts(self.alerted_reminders@) =~= model::texts(
                    pre.alerted_reminders@,
                ) + event_ids(is));
                let q = pre.reminder_queue@.len() as int;
                assert(self.reminder_queue@.take(q) =~= mid.reminder_queue@.take(q));
                assert forall|i: int| 0 <= i < is.len() implies (
                #[trigger] self.reminder_queue@[q + i])@ == banner(
                    is[i],
                    now as int,
                    offset as int,
                ) by {
                    if i < was.len() {
                        assert(mid.reminder_queue@[q + i]@ == banner(
                            was[i],
                            now as int,
                            offset as int,
                        ));
                    }
                }
                let n = pre.actions@.len() as int;
                assert(self.actions@.take(n) =~= mid.actions@.take(n));
                if pre.reminders_notify {
                    assert forall|i: int| 0 <= i < is.len() implies notifies(
                        #[trigger] self.actions@[n + i],
                        banner(is[i], now as int, offset as int),
                    ) by {
                        if i < was.len() {
                            assert(notifies(
                                mid.actions@[n + i],
                                banner(was[i], now as int, offset as int),
                            ));
                        }
                    }
                }
            }
            k += 1;
        }
        assert(all.take(k as int) =~= all);
    }

    /// Dismisses the reminder that is shown.
    pub fn dismiss_reminder(&mut self)
        ensures
            reminder_dismissed(*old(self), *final(self)),
            old(self).rows_in_step() ==> final(self).rows_in_step(),
    {
        let _ = self.reminder_queue.pop_front();
    }
}

pub open spec fn reminder_dismissed(pre: App, post: App) -> bool {
    &&& post == (App { reminder_queue: post.reminder_queue, ..pre })
    &&& post.reminder_queue@ =~= if pre.reminder_queue@.len() > 0 {
        pre.reminder_queue@.skip(1)
    } else {
        pre.reminder_queue@
    }
}

/// The events at these positions.
spec fn picked(agenda: Seq<EventRow>, at: Seq<usize>) -> Seq<EventRow> {
    at.map_values(|i: usize| agenda[i as int])
}

/// An event whose reminder has fired is never due again.
pub proof fn reminders_fire_once(
    pre: App,
    post: App,
    now: int,
    offset: int,
    e: EventRow,
    later: int,
)
    requires
        pre.agenda@.contains(e),
        is_due(e, model::texts(pre.alerted_reminders@), now),
        reminded(
            pre,
            post,
            due(pre.agenda@, model::texts(pre.alerted_reminders@), now),
            now,
            offset,
        ),
    ensures
        !is_due(e, model::texts(post.alerted_reminders@), later),
{
    let alerted = model::texts(pre.alerted_reminders@);
    let p = |x: EventRow| is_due(x, alerted, now);
    let fired = due(pre.agenda@, alerted, now);
    broadcast use vstd::seq_lib::group_filter_ensures;

    let i = choose|i: int| 0 <= i < pre.agenda@.len() && pre.agenda@[i] == e;
    assert(p(pre.agenda@[i]));
    assert(fired.contains(e));
    let k = choose|k: int| 0 <= k < fired.len() && fired[k] == e;
    assert(event_ids(fired)[k] == e.id@);
    let all = alerted + event_ids(fired);
    assert(all[alerted.len() + k] == e.id@);
}

/// What has fired stays fired.
pub proof fn fired_reminders_stay_fired(
    pre: App,
    post: App,
    now: int,
    offset: int,
    fired: Seq<EventRow>,
    id: Seq<char>,
)
    requires
        reminded(pre, post, fired, now, offset),
        model::texts(pre.alerted_reminders@).contains(id),
    ensures
        model::texts(post.alerted_reminders@).contains(id),
{
    let a = model::texts(pre.alerted_reminders@);
    let i = choose|i: int| 0 <= i < a.len() && a[i] == id;
    assert((a + event_ids(fired))[i] == id);
}

}
