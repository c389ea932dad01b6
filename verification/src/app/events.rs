//! The event form: opening it on a new or a stored event, and saving it.

use crate::app;
use crate::app::attendees;
use crate::app::{Action, App, Clock};
use crate::datetime;
use crate::datetime::LocalDateTime;
use crate::model;
use crate::model::{EventFields, Recurrence, RecurrenceKind, StoredEvent, SyncCommand};
use crate::text;
use crate::ui::agenda;
use crate::ui::calendar;
use crate::ui::eventform;
use crate::ui::eventform::{EventField, EventForm};
use vstd::prelude::*;

verus! {

// ---------------------------------------------------------------------------
// Opening
// ---------------------------------------------------------------------------

/// The next full hour, or the present one where it is full, in minutes since
/// the epoch.
pub open spec fn next_hour(now: LocalDateTime) -> int {
    datetime::epoch_min(now) + if now.min == 0 {
        0
    } else {
        60 - now.min
    }
}

/// A blank form opens, from the next full hour to the one after it.
pub open spec fn new_event_opened(pre: App, post: App, clock: Clock) -> bool {
    &&& post == (App { event_form: post.event_form, ..pre })
    &&& post.event_form matches Some(f) && eventform::is_blank(f) && f.start@
        == datetime::display_at(next_hour(clock.now)) && f.end@ == datetime::display_at(
        next_hour(clock.now) + 60,
    )
}

/// The event is asked for, to edit it; one of a series cannot be edited.
pub open spec fn edit_begun(pre: App, post: App) -> bool {
    match pre.event_id() {
        None => post == pre,
        Some(id) => {
            let i = agenda::event_at(pre.agenda@, id@);
            if i >= pre.agenda@.len() {
                post == pre
            } else if pre.agenda@[i].series_master_id is Some {
                &&& post == (App { error_notice: post.error_notice, ..pre })
                &&& model::text_of(post.error_notice) == Some(
                    "Recurring events can't be edited here."@,
                )
            } else {
                app::emitted(pre, post, seq![Action::ReadEvent { id }])
            }
        },
    }
}

/// The date a time stamp begins with, `back` days earlier.
pub open spec fn day_text(utc: Seq<char>, back: int) -> Seq<char> {
    let (y, m, d) = agenda::leading_date(utc);
    if back == 0 {
        calendar::iso_date(y, m, d)
    } else {
        let (ly, lm, ld) = calendar::civil(calendar::day_number(y, m, d) - back);
        calendar::iso_date(ly, lm, ld)
    }
}

/// The form shows a stored event. The days of an all-day event are its own; its
/// end is stored as the day after the last.
pub open spec fn shows_event(f: EventForm, id: String, e: StoredEvent, offset: int) -> bool {
    &&& f.editing_id == Some(id)
    &&& f.title == e.subject
    &&& f.start@ == if e.is_all_day {
        day_text(e.start_utc@, 0)
    } else {
        datetime::display_of_utc(e.start_utc@, offset)
    }
    &&& f.end@ == if e.is_all_day {
        day_text(e.end_utc@, 1)
    } else {
        datetime::display_of_utc(e.end_utc@, offset)
    }
    &&& f.all_day == e.is_all_day
    &&& f.repeat is None
    &&& f.interval@ == "1"@
    &&& eventform::no_days(f.days)
    &&& f.until@.len() == 0
    &&& f.location == e.location
    &&& f.attendees@ == attendees::list_of(
        attendees::attendee_pairs(e.attendees@),
        e.attendees@.len() as int,
    )
    &&& f.body == e.body_text
    &&& f.focus == EventField::Title
    &&& f.autocomplete is None
    &&& f.error is None
}

fn date_back(utc: &str, back: i128) -> (r: String)
    requires
        back == 0 || back == 1,
    ensures
        r@ == day_text(utc@, back as int),
{
    let (y, m, d) = agenda::date_of_utc(utc);
    if back == 0 {
        return calendar::date_text(y as i128, m, d);
    }
    let z: i128 = calendar::day_of_date(y as i128, m, d);
    let (ly, lm, ld) = calendar::date_of_day(z - back);
    calendar::date_text(ly, lm, ld)
}

impl App {
    /// Opens a blank event form, from the next full hour to the one after it.
    pub fn open_new_event(&mut self, clock: Clock)
        requires
            clock.wf(),
        ensures
            new_event_opened(*old(self), *final(self), clock),
            old(self).rows_in_step() ==> final(self).rows_in_step(),
    {
        let now = clock.now;
        let ahead: i64 = if now.min == 0 {
            0
        } else {
            60 - now.min as i64
        };
        proof {
            datetime::lemma_countable(now, ahead as int);
            datetime::lemma_countable(now, ahead + 60);
        }
        let start = datetime::add_minutes(now, ahead);
        let end = datetime::add_minutes(start, 60);
        self.event_form = Some(
            EventForm {
                editing_id: None,
                title: String::new(),
                start: datetime::format_local(start),
                end: datetime::format_local(end),
                all_day: false,
                repeat: None,
                interval: "1".to_string(),
                days: [false, false, false, false, false, false, false],
                until: String::new(),
                location: String::new(),
                attendees: String::new(),
                body: String::new(),
                focus: EventField::Title,
                autocomplete: None,
                error: None,
            },
        );
    }

    /// Asks for the opened event, or the one under the cursor, to edit it.
    pub fn open_edit_event(&mut self)
        ensures
            edit_begun(*old(self), *final(self)),
            old(self).rows_in_step() ==> final(self).rows_in_step(),
    {
        let id = match self.target_event_id() {
            Some(id) => id,
            None => {
                return;
            },
        };
        let i = agenda::find_event(&self.agenda, &id);
        if i >= self.agenda.len() {
            return;
        }
        if self.agenda[i].series_master_id.is_some() {
            self.error_notice = Some("Recurring events can't be edited here.".to_string());
            return;
        }
        self.emit(Action::ReadEvent { id });
    }

    /// The event that was read opens in the form.
    pub fn event_loaded(&mut self, id: String, event: StoredEvent, offset: i64)
        ensures
            *final(self) == (App { event_form: final(self).event_form, ..*old(self) }),
            final(self).event_form matches Some(f) && shows_event(f, id, event, offset as int),
            old(self).rows_in_step() ==> final(self).rows_in_step(),
    {
        let (start, end): (String, String) = if event.is_all_day {
            (date_back(event.start_utc.as_str(), 0), date_back(event.end_utc.as_str(), 1))
        } else {
            (
                datetime::utc_to_display(event.start_utc.as_str(), offset),
                datetime::utc_to_display(event.end_utc.as_str(), offset),
            )
        };
        let attendees = attendees::attendees_text(&event.attendees);
        self.event_form = Some(
            EventForm {
                editing_id: Some(id),
                title: event.subject,
                start,
                end,
                all_day: event.is_all_day,
                repeat: None,
                interval: "1".to_string(),
                days: [false, false, false, false, false, false, false],
                until: String::new(),
                location: event.location,
                attendees,
                body: event.body_text,
                focus: EventField::Title,
                autocomplete: None,
                error: None,
            },
        );
    }
}

// ---------------------------------------------------------------------------
// Saving
// ---------------------------------------------------------------------------

/// How an event repeats.
pub struct Repeats {
    pub kind: RecurrenceKind,
    pub interval: int,
    pub days: Seq<Seq<char>>,
    pub day_of_month: int,
    pub start_date: Seq<char>,
    pub until: Option<Seq<char>>,
}

/// The event that a form describes.
pub struct Described {
    pub subject: Seq<char>,
    pub start: Seq<char>,
    pub end: Seq<char>,
    pub all_day: bool,
    pub location: Seq<char>,
    pub body: Seq<char>,
    pub attendees: Seq<attendees::Pair>,
    pub repeats: Option<Repeats>,
}

/// When the event takes place, or why the form does not say.
pub open spec fn times_of(f: EventForm, clock: Clock) -> Result<(Seq<char>, Seq<char>), Seq<char>> {
    if f.all_day {
        match datetime::all_day_of(f.start@, f.end@, clock.now) {
            Some((first, next)) => Ok((datetime::midnight(first), datetime::midnight(next))),
            None => Err("Invalid date"@),
        }
    } else {
        match datetime::start_of(f.start@, clock.now, clock.offset as int) {
            None => Err("Invalid start time"@),
            Some(start) => match datetime::end_of(f.end@, start, clock.now, clock.offset as int) {
                None => Err("Invalid end time"@),
                Some(end) => if text::text_le(start, end) {
                    Ok((start, end))
                } else {
                    Err("End is before start"@)
                },
            },
        }
    }
}

/// The name of a day of the week, Monday first.
pub open spec fn day_name(i: int) -> Seq<char> {
    if i == 0 {
        "monday"@
    } else if i == 1 {
        "tuesday"@
    } else if i == 2 {
        "wednesday"@
    } else if i == 3 {
        "thursday"@
    } else if i == 4 {
        "friday"@
    } else if i == 5 {
        "saturday"@
    } else {
        "sunday"@
    }
}

/// The names of the first `n` days of the week that are chosen.
pub open spec fn chosen(days: [bool; 7], n: int) -> Seq<Seq<char>>
    decreases n,
{
    if n <= 0 {
        Seq::empty()
    } else if days@[n - 1] {
        chosen(days, n - 1).push(day_name(n - 1))
    } else {
        chosen(days, n - 1)
    }
}

/// The day of the week that a time stamp's date falls on.
pub open spec fn weekday_of(utc: Seq<char>) -> Seq<char> {
    let (y, m, d) = agenda::leading_date(utc);
    day_name((calendar::day_number(y, m, d) + 3) % 7)
}

/// The first ten bytes of a time stamp.
pub open spec fn date_of(utc: Seq<char>) -> Seq<char> {
    match text::get(utc, 0, 10) {
        Some(d) => d,
        None => Seq::empty(),
    }
}

/// How the event repeats, or why the form does not say. A stored event keeps
/// its recurrence.
pub open spec fn repeats_of(f: EventForm, start: Seq<char>, clock: Clock) -> Result<
    Option<Repeats>,
    Seq<char>,
> {
    match (f.repeat, f.editing_id) {
        (Some(kind), None) => {
            let days = chosen(f.days, 7);
            let u = text::trim(f.until@);
            match text::parse_unsigned(text::trim(f.interval@), u32::MAX as int) {
                Some(n) => if n < 1 {
                    Err("Invalid interval"@)
                } else if u.len() > 0 && datetime::start_of(
                    u,
                    clock.now,
                    clock.offset as int,
                ) is None {
                    Err("Invalid until date"@)
                } else if u.len() > 0 && !text::text_le(date_of(start), u) {
                    Err("Until is before start"@)
                } else {
                    Ok(
                        Some(
                            Repeats {
                                kind,
                                interval: n,
                                days: if kind == RecurrenceKind::Weekly && days.len() == 0 {
                                    seq![weekday_of(start)]
                                } else {
                                    days
                                },
                                day_of_month: agenda::leading_date(start).2,
                                start_date: date_of(start),
                                until: if u.len() > 0 {
                                    Some(u)
                                } else {
                                    None
                                },
                            },
                        ),
                    )
                },
                None => Err("Invalid interval"@),
            }
        },
        _ => Ok(None),
    }
}

/// The event that a form describes, or why it describes none.
pub open spec fn described(f: EventForm, clock: Clock) -> Result<Described, Seq<char>> {
    match times_of(f, clock) {
        Err(why) => Err(why),
        Ok((start, end)) => match repeats_of(f, start, clock) {
            Err(why) => Err(why),
            Ok(repeats) => Ok(
                Described {
                    subject: f.title@,
                    start,
                    end,
                    all_day: f.all_day,
                    location: f.location@,
                    body: f.body@,
                    attendees: attendees::attendees_in(f.attendees@),
                    repeats,
                },
            ),
        },
    }
}

pub open spec fn has_repeats(r: Option<Recurrence>, want: Option<Repeats>) -> bool {
    match (r, want) {
        (None, None) => true,
        (Some(r), Some(w)) => {
            &&& r.kind == w.kind
            &&& r.interval == w.interval
            &&& model::texts(r.days_of_week@) == w.days
            &&& r.day_of_month == w.day_of_month
            &&& r.start_date@ == w.start_date
            &&& model::text_of(r.until) == w.until
        },
        _ => false,
    }
}

/// The fields hold the event that was described.
pub open spec fn holds(f: EventFields, d: Described) -> bool {
    &&& f.subject@ == d.subject
    &&& f.start_utc@ == d.start
    &&& f.end_utc@ == d.end
    &&& f.is_all_day == d.all_day
    &&& f.location@ == d.location
    &&& f.body_text@ == d.body
    &&& attendees::pairs_of(f.attendees@) == d.attendees
    &&& has_repeats(f.recurrence, d.repeats)
}

pub open spec fn create_event(fields: EventFields, account: String) -> Action {
    Action::CreateEvent { fields, account }
}

pub open spec fn update_event(id: String, fields: EventFields) -> Action {
    Action::UpdateEvent { id, fields }
}

/// The form stays open, and says why it was not saved.
pub open spec fn form_refused(pre: App, post: App, why: Seq<char>) -> bool {
    match pre.event_form {
        Some(f) => {
            &&& post == (App { event_form: post.event_form, ..pre })
            &&& post.event_form matches Some(g) && g == (EventForm { error: g.error, ..f })
                && model::text_of(g.error) == Some(why)
        },
        None => post == pre,
    }
}

/// The event that the form describes is to be created, or changed; a form that
/// describes none says why.
pub open spec fn event_saved(pre: App, post: App, clock: Clock) -> bool {
    match pre.event_form {
        None => post == pre,
        Some(form) => match described(form, clock) {
            Err(why) => form_refused(pre, post, why),
            Ok(d) => match form.editing_id {
                Some(id) => exists|f: EventFields|
                    holds(f, d) && app::emitted(pre, post, seq![#[trigger] update_event(id, f)]),
                None => exists|f: EventFields, account: String|
                    {
                        &&& holds(f, d)
                        &&& account@ == match pre.account {
                            Some(a) => a@,
                            None => Seq::empty(),
                        }
                        &&& app::emitted(pre, post, seq![#[trigger] create_event(f, account)])
                    },
            },
        },
    }
}

fn day_text_of(i: usize) -> (r: &'static str)
    ensures
        r@ == day_name(i as int),
{
    if i == 0 {
        "monday"
    } else if i == 1 {
        "tuesday"
    } else if i == 2 {
        "wednesday"
    } else if i == 3 {
        "thursday"
    } else if i == 4 {
        "friday"
    } else if i == 5 {
        "saturday"
    } else {
        "sunday"
    }
}

/// The name of the weekday that a time stamp's date falls on.
pub fn weekday_name_of(utc: &str) -> (r: String)
    ensures
        r@ == weekday_of(utc@),
{
    let (y, m, d) = agenda::date_of_utc(utc);
    let z: i128 = calendar::day_of_date(y as i128, m, d);
    let w: i128 = calendar::floor_mod(z + 3, 7);
    day_text_of(w as usize).to_string()
}

fn chosen_days(days: &[bool; 7]) -> (r: Vec<String>)
    ensures
        model::texts(r@) == chosen(*days, 7),
{
    let mut out: Vec<String> = Vec::new();
    let mut i: usize = 0;
    assert(model::texts(out@) =~= chosen(*days, 0));
    while i < 7
        invariant
            i <= 7,
            model::texts(out@) == chosen(*days, i as int),
        decreases 7 - i,
    {
        if days[i] {
            let ghost before = out@;
            out.push(day_text_of(i).to_string());
            proof {
                model::lemma_texts_push(before, out@.last());
            }
        }
        i += 1;
    }
    out
}

fn form_times(f: &EventForm, clock: Clock) -> (r: Result<(String, String), &'static str>)
    requires
        clock.wf(),
    ensures
        match r {
            Ok((s, e)) => times_of(*f, clock) == Ok::<_, Seq<char>>((s@, e@)),
            Err(why) => times_of(*f, clock) == Err::<(Seq<char>, Seq<char>), _>(why@),
        },
{
    if f.all_day {
        return match datetime::all_day_bounds(f.start.as_str(), f.end.as_str(), clock.now) {
            Some(b) => Ok(b),
            None => Err("Invalid date"),
        };
    }
    let start = match datetime::parse_start(f.start.as_str(), clock.now, clock.offset) {
        Some(t) => t,
        None => {
            return Err("Invalid start time");
        },
    };
    let end = match datetime::parse_end(
        f.end.as_str(),
        start.as_str(),
        clock.now,
        clock.offset,
    ) {
        Some(t) => t,
        None => {
            return Err("Invalid end time");
        },
    };
    if !text::le_text(start.as_str(), end.as_str()) {
        return Err("End is before start");
    }
    Ok((start, end))
}

fn form_repeats(f: &EventForm, start: &String, clock: Clock) -> (r: Result<
    Option<Recurrence>,
    &'static str,
>)
    requires
        clock.wf(),
    ensures
        match r {
            Ok(rec) => repeats_of(*f, start@, clock) matches Ok(want) && has_repeats(rec, want),
            Err(why) => repeats_of(*f, start@, clock) == Err::<Option<Repeats>, _>(why@),
        },
{
    let kind = match (&f.repeat, &f.editing_id) {
        (Some(k), None) => *k,
        _ => {
            return Ok(None);
        },
    };
    let digits = text::trim_str(f.interval.as_str());
    let interval: u32 = match text::read_u32(digits.as_slice()) {
        Some(n) => n,
        None => {
            return Err("Invalid interval");
        },
    };
    if interval < 1 {
        return Err("Invalid interval");
    }
    let start_date: String = match text::get_bytes(start.as_str(), 0, 10) {
        Some(d) => d,
        None => String::new(),
    };
    assert(start_date@ =~= date_of(start@));
    let (_, _, day_of_month) = agenda::date_of_utc(start.as_str());
    let mut days_of_week = chosen_days(&f.days);
    if kind == RecurrenceKind::Weekly && days_of_week.len() == 0 {
        days_of_week.push(weekday_name_of(start.as_str()));
        assert(model::texts(days_of_week@) =~= seq![weekday_of(start@)]);
    }
    let u = text::trim_str(f.until.as_str());
    let until: Option<String> = if u.len() == 0 {
        None
    } else {
        let t = text::string_of(u.as_slice());
        if datetime::parse_start(t.as_str(), clock.now, clock.offset).is_none() {
            return Err("Invalid until date");
        }
        if !text::le_text(start_date.as_str(), t.as_str()) {
            return Err("Until is before start");
        }
        Some(t)
    };
    Ok(Some(Recurrence { kind, interval, days_of_week, day_of_month, start_date, until }))
}

/// The event that a form describes, or why it describes none.
pub fn form_fields(f: &EventForm, clock: Clock) -> (r: Result<EventFields, &'static str>)
    requires
        clock.wf(),
    ensures
        match r {
            Ok(fields) => described(*f, clock) matches Ok(d) && holds(fields, d),
            Err(why) => described(*f, clock) == Err::<Described, _>(why@),
        },
{
    let (start_utc, end_utc) = match form_times(f, clock) {
        Ok(t) => t,
        Err(why) => {
            return Err(why);
        },
    };
    let recurrence = match form_repeats(f, &start_utc, clock) {
        Ok(r) => r,
        Err(why) => {
            return Err(why);
        },
    };
    Ok(
        EventFields {
            subject: f.title.clone(),
            start_utc,
            end_utc,
            is_all_day: f.all_day,
            location: f.location.clone(),
            body_text: f.body.clone(),
            attendees: attendees::parse_attendee_pairs(f.attendees.as_str()),
            recurrence,
        },
    )
}

impl App {
    /// Saves the form: the times are read and checked, and the event is to be
    /// created, or changed. What does not hold is said in the form, which stays
    /// open.
    pub fn save_event_form(&mut self, clock: Clock)
        requires
            clock.wf(),
        ensures
            event_saved(*old(self), *final(self), clock),
            old(self).rows_in_step() ==> final(self).rows_in_step(),
    {
        let (fields, editing): (EventFields, Option<String>) = match &self.event_form {
            None => {
                return;
            },
            Some(form) => match form_fields(form, clock) {
                Ok(f) => (f, form.editing_id.clone()),
                Err(why) => {
                    self.set_form_error(why);
                    return;
                },
            },
        };
        let ghost f = fields;
        match editing {
            Some(id) => {
                self.emit(Action::UpdateEvent { id, fields });
                assert(self.actions@.last() == update_event(id, f));
            },
            None => {
                let account: String = match &self.account {
                    Some(a) => a.clone(),
                    None => String::new(),
                };
                assert(account@ =~= match self.account {
                    Some(a) => a@,
                    None => Seq::empty(),
                });
                self.emit(Action::CreateEvent { fields, account });
                assert(self.actions@.last() == create_event(f, account));
            },
        }
    }

    /// Says in the form, if it is open, what does not hold.
    pub fn set_form_error(&mut self, msg: &str)
        ensures
            form_refused(*old(self), *final(self), msg@),
            old(self).rows_in_step() ==> final(self).rows_in_step(),
    {
        if let Some(form) = &mut self.event_form {
            form.error = Some(msg.to_string());
        }
    }

    /// The store changed an event, or could not. A change to an event that the
    /// server knows is handed on; one that it does not know yet goes with its
    /// creation. The form closes, and the agenda is asked for.
    pub fn event_updated(&mut self, id: String, ok: bool)
        ensures
            if !ok {
                form_refused(*old(self), *final(self), "Couldn't save the event"@)
            } else {
                app::emitted(
                    App { event_form: None, ..*old(self) },
                    *final(self),
                    if text::has_prefix(id@, "local:"@) {
                        seq![Action::ReadAgenda]
                    } else {
                        seq![Action::Send(SyncCommand::UpdateEvent { id }), Action::ReadAgenda]
                    },
                )
            },
            old(self).rows_in_step() ==> final(self).rows_in_step(),
    {
        if !ok {
            self.set_form_error("Couldn't save the event");
            return;
        }
        let v = text::chars_of(id.as_str());
        if !text::starts_with(v.as_slice(), "local:") {
            self.send(SyncCommand::UpdateEvent { id });
        }
        self.event_form = None;
        self.reload_agenda();
    }

    /// The store created an event, or could not. The creation is handed on, the
    /// form closes, and the agenda is asked for.
    pub fn event_created(&mut self, id: Option<String>)
        ensures
            match id {
                None => form_refused(*old(self), *final(self), "Couldn't create the event"@),
                Some(id) => app::emitted(
                    App { event_form: None, ..*old(self) },
                    *final(self),
                    seq![Action::Send(SyncCommand::CreateEvent { id }), Action::ReadAgenda],
                ),
            },
            old(self).rows_in_step() ==> final(self).rows_in_step(),
    {
        match id {
            None => {
                self.set_form_error("Couldn't create the event");
            },
            Some(id) => {
                self.send(SyncCommand::CreateEvent { id });
                self.event_form = None;
                self.reload_agenda();
            },
        }
    }
}

// ---------------------------------------------------------------------------
// Laws
// ---------------------------------------------------------------------------

/// An all-day event that is opened and saved as it stands keeps its days, as
/// long as their years have four digits.
pub proof fn editing_keeps_the_days(
    f: EventForm,
    id: String,
    e: StoredEvent,
    first: int,
    next: int,
    clock: Clock,
)
    requires
        e.is_all_day,
        first < next,
        e.start_utc@ == datetime::midnight(first),
        e.end_utc@ == datetime::midnight(next),
        0 <= calendar::civil(first).0 <= 9999,
        0 <= calendar::civil(next - 1).0 <= 9999,
        0 <= calendar::civil(next).0 <= 9999,
        shows_event(f, id, e, clock.offset as int),
    ensures
        times_of(f, clock) == Ok::<_, Seq<char>>((e.start_utc@, e.end_utc@)),
{
    agenda::midnight_has_its_date(first);
    agenda::midnight_has_its_date(next);
    calendar::civil_is_inverse_of_day_number(first);
    calendar::civil_is_inverse_of_day_number(next);
    calendar::civil_is_inverse_of_day_number(next - 1);
    let (y, m, d) = calendar::civil(first);
    let (ly, lm, ld) = calendar::civil(next - 1);
    datetime::date_round_trips(y, m, d, clock.now);
    datetime::date_round_trips(ly, lm, ld, clock.now);
}

/// A timed event that is opened and saved as it stands keeps its times, as long
/// as their years, in UTC and in local time, have four digits.
pub proof fn editing_keeps_the_times(
    f: EventForm,
    id: String,
    e: StoredEvent,
    start: int,
    end: int,
    clock: Clock,
)
    requires
        !e.is_all_day,
        e.start_utc@ == datetime::iso_of_min(start),
        e.end_utc@ == datetime::iso_of_min(end),
        text::text_le(e.start_utc@, e.end_utc@),
        0 <= calendar::civil(start / 1440).0 <= 9999,
        0 <= calendar::civil(end / 1440).0 <= 9999,
        0 <= calendar::civil((start + clock.offset) / 1440).0 <= 9999,
        0 <= calendar::civil((end + clock.offset) / 1440).0 <= 9999,
        shows_event(f, id, e, clock.offset as int),
    ensures
        times_of(f, clock) == Ok::<_, Seq<char>>((e.start_utc@, e.end_utc@)),
{
    datetime::displayed_stamps_round_trip(start, clock.now, clock.offset as int);
    datetime::displayed_stamps_round_trip(end, clock.now, clock.offset as int);
}

/// A form that is opened on a stored event and saved as it stands keeps the
/// attendees, as long as the list can hold them.
pub proof fn editing_keeps_the_attendees(f: EventForm, id: String, e: StoredEvent, offset: int)
    requires
        shows_event(f, id, e, offset),
        forall|i: int|
            0 <= i < e.attendees@.len() ==> attendees::is_plain(
                #[trigger] attendees::attendee_pairs(e.attendees@)[i],
            ),
    ensures
        attendees::attendees_in(f.attendees@) == attendees::attendee_pairs(e.attendees@),
{
    attendees::attendees_round_trip(attendees::attendee_pairs(e.attendees@));
}

/// An event that is saved does not end before it starts.
pub proof fn saved_events_end_after_they_start(f: EventForm, clock: Clock)
    ensures
        described(f, clock) matches Ok(d) ==> if f.all_day {
            exists|first: int, next: int|
                first < next && d.start == #[trigger] datetime::midnight(first) && d.end
                    == #[trigger] datetime::midnight(next)
        } else {
            text::text_le(d.start, d.end)
        },
{
    datetime::all_day_event_is_not_empty(f.start@, f.end@, clock.now);
}

/// A stored event keeps its recurrence: editing it describes none.
pub proof fn editing_adds_no_recurrence(f: EventForm, clock: Clock)
    requires
        f.editing_id is Some,
    ensures
        described(f, clock) matches Ok(d) ==> d.repeats is None,
{
}

}
