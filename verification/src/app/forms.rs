//! The automatic-replies editor and the keys of the two forms.

use crate::app;
use crate::app::calendar;
use crate::app::events;
use crate::app::{Action, App, Clock, Key, KeyCode};
use crate::datetime;
use crate::model;
use crate::model::{AutomaticReplies, OofStatus, SyncCommand};
use crate::text;
use crate::ui::eventform;
use crate::ui::eventform::{EventField, EventForm};
use crate::ui::oofform;
use crate::ui::oofform::{OofField, OofForm};
use vstd::prelude::*;

verus! {

// ---------------------------------------------------------------------------
// Automatic replies
// ---------------------------------------------------------------------------

/// The editor opens, and the present settings are asked for.
pub open spec fn oof_opened(pre: App, post: App) -> bool {
    &&& post == (App { oof_form: post.oof_form, actions: post.actions, ..pre })
    &&& post.oof_form matches Some(f) && oofform::is_loading_default(f)
    &&& post.actions@ =~= pre.actions@ + seq![Action::Send(SyncCommand::FetchAutomaticReplies)]
}

/// The editor says why it was not saved.
pub open spec fn oof_refused(pre: App, post: App, why: Seq<char>) -> bool {
    match pre.oof_form {
        Some(f) => {
            &&& post == (App { oof_form: post.oof_form, ..pre })
            &&& post.oof_form matches Some(g) && g == (OofForm { error: g.error, ..f })
                && model::text_of(g.error) == Some(why)
        },
        None => post == pre,
    }
}

/// The window of scheduled replies, in UTC; empty where replies are not
/// scheduled. An `Err` says why the fields do not give one.
pub open spec fn oof_window(f: OofForm, clock: Clock) -> Result<(Seq<char>, Seq<char>), Seq<char>> {
    if f.status == OofStatus::Scheduled {
        match datetime::start_of(f.start@, clock.now, clock.offset as int) {
            None => Err("Invalid start time"@),
            Some(start) => match datetime::end_of(f.end@, start, clock.now, clock.offset as int) {
                None => Err("Invalid end time"@),
                Some(end) => if text::text_le(end, start) {
                    Err("End must be after start"@)
                } else {
                    Ok((start, end))
                },
            },
        }
    } else {
        Ok((Seq::empty(), Seq::empty()))
    }
}

pub open spec fn set_replies(replies: AutomaticReplies) -> Action {
    Action::Send(SyncCommand::SetAutomaticReplies { replies })
}

/// The settings in the editor are handed on; the editor stays open.
pub open spec fn oof_saved(pre: App, post: App, clock: Clock) -> bool {
    match pre.oof_form {
        None => post == pre,
        Some(f) => match oof_window(f, clock) {
            Err(why) => oof_refused(pre, post, why),
            Ok((start, end)) => exists|r: AutomaticReplies|
                {
                    &&& r.status == f.status
                    &&& r.external_audience == f.audience
                    &&& r.internal_message == f.internal
                    &&& r.external_message == f.external
                    &&& r.scheduled_start_utc@ == start
                    &&& r.scheduled_end_utc@ == end
                    &&& post == (App {
                        attachment_notice: post.attachment_notice,
                        actions: post.actions,
                        ..pre
                    })
                    &&& model::text_of(post.attachment_notice) == Some("Saving\u{2026}"@)
                    &&& post.actions@ =~= pre.actions@ + seq![#[trigger] set_replies(r)]
                },
        },
    }
}

fn window_of(f: &OofForm, clock: Clock) -> (r: Result<(String, String), &'static str>)
    requires
        clock.wf(),
    ensures
        match r {
            Ok((s, e)) => oof_window(*f, clock) == Ok::<_, Seq<char>>((s@, e@)),
            Err(why) => oof_window(*f, clock) == Err::<(Seq<char>, Seq<char>), _>(why@),
        },
{
    if f.status != OofStatus::Scheduled {
        let s: String = String::new();
        let e: String = String::new();
        assert(s@ =~= Seq::empty() && e@ =~= Seq::empty());
        return Ok((s, e));
    }
    let start = match datetime::parse_start(f.start.as_str(), clock.now, clock.offset) {
        Some(t) => t,
        None => {
            return Err("Invalid start time");
        },
    };
    let end = match datetime::parse_end(f.end.as_str(), start.as_str(), clock.now, clock.offset) {
        Some(t) => t,
        None => {
            return Err("Invalid end time");
        },
    };
    if text::le_text(end.as_str(), start.as_str()) {
        return Err("End must be after start");
    }
    Ok((start, end))
}

impl App {
    /// Opens the automatic-replies editor, and asks for the present settings.
    pub fn open_oof_form(&mut self)
        ensures
            oof_opened(*old(self), *final(self)),
            old(self).rows_in_step() ==> final(self).rows_in_step(),
    {
        self.oof_form = Some(OofForm::loading_default());
        self.send(SyncCommand::FetchAutomaticReplies);
    }

    /// Checks the editor's fields, and hands the settings on. The editor stays
    /// open until they are in force.
    pub fn save_oof_form(&mut self, clock: Clock)
        requires
            clock.wf(),
        ensures
            oof_saved(*old(self), *final(self), clock),
            old(self).rows_in_step() ==> final(self).rows_in_step(),
    {
        let replies: AutomaticReplies = match &self.oof_form {
            None => {
                return;
            },
            Some(f) => match window_of(f, clock) {
                Ok((start, end)) => AutomaticReplies {
                    status: f.status,
                    external_audience: f.audience,
                    internal_message: f.internal.clone(),
                    external_message: f.external.clone(),
                    scheduled_start_utc: start,
                    scheduled_end_utc: end,
                },
                Err(why) => {
                    self.set_oof_error(why);
                    return;
                },
            },
        };
        let ghost r = replies;
        self.attachment_notice = Some("Saving\u{2026}".to_string());
        self.send(SyncCommand::SetAutomaticReplies { replies });
        assert(self.actions@.last() == set_replies(r));
    }

    /// Says in the editor, if it is open, what does not hold.
    pub fn set_oof_error(&mut self, msg: &str)
        ensures
            oof_refused(*old(self), *final(self), msg@),
            old(self).rows_in_step() ==> final(self).rows_in_step(),
    {
        if let Some(f) = &mut self.oof_form {
            f.error = Some(msg.to_string());
        }
    }
}

// ---------------------------------------------------------------------------
// Keys of the automatic-replies editor
// ---------------------------------------------------------------------------

/// The focused text field of the editor.
pub open spec fn oof_text(f: OofForm) -> Seq<char> {
    match f.focus {
        OofField::Start => f.start@,
        OofField::End => f.end@,
        OofField::Internal => f.internal@,
        OofField::External => f.external@,
        _ => Seq::empty(),
    }
}

/// The focused text field of the editor holds `t`; a field that is chosen
/// rather than typed stays as it is.
pub open spec fn oof_text_set(pre: App, post: App, f: OofForm, t: Seq<char>) -> bool {
    &&& post == (App { oof_form: post.oof_form, ..pre })
    &&& post.oof_form matches Some(g) && match f.focus {
        OofField::Start => g == (OofForm { start: g.start, ..f }) && g.start@ == t,
        OofField::End => g == (OofForm { end: g.end, ..f }) && g.end@ == t,
        OofField::Internal => g == (OofForm { internal: g.internal, ..f }) && g.internal@ == t,
        OofField::External => g == (OofForm { external: g.external, ..f }) && g.external@ == t,
        _ => g == f,
    }
}

/// A key goes to the automatic-replies editor: Esc closes it, Ctrl-S saves it,
/// Tab and Shift-Tab move on and back, Space chooses, anything else is typed.
pub open spec fn oof_keyed(pre: App, post: App, key: Key, clock: Clock) -> bool {
    match pre.oof_form {
        None => post == pre,
        Some(f) => match key.code {
            KeyCode::Esc => post == (App { oof_form: None, ..pre }),
            KeyCode::Tab => post == (App {
                oof_form: Some(OofForm { focus: oofform::field_after(f.focus), ..f }),
                ..pre
            }),
            KeyCode::BackTab => post == (App {
                oof_form: Some(OofForm { focus: oofform::field_before(f.focus), ..f }),
                ..pre
            }),
            KeyCode::Backspace => oof_text_set(pre, post, f, text::shortened(oof_text(f))),
            KeyCode::Char(c) => if key.ctrl {
                if c == 's' {
                    oof_saved(pre, post, clock)
                } else {
                    post == pre
                }
            } else if c == ' ' && f.focus == OofField::Status {
                post == (App {
                    oof_form: Some(OofForm { status: oofform::status_after(f.status), ..f }),
                    ..pre
                })
            } else if c == ' ' && f.focus == OofField::Audience {
                post == (App {
                    oof_form: Some(OofForm { audience: oofform::audience_after(f.audience), ..f }),
                    ..pre
                })
            } else {
                oof_text_set(pre, post, f, oof_text(f).push(c))
            },
            _ => post == pre,
        },
    }
}

impl App {
    /// A key, while the automatic-replies editor is open.
    pub fn oof_handle_key(&mut self, key: Key, clock: Clock)
        requires
            clock.wf(),
        ensures
            oof_keyed(*old(self), *final(self), key, clock),
            old(self).rows_in_step() ==> final(self).rows_in_step(),
    {
        if self.oof_form.is_none() {
            return;
        }
        match key.code {
            KeyCode::Esc => {
                self.oof_form = None;
            },
            KeyCode::Tab => {
                if let Some(f) = &mut self.oof_form {
                    f.next_field();
                }
            },
            KeyCode::BackTab => {
                if let Some(f) = &mut self.oof_form {
                    f.prev_field();
                }
            },
            KeyCode::Backspace => {
                if let Some(f) = &mut self.oof_form {
                    match f.focus {
                        OofField::Start => {
                            f.start = text::without_last(f.start.as_str());
                        },
                        OofField::End => {
                            f.end = text::without_last(f.end.as_str());
                        },
                        OofField::Internal => {
                            f.internal = text::without_last(f.internal.as_str());
                        },
                        OofField::External => {
                            f.external = text::without_last(f.external.as_str());
                        },
                        _ => {},
                    }
                }
            },
            KeyCode::Char(c) => {
                if key.ctrl {
                    if c == 's' {
                        self.save_oof_form(clock);
                    }
                    return;
                }
                if let Some(f) = &mut self.oof_form {
                    if c == ' ' && f.focus == OofField::Status {
                        f.cycle_status();
                    } else if c == ' ' && f.focus == OofField::Audience {
                        f.cycle_audience();
                    } else {
                        match f.focus {
                            OofField::Start => f.start.push(c),
                            OofField::End => f.end.push(c),
                            OofField::Internal => f.internal.push(c),
                            OofField::External => f.external.push(c),
                            _ => {},
                        }
                    }
                }
            },
            _ => {},
        }
    }
}

// ---------------------------------------------------------------------------
// Keys of the event form
// ---------------------------------------------------------------------------

/// The focused text field of the form.
pub open spec fn event_text(f: EventForm) -> Seq<char> {
    match f.focus {
        EventField::Title => f.title@,
        EventField::Start => f.start@,
        EventField::End => f.end@,
        EventField::AllDay => Seq::empty(),
        EventField::Location => f.location@,
        EventField::Attendees => f.attendees@,
        EventField::Body => f.body@,
    }
}

/// The focused text field of the form holds `t`; the all-day mark is not typed.
pub open spec fn event_text_set(pre: App, post: App, f: EventForm, t: Seq<char>) -> bool {
    &&& post == (App { event_form: post.event_form, ..pre })
    &&& post.event_form matches Some(g) && match f.focus {
        EventField::Title => g == (EventForm { title: g.title, ..f }) && g.title@ == t,
        EventField::Start => g == (EventForm { start: g.start, ..f }) && g.start@ == t,
        EventField::End => g == (EventForm { end: g.end, ..f }) && g.end@ == t,
        EventField::AllDay => g == f,
        EventField::Location => g == (EventForm { location: g.location, ..f }) && g.location@ == t,
        EventField::Attendees => g == (EventForm { attendees: g.attendees, ..f }) && g.attendees@
            == t,
        EventField::Body => g == (EventForm { body: g.body, ..f }) && g.body@ == t,
    }
}

/// A key goes to the event form: Esc closes it, Ctrl-Enter saves it, Ctrl-B
/// shows the availability, Tab moves on, Space toggles the all-day mark,
/// anything else is typed.
pub open spec fn event_keyed(pre: App, post: App, key: Key, clock: Clock) -> bool {
    match pre.event_form {
        None => post == pre,
        Some(f) => match key.code {
            KeyCode::Esc => post == (App { event_form: None, ..pre }),
            KeyCode::Enter => if key.ctrl {
                events::event_saved(pre, post, clock)
            } else {
                post == pre
            },
            KeyCode::Tab => post == (App {
                event_form: Some(EventForm { focus: eventform::field_after(f.focus), ..f }),
                ..pre
            }),
            KeyCode::Backspace => event_text_set(pre, post, f, text::shortened(event_text(f))),
            KeyCode::Char(c) => if key.ctrl {
                if c == 'b' {
                    calendar::free_busy_opened(pre, post, clock)
                } else {
                    post == pre
                }
            } else if c == ' ' && f.focus == EventField::AllDay {
                post == (App {
                    event_form: Some(EventForm { all_day: !f.all_day, ..f }),
                    ..pre
                })
            } else {
                event_text_set(pre, post, f, event_text(f).push(c))
            },
            _ => post == pre,
        },
    }
}

impl App {
    /// A key, while the event form is open.
    pub fn event_form_handle_key(&mut self, key: Key, clock: Clock)
        requires
            clock.wf(),
        ensures
            event_keyed(*old(self), *final(self), key, clock),
            old(self).rows_in_step() ==> final(self).rows_in_step(),
    {
        if self.event_form.is_none() {
            return;
        }
        match key.code {
            KeyCode::Esc => {
                self.event_form = None;
            },
            KeyCode::Enter => {
                if key.ctrl {
                    self.save_event_form(clock);
                }
            },
            KeyCode::Tab => {
                if let Some(f) = &mut self.event_form {
                    f.focus = eventform::next_field(f.focus);
                }
            },
            KeyCode::Backspace => {
                if let Some(f) = &mut self.event_form {
                    match f.focus {
                        EventField::Title => {
                            f.title = text::without_last(f.title.as_str());
                        },
                        EventField::Start => {
                            f.start = text::without_last(f.start.as_str());
                        },
                        EventField::End => {
                            f.end = text::without_last(f.end.as_str());
                        },
                        EventField::AllDay => {},
                        EventField::Location => {
                            f.location = text::without_last(f.location.as_str());
                        },
                        EventField::Attendees => {
                            f.attendees = text::without_last(f.attendees.as_str());
                        },
                        EventField::Body => {
                            f.body = text::without_last(f.body.as_str());
                        },
                    }
                }
            },
            KeyCode::Char(c) => {
                if key.ctrl {
                    if c == 'b' {
                        self.open_free_busy(clock);
                    }
                    return;
                }
                if let Some(f) = &mut self.event_form {
                    match f.focus {
                        EventField::Title => f.title.push(c),
                        EventField::Start => f.start.push(c),
                        EventField::End => f.end.push(c),
                        EventField::AllDay => {
                            if c == ' ' {
                                f.all_day = !f.all_day;
                            }
                        },
                        EventField::Location => f.location.push(c),
                        EventField::Attendees => f.attendees.push(c),
                        EventField::Body => f.body.push(c),
                    }
                }
            },
            _ => {},
        }
    }
}

}
