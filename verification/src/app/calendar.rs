//! Calendar mode: the agenda, responses to invitations, and availability.

use crate::app;
use crate::app::attendees;
use crate::app::{
    Action, App, Clock, ConfirmAction, ConfirmModal, Mode, RsvpField, RsvpPrompt, RsvpTarget,
};
use crate::datetime;
use crate::datetime::LocalDateTime;
use crate::model;
use crate::model::{EventRow, RsvpKind, SyncCommand};
use crate::text;
use crate::ui;
use crate::ui::agenda;
use crate::ui::calendar;
use crate::ui::freebusy::FreeBusyView;
use vstd::prelude::*;

verus! {

// ---------------------------------------------------------------------------
// The agenda
// ---------------------------------------------------------------------------

impl App {
    /// The event under the agenda's cursor.
    pub open spec fn highlighted_event(self) -> Option<EventRow> {
        if self.agenda_index < self.agenda@.len() {
            Some(self.agenda@[self.agenda_index as int])
        } else {
            None
        }
    }

    /// The event a key acts on: the opened one, or else the one under the
    /// cursor.
    pub open spec fn event_id(self) -> Option<String> {
        match self.selected_event {
            Some(id) => Some(id),
            None => match self.highlighted_event() {
                Some(e) => Some(e.id),
                None => None,
            },
        }
    }
}

/// The other view is shown; the agenda is asked for, and refreshed, when it
/// comes into view.
pub open spec fn mode_set(pre: App, post: App, mode: Mode) -> bool {
    if pre.mode == mode {
        post == pre
    } else if mode == Mode::Calendar {
        app::emitted(
            App { mode, ..pre },
            post,
            seq![Action::ReadAgenda, Action::Send(SyncCommand::RefreshCalendar)],
        )
    } else {
        post == (App { mode, ..pre })
    }
}

pub open spec fn other_mode(m: Mode) -> Mode {
    match m {
        Mode::Mail => Mode::Calendar,
        Mode::Calendar => Mode::Mail,
    }
}

/// The detail pane shows the event under the cursor.
pub open spec fn event_opened(pre: App, post: App) -> bool {
    post == (App {
        selected_event: match pre.highlighted_event() {
            Some(e) => Some(e.id),
            None => None,
        },
        ..pre
    })
}

pub open spec fn agenda_selection_moved(pre: App, post: App, delta: int) -> bool {
    let n = pre.agenda@.len() as int;
    post == if n == 0 {
        pre
    } else {
        App { agenda_index: ui::clamp_index(pre.agenda_index as int, delta, n) as usize, ..pre }
    }
}

impl App {
    /// Switches between mail and calendar.
    pub fn toggle_mode(&mut self)
        ensures
            mode_set(*old(self), *final(self), other_mode(old(self).mode)),
            old(self).rows_in_step() ==> final(self).rows_in_step(),
    {
        match self.mode {
            Mode::Mail => self.set_mode(Mode::Calendar),
            Mode::Calendar => self.set_mode(Mode::Mail),
        }
    }

    /// Switches to `mode`. Entering the calendar asks for the agenda and for
    /// fresh data; nothing happens when already there.
    pub fn set_mode(&mut self, mode: Mode)
        ensures
            mode_set(*old(self), *final(self), mode),
            old(self).rows_in_step() ==> final(self).rows_in_step(),
    {
        if self.mode == mode {
            return;
        }
        self.mode = mode;
        if mode == Mode::Calendar {
            self.reload_agenda();
            self.send(SyncCommand::RefreshCalendar);
        }
    }

    /// Asks for the agenda again.
    pub fn reload_agenda(&mut self)
        ensures
            app::emitted(*old(self), *final(self), seq![Action::ReadAgenda]),
            old(self).rows_in_step() ==> final(self).rows_in_step(),
    {
        self.emit(Action::ReadAgenda);
    }

    /// The events that were read; the cursor stays among them.
    pub fn agenda_loaded(&mut self, events: Vec<EventRow>)
        ensures
            *final(self) == (App {
                agenda: events,
                agenda_index: ui::into_range(
                    old(self).agenda_index as int,
                    events@.len() as int,
                ) as usize,
                ..*old(self)
            }),
            old(self).rows_in_step() ==> final(self).rows_in_step(),
    {
        self.agenda_index = ui::in_range(self.agenda_index, events.len());
        self.agenda = events;
    }

    /// Moves the agenda's cursor, held between the first and the last event.
    pub fn move_agenda_selection(&mut self, delta: isize)
        ensures
            agenda_selection_moved(*old(self), *final(self), delta as int),
            old(self).rows_in_step() ==> final(self).rows_in_step(),
    {
        let n = self.agenda.len();
        if n == 0 {
            return;
        }
        self.agenda_index = ui::clamped(self.agenda_index, delta, n);
    }

    /// The id of the event under the agenda's cursor.
    pub fn highlighted_event_id(&self) -> (r: Option<String>)
        ensures
            match self.highlighted_event() {
                Some(e) => r == Some(e.id),
                None => r is None,
            },
    {
        if self.agenda_index < self.agenda.len() {
            Some(self.agenda[self.agenda_index].id.clone())
        } else {
            None
        }
    }

    /// Opens the detail pane on the event under the cursor.
    pub fn open_selected_event(&mut self)
        ensures
            event_opened(*old(self), *final(self)),
            old(self).rows_in_step() ==> final(self).rows_in_step(),
    {
        self.selected_event = self.highlighted_event_id();
    }

    /// The event a key acts on.
    pub fn target_event_id(&self) -> (r: Option<String>)
        ensures
            r == self.event_id(),
    {
        match &self.selected_event {
            Some(id) => Some(id.clone()),
            None => self.highlighted_event_id(),
        }
    }
}

// ---------------------------------------------------------------------------
// Responding
// ---------------------------------------------------------------------------

/// An empty prompt for a response of this kind.
pub open spec fn is_fresh_prompt(
    p: RsvpPrompt,
    target: RsvpTarget,
    kind: Seq<char>,
    focus: RsvpField,
) -> bool {
    &&& p.target == target
    &&& p.kind@ == kind
    &&& p.comment@.len() == 0
    &&& p.proposed_start@.len() == 0
    &&& p.proposed_end@.len() == 0
    &&& p.focus == focus
}

/// The prompt opens on the event under the cursor.
pub open spec fn rsvp_started(pre: App, post: App, kind: Seq<char>) -> bool {
    match pre.highlighted_event() {
        Some(e) => {
            &&& post == (App { rsvp_prompt: post.rsvp_prompt, ..pre })
            &&& post.rsvp_prompt matches Some(p) && is_fresh_prompt(
                p,
                RsvpTarget::Event(e.id),
                kind,
                if app::kind_proposes(kind) {
                    RsvpField::ProposedStart
                } else {
                    RsvpField::Comment
                },
            )
        },
        None => post == pre,
    }
}

impl App {
    /// The opened message, where it is an invitation.
    pub open spec fn open_invite(self) -> Option<String> {
        match self.open_row() {
            Some(m) => if m.is_meeting_request {
                Some(m.id)
            } else {
                None
            },
            None => None,
        }
    }
}

/// The prompt opens on the opened invitation.
pub open spec fn meeting_rsvp_started(pre: App, post: App, kind: Seq<char>) -> bool {
    match pre.open_invite() {
        Some(id) => {
            &&& post == (App { rsvp_prompt: post.rsvp_prompt, ..pre })
            &&& post.rsvp_prompt matches Some(p) && is_fresh_prompt(
                p,
                RsvpTarget::Message(id),
                kind,
                RsvpField::ProposedStart,
            )
        },
        None => post == pre,
    }
}

/// The opened invitation is answered at once.
pub open spec fn meeting_answered(pre: App, post: App, kind: RsvpKind) -> bool {
    match pre.open_invite() {
        Some(id) => {
            &&& post == (App {
                attachment_notice: post.attachment_notice,
                actions: post.actions,
                ..pre
            })
            &&& model::text_of(post.attachment_notice) == Some("Responding\u{2026}"@)
            &&& post.actions@ =~= pre.actions@ + seq![
                Action::Send(
                    SyncCommand::RespondMeeting {
                        message_id: id,
                        kind,
                        comment: None,
                        proposed_start_utc: None,
                        proposed_end_utc: None,
                    },
                ),
            ]
        },
        None => post == pre,
    }
}

/// The focused field of the prompt holds `t` more.
pub open spec fn rsvp_typed(pre: App, post: App, t: Seq<char>) -> bool {
    match pre.rsvp_prompt {
        Some(p) => {
            &&& post == (App { rsvp_prompt: post.rsvp_prompt, ..pre })
            &&& post.rsvp_prompt matches Some(q) && match p.focus {
                RsvpField::ProposedStart => q == (RsvpPrompt {
                    proposed_start: q.proposed_start,
                    ..p
                }) && q.proposed_start@ == p.proposed_start@ + t,
                RsvpField::ProposedEnd => q == (RsvpPrompt { proposed_end: q.proposed_end, ..p })
                    && q.proposed_end@ == p.proposed_end@ + t,
                RsvpField::Comment => q == (RsvpPrompt { comment: q.comment, ..p }) && q.comment@
                    == p.comment@ + t,
            }
        },
        None => post == pre,
    }
}

/// The focused field of the prompt loses its last character.
pub open spec fn rsvp_backspaced(pre: App, post: App) -> bool {
    match pre.rsvp_prompt {
        Some(p) => {
            &&& post == (App { rsvp_prompt: post.rsvp_prompt, ..pre })
            &&& post.rsvp_prompt matches Some(q) && match p.focus {
                RsvpField::ProposedStart => q == (RsvpPrompt {
                    proposed_start: q.proposed_start,
                    ..p
                }) && q.proposed_start@ == text::shortened(p.proposed_start@),
                RsvpField::ProposedEnd => q == (RsvpPrompt { proposed_end: q.proposed_end, ..p })
                    && q.proposed_end@ == text::shortened(p.proposed_end@),
                RsvpField::Comment => q == (RsvpPrompt { comment: q.comment, ..p }) && q.comment@
                    == text::shortened(p.comment@),
            }
        },
        None => post == pre,
    }
}

pub open spec fn rsvp_field_after(p: RsvpPrompt) -> RsvpField {
    if p.may_propose() {
        match p.focus {
            RsvpField::ProposedStart => RsvpField::ProposedEnd,
            RsvpField::ProposedEnd => RsvpField::Comment,
            RsvpField::Comment => RsvpField::ProposedStart,
        }
    } else {
        RsvpField::Comment
    }
}

pub open spec fn rsvp_cycled(pre: App, post: App) -> bool {
    post == match pre.rsvp_prompt {
        Some(p) => App {
            rsvp_prompt: Some(RsvpPrompt { focus: rsvp_field_after(p), ..p }),
            ..pre
        },
        None => pre,
    }
}

/// What a prompt proposes: nothing where both fields are blank or the kind of
/// response cannot propose; else a start and a later end. An `Err` where the
/// fields do not give these.
pub open spec fn proposal(p: RsvpPrompt, clock: Clock) -> Result<
    Option<(Seq<char>, Seq<char>)>,
    (),
> {
    let s = text::trim(p.proposed_start@);
    let e = text::trim(p.proposed_end@);
    if !p.may_propose() || (s.len() == 0 && e.len() == 0) {
        Ok(None)
    } else {
        match datetime::start_of(s, clock.now, clock.offset as int) {
            Some(start) => match datetime::end_of(e, start, clock.now, clock.offset as int) {
                Some(end) => if text::text_le(end, start) {
                    Err(())
                } else {
                    Ok(Some((start, end)))
                },
                None => Err(()),
            },
            None => Err(()),
        }
    }
}

pub open spec fn respond_event(
    id: String,
    kind: String,
    comment: Option<String>,
    start: Option<String>,
    end: Option<String>,
) -> Action {
    Action::Send(
        SyncCommand::RespondEvent {
            id,
            kind,
            comment,
            proposed_start_utc: start,
            proposed_end_utc: end,
        },
    )
}

pub open spec fn respond_meeting(
    message_id: String,
    kind: RsvpKind,
    comment: Option<String>,
    start: Option<String>,
    end: Option<String>,
) -> Action {
    Action::Send(
        SyncCommand::RespondMeeting {
            message_id,
            kind,
            comment,
            proposed_start_utc: start,
            proposed_end_utc: end,
        },
    )
}

pub open spec fn rsvp_kind(kind: Seq<char>) -> RsvpKind {
    if kind == "declined"@ {
        RsvpKind::Decline
    } else if kind == "tentativelyAccepted"@ {
        RsvpKind::Tentative
    } else {
        RsvpKind::Accept
    }
}

/// The first, or the second, of a pair that may be absent.
pub open spec fn first_of(p: Option<(Seq<char>, Seq<char>)>) -> Option<Seq<char>> {
    match p {
        Some((a, _)) => Some(a),
        None => None,
    }
}

pub open spec fn second_of(p: Option<(Seq<char>, Seq<char>)>) -> Option<Seq<char>> {
    match p {
        Some((_, b)) => Some(b),
        None => None,
    }
}

/// `s` and `e` hold the window that is proposed.
pub open spec fn is_window(
    s: Option<String>,
    e: Option<String>,
    proposed: Option<(Seq<char>, Seq<char>)>,
) -> bool {
    model::text_of(s) == first_of(proposed) && model::text_of(e) == second_of(proposed)
}

/// A response is given: to an event, which shows it at once; or to an
/// invitation.
pub open spec fn rsvp_dispatched(
    pre: App,
    post: App,
    target: RsvpTarget,
    kind: String,
    comment: Option<String>,
    proposed: Option<(Seq<char>, Seq<char>)>,
) -> bool {
    exists|s: Option<String>, e: Option<String>|
        {
            &&& #[trigger] is_window(s, e, proposed)
            &&& match target {
                RsvpTarget::Event(id) => app::emitted(
                    pre,
                    post,
                    seq![
                        Action::SetEventResponse { id, kind },
                        Action::ReadAgenda,
                        respond_event(id, kind, comment, s, e),
                    ],
                ),
                RsvpTarget::Message(id) => app::emitted(
                    pre,
                    post,
                    seq![respond_meeting(id, rsvp_kind(kind@), comment, s, e)],
                ),
            }
        }
}

/// Enter on the prompt: the response is given and the prompt closes, unless the
/// proposed times do not hold.
pub open spec fn rsvp_submitted(pre: App, post: App, clock: Clock) -> bool {
    match pre.rsvp_prompt {
        None => post == pre,
        Some(p) => match proposal(p, clock) {
            Err(_) => {
                &&& post == (App { error_notice: post.error_notice, ..pre })
                &&& model::text_of(post.error_notice) == Some("Invalid proposed time"@)
            },
            Ok(proposed) => rsvp_dispatched(
                App { rsvp_prompt: None, ..pre },
                post,
                p.target,
                p.kind,
                if p.comment@.len() > 0 {
                    Some(p.comment)
                } else {
                    None
                },
                proposed,
            ),
        },
    }
}

/// Esc on the prompt: the plain response is given, and the prompt closes.
pub open spec fn rsvp_sent_plain(pre: App, post: App) -> bool {
    match pre.rsvp_prompt {
        None => post == pre,
        Some(p) => rsvp_dispatched(
            App { rsvp_prompt: None, ..pre },
            post,
            p.target,
            p.kind,
            None,
            None,
        ),
    }
}

impl App {
    fn open_invite_id(&self) -> (r: Option<String>)
        ensures
            r == self.open_invite(),
    {
        match self.selected_message_row() {
            Some(m) => {
                if m.is_meeting_request {
                    Some(m.id.clone())
                } else {
                    None
                }
            },
            None => None,
        }
    }

    /// Answers the opened invitation at once; nothing unless one is open.
    pub fn respond_meeting(&mut self, kind: RsvpKind)
        ensures
            meeting_answered(*old(self), *final(self), kind),
            old(self).rows_in_step() ==> final(self).rows_in_step(),
    {
        if let Some(message_id) = self.open_invite_id() {
            self.attachment_notice = Some("Responding\u{2026}".to_string());
            self.send(
                SyncCommand::RespondMeeting {
                    message_id,
                    kind,
                    comment: None,
                    proposed_start_utc: None,
                    proposed_end_utc: None,
                },
            );
        }
    }

    /// Opens the RSVP prompt on the event under the cursor; nothing on an empty
    /// agenda.
    pub fn start_rsvp(&mut self, kind: &str)
        ensures
            rsvp_started(*old(self), *final(self), kind@),
            old(self).rows_in_step() ==> final(self).rows_in_step(),
    {
        if let Some(id) = self.highlighted_event_id() {
            let focus = if app::proposing(kind) {
                RsvpField::ProposedStart
            } else {
                RsvpField::Comment
            };
            self.rsvp_prompt = Some(
                RsvpPrompt {
                    target: RsvpTarget::Event(id),
                    kind: kind.to_string(),
                    comment: String::new(),
                    proposed_start: String::new(),
                    proposed_end: String::new(),
                    focus,
                },
            );
        }
    }

    /// Opens the RSVP prompt on the opened invitation; nothing unless one is
    /// open.
    pub fn start_meeting_rsvp(&mut self, kind: &str)
        ensures
            meeting_rsvp_started(*old(self), *final(self), kind@),
            old(self).rows_in_step() ==> final(self).rows_in_step(),
    {
        if let Some(id) = self.open_invite_id() {
            self.rsvp_prompt = Some(
                RsvpPrompt {
                    target: RsvpTarget::Message(id),
                    kind: kind.to_string(),
                    comment: String::new(),
                    proposed_start: String::new(),
                    proposed_end: String::new(),
                    focus: RsvpField::ProposedStart,
                },
            );
        }
    }

    /// Types into the focused RSVP field.
    pub fn type_rsvp_comment(&mut self, s: &str)
        ensures
            rsvp_typed(*old(self), *final(self), s@),
            old(self).rows_in_step() ==> final(self).rows_in_step(),
    {
        if let Some(p) = &mut self.rsvp_prompt {
            match p.focus {
                RsvpField::ProposedStart => p.proposed_start.append(s),
                RsvpField::ProposedEnd => p.proposed_end.append(s),
                RsvpField::Comment => p.comment.append(s),
            }
        }
    }

    /// Backspaces the focused RSVP field.
    pub fn backspace_rsvp_comment(&mut self)
        ensures
            rsvp_backspaced(*old(self), *final(self)),
            old(self).rows_in_step() ==> final(self).rows_in_step(),
    {
        if let Some(p) = &mut self.rsvp_prompt {
            match p.focus {
                RsvpField::ProposedStart => {
                    p.proposed_start = text::without_last(p.proposed_start.as_str());
                },
                RsvpField::ProposedEnd => {
                    p.proposed_end = text::without_last(p.proposed_end.as_str());
                },
                RsvpField::Comment => {
                    p.comment = text::without_last(p.comment.as_str());
                },
            }
        }
    }

    /// Moves the focus in the RSVP prompt; accepting has the comment alone.
    pub fn cycle_rsvp_focus(&mut self)
        ensures
            rsvp_cycled(*old(self), *final(self)),
            old(self).rows_in_step() ==> final(self).rows_in_step(),
    {
        if let Some(p) = &mut self.rsvp_prompt {
            p.focus = if p.proposes() {
                match p.focus {
                    RsvpField::ProposedStart => RsvpField::ProposedEnd,
                    RsvpField::ProposedEnd => RsvpField::Comment,
                    RsvpField::Comment => RsvpField::ProposedStart,
                }
            } else {
                RsvpField::Comment
            };
        }
    }

    /// Gives the response in the prompt, with the window it proposes; a window
    /// that does not hold is reported, and the prompt stays open.
    pub fn submit_rsvp(&mut self, clock: Clock)
        requires
            clock.wf(),
        ensures
            rsvp_submitted(*old(self), *final(self), clock),
            old(self).rows_in_step() ==> final(self).rows_in_step(),
    {
        let proposed: Option<(String, String)> = match &self.rsvp_prompt {
            None => {
                return;
            },
            Some(p) => match proposed_window(p, clock) {
                Ok(w) => w,
                Err(_) => {
                    self.error_notice = Some("Invalid proposed time".to_string());
                    return;
                },
            },
        };
        if let Some(p) = self.rsvp_prompt.take() {
            let comment = if text::chars_of(p.comment.as_str()).len() > 0 {
                Some(p.comment)
            } else {
                None
            };
            self.dispatch_rsvp(p.target, p.kind, comment, proposed);
        }
    }

    /// Gives the plain response: no comment, no proposal.
    pub fn cancel_rsvp_comment(&mut self)
        ensures
            rsvp_sent_plain(*old(self), *final(self)),
            old(self).rows_in_step() ==> final(self).rows_in_step(),
    {
        if let Some(p) = self.rsvp_prompt.take() {
            self.dispatch_rsvp(p.target, p.kind, None, None);
        }
    }

    fn dispatch_rsvp(
        &mut self,
        target: RsvpTarget,
        kind: String,
        comment: Option<String>,
        proposed: Option<(String, String)>,
    )
        ensures
            rsvp_dispatched(
                *old(self),
                *final(self),
                target,
                kind,
                comment,
                match proposed {
                    Some((s, e)) => Some((s@, e@)),
                    None => None,
                },
            ),
    {
        let (start, end): (Option<String>, Option<String>) = match proposed {
            Some((s, e)) => (Some(s), Some(e)),
            None => (None, None),
        };
        let ghost s = start;
        let ghost e = end;
        let ghost k = kind;
        let ghost c = comment;
        assert(is_window(
            s,
            e,
            match proposed {
                Some((s, e)) => Some((s@, e@)),
                None => None,
            },
        ));
        match target {
            RsvpTarget::Event(id) => {
                self.emit(Action::SetEventResponse { id: id.clone(), kind: kind.clone() });
                self.reload_agenda();
                self.send(
                    SyncCommand::RespondEvent {
                        id,
                        kind,
                        comment,
                        proposed_start_utc: start,
                        proposed_end_utc: end,
                    },
                );
                assert(self.actions@.last() == respond_event(id, k, c, s, e));
            },
            RsvpTarget::Message(message_id) => {
                let rsvp = if text::same(kind.as_str(), "declined") {
                    RsvpKind::Decline
                } else if text::same(kind.as_str(), "tentativelyAccepted") {
                    RsvpKind::Tentative
                } else {
                    RsvpKind::Accept
                };
                self.send(
                    SyncCommand::RespondMeeting {
                        message_id,
                        kind: rsvp,
                        comment,
                        proposed_start_utc: start,
                        proposed_end_utc: end,
                    },
                );
                assert(self.actions@.last() == respond_meeting(message_id, rsvp, c, s, e));
            },
        }
    }
}

fn proposed_window(p: &RsvpPrompt, clock: Clock) -> (r: Result<Option<(String, String)>, ()>)
    requires
        clock.wf(),
    ensures
        match r {
            Ok(Some((s, e))) => proposal(*p, clock) == Ok::<_, ()>(Some((s@, e@))),
            Ok(None) => proposal(*p, clock) == Ok::<Option<(Seq<char>, Seq<char>)>, ()>(None),
            Err(_) => proposal(*p, clock) is Err,
        },
{
    let s = text::trim_str(p.proposed_start.as_str());
    let e = text::trim_str(p.proposed_end.as_str());
    if !p.proposes() || (s.len() == 0 && e.len() == 0) {
        return Ok(None);
    }
    let from = text::string_of(s.as_slice());
    let to = text::string_of(e.as_slice());
    let start = match datetime::parse_start(from.as_str(), clock.now, clock.offset) {
        Some(t) => t,
        None => {
            return Err(());
        },
    };
    let end = match datetime::parse_end(to.as_str(), start.as_str(), clock.now, clock.offset) {
        Some(t) => t,
        None => {
            return Err(());
        },
    };
    if text::le_text(end.as_str(), start.as_str()) {
        return Err(());
    }
    Ok(Some((start, end)))
}

// ---------------------------------------------------------------------------
// Deleting an event
// ---------------------------------------------------------------------------

/// It is asked whether to delete the event; one of a series cannot be.
pub open spec fn event_deletion_begun(pre: App, post: App) -> bool {
    match pre.event_id() {
        None => post == pre,
        Some(id) => {
            let i = agenda::event_at(pre.agenda@, id@);
            if i >= pre.agenda@.len() {
                post == pre
            } else if pre.agenda@[i].series_master_id is Some {
                &&& post == (App { error_notice: post.error_notice, ..pre })
                &&& model::text_of(post.error_notice) == Some(
                    "Recurring events can't be deleted here."@,
                )
            } else {
                &&& post == (App { confirm: post.confirm, ..pre })
                &&& post.confirm matches Some(modal) && modal.action == ConfirmAction::DeleteEvent(
                    id,
                ) && modal.prompt@ == "Delete event '"@ + pre.agenda@[i].subject@ + "'?"@
            }
        },
    }
}

impl App {
    /// Asks whether to delete the opened event, or the one under the cursor.
    pub fn delete_selected_event(&mut self)
        ensures
            event_deletion_begun(*old(self), *final(self)),
            old(self).rows_in_step() ==> final(self).rows_in_step(),
    {
        let id = match self.target_event_id() {
            Some(id) => id,
            None => {
                return;
            },
        };
        let i = agenda::find_event(&self.agenda, &id);
        if i >= self.agenda.len() {
            return;
        }
        if self.agenda[i].series_master_id.is_some() {
            self.error_notice = Some("Recurring events can't be deleted here.".to_string());
            return;
        }
        let mut prompt: String = "Delete event '".to_string();
        prompt.append(self.agenda[i].subject.as_str());
        prompt.append("'?");
        self.confirm = Some(ConfirmModal { prompt, action: ConfirmAction::DeleteEvent(id) });
    }
}

// ---------------------------------------------------------------------------
// Availability
// ---------------------------------------------------------------------------

/// The mailboxes to ask about: one's own, then each attendee's address, the
/// first time it occurs.
pub open spec fn schedules_of(
    account: Option<String>,
    pairs: Seq<attendees::Pair>,
    n: int,
) -> Seq<Seq<char>>
    decreases n,
{
    if n <= 0 {
        match account {
            Some(me) => if me@.len() > 0 {
                seq![me@]
            } else {
                Seq::empty()
            },
            None => Seq::empty(),
        }
    } else {
        let before = schedules_of(account, pairs, n - 1);
        let addr = pairs[n - 1].1;
        if addr.len() == 0 || before.contains(addr) {
            before
        } else {
            before.push(addr)
        }
    }
}

/// The day whose availability is asked for: the date that the start field
/// begins with, or else today.
pub open spec fn free_busy_day(start: Seq<char>, now: LocalDateTime) -> Seq<char> {
    match text::get(start, 0, 10) {
        Some(d) => if vstd::utf8::encode_utf8(d).len() > 4 && vstd::utf8::encode_utf8(d)[4] == 0x2d {
            d
        } else {
            calendar::iso_date(now.year as int, now.month as int, now.day as int)
        },
        None => calendar::iso_date(now.year as int, now.month as int, now.day as int),
    }
}

/// A time of that day as a time stamp; empty where it is no day.
pub open spec fn free_busy_time(day: Seq<char>, time: Seq<char>, clock: Clock) -> Seq<char> {
    match datetime::start_of(day + time, clock.now, clock.offset as int) {
        Some(t) => t,
        None => Seq::empty(),
    }
}

pub open spec fn fetch_schedule(
    schedules: Vec<String>,
    start_utc: String,
    end_utc: String,
) -> Action {
    Action::Send(
        SyncCommand::FetchSchedule { schedules, start_utc, end_utc, interval_minutes: 30 },
    )
}

/// The availability from 8 to 18 o'clock of the day of the event, in half
/// hours, is asked for, and the grid opens under the date of its start in UTC.
pub open spec fn free_busy_opened(pre: App, post: App, clock: Clock) -> bool {
    match pre.event_form {
        None => post == pre,
        Some(form) => {
            let pairs = attendees::attendees_in(form.attendees@);
            let day = free_busy_day(form.start@, clock.now);
            let from = free_busy_time(day, " 08:00"@, clock);
            let (y, m, d) = agenda::leading_date(from);
            exists|v: Vec<String>, s: String, e: String|
                {
                    &&& model::texts(v@) == schedules_of(pre.account, pairs, pairs.len() as int)
                    &&& s@ == from
                    &&& e@ == free_busy_time(day, " 18:00"@, clock)
                    &&& post == (App { free_busy: post.free_busy, actions: post.actions, ..pre })
                    &&& post.actions@ =~= pre.actions@ + seq![#[trigger] fetch_schedule(v, s, e)]
                    &&& post.free_busy matches Some(f) && f.day_label@ == agenda::day_name(y, m, d)
                        && f.slot_count == 20 && f.entries@.len() == 0 && f.loading
                }
        },
    }
}

fn schedules(account: &Option<String>, pairs: &Vec<(String, String)>) -> (r: Vec<String>)
    ensures
        model::texts(r@) == schedules_of(
            *account,
            attendees::pairs_of(pairs@),
            pairs@.len() as int,
        ),
{
    let ghost all = attendees::pairs_of(pairs@);
    let mut out: Vec<String> = Vec::new();
    if let Some(me) = account {
        if text::chars_of(me.as_str()).len() > 0 {
            out.push(me.clone());
        }
    }
    assert(model::texts(out@) =~= schedules_of(*account, all, 0));
    let mut i: usize = 0;
    while i < pairs.len()
        invariant
            i <= pairs@.len(),
            all == attendees::pairs_of(pairs@),
            model::texts(out@) == schedules_of(*account, all, i as int),
        decreases pairs@.len() - i,
    {
        let addr = &pairs[i].1;
        assert(all[i as int].1 == addr@);
        if text::chars_of(addr.as_str()).len() > 0 && !model::contains_text(&out, addr) {
            let ghost before = out@;
            out.push(addr.clone());
            proof {
                model::lemma_texts_push(before, out@.last());
            }
        }
        i += 1;
    }
    out
}

fn day_of_form(start: &str, now: LocalDateTime) -> (r: String)
    ensures
        r@ == free_busy_day(start@, now),
{
    if let Some(d) = text::get_bytes(start, 0, 10) {
        let b = d.as_str().as_bytes();
        if b.len() > 4 && b[4] == 0x2d {
            return d;
        }
    }
    calendar::date_text(now.year as i128, now.month, now.day)
}

fn time_of_day(day: &String, time: &str, clock: Clock) -> (r: String)
    requires
        clock.wf(),
    ensures
        r@ == free_busy_time(day@, time@, clock),
{
    let mut s = day.clone();
    s.append(time);
    match datetime::parse_start(s.as_str(), clock.now, clock.offset) {
        Some(t) => t,
        None => String::new(),
    }
}

impl App {
    /// Asks for the availability of the attendees, and one's own, on the day of
    /// the form's start, and opens the grid.
    pub fn open_free_busy(&mut self, clock: Clock)
        requires
            clock.wf(),
        ensures
            free_busy_opened(*old(self), *final(self), clock),
            old(self).rows_in_step() ==> final(self).rows_in_step(),
    {
        let (asked, day): (Vec<String>, String) = match &self.event_form {
            None => {
                return;
            },
            Some(form) => {
                let pairs = attendees::parse_attendee_pairs(form.attendees.as_str());
                (schedules(&self.account, &pairs), day_of_form(form.start.as_str(), clock.now))
            },
        };
        let start_utc = time_of_day(&day, " 08:00", clock);
        let end_utc = time_of_day(&day, " 18:00", clock);
        let (y, m, d) = agenda::date_of_utc(start_utc.as_str());
        let ghost (v, s, e) = (asked, start_utc, end_utc);
        self.send(
            SyncCommand::FetchSchedule { schedules: asked, start_utc, end_utc, interval_minutes: 30 },
        );
        self.free_busy = Some(
            FreeBusyView {
                day_label: agenda::day_label(y, m, d),
                slot_count: 20,
                entries: Vec::new(),
                loading: true,
            },
        );
        assert(self.actions@.last() == fetch_schedule(v, s, e));
    }

    /// Closes the availability grid.
    pub fn close_free_busy(&mut self)
        ensures
            *final(self) == (App { free_busy: None, ..*old(self) }),
            old(self).rows_in_step() ==> final(self).rows_in_step(),
    {
        self.free_busy = None;
    }
}

// ---------------------------------------------------------------------------
// Laws
// ---------------------------------------------------------------------------


/// Switching twice between mail and calendar leads back.
pub proof fn switching_twice_leads_back(pre: App, mid: App, post: App)
    requires
        mode_set(pre, mid, other_mode(pre.mode)),
        mode_set(mid, post, other_mode(mid.mode)),
    ensures
        post.mode == pre.mode,
{
}

/// Only declining and accepting tentatively can propose another time.
pub proof fn accepting_proposes_nothing(p: RsvpPrompt, clock: Clock)
    requires
        p.kind@ == "accepted"@,
    ensures
        proposal(p, clock) == Ok::<Option<(Seq<char>, Seq<char>)>, ()>(None),
{
    reveal_strlit("accepted");
    reveal_strlit("declined");
    reveal_strlit("tentativelyAccepted");
    assert("accepted"@[0] == 'a' && "declined"@[0] == 'd' && "tentativelyAccepted"@[0] == 't');
}

/// A window that is proposed ends after it starts.
pub proof fn proposed_windows_end_after_they_start(
    p: RsvpPrompt,
    clock: Clock,
    start: Seq<char>,
    end: Seq<char>,
)
    requires
        proposal(p, clock) == Ok::<Option<(Seq<char>, Seq<char>)>, ()>(Some((start, end))),
    ensures
        !text::text_le(end, start),
{
}

/// Nobody's availability is asked for twice.
pub proof fn nobody_is_asked_twice(account: Option<String>, pairs: Seq<attendees::Pair>, n: int)
    ensures
        schedules_of(account, pairs, n).no_duplicates(),
    decreases n,
{
    if n > 0 {
        nobody_is_asked_twice(account, pairs, n - 1);
    }
}

}
