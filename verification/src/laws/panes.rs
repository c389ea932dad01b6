//! What the keys do in the other panes and in what lies over them.

use crate::app::attachments;
use crate::app::calendar;
use crate::app::events;
use crate::app::folders;
use crate::app::forms;
use crate::app::keys;
use crate::app::navigate;
use crate::app::overlays;
use crate::app::reading;
use crate::app::reminders;
use crate::app::search;
use crate::app::{
    Action, App, Clock, ConfirmAction, Key, KeyCode, Mode, Pane, RsvpField, RsvpPrompt, RsvpTarget,
    SearchState, SignInModal,
};
use crate::cli;
use crate::laws::mail::{has_the_keys, struck, typed};
use crate::model;
use crate::model::{AttachmentKind, EventRow, OofStatus, SyncCommand};
use crate::text;
use crate::ui::eventform::EventField;
use crate::ui::linkprompt;
use crate::ui::oofform::{OofField, OofForm};
use crate::ui::ribbon::Focus;
use vstd::prelude::*;

verus! {

// ---------------------------------------------------------------------------
// The calendar
// ---------------------------------------------------------------------------

/// The agenda has the keys: nothing lies over it.
pub open spec fn agenda_has_the_keys(a: App) -> bool {
    &&& a.mode == Mode::Calendar
    &&& a.focus != Pane::Rail
    &&& a.signin_modal is None
    &&& !a.help
    &&& a.backstage is None
    &&& a.link_prompt is None
    &&& a.ribbon_focus == Focus::Off
    &&& a.oof_form is None
    &&& a.rsvp_prompt is None
    &&& a.free_busy is None
    &&& a.category_picker is None
    &&& a.file_picker is None
    &&& a.compose is None
    &&& a.event_form is None
    &&& a.confirm is None
    &&& a.search is None
    &&& a.reminder_queue@.len() == 0
}

proof fn lemma_agenda_key(pre: App, post: App, key: Key, clock: Clock)
    requires
        keys::pressed(pre, post, key, clock),
        agenda_has_the_keys(pre),
        !key.ctrl,
        key.code != KeyCode::Char('q'),
        key.code != KeyCode::Char('?'),
        key.code != KeyCode::F(1),
        key.code != KeyCode::F(9),
    ensures
        ({
            let seen = App { error_notice: None, ..pre };
            keys::done(seen, post, keys::calendar_command(key.code), key, clock)
        }),
{
    let seen = App { error_notice: None, ..pre };
    assert(keys::command_of(seen, key) == keys::popup_command(seen, key));
    assert(keys::popup_command(seen, key) == keys::mode_command(seen, key));
    assert(keys::mode_command(seen, key) == keys::calendar_command(key.code));
}

/// `a`, `d` and `t` answer the event under the cursor: each asks for what goes
/// with its own kind of answer.
pub proof fn events_are_answered_by_their_keys(
    pre: App,
    post: App,
    c: char,
    clock: Clock,
    e: EventRow,
)
    requires
        keys::pressed(pre, post, typed(c), clock),
        agenda_has_the_keys(pre),
        pre.agenda_index < pre.agenda@.len(),
        e == pre.agenda@[pre.agenda_index as int],
        c == 'a' || c == 'd' || c == 't',
    ensures
        post.actions == pre.actions,
        post.rsvp_prompt matches Some(p) && {
            &&& p.target == RsvpTarget::Event(e.id)
            &&& p.comment@.len() == 0 && p.proposed_start@.len() == 0 && p.proposed_end@.len() == 0
            &&& c == 'a' ==> p.kind@ == "accepted"@ && p.focus == RsvpField::Comment
            &&& c == 'd' ==> p.kind@ == "declined"@ && p.focus == RsvpField::ProposedStart
            &&& c == 't' ==> p.kind@ == "tentativelyAccepted"@ && p.focus
                == RsvpField::ProposedStart
        },
{
    lemma_agenda_key(pre, post, typed(c), clock);
    reveal_strlit("accepted");
    reveal_strlit("declined");
    reveal_strlit("tentativelyAccepted");
    assert("accepted"@[0] == 'a' && "declined"@[0] == 'd' && "tentativelyAccepted"@[0] == 't');
}

/// In the agenda, the cursor moves by one and stops at the ends; Enter opens the
/// event under it; `g` and Esc lead back to the mail.
pub proof fn agenda_keys_move_and_open(pre: App, post: App, key: Key, clock: Clock)
    requires
        keys::pressed(pre, post, key, clock),
        agenda_has_the_keys(pre),
        pre.agenda_index < pre.agenda@.len(),
    ensures
        key == struck(KeyCode::Down) || key == typed('j') ==> post.agenda_index == (
        if pre.agenda_index + 1 < pre.agenda@.len() {
            pre.agenda_index + 1
        } else {
            pre.agenda_index as int
        }),
        key == struck(KeyCode::Up) || key == typed('k') ==> post.agenda_index == (
        if pre.agenda_index > 0 {
            pre.agenda_index - 1
        } else {
            0
        }),
        key == struck(KeyCode::Enter) ==> post.selected_event == Some(
            pre.agenda@[pre.agenda_index as int].id,
        ),
        key == struck(KeyCode::Esc) || key == typed('g') ==> post.mode == Mode::Mail
            && post.actions == pre.actions,
{
    if key == struck(KeyCode::Down) || key == typed('j') || key == struck(KeyCode::Up) || key
        == typed('k') || key == struck(KeyCode::Enter) || key == struck(KeyCode::Esc) || key
        == typed('g') {
        lemma_agenda_key(pre, post, key, clock);
        assert(pre.agenda@.len() == pre.agenda.len());
    }
}

/// `c` opens an empty form, and `e` and `x` ask about the event under the cursor,
/// unless it is one of a series.
pub proof fn agenda_keys_change_events(
    pre: App,
    post: App,
    c: char,
    clock: Clock,
    e: EventRow,
)
    requires
        keys::pressed(pre, post, typed(c), clock),
        agenda_has_the_keys(pre),
        pre.selected_event is None,
        pre.agenda_index < pre.agenda@.len(),
        e == pre.agenda@[pre.agenda_index as int],
        forall|j: int|
            0 <= j < pre.agenda_index ==> (#[trigger] pre.agenda@[j]).id@ != e.id@,
    ensures
        c == 'c' ==> (post.event_form matches Some(f) && f.editing_id is None && f.title@.len() == 0
            && !f.all_day && f.repeat is None && f.focus == EventField::Title),
        c == 'e' && e.series_master_id is None ==> post.actions@ == pre.actions@.push(
            Action::ReadEvent { id: e.id },
        ),
        c == 'e' && e.series_master_id is Some ==> post.actions == pre.actions
            && post.error_notice is Some,
        c == 'x' && e.series_master_id is None ==> post.actions == pre.actions && (
        post.confirm matches Some(modal) && modal.action == ConfirmAction::DeleteEvent(e.id)),
        c == 'x' && e.series_master_id is Some ==> post.actions == pre.actions && post.confirm
            is None && post.error_notice is Some,
{
    if c == 'c' || c == 'e' || c == 'x' {
        lemma_agenda_key(pre, post, typed(c), clock);
        lemma_event_at(pre.agenda@, pre.agenda_index as int);
    }
}

proof fn lemma_event_at(v: Seq<EventRow>, i: int)
    requires
        0 <= i < v.len(),
        forall|j: int| 0 <= j < i ==> (#[trigger] v[j]).id@ != v[i].id@,
    ensures
        crate::ui::agenda::event_at(v, v[i].id@) == i,
    decreases i,
{
    if i > 0 {
        assert(v[0].id@ != v[i].id@);
        let w = v.skip(1);
        assert forall|j: int| 0 <= j < i - 1 implies (#[trigger] w[j]).id@ != w[i - 1].id@ by {
            assert(w[j] == v[j + 1]);
        }
        lemma_event_at(w, i - 1);
    }
}

/// `g` in the mail's panes does not switch; the rail does: up is the mail, down the
/// calendar, which is then read and refreshed.
pub proof fn the_rail_switches(pre: App, post: App, clock: Clock, down: bool)
    requires
        keys::pressed(
            pre,
            post,
            struck(
                if down {
                    KeyCode::Down
                } else {
                    KeyCode::Up
                },
            ),
            clock,
        ),
        has_the_keys(pre, Pane::Rail),
    ensures
        down ==> post.mode == Mode::Calendar && post.actions@ == pre.actions@.push(
            Action::ReadAgenda,
        ).push(Action::Send(SyncCommand::RefreshCalendar)),
        !down ==> post.mode == Mode::Mail && post.actions == pre.actions,
{
    let key = struck(
        if down {
            KeyCode::Down
        } else {
            KeyCode::Up
        },
    );
    let seen = App { error_notice: None, ..pre };
    assert(keys::command_of(seen, key) == keys::rail_command(key.code));
}

/// A new event starts at the next full hour, or now where the hour is full, and
/// lasts an hour.
pub proof fn new_events_start_at_the_next_hour(pre: App, post: App, clock: Clock)
    requires
        events::new_event_opened(pre, post, clock),
        clock.now.hour < 22,
        crate::datetime::is_instant(clock.now),
    ensures
        post.event_form matches Some(f) && {
            let (y, m, d) = (
                clock.now.year as int,
                clock.now.month as int,
                clock.now.day as int,
            );
            let h = if clock.now.min == 0 {
                clock.now.hour as int
            } else {
                clock.now.hour + 1
            };
            &&& f.start@ == crate::ui::calendar::iso_date(y, m, d) + " "@ + text::padded(h, 2)
                + ":"@ + text::padded(0, 2)
            &&& f.end@ == crate::ui::calendar::iso_date(y, m, d) + " "@ + text::padded(h + 1, 2)
                + ":"@ + text::padded(0, 2)
        },
{
    let (y, m, d) = (clock.now.year as int, clock.now.month as int, clock.now.day as int);
    let h = if clock.now.min == 0 {
        clock.now.hour as int
    } else {
        clock.now.hour + 1
    };
    let z = crate::ui::calendar::day_number(y, m, d);
    crate::ui::calendar::day_number_is_inverse_of_civil(y, m, d);
    assert(events::next_hour(clock.now) == z * 1440 + h * 60);
    lemma_full_hour(z, h);
    lemma_full_hour(z, h + 1);
}

proof fn lemma_full_hour(z: int, h: int)
    requires
        0 <= h < 24,
    ensures
        (z * 1440 + h * 60) / 1440 == z,
        ((z * 1440 + h * 60) % 1440) / 60 == h,
        (z * 1440 + h * 60) % 60 == 0,
{
    vstd::arithmetic::div_mod::lemma_fundamental_div_mod_converse(
        z * 1440 + h * 60,
        1440,
        z,
        h * 60,
    );
    vstd::arithmetic::div_mod::lemma_fundamental_div_mod_converse(
        z * 1440 + h * 60,
        60,
        z * 24 + h,
        0,
    );
}

// ---------------------------------------------------------------------------
// Answers that are typed
// ---------------------------------------------------------------------------

/// What is typed into the prompt goes to the field with the focus, and Backspace
/// takes it away again.
pub proof fn typing_an_answer_is_undone_by_backspace(pre: App, mid: App, post: App, c: char)
    requires
        pre.rsvp_prompt is Some,
        calendar::rsvp_typed(pre, mid, seq![c]),
        calendar::rsvp_backspaced(mid, post),
    ensures
        ({
            let (p, q, r) = (pre.rsvp_prompt->0, mid.rsvp_prompt->0, post.rsvp_prompt->0);
            &&& mid.rsvp_prompt is Some && post.rsvp_prompt is Some
            &&& r.comment@ == p.comment@ && r.proposed_start@ == p.proposed_start@
                && r.proposed_end@ == p.proposed_end@ && r.kind == p.kind && r.target == p.target
            &&& p.focus == RsvpField::Comment ==> q.comment@ == p.comment@.push(c)
                && q.proposed_start == p.proposed_start && q.proposed_end == p.proposed_end
            &&& p.focus == RsvpField::ProposedStart ==> q.proposed_start@
                == p.proposed_start@.push(c) && q.comment == p.comment && q.proposed_end
                == p.proposed_end
            &&& p.focus == RsvpField::ProposedEnd ==> q.proposed_end@ == p.proposed_end@.push(c)
                && q.comment == p.comment && q.proposed_start == p.proposed_start
        }),
{
    let p = pre.rsvp_prompt->0;
    assert(p.comment@ + seq![c] =~= p.comment@.push(c));
    assert(p.proposed_start@ + seq![c] =~= p.proposed_start@.push(c));
    assert(p.proposed_end@ + seq![c] =~= p.proposed_end@.push(c));
    assert(p.comment@.push(c).drop_last() =~= p.comment@);
    assert(p.proposed_start@.push(c).drop_last() =~= p.proposed_start@);
    assert(p.proposed_end@.push(c).drop_last() =~= p.proposed_end@);
}

/// Tab goes round the three fields of an answer that can propose, and stays on
/// the comment of one that cannot.
pub proof fn answer_fields_cycle(a: App, b: App, c: App, d: App)
    requires
        a.rsvp_prompt is Some,
        calendar::rsvp_cycled(a, b),
        calendar::rsvp_cycled(b, c),
        calendar::rsvp_cycled(c, d),
    ensures
        a.rsvp_prompt->0.kind@ == "declined"@ ==> d == a && b.rsvp_prompt->0.focus
            != a.rsvp_prompt->0.focus && c.rsvp_prompt->0.focus != a.rsvp_prompt->0.focus
            && c.rsvp_prompt->0.focus != b.rsvp_prompt->0.focus,
        a.rsvp_prompt->0.kind@ == "accepted"@ ==> b.rsvp_prompt->0.focus == RsvpField::Comment,
{
    reveal_strlit("accepted");
    reveal_strlit("declined");
    reveal_strlit("tentativelyAccepted");
    assert("accepted"@[0] == 'a' && "declined"@[0] == 'd' && "tentativelyAccepted"@[0] == 't');
}

// ---------------------------------------------------------------------------
// The forms
// ---------------------------------------------------------------------------

/// What is typed into the replies editor goes to the field with the focus, and
/// Backspace takes it away again.
pub proof fn typing_a_reply_is_undone_by_backspace(
    pre: App,
    mid: App,
    post: App,
    c: char,
    clock: Clock,
)
    requires
        pre.oof_form is Some,
        forms::oof_keyed(pre, mid, typed(c), clock),
        forms::oof_keyed(mid, post, struck(KeyCode::Backspace), clock),
        pre.oof_form->0.focus != OofField::Status,
        pre.oof_form->0.focus != OofField::Audience,
    ensures
        ({
            let (f, g, h) = (pre.oof_form->0, mid.oof_form->0, post.oof_form->0);
            &&& mid.oof_form is Some && post.oof_form is Some
            &&& h.start@ == f.start@ && h.end@ == f.end@ && h.internal@ == f.internal@
                && h.external@ == f.external@ && h.status == f.status && h.audience == f.audience
            &&& f.focus == OofField::Start ==> g.start@ == f.start@.push(c) && g.end == f.end
                && g.internal == f.internal && g.external == f.external
            &&& f.focus == OofField::End ==> g.end@ == f.end@.push(c) && g.start == f.start
                && g.internal == f.internal && g.external == f.external
            &&& f.focus == OofField::Internal ==> g.internal@ == f.internal@.push(c) && g.external
                == f.external && g.start == f.start && g.end == f.end
            &&& f.focus == OofField::External ==> g.external@ == f.external@.push(c) && g.internal
                == f.internal && g.start == f.start && g.end == f.end
        }),
{
    let f = pre.oof_form->0;
    assert(f.start@.push(c).drop_last() =~= f.start@);
    assert(f.end@.push(c).drop_last() =~= f.end@);
    assert(f.internal@.push(c).drop_last() =~= f.internal@);
    assert(f.external@.push(c).drop_last() =~= f.external@);
}

/// Ctrl-S hands the settings on as they stand in the editor; scheduled replies
/// need a window that ends after it starts.
pub proof fn replies_are_saved_as_they_stand(pre: App, post: App, clock: Clock, f: OofForm)
    requires
        forms::oof_keyed(
            pre,
            post,
            Key { code: KeyCode::Char('s'), ctrl: true, shift: false },
            clock,
        ),
        pre.oof_form == Some(f),
    ensures
        f.status != OofStatus::Scheduled ==> {
            &&& post.oof_form == pre.oof_form
            &&& post.actions@.len() == pre.actions@.len() + 1
            &&& post.actions@.last() matches Action::Send(
                SyncCommand::SetAutomaticReplies { replies },
            ) && replies.status == f.status && replies.external_audience == f.audience
                && replies.internal_message == f.internal && replies.external_message == f.external
        },
        post.actions != pre.actions ==> {
            &&& post.actions@.len() == pre.actions@.len() + 1
            &&& post.actions@.last() matches Action::Send(
                SyncCommand::SetAutomaticReplies { replies },
            ) && replies.status == f.status && replies.external_audience == f.audience
                && replies.internal_message == f.internal && replies.external_message == f.external
                && (f.status == OofStatus::Scheduled ==> !text::text_le(
                replies.scheduled_end_utc@,
                replies.scheduled_start_utc@,
            ))
        },
        post.actions == pre.actions ==> (post.oof_form matches Some(g) && g.error is Some
            && g.internal == f.internal && g.external == f.external && g.start == f.start && g.end
            == f.end && g.status == f.status && g.audience == f.audience),
{
}

/// What is typed into the event form goes to the field with the focus, and
/// Backspace takes it away again.
pub proof fn typing_an_event_is_undone_by_backspace(
    pre: App,
    mid: App,
    post: App,
    c: char,
    clock: Clock,
)
    requires
        pre.event_form is Some,
        forms::event_keyed(pre, mid, typed(c), clock),
        forms::event_keyed(mid, post, struck(KeyCode::Backspace), clock),
        pre.event_form->0.focus != EventField::AllDay,
    ensures
        ({
            let (f, g, h) = (pre.event_form->0, mid.event_form->0, post.event_form->0);
            &&& mid.event_form is Some && post.event_form is Some
            &&& h.title@ == f.title@ && h.start@ == f.start@ && h.end@ == f.end@ && h.location@
                == f.location@ && h.attendees@ == f.attendees@ && h.body@ == f.body@ && h.all_day
                == f.all_day && g.all_day == f.all_day
            &&& f.focus == EventField::Title ==> g.title@ == f.title@.push(c)
            &&& f.focus == EventField::Start ==> g.start@ == f.start@.push(c)
            &&& f.focus == EventField::End ==> g.end@ == f.end@.push(c)
            &&& f.focus == EventField::Location ==> g.location@ == f.location@.push(c)
            &&& f.focus == EventField::Attendees ==> g.attendees@ == f.attendees@.push(c)
            &&& f.focus == EventField::Body ==> g.body@ == f.body@.push(c)
            &&& f.focus != EventField::Title ==> g.title == f.title
            &&& f.focus != EventField::Start ==> g.start == f.start
            &&& f.focus != EventField::End ==> g.end == f.end
            &&& f.focus != EventField::Location ==> g.location == f.location
            &&& f.focus != EventField::Attendees ==> g.attendees == f.attendees
            &&& f.focus != EventField::Body ==> g.body == f.body
        }),
{
    let f = pre.event_form->0;
    assert(f.title@.push(c).drop_last() =~= f.title@);
    assert(f.start@.push(c).drop_last() =~= f.start@);
    assert(f.end@.push(c).drop_last() =~= f.end@);
    assert(f.location@.push(c).drop_last() =~= f.location@);
    assert(f.attendees@.push(c).drop_last() =~= f.attendees@);
    assert(f.body@.push(c).drop_last() =~= f.body@);
}

/// Space on the all-day mark turns it on and off; no other key does.
pub proof fn space_toggles_all_day(pre: App, post: App, key: Key, clock: Clock)
    requires
        pre.event_form is Some,
        forms::event_keyed(pre, post, key, clock),
    ensures
        key == typed(' ') && pre.event_form->0.focus == EventField::AllDay ==> (
        post.event_form matches Some(g) && g.all_day == !pre.event_form->0.all_day),
        post.event_form matches Some(g) && g.all_day != pre.event_form->0.all_day ==> key.code
            == KeyCode::Char(' ') && pre.event_form->0.focus == EventField::AllDay,
{
}

// ---------------------------------------------------------------------------
// Going left and right
// ---------------------------------------------------------------------------

/// Esc and Left lead from the reader to the list, and from the list to the
/// folders.
pub proof fn left_leads_to_the_folders(pre: App, post: App, clock: Clock, esc: bool)
    requires
        keys::pressed(
            pre,
            post,
            struck(
                if esc {
                    KeyCode::Esc
                } else {
                    KeyCode::Left
                },
            ),
            clock,
        ),
        has_the_keys(pre, Pane::List) || has_the_keys(pre, Pane::Reading),
    ensures
        pre.focus == Pane::Reading ==> post.focus == Pane::List,
        pre.focus == Pane::List ==> post.focus == Pane::Folders,
        post.actions == pre.actions,
{
    let key = struck(
        if esc {
            KeyCode::Esc
        } else {
            KeyCode::Left
        },
    );
    let seen = App { error_notice: None, ..pre };
    assert(keys::command_of(seen, key) == keys::mode_command(seen, key));
    assert(keys::mode_command(seen, key) == keys::pane_command(seen, key));
    assert(keys::pane_command(seen, key) == keys::any_pane_command(pre.focus, key.code));
}

/// In the folder pane, down and up move by one, round the ends; the folder under
/// the cursor is the selected one, and its messages are read from the top.
pub proof fn folders_are_selected_by_moving(pre: App, post: App, delta: int)
    requires
        navigate::selection_moved(pre, post, delta),
        pre.focus == Pane::Folders,
        pre.folder_index < pre.visible_folders@.len(),
        delta == 1 || delta == -1,
        !pre.threaded,
    ensures
        ({
            let last = pre.visible_folders@.len() - 1;
            &&& delta == 1 && pre.folder_index < last ==> post.folder_index == pre.folder_index + 1
            &&& delta == 1 && pre.folder_index == last ==> post.folder_index == 0
            &&& delta == -1 && pre.folder_index > 0 ==> post.folder_index == pre.folder_index - 1
            &&& delta == -1 && pre.folder_index == 0 ==> post.folder_index == last
        }),
        post.folder_index < pre.visible_folders@.len(),
        post.selected_folder == Some(pre.visible_folders@[post.folder_index as int].row.id),
        post.msg_index == 0,
        post.row_index == 0,
        post.actions@ == pre.actions@.push(
            Action::ReadMessages {
                folder: pre.visible_folders@[post.folder_index as int].row.id,
                limit: 200,
            },
        ),
{
    let n = pre.visible_folders@.len() as int;
    assert(n == pre.visible_folders.len());
    let i = pre.folder_index as int;
    lemma_round(i, n);
}

/// One step on and one step back, round the ends of `n`.
proof fn lemma_round(i: int, n: int)
    requires
        0 <= i < n,
    ensures
        (i + 1) % n == (if i + 1 < n {
            i + 1
        } else {
            0
        }),
        (i + -1) % n == (if i > 0 {
            i - 1
        } else {
            n - 1
        }),
{
    assert(i + 1 == n ==> (i + 1) % n == 0) by (nonlinear_arith)
        requires
            n > 0,
    ;
    if i + 1 < n {
        vstd::arithmetic::div_mod::lemma_small_mod((i + 1) as nat, n as nat);
    }
    if i > 0 {
        vstd::arithmetic::div_mod::lemma_small_mod((i - 1) as nat, n as nat);
    } else {
        vstd::arithmetic::div_mod::lemma_mod_add_multiples_vanish(-1, n);
        vstd::arithmetic::div_mod::lemma_small_mod((n - 1) as nat, n as nat);
    }
}

/// A folder that is expanded, or collapsed, is so from then on; the others stay
/// as they are, and the choice is stored.
pub proof fn folders_expand_and_collapse(pre: App, post: App, i: int)
    requires
        folders::folder_toggled(pre, post),
        pre.folder_index < pre.visible_folders@.len(),
        pre.visible_folders@[pre.folder_index as int].has_children,
        0 <= i < pre.folders@.len(),
        pre.folders@[i].id == pre.visible_folders@[pre.folder_index as int].row.id,
        forall|j: int|
            0 <= j < pre.folders@.len() && j != i ==> (#[trigger] pre.folders@[j]).id@
                != pre.folders@[i].id@,
    ensures
        ({
            let v = pre.visible_folders@[pre.folder_index as int];
            &&& post.folders@.len() == pre.folders@.len()
            &&& post.folders@[i].is_expanded == !v.expanded
            &&& post.folders@[i].id == pre.folders@[i].id
            &&& forall|j: int|
                0 <= j < pre.folders@.len() && j != i ==> #[trigger] post.folders@[j]
                    == pre.folders@[j]
            &&& post.actions@ == pre.actions@.push(
                Action::SetFolderExpanded { id: v.row.id, expanded: !v.expanded },
            )
            &&& post.visible_folders@ == crate::ui::foldertree::visible(post.folders@)
        }),
{
    lemma_row_at(pre.folders@, i);
}

proof fn lemma_row_at(v: Seq<model::FolderRow>, i: int)
    requires
        0 <= i < v.len(),
        forall|j: int| 0 <= j < i ==> (#[trigger] v[j]).id@ != v[i].id@,
    ensures
        folders::row_at(v, v[i].id@) == i,
    decreases i,
{
    if i > 0 {
        assert(v[0].id@ != v[i].id@);
        let w = v.skip(1);
        assert forall|j: int| 0 <= j < i - 1 implies (#[trigger] w[j]).id@ != w[i - 1].id@ by {
            assert(w[j] == v[j + 1]);
        }
        lemma_row_at(w, i - 1);
    }
}

// ---------------------------------------------------------------------------
// Search
// ---------------------------------------------------------------------------

/// What is typed into the search is appended, Backspace takes it away again, and
/// Enter asks for what was typed.
pub proof fn searches_ask_for_what_was_typed(
    pre: App,
    mid: App,
    back: App,
    asked: App,
    s: SearchState,
    c: char,
)
    requires
        pre.search == Some(s),
        search::query_typed(pre, mid, seq![c]),
        search::query_backspaced(mid, back),
        search::search_asked(mid, asked),
    ensures
        mid.search matches Some(q) && q.query@ == s.query@.push(c) && q.results == s.results,
        back.search matches Some(q) && q.query@ == s.query@,
        asked.actions@.len() == mid.actions@.len() + 1,
        asked.actions@.last() matches Action::Search { query, limit } && query@ == s.query@.push(c)
            && limit == 200,
{
    assert(s.query@ + seq![c] =~= s.query@.push(c));
    assert(s.query@.push(c).drop_last() =~= s.query@);
}

// ---------------------------------------------------------------------------
// Attachments
// ---------------------------------------------------------------------------

/// A file among the attachments is saved under its own name, made safe, in the
/// directory for downloads; it is opened afterwards only where that was asked
/// for.
pub proof fn files_are_saved_among_the_downloads(pre: App, post: App, open_after: bool)
    requires
        attachments::save_begun(pre, post, open_after),
        pre.attachments matches Some(p) && p.index < p.items@.len() && p.items@[p.index as int].kind
            == AttachmentKind::File,
        attachments::distinct(pre.pending_saves@),
    ensures
        ({
            let p = pre.attachments->0;
            let a = p.items@[p.index as int];
            let to = cli::below(
                pre.downloads@,
                crate::app::names::safe_name(a.name@),
                pre.separator,
            );
            &&& post.actions@.len() == pre.actions@.len() + 1
            &&& post.actions@.last() matches Action::Send(
                SyncCommand::SaveAttachment { message_id, attachment_id, dest },
            ) && message_id == p.message_id && attachment_id == a.id && dest@ == to
            &&& exists|i: int|
                0 <= i < post.pending_saves@.len() && (#[trigger] post.pending_saves@[i]).0@ == to
                    && post.pending_saves@[i].1 == open_after
        }),
{
    let p = pre.attachments->0;
    let a = p.items@[p.index as int];
    let to = cli::below(pre.downloads@, crate::app::names::safe_name(a.name@), pre.separator);
    let v = pre.pending_saves@;
    let i = attachments::save_at(v, to);
    lemma_save_at(v, to);
    if i < v.len() {
        assert(post.pending_saves@[i].0@ == to);
    } else {
        assert(post.pending_saves@[post.pending_saves@.len() - 1].0@ == to);
    }
}

proof fn lemma_save_at(v: Seq<(String, bool)>, path: Seq<char>)
    ensures
        0 <= attachments::save_at(v, path) <= v.len(),
        attachments::save_at(v, path) < v.len() ==> v[attachments::save_at(v, path)].0@ == path,
    decreases v.len(),
{
    if v.len() > 0 && v[0].0@ != path {
        lemma_save_at(v.skip(1), path);
    }
}

/// A link among the attachments is opened only where it leads to the web; nothing
/// is saved for it.
pub proof fn attached_links_lead_to_the_web(pre: App, post: App, open_after: bool, url: String)
    requires
        attachments::save_begun(pre, post, open_after),
        pre.attachments matches Some(p) && p.index < p.items@.len() && p.items@[p.index as int].kind
            == AttachmentKind::Reference && p.items@[p.index as int].source_url == Some(url),
    ensures
        post.pending_saves == pre.pending_saves,
        linkprompt::has_web_scheme(text::trim_start(url@)) ==> post.actions@ == pre.actions@.push(
            Action::OpenPath(url),
        ) && post.attachments is None,
        !linkprompt::has_web_scheme(text::trim_start(url@)) ==> post.actions == pre.actions
            && post.attachments == pre.attachments,
{
}

/// Once a file is saved it is opened where that was asked for, and the save is no
/// longer under way.
pub proof fn saved_files_open_where_asked(pre: App, post: App, path: String, i: int)
    requires
        attachments::save_ended(pre, post, path),
        attachments::distinct(pre.pending_saves@),
        0 <= i < pre.pending_saves@.len(),
        pre.pending_saves@[i].0@ == path@,
    ensures
        pre.pending_saves@[i].1 ==> post.actions@ == pre.actions@.push(Action::OpenPath(path)),
        !pre.pending_saves@[i].1 ==> post.actions@ == pre.actions@,
        post.pending_saves@ == pre.pending_saves@.remove(i),
        model::text_of(post.attachment_notice) == Some("Saved: "@ + path@),
{
    lemma_save_at(pre.pending_saves@, path@);
    let k = attachments::save_at(pre.pending_saves@, path@);
    lemma_save_found(pre.pending_saves@, path@, i);
    if k != i {
        assert(pre.pending_saves@[k].0@ != pre.pending_saves@[i].0@);
    }
}

proof fn lemma_save_found(v: Seq<(String, bool)>, path: Seq<char>, i: int)
    requires
        0 <= i < v.len(),
        v[i].0@ == path,
    ensures
        attachments::save_at(v, path) <= i,
    decreases v.len(),
{
    if v[0].0@ != path {
        assert(v.skip(1)[i - 1] == v[i]);
        lemma_save_found(v.skip(1), path, i - 1);
    }
}

// ---------------------------------------------------------------------------
// The reader
// ---------------------------------------------------------------------------

/// The reader scrolls by as many rows as asked, and stops at the ends of the
/// body; scrolling on and back by the same within the body leads back.
pub proof fn scrolling_back_leads_back(pre: App, mid: App, post: App, delta: int)
    requires
        reading::scrolled_by(pre, mid, delta),
        reading::scrolled_by(mid, post, -delta),
        0 <= pre.reading_scroll + delta,
        pre.reading_scroll + delta + pre.reading_viewport <= pre.reading_content_rows,
        pre.reading_scroll + pre.reading_viewport <= pre.reading_content_rows,
    ensures
        mid.reading_scroll == pre.reading_scroll + delta,
        post.reading_scroll == pre.reading_scroll,
{
}

/// A message that is opened is shown from its top, with nothing left of the one
/// before.
pub proof fn opening_starts_afresh(pre: App, post: App, id: String)
    requires
        reading::message_opened(pre, post, id),
    ensures
        post.selected_msg == Some(id),
        post.reading_scroll == 0,
        post.focused_link is None,
        post.body_links@.len() == 0,
        post.inline_images@.len() == 0,
        post.requested_inline@.len() == 0,
        !post.inline_attachments_requested,
        post.actions@ == pre.actions@.push(Action::ClearImages).push(Action::ReadBody { id }),
        post.messages == pre.messages,
        post.msg_index == pre.msg_index,
{
}

/// A body that the store lacks is fetched; one that it holds is shown.
pub proof fn bodies_are_shown_or_fetched(pre: App, post: App, id: String, b: model::Body)
    ensures
        reading::body_shown(pre, post, id, reading::BodyRead::Missing) ==> post.body_loading
            && post.body is None && post.actions@ == pre.actions@.push(
            Action::Send(SyncCommand::FetchBody { id }),
        ),
        reading::body_shown(pre, post, id, reading::BodyRead::Found(b)) ==> !post.body_loading
            && post.body == Some(b),
        reading::body_shown(pre, post, id, reading::BodyRead::Failed) ==> !post.body_loading
            && post.body is None && post.actions == pre.actions,
{
}

/// Links are gone through one by one, round the ends; the first step on is to the
/// first link, the first step back to the last.
pub proof fn links_are_gone_through(pre: App, post: App, delta: int)
    requires
        overlays::link_focused(pre, post, delta),
        pre.body_links@.len() > 0,
        delta == 1 || delta == -1,
        pre.focused_link matches Some(i) ==> i < pre.body_links@.len(),
    ensures
        ({
            let last = pre.body_links@.len() - 1;
            &&& pre.focused_link is None && delta == 1 ==> post.focused_link == Some(0usize)
            &&& pre.focused_link is None && delta == -1 ==> post.focused_link == Some(last as usize)
            &&& pre.focused_link matches Some(i) ==> (post.focused_link matches Some(j) && {
                &&& delta == 1 && i < last ==> j == i + 1
                &&& delta == 1 && i == last ==> j == 0
                &&& delta == -1 && i > 0 ==> j == i - 1
                &&& delta == -1 && i == 0 ==> j == last
            })
        }),
{
    let n = pre.body_links@.len() as int;
    assert(n == pre.body_links.len());
    if pre.focused_link is Some {
        lemma_round(pre.focused_link->0 as int, n);
    }
}

/// Enter on a link asks about the link that has the focus, and about no other.
pub proof fn the_focused_link_is_asked_about(pre: App, post: App, i: usize)
    requires
        overlays::link_asked(pre, post),
        pre.focused_link == Some(i),
        i < pre.body_links@.len(),
    ensures
        post.link_prompt matches Some(p) && p.url == pre.body_links@[i as int].url && !p.parsed,
        post.actions == pre.actions,
{
}

// ---------------------------------------------------------------------------
// What lies over the panes
// ---------------------------------------------------------------------------

/// The menu runs from the replies over the settings to the end, and its keys do
/// what the item under the cursor says.
pub proof fn the_menu_does_what_it_says(pre: App, post: App, code: KeyCode)
    requires
        overlays::backstage_keyed(pre, post, code),
        pre.backstage matches Some(bs) && !bs.in_settings && bs.sel < 3,
    ensures
        ({
            let bs = pre.backstage->0;
            &&& code == KeyCode::Enter && bs.sel == 0 ==> post.backstage is None && (
            post.oof_form matches Some(f) && f.loading) && post.actions@ == pre.actions@.push(
                Action::Send(SyncCommand::FetchAutomaticReplies),
            )
            &&& code == KeyCode::Enter && bs.sel == 1 ==> (
            post.backstage matches Some(b) && b.in_settings) && !post.quit == !pre.quit
            &&& code == KeyCode::Enter && bs.sel == 2 ==> post.quit
            &&& code == KeyCode::Down ==> (post.backstage matches Some(b) && b.sel == (
            if bs.sel < 2 {
                bs.sel + 1
            } else {
                2
            }))
            &&& code == KeyCode::Up ==> (post.backstage matches Some(b) && b.sel == (if bs.sel > 0 {
                bs.sel - 1
            } else {
                0
            }))
            &&& code == KeyCode::Esc ==> post.backstage is None
        }),
{
}

/// In the settings, the first row turns conversations on and off, and the second
/// the notifications.
pub proof fn settings_toggle_what_they_name(pre: App, post: App, code: KeyCode)
    requires
        overlays::backstage_keyed(pre, post, code),
        pre.backstage matches Some(bs) && bs.in_settings && bs.settings_sel < 2,
        code == KeyCode::Enter || code == KeyCode::Char(' '),
    ensures
        pre.backstage->0.settings_sel == 0 ==> post.threaded == !pre.threaded
            && post.reminders_notify == pre.reminders_notify,
        pre.backstage->0.settings_sel == 1 ==> post.threaded == pre.threaded
            && post.reminders_notify == !pre.reminders_notify && post.actions == pre.actions,
{
}

/// Enter signs in where that is required, and asks for nothing once the sign-in
/// is under way.
pub proof fn enter_signs_in_once(pre: App, post: App)
    requires
        overlays::sign_in_asked(pre, post),
    ensures
        pre.signin_modal == Some(SignInModal::Required) ==> post.actions@ == pre.actions@.push(
            Action::Send(SyncCommand::SignIn),
        ),
        pre.signin_modal != Some(SignInModal::Required) ==> post == pre,
{
}

/// Reminders are dismissed one by one, the oldest first.
pub proof fn the_oldest_reminder_goes_first(pre: App, post: App, i: int)
    requires
        reminders::reminder_dismissed(pre, post),
        0 <= i < pre.reminder_queue@.len() - 1,
    ensures
        post.reminder_queue@.len() == pre.reminder_queue@.len() - 1,
        post.reminder_queue@[i] == pre.reminder_queue@[i + 1],
{
}

}
