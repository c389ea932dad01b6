//! Answers to invitations, and automatic replies.

use crate::app::calendar;
use crate::app::forms;
use crate::app::sync;
use crate::app::{Action, App, Clock, RsvpPrompt, RsvpTarget};
use crate::datetime;
use crate::laws::order::minutes_are_ordered_in_time;
use crate::model::{AutomaticReplies, OofStatus, RsvpKind, SyncCommand, SyncEvent};
use crate::text;
use vstd::prelude::*;

verus! {

/// The three kinds of answer are told apart by their first characters.
proof fn lemma_kinds()
    ensures
        "accepted"@ != "declined"@,
        "accepted"@ != "tentativelyAccepted"@,
        "declined"@ != "tentativelyAccepted"@,
{
    reveal_strlit("accepted");
    reveal_strlit("declined");
    reveal_strlit("tentativelyAccepted");
    assert("accepted"@[0] == 'a' && "declined"@[0] == 'd' && "tentativelyAccepted"@[0] == 't');
}

/// An invitation is answered in the way that was chosen: three kinds of answer,
/// one command each. What the prompt holds otherwise is the comment; the prompt
/// closes.
pub proof fn invitations_are_answered_as_chosen(
    pre: App,
    post: App,
    clock: Clock,
    p: RsvpPrompt,
    id: String,
)
    requires
        calendar::rsvp_submitted(pre, post, clock),
        pre.rsvp_prompt == Some(p),
        p.target == RsvpTarget::Message(id),
        text::trim(p.proposed_start@).len() == 0,
        text::trim(p.proposed_end@).len() == 0,
    ensures
        post.rsvp_prompt is None,
        post.actions@.len() == pre.actions@.len() + 1,
        post.actions@.take(pre.actions@.len() as int) == pre.actions@,
        post.actions@.last() matches Action::Send(
            SyncCommand::RespondMeeting {
                message_id,
                kind,
                comment,
                proposed_start_utc,
                proposed_end_utc,
            },
        ) && {
            &&& message_id == id
            &&& p.kind@ == "accepted"@ ==> kind == RsvpKind::Accept
            &&& p.kind@ == "declined"@ ==> kind == RsvpKind::Decline
            &&& p.kind@ == "tentativelyAccepted"@ ==> kind == RsvpKind::Tentative
            &&& p.comment@.len() > 0 ==> comment == Some(p.comment)
            &&& p.comment@.len() == 0 ==> comment is None
            &&& proposed_start_utc is None
            &&& proposed_end_utc is None
        },
{
    lemma_kinds();
    assert(post.actions@.take(pre.actions@.len() as int) =~= pre.actions@);
}

/// An event is answered in the way that was chosen: the store and the server
/// are told the same, and the agenda is asked for in between.
pub proof fn events_are_answered_as_chosen(
    pre: App,
    post: App,
    clock: Clock,
    p: RsvpPrompt,
    id: String,
)
    requires
        calendar::rsvp_submitted(pre, post, clock),
        pre.rsvp_prompt == Some(p),
        p.target == RsvpTarget::Event(id),
        text::trim(p.proposed_start@).len() == 0,
        text::trim(p.proposed_end@).len() == 0,
    ensures
        post.rsvp_prompt is None,
        post.actions@ == pre.actions@.push(Action::SetEventResponse { id, kind: p.kind }).push(
            Action::ReadAgenda,
        ).push(
            Action::Send(
                SyncCommand::RespondEvent {
                    id,
                    kind: p.kind,
                    comment: if p.comment@.len() > 0 {
                        Some(p.comment)
                    } else {
                        None
                    },
                    proposed_start_utc: None,
                    proposed_end_utc: None,
                },
            ),
        ),
{
}

/// A plain answer is the one that was chosen, without a comment or another time.
pub proof fn plain_answers_say_no_more(pre: App, post: App, p: RsvpPrompt)
    requires
        calendar::rsvp_sent_plain(pre, post),
        pre.rsvp_prompt == Some(p),
    ensures
        post.rsvp_prompt is None,
        p.target matches RsvpTarget::Message(id) ==> {
            &&& post.actions@.len() == pre.actions@.len() + 1
            &&& post.actions@.last() matches Action::Send(
                SyncCommand::RespondMeeting {
                    message_id,
                    kind,
                    comment: None,
                    proposed_start_utc: None,
                    proposed_end_utc: None,
                },
            ) && {
                &&& message_id == id
                &&& p.kind@ == "accepted"@ ==> kind == RsvpKind::Accept
                &&& p.kind@ == "declined"@ ==> kind == RsvpKind::Decline
                &&& p.kind@ == "tentativelyAccepted"@ ==> kind == RsvpKind::Tentative
            }
        },
        p.target matches RsvpTarget::Event(id) ==> post.actions@ == pre.actions@.push(
            Action::SetEventResponse { id, kind: p.kind },
        ).push(Action::ReadAgenda).push(
            Action::Send(
                SyncCommand::RespondEvent {
                    id,
                    kind: p.kind,
                    comment: None,
                    proposed_start_utc: None,
                    proposed_end_utc: None,
                },
            ),
        ),
{
    lemma_kinds();
}

/// Another time that is proposed, on declining or accepting tentatively, is sent
/// along in UTC: its start and its end are those that were typed, `offset`
/// minutes earlier.
pub proof fn proposed_times_are_sent(
    pre: App,
    post: App,
    clock: Clock,
    p: RsvpPrompt,
    id: String,
    start: int,
    end: int,
)
    requires
        calendar::rsvp_submitted(pre, post, clock),
        pre.rsvp_prompt == Some(p),
        p.target == RsvpTarget::Message(id),
        p.kind@ == "declined"@ || p.kind@ == "tentativelyAccepted"@,
        p.proposed_start@ == datetime::display_at(start + clock.offset),
        p.proposed_end@ == datetime::display_at(end + clock.offset),
        0 <= crate::ui::calendar::civil(start / 1440).0 <= 9999,
        0 <= crate::ui::calendar::civil(end / 1440).0 <= 9999,
        0 <= crate::ui::calendar::civil((start + clock.offset) / 1440).0 <= 9999,
        0 <= crate::ui::calendar::civil((end + clock.offset) / 1440).0 <= 9999,
        start < end,
    ensures
        post.rsvp_prompt is None,
        post.actions@.len() == pre.actions@.len() + 1,
        post.actions@.last() matches Action::Send(
            SyncCommand::RespondMeeting {
                message_id,
                kind,
                comment,
                proposed_start_utc: Some(s),
                proposed_end_utc: Some(e),
            },
        ) && {
            &&& message_id == id
            &&& kind == (if p.kind@ == "declined"@ {
                RsvpKind::Decline
            } else {
                RsvpKind::Tentative
            })
            &&& p.comment@.len() > 0 ==> comment == Some(p.comment)
            &&& s@ == datetime::iso_of_min(start)
            &&& e@ == datetime::iso_of_min(end)
        },
{
    lemma_kinds();
    minutes_are_ordered_in_time(end, start);
    datetime::displayed_stamps_round_trip(start, clock.now, clock.offset as int);
    datetime::displayed_stamps_round_trip(end, clock.now, clock.offset as int);
    let got = datetime::start_of(p.proposed_start@, clock.now, clock.offset as int);
    assert(got == Some(datetime::iso_of_min(start)));
    assert(datetime::end_of(
        p.proposed_end@,
        datetime::iso_of_min(start),
        clock.now,
        clock.offset as int,
    ) == Some(datetime::iso_of_min(end)));
}

/// Replies that are fetched into the editor and saved as they stand are the
/// replies that were fetched. (The window of scheduled replies is shown to the
/// minute, in years of four digits.)
pub proof fn saving_keeps_the_replies(
    pre: App,
    mid: App,
    post: App,
    r: AutomaticReplies,
    clock: Clock,
    start: int,
    end: int,
)
    requires
        pre.oof_form is Some,
        sync::synced(
            pre,
            mid,
            SyncEvent::AutomaticRepliesFetched { replies: r },
            clock.offset as int,
        ),
        forms::oof_saved(mid, post, clock),
        r.status == OofStatus::Scheduled ==> {
            &&& r.scheduled_start_utc@ == datetime::iso_of_min(start)
            &&& r.scheduled_end_utc@ == datetime::iso_of_min(end)
            &&& 0 <= crate::ui::calendar::civil(start / 1440).0 <= 9999
            &&& 0 <= crate::ui::calendar::civil(end / 1440).0 <= 9999
            &&& 0 <= crate::ui::calendar::civil((start + clock.offset) / 1440).0 <= 9999
            &&& 0 <= crate::ui::calendar::civil((end + clock.offset) / 1440).0 <= 9999
            &&& start < end
        },
    ensures
        mid.actions == pre.actions,
        post.oof_form == mid.oof_form,
        post.actions@.len() == pre.actions@.len() + 1,
        post.actions@.last() matches Action::Send(SyncCommand::SetAutomaticReplies { replies }) && {
            &&& replies.status == r.status
            &&& replies.external_audience == r.external_audience
            &&& replies.internal_message == r.internal_message
            &&& replies.external_message == r.external_message
            &&& if r.status == OofStatus::Scheduled {
                &&& replies.scheduled_start_utc@ == r.scheduled_start_utc@
                &&& replies.scheduled_end_utc@ == r.scheduled_end_utc@
            } else {
                replies.scheduled_start_utc@.len() == 0 && replies.scheduled_end_utc@.len() == 0
            }
        },
{
    if r.status == OofStatus::Scheduled {
        minutes_are_ordered_in_time(end, start);
        datetime::displayed_stamps_round_trip(start, clock.now, clock.offset as int);
        datetime::displayed_stamps_round_trip(end, clock.now, clock.offset as int);
        let f = mid.oof_form->0;
        assert(datetime::start_of(f.start@, clock.now, clock.offset as int) == Some(
            r.scheduled_start_utc@,
        ));
        assert(datetime::end_of(
            f.end@,
            r.scheduled_start_utc@,
            clock.now,
            clock.offset as int,
        ) == Some(r.scheduled_end_utc@));
    }
}

/// The editor shows the replies that were fetched, and waits no longer.
pub proof fn fetched_replies_are_shown(
    pre: App,
    mid: App,
    r: AutomaticReplies,
    offset: int,
)
    requires
        pre.oof_form is Some,
        sync::synced(pre, mid, SyncEvent::AutomaticRepliesFetched { replies: r }, offset),
    ensures
        mid.oof_form matches Some(f) && {
            &&& !f.loading
            &&& f.status == r.status
            &&& f.audience == r.external_audience
            &&& f.internal == r.internal_message
            &&& f.external == r.external_message
            &&& f.focus == pre.oof_form->0.focus
            &&& f.error is None
        },
{
}

/// A window of scheduled replies that would end before it starts, or as it does,
/// is refused: nothing is handed on, and the editor says why.
pub proof fn windows_that_end_too_early_are_refused(
    pre: App,
    post: App,
    clock: Clock,
    start: int,
    end: int,
)
    requires
        forms::oof_saved(pre, post, clock),
        pre.oof_form matches Some(f) && f.status == OofStatus::Scheduled && f.start@
            == datetime::display_at(start + clock.offset) && f.end@ == datetime::display_at(
            end + clock.offset,
        ),
        end <= start,
        0 <= crate::ui::calendar::civil(start / 1440).0 <= 9999,
        0 <= crate::ui::calendar::civil(end / 1440).0 <= 9999,
        0 <= crate::ui::calendar::civil((start + clock.offset) / 1440).0 <= 9999,
        0 <= crate::ui::calendar::civil((end + clock.offset) / 1440).0 <= 9999,
    ensures
        post.actions == pre.actions,
        post.oof_form matches Some(g) && crate::model::text_of(g.error) == Some(
            "End must be after start"@,
        ),
{
    minutes_are_ordered_in_time(end, start);
    datetime::displayed_stamps_round_trip(start, clock.now, clock.offset as int);
    datetime::displayed_stamps_round_trip(end, clock.now, clock.offset as int);
    let f = pre.oof_form->0;
    assert(datetime::start_of(f.start@, clock.now, clock.offset as int) == Some(
        datetime::iso_of_min(start),
    ));
    assert(datetime::end_of(
        f.end@,
        datetime::iso_of_min(start),
        clock.now,
        clock.offset as int,
    ) == Some(datetime::iso_of_min(end)));
}

/// Another time that would end before it starts, or as it does, is not proposed:
/// no answer goes out, and the prompt stays open.
pub proof fn proposals_that_end_too_early_are_refused(
    pre: App,
    post: App,
    clock: Clock,
    p: RsvpPrompt,
    start: int,
    end: int,
)
    requires
        calendar::rsvp_submitted(pre, post, clock),
        pre.rsvp_prompt == Some(p),
        p.kind@ == "declined"@ || p.kind@ == "tentativelyAccepted"@,
        p.proposed_start@ == datetime::display_at(start + clock.offset),
        p.proposed_end@ == datetime::display_at(end + clock.offset),
        end <= start,
        0 <= crate::ui::calendar::civil(start / 1440).0 <= 9999,
        0 <= crate::ui::calendar::civil(end / 1440).0 <= 9999,
        0 <= crate::ui::calendar::civil((start + clock.offset) / 1440).0 <= 9999,
        0 <= crate::ui::calendar::civil((end + clock.offset) / 1440).0 <= 9999,
    ensures
        post.actions == pre.actions,
        post.rsvp_prompt == pre.rsvp_prompt,
        crate::model::text_of(post.error_notice) == Some("Invalid proposed time"@),
{
    lemma_kinds();
    minutes_are_ordered_in_time(end, start);
    datetime::displayed_stamps_round_trip(start, clock.now, clock.offset as int);
    datetime::displayed_stamps_round_trip(end, clock.now, clock.offset as int);
    assert(datetime::start_of(p.proposed_start@, clock.now, clock.offset as int) == Some(
        datetime::iso_of_min(start),
    ));
    assert(datetime::end_of(
        p.proposed_end@,
        datetime::iso_of_min(start),
        clock.now,
        clock.offset as int,
    ) == Some(datetime::iso_of_min(end)));
}

}
