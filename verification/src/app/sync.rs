//! What comes back from the sync engine.

use crate::app;
use crate::app::attachments;
use crate::app::reading;
use crate::app::triage;
use crate::app::{Action, App, SignInModal};
use crate::model;
use crate::model::{AutomaticReplies, RsvpKind, ScheduleEntry, SyncCommand, SyncEvent, SyncState};
use crate::ui::freebusy::FreeBusyView;
use crate::ui::oofform;
use crate::ui::oofform::OofForm;
use vstd::prelude::*;

verus! {

/// `id` is the one selected.
pub open spec fn is_selected(selected: Option<String>, id: Seq<char>) -> bool {
    match selected {
        Some(s) => s@ == id,
        None => false,
    }
}

/// What is said of an answered invite.
pub open spec fn answer_notice(kind: RsvpKind) -> Seq<char> {
    match kind {
        RsvpKind::Accept => "Accepted the invite"@,
        RsvpKind::Decline => "Declined the invite"@,
        RsvpKind::Tentative => "Tentatively accepted the invite"@,
    }
}

/// The answer is noted, if the invite is the message that is open.
pub open spec fn answer_noted(pre: App, post: App, id: Seq<char>, kind: RsvpKind) -> bool {
    if is_selected(pre.selected_msg, id) {
        attachments::noticed(pre, post, answer_notice(kind))
    } else {
        post == pre
    }
}

/// An answered invite counts as read.
pub open spec fn answer_sent(pre: App, post: App, id: String, kind: RsvpKind) -> bool {
    exists|mid: App|
        {
            &&& #[trigger] answer_noted(pre, mid, id@, kind)
            &&& triage::asked_around(
                mid,
                post,
                seq![Action::SetRead { id, read: true }],
                seq![Action::Send(SyncCommand::MarkRead { id, read: true })],
            )
        }
}

/// The position of an image, or the length where there is none of this id.
pub open spec fn image_at(v: Seq<(String, Vec<u8>)>, id: Seq<char>) -> int
    decreases v.len(),
{
    if v.len() == 0 || v[0].0@ == id {
        0
    } else {
        1 + image_at(v.skip(1), id)
    }
}

/// The image of this id is now `bytes`.
pub open spec fn image_kept(
    v: Seq<(String, Vec<u8>)>,
    w: Seq<(String, Vec<u8>)>,
    id: String,
    bytes: Vec<u8>,
) -> bool {
    let i = image_at(v, id@);
    if i < v.len() {
        w =~= v.update(i, (v[i].0, bytes))
    } else {
        w =~= v.push((id, bytes))
    }
}

/// The replies editor shows what was fetched.
pub open spec fn oof_filled(pre: App, post: App, replies: AutomaticReplies, offset: int) -> bool {
    match pre.oof_form {
        Some(f) => {
            &&& post == (App { oof_form: post.oof_form, ..pre })
            &&& post.oof_form matches Some(g) && oofform::is_prefilled(
                OofForm { loading: false, ..f },
                g,
                replies,
                offset,
            )
        },
        None => post == pre,
    }
}

/// The availability that was fetched is shown.
pub open spec fn free_busy_filled(a: App, entries: Vec<ScheduleEntry>) -> App {
    App {
        free_busy: match a.free_busy {
            Some(v) => Some(FreeBusyView { entries, loading: false, ..v }),
            None => None,
        },
        ..a
    }
}

/// A failure is shown, and nothing waits any longer.
pub open spec fn failed(a: App, msg: String) -> App {
    App {
        oof_form: match a.oof_form {
            Some(f) => Some(OofForm { loading: false, ..f }),
            None => None,
        },
        free_busy: match a.free_busy {
            Some(v) => Some(FreeBusyView { loading: false, ..v }),
            None => None,
        },
        error_notice: Some(msg),
        ..a
    }
}

/// A new sync state. Any but `SignInRequired` means that the sign-in is over;
/// at rest, an earlier failure is over too.
pub open spec fn state_set(a: App, s: SyncState) -> App {
    App {
        signin_modal: if s == SyncState::SignInRequired {
            a.signin_modal
        } else {
            None
        },
        error_notice: if s == SyncState::Idle {
            None
        } else {
            a.error_notice
        },
        status: s,
        ..a
    }
}

/// A message's attachments are known: they are asked for again where they are
/// shown, and where the message is open its images can be found.
pub open spec fn attachments_updated(pre: App, post: App, id: String) -> bool {
    exists|mid: App|
        {
            &&& #[trigger] attachments::attachments_asked_again(pre, mid, id)
            &&& if is_selected(pre.selected_msg, id@) {
                reading::images_asked(mid, post)
            } else {
                post == mid
            }
        }
}

/// A pass over the folders is complete: the sign-in and any failure are over,
/// and what the pass found is read.
pub open spec fn folders_updated(pre: App, post: App) -> bool {
    app::emitted(
        App { signin_modal: None, error_notice: None, ..pre },
        post,
        seq![Action::ReadAccount, Action::ReadFolders, Action::InitFolderTree],
    )
}

/// The sign-in goes on in the browser.
pub open spec fn sign_in_started(pre: App, post: App, authorize_url: String) -> bool {
    app::emitted(
        App { signin_modal: Some(SignInModal::Started { authorize_url }), ..pre },
        post,
        seq![Action::OpenUrl(authorize_url)],
    )
}

/// The replies are in force.
pub open spec fn oof_closed(pre: App, post: App) -> bool {
    &&& post == (App { oof_form: None, attachment_notice: post.attachment_notice, ..pre })
    &&& model::text_of(post.attachment_notice) == Some("Automatic replies updated"@)
}

/// How an event from the sync engine changes the client.
pub open spec fn synced(pre: App, post: App, evt: SyncEvent, offset: int) -> bool {
    match evt {
        SyncEvent::State(s) => post == state_set(pre, s),
        SyncEvent::FoldersUpdated => folders_updated(pre, post),
        SyncEvent::MessagesUpdated { folder_id } => if is_selected(
            pre.selected_folder,
            folder_id@,
        ) {
            app::folders::messages_asked(pre, post)
        } else {
            post == pre
        },
        SyncEvent::BodyReady { id } => if is_selected(pre.selected_msg, id@) {
            reading::body_asked(pre, post)
        } else {
            post == pre
        },
        SyncEvent::AttachmentsUpdated { message_id } => attachments_updated(pre, post, message_id),
        SyncEvent::AttachmentSaved { path } => attachments::save_ended(pre, post, path),
        SyncEvent::MeetingResponded { message_id, kind } => answer_sent(
            pre,
            post,
            message_id,
            kind,
        ),
        SyncEvent::DraftReady { id } => app::emitted(pre, post, seq![Action::ReadDraft { id }]),
        SyncEvent::SignInRequired => post == (App {
            signin_modal: Some(SignInModal::Required),
            ..pre
        }),
        SyncEvent::SignInStarted { authorize_url } => sign_in_started(pre, post, authorize_url),
        SyncEvent::AutomaticRepliesFetched { replies } => oof_filled(pre, post, replies, offset),
        SyncEvent::AutomaticRepliesUpdated => oof_closed(pre, post),
        SyncEvent::CategoriesUpdated => app::emitted(
            pre,
            post,
            seq![Action::ReadMasterCategories],
        ),
        SyncEvent::ScheduleFetched { entries } => post == free_busy_filled(pre, entries),
        SyncEvent::Error(msg) => post == failed(pre, msg),
        SyncEvent::CalendarUpdated => app::emitted(pre, post, seq![Action::ReadAgenda]),
        SyncEvent::InlineImageReady { message_id, content_id, bytes } => if is_selected(
            pre.selected_msg,
            message_id@,
        ) {
            &&& post == (App { inline_images: post.inline_images, ..pre })
            &&& image_kept(pre.inline_images@, post.inline_images@, content_id, bytes)
        } else {
            post == pre
        },
        SyncEvent::Sent { .. } => post == pre,
    }
}

fn selects(selected: &Option<String>, id: &String) -> (r: bool)
    ensures
        r == is_selected(*selected, id@),
{
    match selected {
        Some(s) => *s == *id,
        None => false,
    }
}

/// Where the image of this id is.
pub fn find_image(v: &Vec<(String, Vec<u8>)>, id: &String) -> (r: usize)
    ensures
        r == image_at(v@, id@),
        r <= v@.len(),
{
    let mut i: usize = 0;
    assert(v@.skip(0) =~= v@);
    while i < v.len()
        invariant
            i <= v@.len(),
            image_at(v@, id@) == i + image_at(v@.skip(i as int), id@),
        decreases v@.len() - i,
    {
        if v[i].0 == *id {
            return i;
        }
        assert(v@.skip(i as int).skip(1) =~= v@.skip(i + 1));
        i += 1;
    }
    i
}

impl App {
    fn set_state(&mut self, s: SyncState)
        ensures
            *final(self) == state_set(*old(self), s),
            old(self).rows_in_step() ==> final(self).rows_in_step(),
    {
        if s != SyncState::SignInRequired {
            self.signin_modal = None;
        }
        if s == SyncState::Idle {
            self.error_notice = None;
        }
        self.status = s;
    }

    fn update_attachments(&mut self, id: &String)
        ensures
            attachments_updated(*old(self), *final(self), *id),
            old(self).rows_in_step() ==> final(self).rows_in_step(),
    {
        let open = selects(&self.selected_msg, id);
        self.reload_attachments(id);
        let ghost mid = *self;
        if open {
            self.request_inline_images();
        }
        assert(attachments::attachments_asked_again(*old(self), mid, *id));
    }

    fn note_answer(&mut self, id: String, kind: RsvpKind)
        ensures
            answer_sent(*old(self), *final(self), id, kind),
            old(self).rows_in_step() ==> final(self).rows_in_step(),
    {
        if selects(&self.selected_msg, &id) {
            let notice: &'static str = match kind {
                RsvpKind::Accept => "Accepted the invite",
                RsvpKind::Decline => "Declined the invite",
                RsvpKind::Tentative => "Tentatively accepted the invite",
            };
            self.attachment_notice = Some(notice.to_string());
        }
        let ghost mid = *self;
        self.emit(Action::SetRead { id: id.clone(), read: true });
        let ghost a = *self;
        self.reload_messages();
        let ghost b = *self;
        self.send(SyncCommand::MarkRead { id, read: true });
        proof {
            assert(answer_noted(*old(self), mid, id@, kind));
            assert(app::folders::messages_asked(a, b));
        }
    }

    fn keep_image(&mut self, id: String, bytes: Vec<u8>)
        ensures
            *final(self) == (App { inline_images: final(self).inline_images, ..*old(self) }),
            image_kept(old(self).inline_images@, final(self).inline_images@, id, bytes),
    {
        let i = find_image(&self.inline_images, &id);
        if i < self.inline_images.len() {
            let key = self.inline_images[i].0.clone();
            self.inline_images.set(i, (key, bytes));
        } else {
            self.inline_images.push((id, bytes));
        }
    }

    fn pass_completed(&mut self)
        ensures
            folders_updated(*old(self), *final(self)),
            old(self).rows_in_step() ==> final(self).rows_in_step(),
    {
        self.signin_modal = None;
        self.error_notice = None;
        self.emit(Action::ReadAccount);
        self.emit(Action::ReadFolders);
        self.emit(Action::InitFolderTree);
    }

    fn start_sign_in(&mut self, authorize_url: String)
        ensures
            sign_in_started(*old(self), *final(self), authorize_url),
            old(self).rows_in_step() ==> final(self).rows_in_step(),
    {
        self.emit(Action::OpenUrl(authorize_url.clone()));
        self.signin_modal = Some(SignInModal::Started { authorize_url });
    }

    fn fill_oof(&mut self, replies: AutomaticReplies, offset: i64)
        ensures
            oof_filled(*old(self), *final(self), replies, offset as int),
            old(self).rows_in_step() ==> final(self).rows_in_step(),
    {
        if let Some(f) = &mut self.oof_form {
            f.loading = false;
            f.prefill(&replies, offset);
        }
    }

    fn close_oof(&mut self)
        ensures
            oof_closed(*old(self), *final(self)),
            old(self).rows_in_step() ==> final(self).rows_in_step(),
    {
        self.oof_form = None;
        self.attachment_notice = Some("Automatic replies updated".to_string());
    }

    fn fill_free_busy(&mut self, entries: Vec<ScheduleEntry>)
        ensures
            *final(self) == free_busy_filled(*old(self), entries),
            old(self).rows_in_step() ==> final(self).rows_in_step(),
    {
        if let Some(v) = &mut self.free_busy {
            v.entries = entries;
            v.loading = false;
        }
    }

    fn fail(&mut self, msg: String)
        ensures
            *final(self) == failed(*old(self), msg),
            old(self).rows_in_step() ==> final(self).rows_in_step(),
    {
        if let Some(f) = &mut self.oof_form {
            f.loading = false;
        }
        if let Some(v) = &mut self.free_busy {
            v.loading = false;
        }
        self.error_notice = Some(msg);
    }

    /// An event from the sync engine: reloads what it made stale, and drives the
    /// sign-in modal. `offset` is the minutes that local time lies east of UTC.
    pub fn on_sync_event(&mut self, evt: SyncEvent, offset: i64)
        ensures
            synced(*old(self), *final(self), evt, offset as int),
            old(self).rows_in_step() ==> final(self).rows_in_step(),
    {
        match evt {
            SyncEvent::State(s) => self.set_state(s),
            SyncEvent::FoldersUpdated => self.pass_completed(),
            SyncEvent::MessagesUpdated { folder_id } => {
                if selects(&self.selected_folder, &folder_id) {
                    self.reload_messages();
                }
            },
            SyncEvent::BodyReady { id } => {
                if selects(&self.selected_msg, &id) {
                    self.reload_body();
                }
            },
            SyncEvent::AttachmentsUpdated { message_id } => self.update_attachments(&message_id),
            SyncEvent::AttachmentSaved { path } => self.finish_attachment_save(path),
            SyncEvent::MeetingResponded { message_id, kind } => self.note_answer(message_id, kind),
            SyncEvent::DraftReady { id } => self.open_draft(&id),
            SyncEvent::SignInRequired => {
                self.signin_modal = Some(SignInModal::Required);
            },
            SyncEvent::SignInStarted { authorize_url } => self.start_sign_in(authorize_url),
            SyncEvent::AutomaticRepliesFetched { replies } => self.fill_oof(replies, offset),
            SyncEvent::AutomaticRepliesUpdated => self.close_oof(),
            SyncEvent::CategoriesUpdated => self.reload_master_categories(),
            SyncEvent::ScheduleFetched { entries } => self.fill_free_busy(entries),
            SyncEvent::Error(msg) => self.fail(msg),
            SyncEvent::CalendarUpdated => self.reload_agenda(),
            SyncEvent::InlineImageReady { message_id, content_id, bytes } => {
                if selects(&self.selected_msg, &message_id) {
                    self.keep_image(content_id, bytes);
                }
            },
            SyncEvent::Sent { .. } => {},
        }
    }
}

// ---------------------------------------------------------------------------
// Laws
// ---------------------------------------------------------------------------

/// Once a state other than `SignInRequired` is reported, or the folders are
/// updated, no sign-in modal is left to block the keys.
pub proof fn the_sign_in_modal_clears(pre: App, post: App, evt: SyncEvent, offset: int)
    requires
        synced(pre, post, evt, offset),
        evt is FoldersUpdated || (evt matches SyncEvent::State(s) && s != SyncState::SignInRequired),
    ensures
        post.signin_modal is None,
{
}

/// A failure leaves nothing waiting for what will not come.
pub proof fn failures_end_the_waiting(pre: App, post: App, msg: String, offset: int)
    requires
        synced(pre, post, SyncEvent::Error(msg), offset),
    ensures
        post.error_notice == Some(msg),
        post.oof_form matches Some(f) ==> !f.loading,
        post.free_busy matches Some(v) ==> !v.loading,
{
}

/// What belongs to a message or a folder that is no longer open changes
/// nothing.
pub proof fn stale_events_change_nothing(pre: App, post: App, evt: SyncEvent, offset: int)
    requires
        synced(pre, post, evt, offset),
        match evt {
            SyncEvent::MessagesUpdated { folder_id } => !is_selected(
                pre.selected_folder,
                folder_id@,
            ),
            SyncEvent::BodyReady { id } => !is_selected(pre.selected_msg, id@),
            SyncEvent::InlineImageReady { message_id, .. } => !is_selected(
                pre.selected_msg,
                message_id@,
            ),
            _ => false,
        },
    ensures
        post == pre,
{
}

}
