//! What the keys do in the list of messages.

use crate::app::categories;
use crate::app::drafts;
use crate::app::folders;
use crate::app::keys;
use crate::app::names;
use crate::app::triage;
use crate::app::{
    Action, App, Clock, ConfirmAction, ConfirmModal, Key, KeyCode, Mode, Pane, Row, RsvpField,
    RsvpTarget,
};
use crate::model;
use crate::model::{FolderRow, MessageRow, RsvpKind, SyncCommand};
use crate::text;
use crate::ui::categorypicker::{CategoryItem, PickerMode};
use crate::ui::compose::ComposeAction;
use crate::ui::ribbon::Focus;
use vstd::prelude::*;

verus! {

/// Nothing lies over the panes of the mail, and this one has the focus.
pub open spec fn has_the_keys(a: App, pane: Pane) -> bool {
    &&& a.mode == Mode::Mail
    &&& a.focus == pane
    &&& a.signin_modal is None
    &&& !a.help
    &&& a.backstage is None
    &&& a.link_prompt is None
    &&& a.ribbon_focus == Focus::Off
    &&& a.oof_form is None
    &&& a.rsvp_prompt is None
    &&& a.free_busy is None
    &&& a.category_picker is None
    &&& a.file_picker is None
    &&& a.compose is None
    &&& a.event_form is None
    &&& a.confirm is None
    &&& a.move_picker is None
    &&& a.attachments is None
    &&& a.search is None
    &&& a.category_filter is None
    &&& a.reminder_queue@.len() == 0
}

pub open spec fn typed(c: char) -> Key {
    Key { code: KeyCode::Char(c), ctrl: false, shift: false }
}

pub open spec fn struck(code: KeyCode) -> Key {
    Key { code, ctrl: false, shift: false }
}

/// What a key in front of the list comes to.
proof fn lemma_list_key(pre: App, post: App, key: Key, clock: Clock)
    requires
        keys::pressed(pre, post, key, clock),
        has_the_keys(pre, Pane::List),
        !key.ctrl,
        key.code != KeyCode::Char('q'),
        key.code != KeyCode::Char('?'),
        key.code != KeyCode::F(1),
        key.code != KeyCode::F(9),
    ensures
        ({
            let seen = App { error_notice: None, ..pre };
            keys::done(seen, post, keys::any_pane_command(Pane::List, key.code), key, clock)
        }),
{
    let seen = App { error_notice: None, ..pre };
    assert(keys::command_of(seen, key) == keys::popup_command(seen, key));
    assert(keys::popup_command(seen, key) == keys::mode_command(seen, key));
    assert(keys::mode_command(seen, key) == keys::pane_command(seen, key));
    assert(keys::pane_command(seen, key) == keys::any_pane_command(Pane::List, key.code));
}

/// In the flat list, the keys for triage act on the message under the cursor: the
/// store is told at once, the list is read again, and the server is told.
pub proof fn triage_keys_act_on_the_message(
    pre: App,
    post: App,
    c: char,
    clock: Clock,
    m: MessageRow,
    folder: String,
)
    requires
        keys::pressed(pre, post, typed(c), clock),
        has_the_keys(pre, Pane::List),
        !pre.threaded,
        pre.msg_index < pre.messages@.len(),
        m == pre.messages@[pre.msg_index as int],
        pre.selected_folder == Some(folder),
    ensures
        ({
            let list = Action::ReadMessages { folder, limit: 200 };
            &&& c == 'm' ==> post.actions@ == pre.actions@ + seq![
                Action::SetRead { id: m.id, read: true },
                list,
                Action::Send(SyncCommand::MarkRead { id: m.id, read: true }),
            ]
            &&& c == 'u' ==> post.actions@ == pre.actions@ + seq![
                Action::SetRead { id: m.id, read: false },
                list,
                Action::Send(SyncCommand::MarkRead { id: m.id, read: false }),
            ]
            &&& c == 'f' && m.is_flagged ==> post.actions@ == pre.actions@ + seq![
                Action::SetFlag { id: m.id, flagged: false },
                list,
                Action::Send(SyncCommand::SetFlag { id: m.id, flagged: false }),
            ]
            &&& c == 'f' && !m.is_flagged ==> post.actions@ == pre.actions@ + seq![
                Action::SetFlag { id: m.id, flagged: true },
                list,
                Action::Send(SyncCommand::SetFlag { id: m.id, flagged: true }),
            ]
            &&& c == 'd' ==> post.actions@ == pre.actions@ + seq![
                Action::DeleteMessage { id: m.id },
                list,
                Action::Send(SyncCommand::Delete { id: m.id }),
            ]
        }),
{
    if c == 'm' || c == 'u' || c == 'f' || c == 'd' {
        lemma_list_key(pre, post, typed(c), clock);
    }
}

/// The keys that open something open it for the message under the cursor.
pub proof fn message_keys_open_what_they_name(
    pre: App,
    post: App,
    c: char,
    clock: Clock,
    m: MessageRow,
)
    requires
        keys::pressed(pre, post, typed(c), clock),
        has_the_keys(pre, Pane::List),
        !pre.threaded,
        pre.msg_index < pre.messages@.len(),
        m == pre.messages@[pre.msg_index as int],
    ensures
        c == 'v' ==> post.actions@ == pre.actions@.push(
            Action::ReadMoveTargets { message_id: m.id, thread_ids: None },
        ),
        c == 'a' ==> post.actions@ == pre.actions@.push(
            Action::ReadAttachments { id: m.id, has_attachments: m.has_attachments },
        ),
        c == 'r' ==> post.actions@ == pre.actions@.push(
            Action::Send(SyncCommand::ComposeReply { id: m.id, all: false }),
        ),
        c == 'R' ==> post.actions@ == pre.actions@.push(
            Action::Send(SyncCommand::ComposeReply { id: m.id, all: true }),
        ),
        c == 'F' ==> post.actions@ == pre.actions@.push(
            Action::Send(SyncCommand::ComposeForward { id: m.id }),
        ),
        c == '/' ==> (post.search matches Some(s) && s.query@.len() == 0 && s.results is None),
        c == 'O' ==> (post.oof_form matches Some(f) && f.loading) && post.actions@
            == pre.actions@.push(Action::Send(SyncCommand::FetchAutomaticReplies)),
        c == 'l' ==> (post.category_picker matches Some(p) && p.mode == PickerMode::Assign
            && p.message_id == Some(m.id)),
        c == 'L' ==> (post.category_picker matches Some(p) && p.mode == PickerMode::Filter
            && p.message_id is None),
{
    if c == 'v' || c == 'a' || c == 'r' || c == 'R' || c == 'F' || c == '/' || c == 'O' || c == 'l'
        || c == 'L' {
        lemma_list_key(pre, post, typed(c), clock);
    }
}

/// An invitation that is open is accepted at once by `A`; `D` and `T` ask for
/// more before they decline it, or accept it tentatively.
pub proof fn invitations_are_answered_by_their_keys(
    pre: App,
    post: App,
    c: char,
    clock: Clock,
    id: String,
)
    requires
        keys::pressed(pre, post, typed(c), clock),
        has_the_keys(pre, Pane::List),
        pre.open_invite() == Some(id),
    ensures
        c == 'A' ==> post.rsvp_prompt is None && post.actions@ == pre.actions@.push(
            Action::Send(
                SyncCommand::RespondMeeting {
                    message_id: id,
                    kind: RsvpKind::Accept,
                    comment: None,
                    proposed_start_utc: None,
                    proposed_end_utc: None,
                },
            ),
        ),
        c == 'D' ==> (post.rsvp_prompt matches Some(p) && p.target == RsvpTarget::Message(id)
            && p.kind@ == "declined"@ && p.focus == RsvpField::ProposedStart && p.comment@.len()
            == 0) && post.actions@ == pre.actions@,
        c == 'T' ==> (post.rsvp_prompt matches Some(p) && p.target == RsvpTarget::Message(id)
            && p.kind@ == "tentativelyAccepted"@ && p.focus == RsvpField::ProposedStart
            && p.comment@.len() == 0) && post.actions@ == pre.actions@,
{
    if c == 'A' || c == 'D' || c == 'T' {
        lemma_list_key(pre, post, typed(c), clock);
    }
}

/// `t` turns conversations on and off, and reads the list in the new way.
pub proof fn threading_is_toggled(pre: App, post: App, clock: Clock, folder: String)
    requires
        keys::pressed(pre, post, typed('t'), clock),
        has_the_keys(pre, Pane::List),
        pre.selected_folder == Some(folder),
    ensures
        post.threaded == !pre.threaded,
        post.msg_index == 0,
        post.row_index == 0,
        ({
            let list = if pre.threaded {
                Action::ReadMessages { folder, limit: 200 }
            } else {
                Action::ReadConversations { folder, limit: 200 }
            };
            if pre.config_path is Some {
                post.actions@ == pre.actions@.push(list).push(
                    Action::PersistThreaded { threaded: !pre.threaded },
                )
            } else {
                post.actions@ == pre.actions@.push(list)
            }
        }),
{
    lemma_list_key(pre, post, typed('t'), clock);
}

/// Enter opens the message under the cursor: a draft is read to be edited; any
/// other message is shown from its top, and counts as read from then on.
pub proof fn enter_opens_the_message(
    pre: App,
    post: App,
    clock: Clock,
    m: MessageRow,
    folder: String,
)
    requires
        keys::pressed(pre, post, struck(KeyCode::Enter), clock),
        has_the_keys(pre, Pane::List),
        !pre.threaded,
        pre.msg_index < pre.messages@.len(),
        m == pre.messages@[pre.msg_index as int],
        pre.selected_folder == Some(folder),
    ensures
        m.is_draft ==> post.focus == Pane::List && post.actions@ == pre.actions@.push(
            Action::ReadDraft { id: m.id },
        ),
        !m.is_draft ==> {
            &&& post.focus == Pane::Reading
            &&& post.selected_msg == Some(m.id)
            &&& post.reading_scroll == 0
            &&& post.focused_link is None
            &&& post.actions@ == pre.actions@ + seq![
                Action::ClearImages,
                Action::ReadBody { id: m.id },
                Action::SetRead { id: m.id, read: true },
                Action::Send(SyncCommand::MarkRead { id: m.id, read: true }),
                Action::ReadMessages { folder, limit: 200 },
            ]
        },
{
    lemma_list_key(pre, post, struck(KeyCode::Enter), clock);
}

/// Up and down move the cursor by one, round the ends of the flat list, and show
/// the message that it comes to, which does not count as read for that.
pub proof fn arrows_move_by_one(pre: App, post: App, key: Key, clock: Clock)
    requires
        keys::pressed(pre, post, key, clock),
        has_the_keys(pre, Pane::List),
        !pre.threaded,
        pre.msg_index < pre.messages@.len(),
        key == struck(KeyCode::Down) || key == struck(KeyCode::Up) || key == typed('j') || key
            == typed('k'),
    ensures
        ({
            let down = key == struck(KeyCode::Down) || key == typed('j');
            let last = pre.messages@.len() - 1;
            &&& down && pre.msg_index < last ==> post.msg_index == pre.msg_index + 1
            &&& down && pre.msg_index == last ==> post.msg_index == 0
            &&& !down && pre.msg_index > 0 ==> post.msg_index == pre.msg_index - 1
            &&& !down && pre.msg_index == 0 ==> post.msg_index == last
        }),
        post.focus == Pane::List,
        post.selected_msg == Some(pre.messages@[post.msg_index as int].id),
        post.actions@ == pre.actions@ + seq![
            Action::ClearImages,
            Action::ReadBody { id: pre.messages@[post.msg_index as int].id },
        ],
{
    lemma_list_key(pre, post, key, clock);
    let n = pre.messages@.len() as int;
    assert(n == pre.messages.len());
    let i = pre.msg_index as int;
    assert(i + 1 == n ==> (i + 1) % n == 0) by (nonlinear_arith)
        requires
            n > 0,
    ;
    if i + 1 < n {
        vstd::arithmetic::div_mod::lemma_small_mod((i + 1) as nat, n as nat);
    }
    if i > 0 {
        vstd::arithmetic::div_mod::lemma_small_mod((i - 1) as nat, n as nat);
    } else {
        vstd::arithmetic::div_mod::lemma_mod_add_multiples_vanish(-1, n);
        vstd::arithmetic::div_mod::lemma_small_mod((n - 1) as nat, n as nat);
    }
}

// ---------------------------------------------------------------------------
// Conversations
// ---------------------------------------------------------------------------

/// The cursor stands on the header of this conversation.
pub open spec fn on_header(a: App, t: usize) -> bool {
    &&& a.threaded
    &&& a.row_index < a.visible_rows@.len()
    &&& a.visible_rows@[a.row_index as int] == Row::Header(t)
    &&& t < a.threads@.len()
}

/// On the header of a conversation, every message in it is marked, one after the
/// other; the list is then read once.
pub proof fn conversations_are_marked_whole(
    pre: App,
    post: App,
    read: bool,
    clock: Clock,
    t: usize,
    folder: String,
    i: int,
)
    requires
        keys::pressed(
            pre,
            post,
            typed(
                if read {
                    'm'
                } else {
                    'u'
                },
            ),
            clock,
        ),
        has_the_keys(pre, Pane::List),
        on_header(pre, t),
        pre.selected_folder == Some(folder),
        0 <= i < pre.threads@[t as int].thread.messages@.len(),
    ensures
        ({
            let msgs = pre.threads@[t as int].thread.messages@;
            let n = pre.actions@.len();
            &&& post.actions@.len() == n + 2 * msgs.len() + 1
            &&& post.actions@[n + 2 * i] == (Action::SetRead { id: msgs[i].id, read })
            &&& post.actions@[n + 2 * i + 1] == Action::Send(
                SyncCommand::MarkRead { id: msgs[i].id, read },
            )
            &&& post.actions@.last() == (Action::ReadConversations { folder, limit: 200 })
        }),
{
    let c = if read {
        'm'
    } else {
        'u'
    };
    lemma_list_key(pre, post, typed(c), clock);
    let ids = triage::ids_of(pre.threads@[t as int].thread.messages@);
    lemma_reads(ids, ids.len() as int, read, i);
}

proof fn lemma_reads(ids: Seq<String>, n: int, read: bool, i: int)
    requires
        0 <= i < n <= ids.len(),
    ensures
        triage::read_writes(ids, n, read).len() == 2 * n,
        triage::read_writes(ids, n, read)[2 * i] == (Action::SetRead { id: ids[i], read }),
        triage::read_writes(ids, n, read)[2 * i + 1] == Action::Send(
            SyncCommand::MarkRead { id: ids[i], read },
        ),
    decreases n,
{
    if n > 1 {
        if i < n - 1 {
            lemma_reads(ids, n - 1, read, i);
        } else {
            lemma_reads(ids, n - 1, read, 0);
        }
    } else {
        assert(triage::read_writes(ids, 0, read).len() == 0);
    }
}

proof fn lemma_flags(ids: Seq<String>, n: int, flagged: bool, i: int)
    requires
        0 <= i < n <= ids.len(),
    ensures
        triage::flag_writes(ids, n, flagged).len() == 2 * n,
        triage::flag_writes(ids, n, flagged)[2 * i] == (Action::SetFlag { id: ids[i], flagged }),
        triage::flag_writes(ids, n, flagged)[2 * i + 1] == Action::Send(
            SyncCommand::SetFlag { id: ids[i], flagged },
        ),
    decreases n,
{
    if n > 1 {
        if i < n - 1 {
            lemma_flags(ids, n - 1, flagged, i);
        } else {
            lemma_flags(ids, n - 1, flagged, 0);
        }
    } else {
        assert(triage::flag_writes(ids, 0, flagged).len() == 0);
    }
}

/// On the header of a conversation, every message in it is flagged where one of
/// them is not, and unflagged where all of them are.
pub proof fn conversations_are_flagged_whole(
    pre: App,
    post: App,
    clock: Clock,
    t: usize,
    folder: String,
    i: int,
)
    requires
        keys::pressed(pre, post, typed('f'), clock),
        has_the_keys(pre, Pane::List),
        on_header(pre, t),
        pre.selected_folder == Some(folder),
        0 <= i < pre.threads@[t as int].thread.messages@.len(),
    ensures
        ({
            let msgs = pre.threads@[t as int].thread.messages@;
            let n = pre.actions@.len();
            let all = forall|k: int| 0 <= k < msgs.len() ==> (#[trigger] msgs[k]).is_flagged;
            &&& post.actions@.len() == n + 2 * msgs.len() + 1
            &&& post.actions@[n + 2 * i] == (Action::SetFlag { id: msgs[i].id, flagged: !all })
            &&& post.actions@[n + 2 * i + 1] == Action::Send(
                SyncCommand::SetFlag { id: msgs[i].id, flagged: !all },
            )
            &&& post.actions@.last() == (Action::ReadConversations { folder, limit: 200 })
        }),
{
    lemma_list_key(pre, post, typed('f'), clock);
    let msgs = pre.threads@[t as int].thread.messages@;
    let ids = triage::ids_of(msgs);
    let all = forall|k: int| 0 <= k < msgs.len() ==> (#[trigger] msgs[k]).is_flagged;
    assert(triage::some_unflagged(msgs) == !all);
    lemma_flags(ids, ids.len() as int, !all, i);
}

/// A conversation of several messages is deleted, or moved, only as a whole, and
/// only after it has been asked about.
pub proof fn conversations_are_asked_about(pre: App, post: App, clock: Clock, t: usize, c: char)
    requires
        keys::pressed(pre, post, typed(c), clock),
        has_the_keys(pre, Pane::List),
        on_header(pre, t),
        pre.threads@[t as int].thread.messages@.len() > 1,
    ensures
        ({
            let msgs = pre.threads@[t as int].thread.messages@;
            &&& c == 'd' ==> post.actions@.len() == pre.actions@.len() + 1 && (
            post.actions@.last() matches Action::ReadDeleteScope { ids } && ids@
                == msgs.map_values(|m: MessageRow| m.id))
            &&& c == 'v' ==> post.actions@.len() == pre.actions@.len() + 1 && (
            post.actions@.last() matches Action::ReadMoveTargets {
                message_id,
                thread_ids: Some(ids),
            } && message_id == msgs[0].id && ids@ == msgs.map_values(|m: MessageRow| m.id))
        }),
{
    if c == 'd' || c == 'v' {
        lemma_list_key(pre, post, typed(c), clock);
    }
}

/// What is confirmed is done: every message of the conversation is deleted, here
/// and on the server.
pub proof fn confirmed_conversations_are_deleted(
    pre: App,
    post: App,
    modal: ConfirmModal,
    ids: Vec<String>,
    folder: String,
    i: int,
)
    requires
        triage::confirmed(pre, post),
        pre.confirm == Some(modal),
        modal.action == ConfirmAction::DeleteThread(ids),
        pre.selected_folder == Some(folder),
        0 <= i < ids@.len(),
    ensures
        post.confirm is None,
        post.actions@.len() == pre.actions@.len() + 2 * ids@.len() + 1,
        post.actions@[pre.actions@.len() + 2 * i] == (Action::DeleteMessage { id: ids@[i] }),
        post.actions@[pre.actions@.len() + 2 * i + 1] == Action::Send(
            SyncCommand::Delete { id: ids@[i] },
        ),
{
    lemma_deletes(ids@, ids@.len() as int, i);
}

proof fn lemma_deletes(ids: Seq<String>, n: int, i: int)
    requires
        0 <= i < n <= ids.len(),
    ensures
        triage::delete_writes(ids, n).len() == 2 * n,
        triage::delete_writes(ids, n)[2 * i] == (Action::DeleteMessage { id: ids[i] }),
        triage::delete_writes(ids, n)[2 * i + 1] == Action::Send(
            SyncCommand::Delete { id: ids[i] },
        ),
    decreases n,
{
    if n > 1 {
        if i < n - 1 {
            lemma_deletes(ids, n - 1, i);
        } else {
            lemma_deletes(ids, n - 1, 0);
        }
    } else {
        assert(triage::delete_writes(ids, 0).len() == 0);
    }
}

/// What is confirmed is done: every message of the conversation is moved to the
/// folder that was picked.
pub proof fn confirmed_conversations_are_moved(
    pre: App,
    post: App,
    modal: ConfirmModal,
    ids: Vec<String>,
    dest: String,
    folder: String,
    i: int,
)
    requires
        triage::confirmed(pre, post),
        pre.confirm == Some(modal),
        modal.action == ConfirmAction::MoveThread(ids, dest),
        pre.selected_folder == Some(folder),
        0 <= i < ids@.len(),
    ensures
        post.confirm is None,
        post.actions@.len() == pre.actions@.len() + ids@.len() + 1,
        post.actions@[pre.actions@.len() + i] == (Action::MoveMessage {
            id: ids@[i],
            dest,
            reload: false,
        }),
{
    lemma_moves(ids@, ids@.len() as int, dest, i);
}

proof fn lemma_moves(ids: Seq<String>, n: int, dest: String, i: int)
    requires
        0 <= i < n <= ids.len(),
    ensures
        triage::move_writes(ids, n, dest).len() == n,
        triage::move_writes(ids, n, dest)[i] == (Action::MoveMessage {
            id: ids[i],
            dest,
            reload: false,
        }),
    decreases n,
{
    if n > 1 {
        if i < n - 1 {
            lemma_moves(ids, n - 1, dest, i);
        } else {
            lemma_moves(ids, n - 1, dest, 0);
        }
    } else {
        assert(triage::move_writes(ids, 0, dest).len() == 0);
    }
}

/// An event that is confirmed to go is deleted here and on the server, and the
/// agenda is read again.
pub proof fn confirmed_events_are_deleted(
    pre: App,
    post: App,
    modal: ConfirmModal,
    id: String,
    folder: String,
)
    requires
        triage::confirmed(pre, post),
        pre.confirm == Some(modal),
        modal.action == ConfirmAction::DeleteEvent(id),
        pre.selected_folder == Some(folder),
    ensures
        post.confirm is None,
        post.actions@.len() == pre.actions@.len() + 4,
        post.actions@[pre.actions@.len() as int] == (Action::DeleteEvent { id }),
        post.actions@[pre.actions@.len() as int + 1] == Action::Send(SyncCommand::DeleteEvent { id }),
        post.actions@[pre.actions@.len() as int + 2] == Action::ReadAgenda,
{
}

/// The folder under the cursor of the picker is where the message, or the
/// conversation, goes.
pub proof fn messages_move_to_the_picked_folder(pre: App, post: App)
    requires
        triage::move_confirmed(pre, post),
        pre.move_picker matches Some(p) && p.index < p.folders@.len(),
    ensures
        ({
            let p = pre.move_picker->0;
            let dest = p.folders@[p.index as int].id;
            &&& post.move_picker is None
            &&& p.thread_ids is None ==> post.actions@ == pre.actions@.push(
                Action::MoveMessage { id: p.message_id, dest, reload: true },
            )
            &&& p.thread_ids matches Some(ids) ==> post.actions@ == pre.actions@.push(
                Action::ReadMoveScope { ids, dest },
            )
        }),
{
}

/// The number of messages in Sent that a question names is the number of those
/// ids that lie there.
pub proof fn the_scope_counts_what_was_sent(
    a: App,
    ids: Seq<String>,
    folders: Seq<FolderRow>,
    sent: int,
    n: int,
)
    requires
        0 <= n <= ids.len(),
    ensures
        ({
            let k = triage::count_in(a.threads@, ids, n, folders[sent].id@);
            &&& 0 <= k <= n
            &&& k == 0 <==> forall|i: int|
                0 <= i < n ==> !triage::lies_in(
                    a.threads@,
                    (#[trigger] ids[i])@,
                    folders[sent].id@,
                )
            &&& k == n <==> forall|i: int|
                0 <= i < n ==> triage::lies_in(a.threads@, (#[trigger] ids[i])@, folders[sent].id@)
        }),
    decreases n,
{
    if n > 0 {
        the_scope_counts_what_was_sent(a, ids, folders, sent, n - 1);
        let f = folders[sent].id@;
        let was = triage::count_in(a.threads@, ids, n - 1, f);
        let k = triage::count_in(a.threads@, ids, n, f);
        if k == 0 {
            assert forall|i: int| 0 <= i < n implies !triage::lies_in(
                a.threads@,
                (#[trigger] ids[i])@,
                f,
            ) by {}
        }
        if k == n {
            assert forall|i: int| 0 <= i < n implies triage::lies_in(
                a.threads@,
                (#[trigger] ids[i])@,
                f,
            ) by {}
        }
        if forall|i: int| 0 <= i < n ==> triage::lies_in(a.threads@, (#[trigger] ids[i])@, f) {
            assert(triage::lies_in(a.threads@, ids[n - 1]@, f));
        }
        if forall|i: int| 0 <= i < n ==> !triage::lies_in(a.threads@, (#[trigger] ids[i])@, f) {
            assert(!triage::lies_in(a.threads@, ids[n - 1]@, f));
        }
    }
}

// ---------------------------------------------------------------------------
// The composer
// ---------------------------------------------------------------------------

/// Sending, and closing, keep what was written: the draft is stored with every
/// field as it stands in the composer, and is then sent, or saved.
pub proof fn drafts_are_kept_as_written(pre: App, post: App)
    requires
        drafts::compose_applied(pre, post),
        pre.compose is Some,
        pre.compose_action == Some(ComposeAction::Send) || pre.compose_action == Some(
            ComposeAction::Save,
        ),
    ensures
        ({
            let c = pre.compose->0;
            &&& post.compose is None
            &&& post.compose_action is None
            &&& post.actions@.len() == pre.actions@.len() + 2
            &&& post.actions@[pre.actions@.len() as int] matches Action::UpdateDraft {
                draft_id,
                subject,
                to,
                cc,
                bcc,
                body,
            } && draft_id == c.draft_id && subject == c.subject && to == c.to && cc == c.cc && bcc
                == c.bcc && body == c.editor.text
            &&& post.actions@.last() == Action::Send(
                if pre.compose_action == Some(ComposeAction::Send) {
                    SyncCommand::SendDraft { id: c.draft_id }
                } else {
                    SyncCommand::SaveDraft { id: c.draft_id }
                },
            )
        }),
{
}

/// In the composer, Ctrl-Enter sends, Esc saves and Ctrl-D discards, whichever
/// field has the focus.
pub proof fn the_composer_ends_as_asked(pre: App, post: App, key: Key)
    requires
        drafts::compose_keyed(pre, post, key),
        pre.compose is Some,
    ensures
        key.code == KeyCode::Enter && key.ctrl ==> post.compose_action == Some(
            ComposeAction::Send,
        ) && post.compose == pre.compose,
        key.code == KeyCode::Esc ==> post.compose_action == Some(ComposeAction::Save)
            && post.compose == pre.compose,
        (key.code == KeyCode::Char('d') || key.code == KeyCode::Char('D')) && key.ctrl
            ==> post.compose_action == Some(ComposeAction::Discard) && post.compose == pre.compose,
{
}

/// A character that is typed goes to the field with the focus, and Backspace takes
/// it away again; the other fields keep what they hold.
pub proof fn typing_in_a_header_is_undone_by_backspace(
    pre: App,
    mid: App,
    post: App,
    c: char,
)
    requires
        drafts::compose_keyed(pre, mid, typed(c)),
        drafts::compose_keyed(mid, post, struck(KeyCode::Backspace)),
        pre.compose is Some,
        pre.compose->0.focus != crate::ui::compose::ComposeField::Body,
    ensures
        ({
            let (a, b, d) = (pre.compose->0, mid.compose->0, post.compose->0);
            &&& mid.compose is Some && post.compose is Some
            &&& d.to@ == a.to@ && d.cc@ == a.cc@ && d.subject@ == a.subject@ && d.bcc == a.bcc
            &&& a.focus == crate::ui::compose::ComposeField::To ==> b.to@ == a.to@.push(c)
                && b.cc == a.cc && b.subject == a.subject
            &&& a.focus == crate::ui::compose::ComposeField::Cc ==> b.cc@ == a.cc@.push(c)
                && b.to == a.to && b.subject == a.subject
            &&& a.focus == crate::ui::compose::ComposeField::Subject ==> b.subject@
                == a.subject@.push(c) && b.to == a.to && b.cc == a.cc
        }),
{
    let a = pre.compose->0;
    assert(a.to@.push(c).drop_last() =~= a.to@);
    assert(a.cc@.push(c).drop_last() =~= a.cc@);
    assert(a.subject@.push(c).drop_last() =~= a.subject@);
}

/// A file that is picked is attached; a directory is listed instead, and the
/// picker stays open.
pub proof fn picked_files_are_attached(pre: App, post: App)
    requires
        drafts::picker_entered(pre, post),
        pre.file_picker matches Some(p) && p.index < p.entries@.len(),
    ensures
        ({
            let e = pre.file_picker->0.entries@[pre.file_picker->0.index as int];
            &&& e.is_dir ==> post.file_picker == pre.file_picker && post.actions@
                == pre.actions@.push(Action::ListDirectory(e.path))
            &&& !e.is_dir ==> post.file_picker is None && post.actions@ == pre.actions@.push(
                Action::Attach(e.path),
            )
        }),
{
}

/// A new draft carries the signature, line by line; a blank signature is none.
pub proof fn new_drafts_are_signed(pre: App, post: App)
    requires
        drafts::composing_begun(pre, post),
    ensures
        post.actions@.len() == pre.actions@.len() + 1,
        post.actions@.last() matches Action::CreateDraft { signature } && {
            &&& text::trim(pre.signature@).len() == 0 ==> signature@.len() == 0
            &&& text::trim(pre.signature@).len() > 0 ==> model::texts(signature@) == text::lines(
                pre.signature@,
            )
        },
{
    let v = choose|v: Vec<String>|
        model::texts(v@) == names::signature_of(pre.signature@) && crate::app::emitted(
            pre,
            post,
            seq![#[trigger] drafts::create_draft(v)],
        );
    assert(post.actions@.last() == drafts::create_draft(v));
    assert(model::texts(v@).len() == v@.len());
}

// ---------------------------------------------------------------------------
// Categories
// ---------------------------------------------------------------------------

/// One of the first `n` items is marked, and has this name.
pub open spec fn is_marked(v: Seq<CategoryItem>, n: int, name: String) -> bool {
    exists|i: int| 0 <= i < n && (#[trigger] v[i]).selected && v[i].name == name
}

/// The categories that are set are those that are marked, each once for each
/// item.
pub proof fn marked_categories_are_set(v: Seq<CategoryItem>, n: int)
    requires
        0 <= n <= v.len(),
    ensures
        forall|name: String| #[trigger]
            categories::chosen(v, n).contains(name) <==> is_marked(v, n, name),
        categories::chosen(v, n).len() <= n,
    decreases n,
{
    let all = categories::chosen(v, n);
    if n > 0 {
        marked_categories_are_set(v, n - 1);
        let before = categories::chosen(v, n - 1);
        assert forall|name: String| #[trigger] all.contains(name) implies is_marked(v, n, name) by {
            let k = choose|k: int| 0 <= k < all.len() && all[k] == name;
            if k < before.len() {
                assert(before[k] == name);
                assert(before.contains(name));
                let i = choose|i: int|
                    0 <= i < n - 1 && (#[trigger] v[i]).selected && v[i].name == name;
                assert(v[i].selected);
            } else {
                assert(v[n - 1].selected);
            }
        }
        assert forall|name: String| is_marked(v, n, name) implies #[trigger] all.contains(name) by {
            let i = choose|i: int| 0 <= i < n && (#[trigger] v[i]).selected && v[i].name == name;
            if i == n - 1 {
                assert(all[all.len() - 1] == name);
            } else {
                assert(is_marked(v, n - 1, name));
                assert(before.contains(name));
                let k = choose|k: int| 0 <= k < before.len() && before[k] == name;
                assert(all[k] == name);
            }
        }
    } else {
        assert(all.len() == 0);
    }
}

/// Enter in the picker sets, on the message it was opened for, the categories that
/// are marked: here, and on the server.
pub proof fn the_picker_sets_what_is_marked(pre: App, post: App, folder: String, id: String)
    requires
        categories::category_picker_applied(pre, post),
        pre.category_picker matches Some(p) && p.mode == PickerMode::Assign && p.message_id
            == Some(id),
        pre.selected_folder == Some(folder),
    ensures
        ({
            let p = pre.category_picker->0;
            let n = pre.actions@.len() as int;
            &&& post.category_picker is None
            &&& post.actions@.len() == n + 3
            &&& post.actions@[n] matches Action::SetCategories { id: at, categories: v } && at == id
                && (forall|name: String| #[trigger]
                v@.contains(name) <==> is_marked(p.items@, p.items@.len() as int, name))
            &&& post.actions@[n + 2] matches Action::Send(
                SyncCommand::SetCategories { id: at, categories: w },
            ) && at == id && (forall|name: String| #[trigger]
                w@.contains(name) <==> is_marked(p.items@, p.items@.len() as int, name))
        }),
{
    let p = pre.category_picker->0;
    marked_categories_are_set(p.items@, p.items@.len() as int);
}

/// Enter in the filter shows only what carries the category under the cursor.
pub proof fn the_filter_is_the_category_picked(pre: App, post: App)
    requires
        categories::category_picker_applied(pre, post),
        pre.category_picker matches Some(p) && p.mode == PickerMode::Filter && p.index
            < p.items@.len(),
    ensures
        post.category_picker is None,
        post.category_filter == Some(
            pre.category_picker->0.items@[pre.category_picker->0.index as int].name,
        ),
        pre.selected_folder matches Some(folder) ==> post.actions@ == pre.actions@.push(
            Action::ReadMessages { folder, limit: 200 },
        ),
{
}

/// What a filtered list shows is what was read and carries the category.
pub proof fn filtered_lists_carry_the_category(rows: Seq<MessageRow>, cat: String, m: MessageRow)
    ensures
        folders::listed(rows, Some(cat)).contains(m) <==> rows.contains(m) && model::texts(
            m.categories@,
        ).contains(cat@),
        folders::listed(rows, None) == rows,
{
    let p = |x: MessageRow| folders::has_category(x, cat@);
    let kept = rows.filter(p);
    broadcast use vstd::seq_lib::group_filter_ensures;

    if kept.contains(m) {
        let k = choose|k: int| 0 <= k < kept.len() && kept[k] == m;
        assert(p(kept[k]));
        rows.lemma_filter_contains_rev(p, m);
    }
    if rows.contains(m) && model::texts(m.categories@).contains(cat@) {
        let i = choose|i: int| 0 <= i < rows.len() && rows[i] == m;
        assert(p(rows[i]));
    }
}

/// The picker offers every category there is, and every one that the message
/// carries; those that the message carries are marked.
pub proof fn the_picker_offers_every_category(
    names: Seq<Seq<char>>,
    current: Seq<Seq<char>>,
    n: int,
    name: Seq<char>,
)
    requires
        0 <= n <= current.len(),
    ensures
        categories::offered(names, current, n).contains(name) <==> names.contains(name)
            || current.take(n).contains(name),
    decreases n,
{
    let all = categories::offered(names, current, n);
    if n > 0 {
        the_picker_offers_every_category(names, current, n - 1, name);
        let before = categories::offered(names, current, n - 1);
        let (was, is) = (current.take(n - 1), current.take(n));
        assert(is =~= was.push(current[n - 1]));
        if before.contains(name) {
            let k = choose|k: int| 0 <= k < before.len() && before[k] == name;
            assert(all[k] == name);
        }
        if all.contains(name) && !before.contains(name) {
            let k = choose|k: int| 0 <= k < all.len() && all[k] == name;
            if k < before.len() {
                assert(before[k] == name);
            }
            assert(is[n - 1] == name);
        }
        if was.contains(name) {
            let k = choose|k: int| 0 <= k < was.len() && was[k] == name;
            assert(is[k] == name);
        }
        if is.contains(name) && !was.contains(name) {
            let k = choose|k: int| 0 <= k < is.len() && is[k] == name;
            if k < n - 1 {
                assert(was[k] == name);
            }
            if !before.contains(name) {
                assert(all[all.len() - 1] == name);
            }
        }
    } else {
        assert(current.take(0).len() == 0);
    }
}

}
