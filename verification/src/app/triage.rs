//! What the keys of the message list do to the message, or the conversation,
//! under the cursor.

use crate::app;
use crate::app::folders;
use crate::app::{Action, App, ConfirmAction, ConfirmModal, MovePicker, Row, ThreadView};
use crate::model;
use crate::model::{FolderRow, MessageRow, SyncCommand};
use crate::text;
use crate::ui;
use vstd::prelude::*;

verus! {

// ---------------------------------------------------------------------------
// What the cursor is on
// ---------------------------------------------------------------------------

/// The message a row stands for: a header stands for its conversation's latest.
pub open spec fn row_message(threads: Seq<ThreadView>, row: Row) -> Option<MessageRow> {
    match row {
        Row::Message(t, m) => if m < threads[t as int].thread.messages@.len() {
            Some(threads[t as int].thread.messages@[m as int])
        } else {
            None
        },
        Row::Header(t) => if threads[t as int].thread.messages@.len() > 0 {
            Some(threads[t as int].thread.messages@.last())
        } else {
            None
        },
    }
}

/// The ids of messages.
pub open spec fn ids_of(v: Seq<MessageRow>) -> Seq<String> {
    v.map_values(|m: MessageRow| m.id)
}

impl App {
    /// The message under the list's cursor.
    pub open spec fn highlighted(self) -> Option<MessageRow> {
        if self.is_threaded() {
            match self.row() {
                Some(row) => row_message(self.threads@, row),
                None => None,
            }
        } else if self.msg_index < self.messages@.len() {
            Some(self.messages@[self.msg_index as int])
        } else {
            None
        }
    }

    /// In the threaded view, the ids a key acts on: those of the conversation
    /// on its header, that of the message on its row.
    pub open spec fn targets(self) -> Option<Seq<String>> {
        if self.is_threaded() {
            match self.row() {
                Some(Row::Header(t)) => Some(ids_of(self.threads@[t as int].thread.messages@)),
                Some(Row::Message(t, m)) => if m < self.threads@[t as int].thread.messages@.len() {
                    Some(seq![self.threads@[t as int].thread.messages@[m as int].id])
                } else {
                    None
                },
                None => None,
            }
        } else {
            None
        }
    }

    /// The row the threaded list's cursor is on, which exists.
    pub fn current_row(&self) -> (r: Option<Row>)
        requires
            self.rows_in_step(),
        ensures
            r == self.row(),
            r matches Some(row) ==> folders::row_exists(self.threads@, row),
    {
        proof {
            assert(self.threads.len() == self.threads@.len());
            if self.row_index < self.visible_rows@.len() {
                folders::listed_rows_exist(
                    self.threads@,
                    self.threads@.len() as int,
                    self.row_index as int,
                );
            }
        }
        self.selected_row()
    }
}

// ---------------------------------------------------------------------------
// What the methods change
// ---------------------------------------------------------------------------

/// `before` is asked for, then the messages again, then `after`.
pub open spec fn asked_around(
    pre: App,
    post: App,
    before: Seq<Action>,
    after: Seq<Action>,
) -> bool {
    exists|a: App, b: App|
        #![trigger folders::messages_asked(a, b)]
        app::emitted(pre, a, before) && folders::messages_asked(a, b) && app::emitted(
            b,
            post,
            after,
        )
}

/// Two actions for each of the first `n` ids: a write, and the command that
/// carries it on.
pub open spec fn read_writes(ids: Seq<String>, n: int, read: bool) -> Seq<Action>
    decreases n,
{
    if n <= 0 {
        Seq::empty()
    } else {
        read_writes(ids, n - 1, read) + seq![
            Action::SetRead { id: ids[n - 1], read },
            Action::Send(SyncCommand::MarkRead { id: ids[n - 1], read }),
        ]
    }
}

pub open spec fn flag_writes(ids: Seq<String>, n: int, flagged: bool) -> Seq<Action>
    decreases n,
{
    if n <= 0 {
        Seq::empty()
    } else {
        flag_writes(ids, n - 1, flagged) + seq![
            Action::SetFlag { id: ids[n - 1], flagged },
            Action::Send(SyncCommand::SetFlag { id: ids[n - 1], flagged }),
        ]
    }
}

pub open spec fn delete_writes(ids: Seq<String>, n: int) -> Seq<Action>
    decreases n,
{
    if n <= 0 {
        Seq::empty()
    } else {
        delete_writes(ids, n - 1) + seq![
            Action::DeleteMessage { id: ids[n - 1] },
            Action::Send(SyncCommand::Delete { id: ids[n - 1] }),
        ]
    }
}

pub open spec fn move_writes(ids: Seq<String>, n: int, dest: String) -> Seq<Action>
    decreases n,
{
    if n <= 0 {
        Seq::empty()
    } else {
        move_writes(ids, n - 1, dest) + seq![
            Action::MoveMessage { id: ids[n - 1], dest, reload: false },
        ]
    }
}

/// The conversation under a header, or the message under the cursor, is marked
/// read or unread.
pub open spec fn marked_read(pre: App, post: App, read: bool) -> bool {
    match pre.targets() {
        Some(ids) => asked_around(
            pre,
            post,
            read_writes(ids, ids.len() as int, read),
            Seq::empty(),
        ),
        None => match pre.highlighted() {
            Some(m) => asked_around(
                pre,
                post,
                seq![Action::SetRead { id: m.id, read }],
                seq![Action::Send(SyncCommand::MarkRead { id: m.id, read })],
            ),
            None => post == pre,
        },
    }
}

/// Some message of a conversation is not flagged.
pub open spec fn some_unflagged(v: Seq<MessageRow>) -> bool {
    exists|i: int| 0 <= i < v.len() && !(#[trigger] v[i]).is_flagged
}

/// The message under the cursor changes its flag. A conversation is flagged
/// throughout if some message is not, and unflagged otherwise.
pub open spec fn flag_toggled(pre: App, post: App) -> bool {
    match pre.targets() {
        Some(ids) => {
            let want = match pre.row() {
                Some(Row::Header(t)) => some_unflagged(pre.threads@[t as int].thread.messages@),
                Some(Row::Message(t, m)) => !pre.threads@[t as int].thread.messages@[m as int].is_flagged,
                None => false,
            };
            asked_around(pre, post, flag_writes(ids, ids.len() as int, want), Seq::empty())
        },
        None => if pre.msg_index < pre.messages@.len() {
            let m = pre.messages@[pre.msg_index as int];
            asked_around(
                pre,
                post,
                seq![Action::SetFlag { id: m.id, flagged: !m.is_flagged }],
                seq![Action::Send(SyncCommand::SetFlag { id: m.id, flagged: !m.is_flagged })],
            )
        } else {
            post == pre
        },
    }
}

pub open spec fn message_deleted(pre: App, post: App, id: String) -> bool {
    asked_around(
        pre,
        post,
        seq![Action::DeleteMessage { id }],
        seq![Action::Send(SyncCommand::Delete { id })],
    )
}

/// The message under the cursor is deleted; for a conversation of several it is
/// asked first.
pub open spec fn deletion_begun(pre: App, post: App) -> bool {
    match pre.targets() {
        Some(ids) => if ids.len() > 1 {
            exists|v: Vec<String>|
                v@ == ids && app::emitted(pre, post, seq![#[trigger] delete_scope(v)])
        } else if ids.len() == 1 {
            message_deleted(pre, post, ids[0])
        } else {
            post == pre
        },
        None => match pre.highlighted() {
            Some(m) => message_deleted(pre, post, m.id),
            None => post == pre,
        },
    }
}

pub open spec fn delete_scope(ids: Vec<String>) -> Action {
    Action::ReadDeleteScope { ids }
}

pub open spec fn move_targets(message_id: String, thread_ids: Option<Vec<String>>) -> Action {
    Action::ReadMoveTargets { message_id, thread_ids }
}

/// The popup that moves the message under the cursor, or its conversation, is
/// asked for.
pub open spec fn move_begun(pre: App, post: App) -> bool {
    match (pre.targets(), pre.highlighted()) {
        (Some(ids), h) => if ids.len() > 1 {
            exists|v: Vec<String>|
                v@ == ids && app::emitted(
                    pre,
                    post,
                    seq![#[trigger] move_targets(ids[0], Some(v))],
                )
        } else if ids.len() == 1 {
            app::emitted(pre, post, seq![move_targets(ids[0], None)])
        } else {
            post == pre
        },
        (None, Some(m)) => app::emitted(pre, post, seq![move_targets(m.id, None)]),
        (None, None) => post == pre,
    }
}

/// The position of the first folder of this kind, or the length where there is
/// none.
pub open spec fn kind_at(v: Seq<FolderRow>, kind: Seq<char>) -> int
    decreases v.len(),
{
    if v.len() == 0 || model::text_of(v[0].well_known_name) == Some(kind) {
        0
    } else {
        1 + kind_at(v.skip(1), kind)
    }
}

/// A message is among these and lies in a folder.
pub open spec fn lies_among(v: Seq<MessageRow>, id: Seq<char>, folder: Seq<char>) -> bool {
    exists|m: int| 0 <= m < v.len() && (#[trigger] v[m]).id@ == id && v[m].folder_id@ == folder
}

/// A message of the conversations at hand lies in a folder.
pub open spec fn lies_in(threads: Seq<ThreadView>, id: Seq<char>, folder: Seq<char>) -> bool {
    exists|t: int|
        0 <= t < threads.len() && lies_among((#[trigger] threads[t]).thread.messages@, id, folder)
}

/// How many of the first `n` messages lie in a folder.
pub open spec fn count_in(
    threads: Seq<ThreadView>,
    ids: Seq<String>,
    n: int,
    folder: Seq<char>,
) -> int
    decreases n,
{
    if n <= 0 {
        0
    } else {
        count_in(threads, ids, n - 1, folder) + if lies_in(threads, ids[n - 1]@, folder) {
            1int
        } else {
            0
        }
    }
}

/// How many of the messages were sent from here.
pub open spec fn in_sent(a: App, ids: Seq<String>, folders: Seq<FolderRow>) -> int {
    let i = kind_at(folders, "sentitems"@);
    if i < folders.len() {
        count_in(a.threads@, ids, ids.len() as int, folders[i].id@)
    } else {
        0
    }
}

/// `5 messages (incl. 2 in Sent)`.
pub open spec fn scope_of(a: App, ids: Seq<String>, folders: Seq<FolderRow>) -> Seq<char> {
    let k = in_sent(a, ids, folders);
    let all = text::integer(ids.len() as int) + " messages"@;
    if k > 0 {
        all + " (incl. "@ + text::integer(k) + " in Sent)"@
    } else {
        all
    }
}

/// What was confirmed is carried out.
pub open spec fn confirmed(pre: App, post: App) -> bool {
    let closed = App { confirm: None, ..pre };
    match pre.confirm {
        None => post == pre,
        Some(modal) => asked_around(
            closed,
            post,
            match modal.action {
                ConfirmAction::DeleteThread(ids) => delete_writes(ids@, ids@.len() as int),
                ConfirmAction::MoveThread(ids, dest) => move_writes(ids@, ids@.len() as int, dest),
                ConfirmAction::DeleteEvent(id) => seq![
                    Action::DeleteEvent { id },
                    Action::Send(SyncCommand::DeleteEvent { id }),
                    Action::ReadAgenda,
                ],
            },
            Seq::empty(),
        ),
    }
}

/// The highlighted folder is where the captured message, or conversation, goes;
/// for a conversation it is asked first. The popup closes.
pub open spec fn move_confirmed(pre: App, post: App) -> bool {
    let closed = App { move_picker: None, ..pre };
    match pre.move_picker {
        None => post == pre,
        Some(p) => if p.index < p.folders@.len() {
            let dest = p.folders@[p.index as int].id;
            match p.thread_ids {
                Some(ids) => app::emitted(closed, post, seq![Action::ReadMoveScope { ids, dest }]),
                None => app::emitted(
                    closed,
                    post,
                    seq![Action::MoveMessage { id: p.message_id, dest, reload: true }],
                ),
            }
        } else {
            post == closed
        },
    }
}

/// The other kind of list, at its top.
pub open spec fn rethreaded(a: App) -> App {
    App { threaded: !a.threaded, row_index: 0, msg_index: 0, ..a }
}

/// The list changes between conversations and messages, and starts at the top.
pub open spec fn threading_toggled(pre: App, post: App) -> bool {
    exists|b: App|
        {
            &&& #[trigger] folders::messages_asked(rethreaded(pre), b)
            &&& app::emitted(
                b,
                post,
                if pre.config_path is Some {
                    seq![Action::PersistThreaded { threaded: !pre.threaded }]
                } else {
                    Seq::empty()
                },
            )
        }
}

// ---------------------------------------------------------------------------
// Helpers
// ---------------------------------------------------------------------------

fn message_ids(v: &Vec<MessageRow>) -> (r: Vec<String>)
    ensures
        r@ == ids_of(v@),
{
    let mut out: Vec<String> = Vec::new();
    let mut i: usize = 0;
    while i < v.len()
        invariant
            i <= v@.len(),
            out@ == ids_of(v@).take(i as int),
        decreases v@.len() - i,
    {
        out.push(v[i].id.clone());
        i += 1;
        assert(out@ =~= ids_of(v@).take(i as int));
    }
    assert(ids_of(v@).take(i as int) =~= ids_of(v@));
    out
}

fn any_unflagged(v: &Vec<MessageRow>) -> (r: bool)
    ensures
        r == some_unflagged(v@),
{
    let mut i: usize = 0;
    while i < v.len()
        invariant
            i <= v@.len(),
            forall|k: int| 0 <= k < i ==> (#[trigger] v@[k]).is_flagged,
        decreases v@.len() - i,
    {
        if !v[i].is_flagged {
            return true;
        }
        i += 1;
    }
    false
}

fn find_kind(v: &Vec<FolderRow>, kind: &str) -> (r: usize)
    ensures
        r == kind_at(v@, kind@),
        r <= v@.len(),
{
    let mut i: usize = 0;
    assert(v@.skip(0) =~= v@);
    while i < v.len()
        invariant
            i <= v@.len(),
            kind_at(v@, kind@) == i + kind_at(v@.skip(i as int), kind@),
        decreases v@.len() - i,
    {
        let hit = match &v[i].well_known_name {
            Some(n) => text::same(n.as_str(), kind),
            None => false,
        };
        if hit {
            return i;
        }
        assert(v@.skip(i as int).skip(1) =~= v@.skip(i + 1));
        i += 1;
    }
    i
}

fn is_among(v: &Vec<MessageRow>, id: &String, folder: &String) -> (r: bool)
    ensures
        r == lies_among(v@, id@, folder@),
{
    let mut m: usize = 0;
    while m < v.len()
        invariant
            m <= v@.len(),
            forall|k: int|
                0 <= k < m ==> (#[trigger] v@[k]).id@ != id@ || v@[k].folder_id@ != folder@,
        decreases v@.len() - m,
    {
        if v[m].id == *id && v[m].folder_id == *folder {
            return true;
        }
        m += 1;
    }
    false
}

fn is_in(threads: &Vec<ThreadView>, id: &String, folder: &String) -> (r: bool)
    ensures
        r == lies_in(threads@, id@, folder@),
{
    let mut t: usize = 0;
    while t < threads.len()
        invariant
            t <= threads@.len(),
            forall|k: int|
                0 <= k < t ==> !lies_among((#[trigger] threads@[k]).thread.messages@, id@, folder@),
        decreases threads@.len() - t,
    {
        if is_among(&threads[t].thread.messages, id, folder) {
            return true;
        }
        t += 1;
    }
    false
}

fn count_in_folder(threads: &Vec<ThreadView>, ids: &Vec<String>, folder: &String) -> (r: usize)
    ensures
        r == count_in(threads@, ids@, ids@.len() as int, folder@),
{
    let mut n: usize = 0;
    let mut i: usize = 0;
    while i < ids.len()
        invariant
            i <= ids@.len(),
            n <= i,
            n == count_in(threads@, ids@, i as int, folder@),
        decreases ids@.len() - i,
    {
        if is_in(threads, &ids[i], folder) {
            n += 1;
        }
        i += 1;
    }
    n
}

// ---------------------------------------------------------------------------
// Methods
// ---------------------------------------------------------------------------

impl App {
    /// The id of the message under the list's cursor, and whether it has
    /// attachments.
    pub fn highlighted_message_fields(&self) -> (r: Option<(String, bool)>)
        requires
            self.rows_in_step(),
        ensures
            match self.highlighted() {
                Some(m) => r == Some((m.id, m.has_attachments)),
                None => r is None,
            },
    {
        if self.threaded_active() {
            return match self.current_row() {
                Some(Row::Message(t, m)) => {
                    let v = &self.threads[t].thread.messages;
                    Some((v[m].id.clone(), v[m].has_attachments))
                },
                Some(Row::Header(t)) => {
                    let v = &self.threads[t].thread.messages;
                    if v.len() > 0 {
                        let x = &v[v.len() - 1];
                        Some((x.id.clone(), x.has_attachments))
                    } else {
                        None
                    }
                },
                None => None,
            };
        }
        if self.msg_index < self.messages.len() {
            let m = &self.messages[self.msg_index];
            Some((m.id.clone(), m.has_attachments))
        } else {
            None
        }
    }

    /// The id of the message under the list's cursor.
    pub fn highlighted_message_id(&self) -> (r: Option<String>)
        requires
            self.rows_in_step(),
        ensures
            match self.highlighted() {
                Some(m) => r == Some(m.id),
                None => r is None,
            },
    {
        match self.highlighted_message_fields() {
            Some((id, _)) => Some(id),
            None => None,
        }
    }

    /// The ids a key acts on in the threaded view.
    pub fn threaded_target_ids(&self) -> (r: Option<Vec<String>>)
        requires
            self.rows_in_step(),
        ensures
            match r {
                Some(ids) => self.targets() == Some(ids@),
                None => self.targets() is None,
            },
    {
        if !self.threaded_active() {
            return None;
        }
        match self.current_row() {
            Some(Row::Header(t)) => Some(message_ids(&self.threads[t].thread.messages)),
            Some(Row::Message(t, m)) => {
                let mut v: Vec<String> = Vec::new();
                v.push(self.threads[t].thread.messages[m].id.clone());
                assert(v@ =~= seq![self.threads@[t as int].thread.messages@[m as int].id]);
                Some(v)
            },
            None => None,
        }
    }

    /// Marks the highlighted message, or conversation, read or unread.
    pub fn mark_read(&mut self, read: bool)
        requires
            old(self).rows_in_step(),
        ensures
            marked_read(*old(self), *final(self), read),
            old(self).rows_in_step() ==> final(self).rows_in_step(),
    {
        let ghost pre = *self;
        if let Some(ids) = self.threaded_target_ids() {
            let mut i: usize = 0;
            assert(app::emitted(pre, *self, read_writes(ids@, 0, read)));
            while i < ids.len()
                invariant
                    i <= ids@.len(),
                    app::emitted(pre, *self, read_writes(ids@, i as int, read)),
                decreases ids@.len() - i,
            {
                self.emit(Action::SetRead { id: ids[i].clone(), read });
                self.send(SyncCommand::MarkRead { id: ids[i].clone(), read });
                i += 1;
            }
            let ghost a = *self;
            self.reload_messages();
            assert(folders::messages_asked(a, *self));
            assert(app::emitted(*self, *self, Seq::empty()));
            return;
        }
        let id = match self.highlighted_message_id() {
            Some(id) => id,
            None => {
                return;
            },
        };
        self.emit(Action::SetRead { id: id.clone(), read });
        let ghost a = *self;
        self.reload_messages();
        let ghost b = *self;
        self.send(SyncCommand::MarkRead { id, read });
        assert(folders::messages_asked(a, b));
    }

    /// Toggles the highlighted message's flag. On a conversation's header the
    /// flag is made the same throughout.
    pub fn toggle_flag(&mut self)
        requires
            old(self).rows_in_step(),
        ensures
            flag_toggled(*old(self), *final(self)),
            old(self).rows_in_step() ==> final(self).rows_in_step(),
    {
        let ghost pre = *self;
        if let Some(ids) = self.threaded_target_ids() {
            let want = match self.current_row() {
                Some(Row::Header(t)) => any_unflagged(&self.threads[t].thread.messages),
                Some(Row::Message(t, m)) => !self.threads[t].thread.messages[m].is_flagged,
                None => false,
            };
            let mut i: usize = 0;
            assert(app::emitted(pre, *self, flag_writes(ids@, 0, want)));
            while i < ids.len()
                invariant
                    i <= ids@.len(),
                    app::emitted(pre, *self, flag_writes(ids@, i as int, want)),
                decreases ids@.len() - i,
            {
                self.emit(Action::SetFlag { id: ids[i].clone(), flagged: want });
                self.send(SyncCommand::SetFlag { id: ids[i].clone(), flagged: want });
                i += 1;
            }
            let ghost a = *self;
            self.reload_messages();
            assert(folders::messages_asked(a, *self));
            assert(app::emitted(*self, *self, Seq::empty()));
            return;
        }
        if self.msg_index >= self.messages.len() {
            return;
        }
        let id = self.messages[self.msg_index].id.clone();
        let flagged = !self.messages[self.msg_index].is_flagged;
        self.emit(Action::SetFlag { id: id.clone(), flagged });
        let ghost a = *self;
        self.reload_messages();
        let ghost b = *self;
        self.send(SyncCommand::SetFlag { id, flagged });
        assert(folders::messages_asked(a, b));
    }

    /// A count like `5 messages (incl. 2 in Sent)` for a confirm prompt.
    pub fn describe_thread_scope(&self, ids: &Vec<String>, folders: &Vec<FolderRow>) -> (r: String)
        ensures
            r@ == scope_of(*self, ids@, folders@),
    {
        let n = ids.len();
        let i = find_kind(folders, "sentitems");
        let k: usize = if i < folders.len() {
            count_in_folder(&self.threads, ids, &folders[i].id)
        } else {
            0
        };
        let mut s: String = String::new();
        text::push_integer(&mut s, n as i128);
        assert(s@ =~= text::integer(n as int));
        s.append(" messages");
        if k > 0 {
            s.append(" (incl. ");
            text::push_integer(&mut s, k as i128);
            s.append(" in Sent)");
        }
        s
    }

    fn delete_one(&mut self, id: String)
        ensures
            message_deleted(*old(self), *final(self), id),
            old(self).rows_in_step() ==> final(self).rows_in_step(),
    {
        self.emit(Action::DeleteMessage { id: id.clone() });
        let ghost a = *self;
        self.reload_messages();
        let ghost b = *self;
        self.send(SyncCommand::Delete { id });
        assert(folders::messages_asked(a, b));
    }

    /// Deletes the highlighted message. For a conversation of several messages
    /// it is asked first.
    pub fn delete_selected(&mut self)
        requires
            old(self).rows_in_step(),
        ensures
            deletion_begun(*old(self), *final(self)),
            old(self).rows_in_step() ==> final(self).rows_in_step(),
    {
        if let Some(ids) = self.threaded_target_ids() {
            if ids.len() > 1 {
                let ghost v = ids;
                self.emit(Action::ReadDeleteScope { ids });
                assert(delete_scope(v) == Action::ReadDeleteScope { ids: v });
                return;
            }
            if ids.len() == 1 {
                let id = ids[0].clone();
                self.delete_one(id);
            }
            return;
        }
        if let Some(id) = self.highlighted_message_id() {
            self.delete_one(id);
        }
    }

    /// Asks whether to delete a conversation.
    pub fn ask_delete_thread(&mut self, ids: Vec<String>, folders: &Vec<FolderRow>)
        ensures
            *final(self) == (App { confirm: final(self).confirm, ..*old(self) }),
            final(self).confirm matches Some(modal) && modal.action == ConfirmAction::DeleteThread(
                ids,
            ) && modal.prompt@ == "Delete "@ + scope_of(*old(self), ids@, folders@)
                + "?"@,
            old(self).rows_in_step() ==> final(self).rows_in_step(),
    {
        let mut prompt: String = "Delete ".to_string();
        prompt.append(self.describe_thread_scope(&ids, folders).as_str());
        prompt.append("?");
        self.confirm = Some(ConfirmModal { prompt, action: ConfirmAction::DeleteThread(ids) });
    }

    /// Asks whether to move a conversation.
    pub fn ask_move_thread(&mut self, ids: Vec<String>, dest: String, folders: &Vec<FolderRow>)
        ensures
            *final(self) == (App { confirm: final(self).confirm, ..*old(self) }),
            final(self).confirm matches Some(modal) && modal.action == ConfirmAction::MoveThread(
                ids,
                dest,
            ) && modal.prompt@ == "Move "@ + scope_of(*old(self), ids@, folders@)
                + " to this folder?"@,
            old(self).rows_in_step() ==> final(self).rows_in_step(),
    {
        let mut prompt: String = "Move ".to_string();
        prompt.append(self.describe_thread_scope(&ids, folders).as_str());
        prompt.append(" to this folder?");
        self.confirm = Some(
            ConfirmModal { prompt, action: ConfirmAction::MoveThread(ids, dest) },
        );
    }

    /// Dismisses the confirm modal, doing nothing.
    pub fn cancel_confirm(&mut self)
        ensures
            *final(self) == (App { confirm: None, ..*old(self) }),
            old(self).rows_in_step() ==> final(self).rows_in_step(),
    {
        self.confirm = None;
    }

    fn delete_all(&mut self, ids: Vec<String>)
        ensures
            app::emitted(*old(self), *final(self), delete_writes(ids@, ids@.len() as int)),
    {
        let ghost pre = *self;
        let mut i: usize = 0;
        assert(app::emitted(pre, *self, delete_writes(ids@, 0)));
        while i < ids.len()
            invariant
                i <= ids@.len(),
                app::emitted(pre, *self, delete_writes(ids@, i as int)),
            decreases ids@.len() - i,
        {
            self.emit(Action::DeleteMessage { id: ids[i].clone() });
            self.send(SyncCommand::Delete { id: ids[i].clone() });
            i += 1;
        }
    }

    fn move_all(&mut self, ids: Vec<String>, dest: String)
        ensures
            app::emitted(*old(self), *final(self), move_writes(ids@, ids@.len() as int, dest)),
    {
        let ghost pre = *self;
        let mut i: usize = 0;
        assert(app::emitted(pre, *self, move_writes(ids@, 0, dest)));
        while i < ids.len()
            invariant
                i <= ids@.len(),
                app::emitted(pre, *self, move_writes(ids@, i as int, dest)),
            decreases ids@.len() - i,
        {
            self.emit(
                Action::MoveMessage { id: ids[i].clone(), dest: dest.clone(), reload: false },
            );
            i += 1;
        }
    }

    fn delete_event_now(&mut self, id: String)
        ensures
            app::emitted(
                *old(self),
                *final(self),
                seq![
                    Action::DeleteEvent { id },
                    Action::Send(SyncCommand::DeleteEvent { id }),
                    Action::ReadAgenda,
                ],
            ),
    {
        self.emit(Action::DeleteEvent { id: id.clone() });
        self.send(SyncCommand::DeleteEvent { id });
        self.emit(Action::ReadAgenda);
    }

    /// Carries out what the confirm modal asked about, and closes it.
    pub fn confirm_yes(&mut self)
        ensures
            confirmed(*old(self), *final(self)),
            old(self).rows_in_step() ==> final(self).rows_in_step(),
    {
        let modal = match self.confirm.take() {
            Some(m) => m,
            None => {
                return;
            },
        };
        match modal.action {
            ConfirmAction::DeleteThread(ids) => self.delete_all(ids),
            ConfirmAction::MoveThread(ids, dest) => self.move_all(ids, dest),
            ConfirmAction::DeleteEvent(id) => self.delete_event_now(id),
        }
        let ghost a = *self;
        self.reload_messages();
        assert(folders::messages_asked(a, *self));
        assert(app::emitted(*self, *self, Seq::empty()));
    }

    /// Asks for the folders that the highlighted message, or conversation, can
    /// be moved to.
    pub fn open_move_picker(&mut self)
        requires
            old(self).rows_in_step(),
        ensures
            move_begun(*old(self), *final(self)),
            old(self).rows_in_step() ==> final(self).rows_in_step(),
    {
        match self.threaded_target_ids() {
            Some(ids) => {
                if ids.len() > 1 {
                    let message_id = ids[0].clone();
                    let ghost v = ids;
                    self.emit(Action::ReadMoveTargets { message_id, thread_ids: Some(ids) });
                    assert(move_targets(message_id, Some(v)) == Action::ReadMoveTargets {
                        message_id,
                        thread_ids: Some(v),
                    });
                } else if ids.len() == 1 {
                    let message_id = ids[0].clone();
                    self.emit(Action::ReadMoveTargets { message_id, thread_ids: None });
                }
            },
            None => {
                if let Some(message_id) = self.highlighted_message_id() {
                    self.emit(Action::ReadMoveTargets { message_id, thread_ids: None });
                }
            },
        }
    }

    /// The folders a message can be moved to: the popup opens, unless there are
    /// none.
    pub fn move_targets_loaded(
        &mut self,
        message_id: String,
        thread_ids: Option<Vec<String>>,
        folders: Vec<FolderRow>,
    )
        ensures
            *final(self) == (if folders@.len() == 0 {
                *old(self)
            } else {
                App {
                    move_picker: Some(MovePicker { folders, index: 0, message_id, thread_ids }),
                    ..*old(self)
                }
            }),
            old(self).rows_in_step() ==> final(self).rows_in_step(),
    {
        if folders.len() == 0 {
            return;
        }
        self.move_picker = Some(MovePicker { folders, index: 0, message_id, thread_ids });
    }

    /// Moves the popup's cursor, wrapping.
    pub fn move_picker_select(&mut self, delta: isize)
        ensures
            picker_moved(*old(self), *final(self), delta as int),
            old(self).rows_in_step() ==> final(self).rows_in_step(),
    {
        if let Some(p) = &mut self.move_picker {
            let n = p.folders.len();
            if n > 0 {
                p.index = ui::wrapped(p.index, delta, n);
            }
        }
    }

    /// Closes the popup without moving anything.
    pub fn cancel_move_picker(&mut self)
        ensures
            *final(self) == (App { move_picker: None, ..*old(self) }),
            old(self).rows_in_step() ==> final(self).rows_in_step(),
    {
        self.move_picker = None;
    }

    /// Moves the captured message into the highlighted folder, or asks whether
    /// to move the captured conversation; closes the popup.
    pub fn confirm_move(&mut self)
        ensures
            move_confirmed(*old(self), *final(self)),
            old(self).rows_in_step() ==> final(self).rows_in_step(),
    {
        let p = match self.move_picker.take() {
            Some(p) => p,
            None => {
                return;
            },
        };
        if p.index >= p.folders.len() {
            return;
        }
        let dest = p.folders[p.index].id.clone();
        match p.thread_ids {
            Some(ids) => {
                self.emit(Action::ReadMoveScope { ids, dest });
            },
            None => {
                self.emit(Action::MoveMessage { id: p.message_id, dest, reload: true });
            },
        }
    }

    /// A message was moved in the store: the move is handed on, once the list
    /// is asked for again where `reload` says so.
    pub fn message_moved(&mut self, id: String, dest: String, reload: bool)
        ensures
            if reload {
                asked_around(
                    *old(self),
                    *final(self),
                    Seq::empty(),
                    seq![Action::Send(SyncCommand::Move { id, dest })],
                )
            } else {
                app::emitted(
                    *old(self),
                    *final(self),
                    seq![Action::Send(SyncCommand::Move { id, dest })],
                )
            },
            old(self).rows_in_step() ==> final(self).rows_in_step(),
    {
        let ghost a = *self;
        if reload {
            self.reload_messages();
        }
        let ghost b = *self;
        self.send(SyncCommand::Move { id, dest });
        if reload {
            assert(app::emitted(a, a, Seq::empty()));
            assert(folders::messages_asked(a, b));
        }
    }

    /// Flips between conversations and messages, starts at the top, and keeps
    /// the choice where settings are kept.
    pub fn toggle_threaded(&mut self)
        ensures
            threading_toggled(*old(self), *final(self)),
            old(self).rows_in_step() ==> final(self).rows_in_step(),
    {
        self.threaded = !self.threaded;
        self.row_index = 0;
        self.msg_index = 0;
        let ghost a = *self;
        self.reload_messages();
        let ghost b = *self;
        if self.config_path.is_some() {
            let threaded = self.threaded;
            self.emit(Action::PersistThreaded { threaded });
        }
        assert(a == rethreaded(*old(self)));
        assert(folders::messages_asked(a, b));
        assert(app::emitted(b, b, Seq::empty()));
    }
}

pub open spec fn picker_moved(pre: App, post: App, delta: int) -> bool {
    match pre.move_picker {
        Some(p) => post == if p.folders@.len() == 0 {
            pre
        } else {
            App {
                move_picker: Some(
                    MovePicker {
                        index: ui::wrap_index(
                            p.index as int,
                            delta,
                            p.folders@.len() as int,
                        ) as usize,
                        ..p
                    },
                ),
                ..pre
            }
        },
        None => post == pre,
    }
}

// ---------------------------------------------------------------------------
// Laws
// ---------------------------------------------------------------------------


/// Each message that is marked is both written to the store and handed on.
pub proof fn whatever_is_marked_is_handed_on(ids: Seq<String>, n: int, read: bool, i: int)
    requires
        0 <= i < n <= ids.len(),
    ensures
        read_writes(ids, n, read).len() == 2 * n,
        read_writes(ids, n, read)[2 * i] == (Action::SetRead { id: ids[i], read }),
        read_writes(ids, n, read)[2 * i + 1] == Action::Send(
            SyncCommand::MarkRead { id: ids[i], read },
        ),
    decreases n,
{
    if n > 1 {
        whatever_is_marked_is_handed_on(
            ids,
            n - 1,
            read,
            if i < n - 1 {
                i
            } else {
                0
            },
        );
    } else {
        assert(read_writes(ids, 0, read) =~= Seq::empty());
    }
}

/// Each message that is flagged is both written to the store and handed on.
pub proof fn whatever_is_flagged_is_handed_on(ids: Seq<String>, n: int, flagged: bool, i: int)
    requires
        0 <= i < n <= ids.len(),
    ensures
        flag_writes(ids, n, flagged).len() == 2 * n,
        flag_writes(ids, n, flagged)[2 * i] == (Action::SetFlag { id: ids[i], flagged }),
        flag_writes(ids, n, flagged)[2 * i + 1] == Action::Send(
            SyncCommand::SetFlag { id: ids[i], flagged },
        ),
    decreases n,
{
    if n > 1 {
        whatever_is_flagged_is_handed_on(
            ids,
            n - 1,
            flagged,
            if i < n - 1 {
                i
            } else {
                0
            },
        );
    } else {
        assert(flag_writes(ids, 0, flagged) =~= Seq::empty());
    }
}

/// Each message that is deleted is both removed from the store and handed on.
pub proof fn whatever_is_deleted_is_handed_on(ids: Seq<String>, n: int, i: int)
    requires
        0 <= i < n <= ids.len(),
    ensures
        delete_writes(ids, n).len() == 2 * n,
        delete_writes(ids, n)[2 * i] == (Action::DeleteMessage { id: ids[i] }),
        delete_writes(ids, n)[2 * i + 1] == Action::Send(SyncCommand::Delete { id: ids[i] }),
    decreases n,
{
    if n > 1 {
        whatever_is_deleted_is_handed_on(
            ids,
            n - 1,
            if i < n - 1 {
                i
            } else {
                0
            },
        );
    } else {
        assert(delete_writes(ids, 0) =~= Seq::empty());
    }
}

/// A conversation of several messages is not deleted before it is confirmed:
/// asking changes nothing in the store and hands nothing on.
pub proof fn conversations_are_deleted_once_confirmed(pre: App, post: App)
    requires
        deletion_begun(pre, post),
        pre.targets() matches Some(ids) && ids.len() > 1,
    ensures
        post.actions@.len() == pre.actions@.len() + 1,
        post.actions@.last() is ReadDeleteScope,
{
}

}
