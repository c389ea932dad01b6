//! Moving through the panes, and opening what is under the cursor.

use crate::app;
use crate::app::folders;
use crate::app::reading;
use crate::app::{Action, App, Pane, Row, ThreadView};
use crate::model::SyncCommand;
use crate::ui;
use vstd::prelude::*;

verus! {

// ---------------------------------------------------------------------------
// What the methods change
// ---------------------------------------------------------------------------

/// One message is marked read, and the messages are asked for again.
pub open spec fn message_marked_read(pre: App, post: App, id: String) -> bool {
    exists|a: App|
        {
            &&& app::emitted(
                pre,
                a,
                seq![
                    Action::SetRead { id, read: true },
                    Action::Send(SyncCommand::MarkRead { id, read: true }),
                ],
            )
            &&& #[trigger] folders::messages_asked(a, post)
        }
}

/// A message is opened in the reader and marked read, and the reader gets the
/// focus; a draft is opened in the composer instead.
pub open spec fn activated(pre: App, post: App, id: String, is_draft: bool) -> bool {
    if is_draft {
        app::emitted(pre, post, seq![Action::ReadDraft { id }])
    } else {
        exists|a: App, b: App|
            {
                &&& reading::message_opened(pre, a, id)
                &&& #[trigger] message_marked_read(a, b, id)
                &&& post == (App { focus: Pane::Reading, ..b })
            }
    }
}

/// The conversation at `t` is expanded or collapsed.
pub open spec fn flipped(pre: App, mid: App, t: int, expanded: bool) -> bool {
    &&& mid == (App { threads: mid.threads, ..pre })
    &&& mid.threads@ =~= pre.threads@.update(t, ThreadView { expanded, ..pre.threads@[t] })
}

/// The conversation at `t` changes between expanded and collapsed.
pub open spec fn thread_toggled(pre: App, mid: App, t: int) -> bool {
    flipped(pre, mid, t, !pre.threads@[t].expanded)
}

/// A message's row opens it. A header changes between expanded and collapsed,
/// and when it expands its latest message is opened.
pub open spec fn row_activated(pre: App, post: App) -> bool {
    match pre.row() {
        None => post == pre,
        Some(Row::Message(t, m)) => {
            let x = pre.threads@[t as int].thread.messages@[m as int];
            activated(pre, post, x.id, x.is_draft)
        },
        Some(Row::Header(t)) => {
            let tv = pre.threads@[t as int];
            let msgs = tv.thread.messages@;
            exists|a: App, b: App|
                {
                    &&& #[trigger] thread_toggled(pre, a, t as int)
                    &&& if !tv.expanded && msgs.len() > 0 {
                        activated(a, b, msgs.last().id, msgs.last().is_draft)
                    } else {
                        b == a
                    }
                    &&& #[trigger] folders::rows_rebuilt(b, post)
                }
        },
    }
}

/// Enter: from the folders into the list; in the list, the message under the
/// cursor is opened.
pub open spec fn selection_activated(pre: App, post: App) -> bool {
    match pre.focus {
        Pane::Folders => post == (App { focus: Pane::List, ..pre }),
        Pane::List => if pre.is_threaded() {
            row_activated(pre, post)
        } else if pre.msg_index < pre.messages@.len() {
            let m = pre.messages@[pre.msg_index as int];
            activated(pre, post, m.id, m.is_draft)
        } else {
            post == pre
        },
        Pane::Rail | Pane::Reading => post == pre,
    }
}

/// A header expands and the cursor goes to the row below it; anything else is
/// activated.
pub open spec fn list_entered(pre: App, post: App) -> bool {
    match pre.row() {
        Some(Row::Header(t)) => if pre.is_threaded() {
            exists|a: App|
                {
                    &&& if pre.threads@[t as int].expanded {
                        a == pre
                    } else {
                        exists|f: App|
                            #[trigger] flipped(pre, f, t as int, true) && folders::rows_rebuilt(f, a)
                    }
                    &&& #[trigger] folders::thread_selection_moved(a, post, 1)
                }
        } else {
            selection_activated(pre, post)
        },
        _ => selection_activated(pre, post),
    }
}

/// The message under the cursor is shown in the reader; it stays as read or
/// unread as it was.
pub open spec fn previewed(pre: App, post: App) -> bool {
    match pre.highlighted() {
        Some(m) => reading::message_opened(pre, post, m.id),
        None => post == pre,
    }
}

/// The list's cursor moves: held at the ends among conversations, wrapping
/// among messages.
pub open spec fn list_moved(pre: App, post: App, delta: int) -> bool {
    if pre.is_threaded() {
        folders::thread_selection_moved(pre, post, delta)
    } else {
        post == if pre.messages@.len() == 0 {
            pre
        } else {
            App {
                msg_index: ui::wrap_index(
                    pre.msg_index as int,
                    delta,
                    pre.messages@.len() as int,
                ) as usize,
                ..pre
            }
        }
    }
}

/// The cursor of the focused pane moves. Another folder's messages are asked
/// for; the message the list's cursor comes to is previewed.
pub open spec fn selection_moved(pre: App, post: App, delta: int) -> bool {
    match pre.focus {
        Pane::Folders => {
            let n = pre.visible_folders@.len() as int;
            let at = ui::wrap_index(pre.folder_index as int, delta, n);
            if n == 0 {
                post == pre
            } else {
                folders::messages_asked(
                    App {
                        folder_index: at as usize,
                        selected_folder: Some(pre.visible_folders@[at].row.id),
                        msg_index: 0,
                        row_index: 0,
                        ..pre
                    },
                    post,
                )
            }
        },
        Pane::List => exists|a: App| #[trigger] list_moved(pre, a, delta) && previewed(a, post),
        Pane::Rail | Pane::Reading => post == pre,
    }
}

/// The list's cursor moves, and the message it comes to is opened in the reader.
pub open spec fn sibling_opened(pre: App, post: App, delta: int) -> bool {
    exists|a: App| #[trigger] list_moved(pre, a, delta) && previewed(a, post)
}

/// Right: a collapsed folder expands, and the cursor goes to its first child;
/// from any other folder, into the list. In the list, as `list_entered`.
pub open spec fn went_right(pre: App, post: App) -> bool {
    match pre.focus {
        Pane::Folders => {
            let v = pre.visible_folders@;
            let i = pre.folder_index as int;
            if i < v.len() && v[i].has_children && !v[i].expanded {
                exists|a: App|
                    #[trigger] folders::folder_flipped(pre, a, false) && selection_moved(a, post, 1)
            } else {
                previewed(App { focus: Pane::List, ..pre }, post)
            }
        },
        Pane::List => list_entered(pre, post),
        Pane::Rail | Pane::Reading => post == pre,
    }
}

/// Left: from the reader to the list, from the list to the folders; a folder
/// collapses, or gives way to its parent, or to the rail.
pub open spec fn went_left(pre: App, post: App) -> bool {
    match pre.focus {
        Pane::Reading => post == (App { focus: Pane::List, ..pre }),
        Pane::List => post == (App { focus: Pane::Folders, ..pre }),
        Pane::Folders => {
            let v = pre.visible_folders@;
            let i = pre.folder_index as int;
            if i < v.len() && (v[i].has_children && v[i].expanded || v[i].depth > 0) {
                folders::collapsed_or_parent(pre, post)
            } else {
                post == (App { focus: Pane::Rail, ..pre })
            }
        },
        Pane::Rail => post == pre,
    }
}

// ---------------------------------------------------------------------------
// Methods
// ---------------------------------------------------------------------------

impl App {
    /// Marks exactly `id` read.
    pub fn mark_message_read(&mut self, id: &String)
        ensures
            message_marked_read(*old(self), *final(self), *id),
            old(self).rows_in_step() ==> final(self).rows_in_step(),
    {
        self.emit(Action::SetRead { id: id.clone(), read: true });
        self.send(SyncCommand::MarkRead { id: id.clone(), read: true });
        let ghost a = *self;
        self.reload_messages();
        assert(folders::messages_asked(a, *self));
    }

    /// Asks for a draft, to open the composer on it.
    pub fn open_draft(&mut self, id: &String)
        ensures
            app::emitted(*old(self), *final(self), seq![Action::ReadDraft { id: *id }]),
            old(self).rows_in_step() ==> final(self).rows_in_step(),
    {
        self.emit(Action::ReadDraft { id: id.clone() });
    }

    fn activate_message(&mut self, id: &String, is_draft: bool)
        ensures
            activated(*old(self), *final(self), *id, is_draft),
            old(self).rows_in_step() ==> final(self).rows_in_step(),
    {
        if is_draft {
            self.open_draft(id);
        } else {
            self.open_message(id);
            let ghost a = *self;
            self.mark_message_read(id);
            let ghost b = *self;
            self.focus = Pane::Reading;
            assert(message_marked_read(a, b, *id));
        }
    }

    fn flip_thread(&mut self, t: usize, expanded: bool)
        requires
            t < old(self).threads@.len(),
        ensures
            flipped(*old(self), *final(self), t as int, expanded),
    {
        let tv = &mut self.threads[t];
        tv.expanded = expanded;
    }

    /// Enter on the highlighted threaded row. On a header: toggles expansion,
    /// and when it becomes expanded, opens the thread's latest message. On a
    /// message row: opens that message (a draft in the composer).
    pub fn activate_thread_row(&mut self)
        requires
            old(self).rows_in_step(),
        ensures
            row_activated(*old(self), *final(self)),
            final(self).rows_in_step(),
    {
        match self.current_row() {
            Some(Row::Header(t)) => {
                let expanding = !self.threads[t].expanded;
                self.flip_thread(t, expanding);
                let ghost a = *self;
                if expanding {
                    let n = self.threads[t].thread.messages.len();
                    if n > 0 {
                        let id = self.threads[t].thread.messages[n - 1].id.clone();
                        let is_draft = self.threads[t].thread.messages[n - 1].is_draft;
                        self.activate_message(&id, is_draft);
                    }
                }
                let ghost b = *self;
                self.rebuild_visible_rows();
                assert(thread_toggled(*old(self), a, t as int));
                assert(folders::rows_rebuilt(b, *self));
            },
            Some(Row::Message(t, m)) => {
                let id = self.threads[t].thread.messages[m].id.clone();
                let is_draft = self.threads[t].thread.messages[m].is_draft;
                self.activate_message(&id, is_draft);
            },
            None => {},
        }
    }

    /// Enter on the current selection: from the folders into the list, from the
    /// list into the reader (drafts into the composer).
    pub fn activate_selected(&mut self)
        requires
            old(self).rows_in_step(),
        ensures
            selection_activated(*old(self), *final(self)),
            final(self).rows_in_step(),
    {
        match self.focus {
            Pane::Folders => {
                self.focus = Pane::List;
            },
            Pane::List => {
                if self.threaded_active() {
                    self.activate_thread_row();
                } else if self.msg_index < self.messages.len() {
                    let id = self.messages[self.msg_index].id.clone();
                    let is_draft = self.messages[self.msg_index].is_draft;
                    self.activate_message(&id, is_draft);
                }
            },
            Pane::Rail | Pane::Reading => {},
        }
    }

    /// Right on the message list: a thread's header is expanded and the cursor
    /// drops to its first child; anything else is activated.
    pub fn list_right(&mut self)
        requires
            old(self).rows_in_step(),
        ensures
            list_entered(*old(self), *final(self)),
            final(self).rows_in_step(),
    {
        if self.threaded_active() {
            if let Some(Row::Header(t)) = self.current_row() {
                if !self.threads[t].expanded {
                    self.flip_thread(t, true);
                    let ghost f = *self;
                    self.rebuild_visible_rows();
                    assert(flipped(*old(self), f, t as int, true));
                }
                let ghost a = *self;
                self.move_thread_selection(1);
                assert(folders::thread_selection_moved(a, *self, 1));
                return;
            }
        }
        self.activate_selected();
    }

    /// Shows the message under the list's cursor in the reader, without marking
    /// it read.
    pub fn preview_selected_message(&mut self)
        requires
            old(self).rows_in_step(),
        ensures
            previewed(*old(self), *final(self)),
            final(self).rows_in_step(),
    {
        if let Some(id) = self.highlighted_message_id() {
            self.open_message(&id);
        }
    }

    fn move_list(&mut self, delta: isize)
        ensures
            list_moved(*old(self), *final(self), delta as int),
            old(self).rows_in_step() ==> final(self).rows_in_step(),
    {
        if self.threaded_active() {
            self.move_thread_selection(delta);
        } else if let Some(n) = ui::nonzero(self.messages.len()) {
            self.msg_index = ui::wrapped(self.msg_index, delta, n);
        }
    }

    /// Opens the next or the previous message of the list in the reader.
    pub fn open_sibling_message(&mut self, delta: isize)
        requires
            old(self).rows_in_step(),
        ensures
            sibling_opened(*old(self), *final(self), delta as int),
            final(self).rows_in_step(),
    {
        self.move_list(delta);
        let ghost a = *self;
        self.preview_selected_message();
        assert(list_moved(*old(self), a, delta as int));
    }

    /// Moves the focused pane's selection.
    pub fn move_selection(&mut self, delta: isize)
        requires
            old(self).rows_in_step(),
        ensures
            selection_moved(*old(self), *final(self), delta as int),
            final(self).rows_in_step(),
    {
        match self.focus {
            Pane::Folders => {
                if let Some(n) = ui::nonzero(self.visible_folders.len()) {
                    self.folder_index = ui::wrapped(self.folder_index, delta, n);
                    self.selected_folder = Some(
                        self.visible_folders[self.folder_index].row.id.clone(),
                    );
                    self.msg_index = 0;
                    self.row_index = 0;
                    self.reload_messages();
                }
            },
            Pane::List => {
                self.move_list(delta);
                let ghost a = *self;
                self.preview_selected_message();
                assert(list_moved(*old(self), a, delta as int));
            },
            Pane::Rail | Pane::Reading => {},
        }
    }

    /// Right: descends a level.
    pub fn nav_right(&mut self)
        requires
            old(self).rows_in_step(),
        ensures
            went_right(*old(self), *final(self)),
            final(self).rows_in_step(),
    {
        match self.focus {
            Pane::Folders => {
                let expandable = if self.folder_index < self.visible_folders.len() {
                    let v = &self.visible_folders[self.folder_index];
                    v.has_children && !v.expanded
                } else {
                    false
                };
                if expandable {
                    self.expand_selected();
                    let ghost a = *self;
                    self.move_selection(1);
                    assert(folders::folder_flipped(*old(self), a, false));
                } else {
                    self.focus = Pane::List;
                    self.preview_selected_message();
                }
            },
            Pane::List => {
                self.list_right();
            },
            Pane::Rail | Pane::Reading => {},
        }
    }

    /// Left: ascends a level.
    pub fn nav_left(&mut self)
        requires
            old(self).rows_in_step(),
        ensures
            went_left(*old(self), *final(self)),
            final(self).rows_in_step(),
    {
        match self.focus {
            Pane::Reading => {
                self.focus = Pane::List;
            },
            Pane::List => {
                self.focus = Pane::Folders;
            },
            Pane::Folders => {
                let inward = if self.folder_index < self.visible_folders.len() {
                    let v = &self.visible_folders[self.folder_index];
                    (v.has_children && v.expanded) || v.depth > 0
                } else {
                    false
                };
                if inward {
                    self.collapse_or_parent();
                } else {
                    self.focus = Pane::Rail;
                }
            },
            Pane::Rail => {},
        }
    }
}

}
