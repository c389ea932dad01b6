//! The folder tree and the message list: what they show, and how they are read
//! again.

use crate::app;
use crate::app::{Action, App, Mode, Row, ThreadView};
use crate::model;
use crate::model::{FolderRow, MasterCategory, MessageRow, Thread};
use crate::text;
use crate::ui;
use crate::ui::foldertree;
use crate::ui::foldertree::VisibleFolder;
use vstd::prelude::*;

verus! {

// ---------------------------------------------------------------------------
// Rows of the threaded list
// ---------------------------------------------------------------------------

/// The rows of one conversation: its only message, or its header and, where it
/// is expanded, its messages.
pub open spec fn thread_rows(t: int, tv: ThreadView) -> Seq<Row> {
    let n = tv.thread.messages@.len();
    if n == 1 {
        seq![Row::Message(t as usize, 0)]
    } else if tv.expanded {
        seq![Row::Header(t as usize)] + Seq::new(n, |m: int| Row::Message(t as usize, m as usize))
    } else {
        seq![Row::Header(t as usize)]
    }
}

/// The rows of the first `n` conversations.
pub open spec fn rows_of(threads: Seq<ThreadView>, n: int) -> Seq<Row>
    decreases n,
{
    if n <= 0 {
        Seq::empty()
    } else {
        rows_of(threads, n - 1) + thread_rows(n - 1, threads[n - 1])
    }
}

/// The row points at a conversation, or at a message, that is there.
pub open spec fn row_exists(threads: Seq<ThreadView>, r: Row) -> bool {
    match r {
        Row::Header(t) => t < threads.len(),
        Row::Message(t, m) => t < threads.len() && m < threads[t as int].thread.messages@.len(),
    }
}

/// Every row of the list points at a message that is there.
pub proof fn listed_rows_exist(threads: Seq<ThreadView>, n: int, k: int)
    requires
        0 <= n <= threads.len() <= usize::MAX,
        0 <= k < rows_of(threads, n).len(),
    ensures
        row_exists(threads, rows_of(threads, n)[k]),
    decreases n,
{
    let before = rows_of(threads, n - 1);
    if k < before.len() {
        listed_rows_exist(threads, n - 1, k);
    } else {
        let tv = threads[n - 1];
        let rows = thread_rows(n - 1, tv);
        assert(tv.thread.messages.len() == tv.thread.messages@.len());
        assert(rows_of(threads, n)[k] == rows[k - before.len()]);
    }
}

impl App {
    /// The rows shown are those of the conversations at hand.
    pub open spec fn rows_in_step(self) -> bool {
        self.visible_rows@ == rows_of(self.threads@, self.threads@.len() as int)
    }

    /// The threaded folder view is what is on screen.
    pub open spec fn is_threaded(self) -> bool {
        self.threaded && self.search is None && self.category_filter is None && self.mode
            == Mode::Mail
    }

    /// The row of the threaded list that the cursor is on.
    pub open spec fn row(self) -> Option<Row> {
        if self.row_index < self.visible_rows@.len() {
            Some(self.visible_rows@[self.row_index as int])
        } else {
            None
        }
    }
}

// ---------------------------------------------------------------------------
// What the methods change
// ---------------------------------------------------------------------------

/// The position of the first visible folder with this id, or the length where
/// there is none.
pub open spec fn folder_at(v: Seq<VisibleFolder>, id: Seq<char>) -> int
    decreases v.len(),
{
    if v.len() == 0 || v[0].row.id@ == id {
        0
    } else {
        1 + folder_at(v.skip(1), id)
    }
}

/// The position of the first folder with this id, or the length where there is
/// none.
pub open spec fn row_at(v: Seq<FolderRow>, id: Seq<char>) -> int
    decreases v.len(),
{
    if v.len() == 0 || v[0].id@ == id {
        0
    } else {
        1 + row_at(v.skip(1), id)
    }
}

/// The visible tree is built anew. The selection stays on its folder where that
/// is still visible; else it goes to the folder at the cursor.
pub open spec fn tree_rebuilt(pre: App, post: App) -> bool {
    let v = foldertree::visible(pre.folders@);
    let at = match pre.selected_folder {
        Some(id) => folder_at(v, id@),
        None => v.len() as int,
    };
    &&& post == (App {
        visible_folders: post.visible_folders,
        folder_index: post.folder_index,
        selected_folder: post.selected_folder,
        ..pre
    })
    &&& post.visible_folders@ == v
    &&& if at < v.len() {
        post.folder_index == at && post.selected_folder == pre.selected_folder
    } else {
        &&& post.folder_index == ui::into_range(pre.folder_index as int, v.len() as int)
        &&& post.selected_folder == if v.len() > 0 {
            Some(v[post.folder_index as int].row.id)
        } else {
            None
        }
    }
}

/// The rows of the threaded list are built anew, and the cursor stays among
/// them.
pub open spec fn rows_rebuilt(pre: App, post: App) -> bool {
    let rows = rows_of(pre.threads@, pre.threads@.len() as int);
    &&& post == (App { visible_rows: post.visible_rows, row_index: post.row_index, ..pre })
    &&& post.visible_rows@ == rows
    &&& post.row_index == ui::into_range(pre.row_index as int, rows.len() as int)
}

/// The messages of the selected folder are asked for: as conversations in the
/// threaded view, unless a category filters it. Without a folder the list is
/// empty.
pub open spec fn messages_asked(pre: App, post: App) -> bool {
    match pre.selected_folder {
        Some(folder) => app::emitted(
            pre,
            post,
            seq![
                if pre.threaded && pre.category_filter is None {
                    Action::ReadConversations { folder, limit: 200 }
                } else {
                    Action::ReadMessages { folder, limit: 200 }
                },
            ],
        ),
        None => {
            &&& post == (App {
                messages: post.messages,
                threads: post.threads,
                visible_rows: post.visible_rows,
                msg_index: 0,
                row_index: 0,
                ..pre
            })
            &&& post.messages@.len() == 0
            &&& post.threads@.len() == 0
            &&& post.visible_rows@.len() == 0
        },
    }
}

/// A message carries a category.
pub open spec fn has_category(m: MessageRow, cat: Seq<char>) -> bool {
    model::texts(m.categories@).contains(cat)
}

/// The messages that are listed, of those that were read.
pub open spec fn listed(rows: Seq<MessageRow>, filter: Option<String>) -> Seq<MessageRow> {
    match filter {
        Some(cat) => rows.filter(|m: MessageRow| has_category(m, cat@)),
        None => rows,
    }
}

/// Some expanded conversation has this key.
pub open spec fn is_expanded_key(threads: Seq<ThreadView>, key: Seq<char>) -> bool {
    exists|t: int|
        0 <= t < threads.len() && (#[trigger] threads[t]).expanded && threads[t].thread.key@ == key
}

/// A folder's expand flag is stored, and the tree rebuilt with it.
pub open spec fn folder_set_expanded(pre: App, post: App, id: String, expanded: bool) -> bool {
    exists|mid: App|
        {
            let i = row_at(pre.folders@, id@);
            &&& mid == (App { folders: mid.folders, actions: mid.actions, ..pre })
            &&& mid.actions@ =~= pre.actions@ + seq![Action::SetFolderExpanded { id, expanded }]
            &&& mid.folders@ =~= if i < pre.folders@.len() {
                pre.folders@.update(i, FolderRow { is_expanded: expanded, ..pre.folders@[i] })
            } else {
                pre.folders@
            }
            &&& #[trigger] tree_rebuilt(mid, post)
        }
}

/// Where a folder stands in the tree.
pub fn find_visible(v: &Vec<VisibleFolder>, id: &String) -> (r: usize)
    ensures
        r == folder_at(v@, id@),
        r <= v@.len(),
{
    let mut i: usize = 0;
    assert(v@.skip(0) =~= v@);
    while i < v.len()
        invariant
            i <= v@.len(),
            folder_at(v@, id@) == i + folder_at(v@.skip(i as int), id@),
        decreases v@.len() - i,
    {
        if v[i].row.id == *id {
            return i;
        }
        assert(v@.skip(i as int).skip(1) =~= v@.skip(i + 1));
        i += 1;
    }
    i
}

fn find_row(v: &Vec<FolderRow>, id: &String) -> (r: usize)
    ensures
        r == row_at(v@, id@),
        r <= v@.len(),
{
    let mut i: usize = 0;
    assert(v@.skip(0) =~= v@);
    while i < v.len()
        invariant
            i <= v@.len(),
            row_at(v@, id@) == i + row_at(v@.skip(i as int), id@),
        decreases v@.len() - i,
    {
        if v[i].id == *id {
            return i;
        }
        assert(v@.skip(i as int).skip(1) =~= v@.skip(i + 1));
        i += 1;
    }
    i
}

impl App {
    /// What was read of the account's name; an empty one is none.
    pub fn account_loaded(&mut self, account: Option<String>)
        ensures
            *final(self) == (App {
                account: match account {
                    Some(a) => if a@.len() > 0 {
                        Some(a)
                    } else {
                        None
                    },
                    None => None,
                },
                ..*old(self)
            }),
            old(self).rows_in_step() ==> final(self).rows_in_step(),
    {
        self.account = match account {
            Some(a) => {
                if text::chars_of(a.as_str()).len() > 0 {
                    Some(a)
                } else {
                    None
                }
            },
            None => None,
        };
    }

    /// What was read of the master category list.
    pub fn master_categories_loaded(&mut self, categories: Vec<MasterCategory>)
        ensures
            *final(self) == (App { master_categories: categories, ..*old(self) }),
            old(self).rows_in_step() ==> final(self).rows_in_step(),
    {
        self.master_categories = categories;
    }

    /// Asks for the master category list again.
    pub fn reload_master_categories(&mut self)
        ensures
            app::emitted(*old(self), *final(self), seq![Action::ReadMasterCategories]),
            old(self).rows_in_step() ==> final(self).rows_in_step(),
    {
        self.emit(Action::ReadMasterCategories);
    }

    /// Asks for the folders again.
    pub fn reload_folders(&mut self)
        ensures
            app::emitted(*old(self), *final(self), seq![Action::ReadFolders]),
            old(self).rows_in_step() ==> final(self).rows_in_step(),
    {
        self.emit(Action::ReadFolders);
    }

    /// The folders that were read: the tree is rebuilt, and the messages of the
    /// selected folder are asked for.
    pub fn folders_loaded(&mut self, folders: Vec<FolderRow>)
        ensures
            exists|mid: App|
                tree_rebuilt((App { folders, ..*old(self) }), mid) && #[trigger] messages_asked(
                    mid,
                    *final(self),
                ),
            old(self).rows_in_step() ==> final(self).rows_in_step(),
    {
        self.folders = folders;
        self.rebuild_visible_folders();
        let ghost mid = *self;
        self.reload_messages();
        assert(messages_asked(mid, *self));
    }

    /// Rebuilds `visible_folders` from `folders`, keeping the selection where
    /// its folder is still visible.
    pub fn rebuild_visible_folders(&mut self)
        ensures
            tree_rebuilt(*old(self), *final(self)),
            old(self).rows_in_step() ==> final(self).rows_in_step(),
    {
        let v = foldertree::build_visible(&self.folders);
        let pos: usize = match &self.selected_folder {
            Some(id) => find_visible(&v, id),
            None => v.len(),
        };
        if pos < v.len() {
            self.folder_index = pos;
        } else {
            self.folder_index = ui::in_range(self.folder_index, v.len());
            self.selected_folder = if self.folder_index < v.len() {
                Some(v[self.folder_index].row.id.clone())
            } else {
                None
            };
        }
        self.visible_folders = v;
    }

    /// Stores a folder's expand flag, and rebuilds the tree with it.
    pub fn set_folder_expanded(&mut self, id: &String, expanded: bool)
        ensures
            folder_set_expanded(*old(self), *final(self), *id, expanded),
            old(self).rows_in_step() ==> final(self).rows_in_step(),
    {
        self.emit(Action::SetFolderExpanded { id: id.clone(), expanded });
        let i = find_row(&self.folders, id);
        if i < self.folders.len() {
            let mut row = self.folders[i].clone();
            row.is_expanded = expanded;
            self.folders.set(i, row);
        }
        let ghost mid = *self;
        self.rebuild_visible_folders();
        assert(tree_rebuilt(mid, *self));
    }
}

// ---------------------------------------------------------------------------
// Keys of the folder pane
// ---------------------------------------------------------------------------

/// The position of the first Inbox, or the length where there is none.
pub open spec fn inbox_at(v: Seq<FolderRow>) -> int
    decreases v.len(),
{
    if v.len() == 0 || model::text_of(v[0].well_known_name) == Some("inbox"@) {
        0
    } else {
        1 + inbox_at(v.skip(1))
    }
}

/// The Inbox is expanded once: as soon as there is one, and never again.
pub open spec fn tree_initialized(pre: App, post: App) -> bool {
    let i = inbox_at(pre.folders@);
    if pre.folder_tree_initialized || i >= pre.folders@.len() {
        post == pre
    } else {
        exists|mid: App|
            {
                &&& #[trigger] folder_set_expanded(pre, mid, pre.folders@[i].id, true)
                &&& post == (App { folder_tree_initialized: true, actions: post.actions, ..mid })
                &&& post.actions@ =~= mid.actions@ + (if pre.config_path is Some {
                    seq![Action::PersistFolderTree]
                } else {
                    Seq::empty()
                })
            }
    }
}

/// The folder under the cursor, where it has children and `expanded` is its
/// state, is expanded or collapsed.
pub open spec fn folder_flipped(pre: App, post: App, from: bool) -> bool {
    let v = pre.visible_folders@;
    let i = pre.folder_index as int;
    if i < v.len() && v[i].has_children && v[i].expanded == from {
        folder_set_expanded(pre, post, v[i].row.id, !from)
    } else {
        post == pre
    }
}

/// An expanded folder is collapsed; from any other the cursor goes to the
/// folder it lies in, where that is visible.
pub open spec fn collapsed_or_parent(pre: App, post: App) -> bool {
    let v = pre.visible_folders@;
    let i = pre.folder_index as int;
    if i < v.len() {
        if v[i].has_children && v[i].expanded {
            folder_set_expanded(pre, post, v[i].row.id, false)
        } else {
            match v[i].row.parent_id {
                Some(parent) => {
                    let at = folder_at(v, parent@);
                    if at < v.len() {
                        messages_asked(
                            (App {
                                folder_index: at as usize,
                                selected_folder: Some(parent),
                                msg_index: 0,
                                ..pre
                            }),
                            post,
                        )
                    } else {
                        post == pre
                    }
                },
                None => post == pre,
            }
        }
    } else {
        post == pre
    }
}

/// The folder under the cursor, where it has children, changes its state.
pub open spec fn folder_toggled(pre: App, post: App) -> bool {
    let v = pre.visible_folders@;
    let i = pre.folder_index as int;
    if i < v.len() && v[i].has_children {
        folder_set_expanded(pre, post, v[i].row.id, !v[i].expanded)
    } else {
        post == pre
    }
}

fn find_inbox(v: &Vec<FolderRow>) -> (r: usize)
    ensures
        r == inbox_at(v@),
        r <= v@.len(),
{
    let mut i: usize = 0;
    assert(v@.skip(0) =~= v@);
    while i < v.len()
        invariant
            i <= v@.len(),
            inbox_at(v@) == i + inbox_at(v@.skip(i as int)),
        decreases v@.len() - i,
    {
        let inbox = match &v[i].well_known_name {
            Some(n) => text::same(n.as_str(), "inbox"),
            None => false,
        };
        if inbox {
            return i;
        }
        assert(v@.skip(i as int).skip(1) =~= v@.skip(i + 1));
        i += 1;
    }
    i
}

impl App {
    /// Expands the Inbox the first time there is one, so that its subfolders are
    /// visible from the start and a later collapse is respected.
    pub fn ensure_folder_tree_initialized(&mut self)
        ensures
            tree_initialized(*old(self), *final(self)),
            old(self).rows_in_step() ==> final(self).rows_in_step(),
    {
        if self.folder_tree_initialized {
            return;
        }
        let i = find_inbox(&self.folders);
        if i >= self.folders.len() {
            return;
        }
        let id = self.folders[i].id.clone();
        self.set_folder_expanded(&id, true);
        let ghost mid = *self;
        assert(folder_set_expanded(*old(self), mid, id, true));
        self.folder_tree_initialized = true;
        if self.config_path.is_some() {
            self.emit(Action::PersistFolderTree);
        }
    }

    /// Expands the selected folder if it has collapsed children.
    pub fn expand_selected(&mut self)
        ensures
            folder_flipped(*old(self), *final(self), false),
            old(self).rows_in_step() ==> final(self).rows_in_step(),
    {
        if self.folder_index >= self.visible_folders.len() {
            return;
        }
        let v = &self.visible_folders[self.folder_index];
        if v.has_children && !v.expanded {
            let id = v.row.id.clone();
            self.set_folder_expanded(&id, true);
        }
    }

    /// Collapses the selected folder if it is expanded; otherwise moves the
    /// selection up to its parent.
    pub fn collapse_or_parent(&mut self)
        ensures
            collapsed_or_parent(*old(self), *final(self)),
            old(self).rows_in_step() ==> final(self).rows_in_step(),
    {
        if self.folder_index >= self.visible_folders.len() {
            return;
        }
        let v = &self.visible_folders[self.folder_index];
        if v.has_children && v.expanded {
            let id = v.row.id.clone();
            self.set_folder_expanded(&id, false);
            return;
        }
        if let Some(p) = &v.row.parent_id {
            let parent = p.clone();
            let at = find_visible(&self.visible_folders, &parent);
            if at < self.visible_folders.len() {
                self.folder_index = at;
                self.selected_folder = Some(parent);
                self.msg_index = 0;
                self.reload_messages();
            }
        }
    }

    /// Flips the selected folder's expand state; nothing on a leaf.
    pub fn toggle_selected_folder(&mut self)
        ensures
            folder_toggled(*old(self), *final(self)),
            old(self).rows_in_step() ==> final(self).rows_in_step(),
    {
        if self.folder_index >= self.visible_folders.len() {
            return;
        }
        let v = &self.visible_folders[self.folder_index];
        if v.has_children {
            let id = v.row.id.clone();
            let expanded = v.expanded;
            self.set_folder_expanded(&id, !expanded);
        }
    }

    /// True when the threaded folder view is what is on screen: threading is on,
    /// mail is shown, and it is neither searched nor filtered (what is found and
    /// what is filtered stays flat).
    pub fn threaded_active(&self) -> (r: bool)
        ensures
            r == self.is_threaded(),
    {
        self.threaded && self.search.is_none() && self.category_filter.is_none() && self.mode
            == Mode::Mail
    }

    /// Rebuilds `visible_rows` from `threads`, and keeps `row_index` in range.
    pub fn rebuild_visible_rows(&mut self)
        ensures
            rows_rebuilt(*old(self), *final(self)),
            final(self).rows_in_step(),
    {
        let mut rows: Vec<Row> = Vec::new();
        let mut t: usize = 0;
        while t < self.threads.len()
            invariant
                t <= self.threads@.len(),
                *self == *old(self),
                rows@ == rows_of(self.threads@, t as int),
            decreases self.threads@.len() - t,
        {
            let n = self.threads[t].thread.messages.len();
            let ghost before = rows@;
            if n == 1 {
                rows.push(Row::Message(t, 0));
                assert(rows@ =~= before + thread_rows(t as int, self.threads@[t as int]));
            } else {
                rows.push(Row::Header(t));
                if self.threads[t].expanded {
                    let mut m: usize = 0;
                    let ghost all = Seq::new(n as nat, |m: int| Row::Message(t as usize, m as usize));
                    assert(rows@ =~= before + seq![Row::Header(t)] + all.take(0));
                    while m < n
                        invariant
                            m <= n,
                            n == all.len(),
                            all == Seq::new(
                                n as nat,
                                |m: int| Row::Message(t as usize, m as usize),
                            ),
                            rows@ == before + seq![Row::Header(t)] + all.take(m as int),
                        decreases n - m,
                    {
                        rows.push(Row::Message(t, m));
                        m += 1;
                        assert(rows@ =~= before + seq![Row::Header(t)] + all.take(m as int));
                    }
                    assert(all.take(m as int) =~= all);
                }
                assert(rows@ =~= before + thread_rows(t as int, self.threads@[t as int]));
            }
            t += 1;
        }
        self.row_index = ui::in_range(self.row_index, rows.len());
        self.visible_rows = rows;
    }

    /// Asks for the selected folder's messages again.
    pub fn reload_messages(&mut self)
        ensures
            messages_asked(*old(self), *final(self)),
            old(self).rows_in_step() ==> final(self).rows_in_step(),
    {
        match &self.selected_folder {
            Some(f) => {
                let folder = f.clone();
                if self.threaded && self.category_filter.is_none() {
                    self.emit(Action::ReadConversations { folder, limit: app::MESSAGE_PAGE_SIZE });
                } else {
                    self.emit(Action::ReadMessages { folder, limit: app::MESSAGE_PAGE_SIZE });
                }
            },
            None => {
                self.messages = Vec::new();
                self.threads = Vec::new();
                self.visible_rows = Vec::new();
                self.msg_index = 0;
                self.row_index = 0;
            },
        }
    }

    /// The messages that were read: those that pass the category filter are
    /// listed, and `msg_index` is kept in range.
    pub fn messages_loaded(&mut self, rows: Vec<MessageRow>)
        ensures
            *final(self) == (App {
                messages: final(self).messages,
                msg_index: final(self).msg_index,
                ..*old(self)
            }),
            final(self).messages@ == listed(rows@, old(self).category_filter),
            final(self).msg_index == ui::into_range(
                old(self).msg_index as int,
                final(self).messages@.len() as int,
            ),
            old(self).rows_in_step() ==> final(self).rows_in_step(),
    {
        let kept: Vec<MessageRow> = match &self.category_filter {
            Some(cat) => filtered(rows, cat),
            None => rows,
        };
        self.msg_index = ui::in_range(self.msg_index, kept.len());
        self.messages = kept;
    }

    /// The conversations that were read: each stays expanded if the one with its
    /// key was.
    pub fn conversations_loaded(&mut self, threads: Vec<Thread>)
        ensures
            final(self).threads@.len() == threads@.len(),
            forall|i: int|
                0 <= i < threads@.len() ==> #[trigger] final(self).threads@[i] == (ThreadView {
                    thread: threads@[i],
                    expanded: is_expanded_key(old(self).threads@, threads@[i].key@),
                }),
            rows_rebuilt((App { threads: final(self).threads, ..*old(self) }), *final(self)),
            final(self).rows_in_step(),
    {
        let mut rest = threads;
        let mut views: Vec<ThreadView> = Vec::new();
        let ghost mut i: int = 0;
        while rest.len() > 0
            invariant
                0 <= i <= threads@.len(),
                rest@ == threads@.skip(i),
                *self == *old(self),
                views@.len() == i,
                forall|k: int|
                    0 <= k < i ==> #[trigger] views@[k] == (ThreadView {
                        thread: threads@[k],
                        expanded: is_expanded_key(self.threads@, threads@[k].key@),
                    }),
            decreases rest@.len(),
        {
            let thread = rest.remove(0);
            proof {
                assert(thread == threads@[i]);
            }
            let expanded = was_expanded(&self.threads, &thread.key);
            views.push(ThreadView { thread, expanded });
            proof {
                i = i + 1;
                assert(rest@ =~= threads@.skip(i));
            }
        }
        self.threads = views;
        self.rebuild_visible_rows();
    }

    /// The row the threaded list's cursor is on.
    pub fn selected_row(&self) -> (r: Option<Row>)
        ensures
            r == self.row(),
    {
        if self.row_index < self.visible_rows.len() {
            Some(self.visible_rows[self.row_index])
        } else {
            None
        }
    }

    /// Moves the threaded list's cursor, held between the first and the last
    /// row.
    pub fn move_thread_selection(&mut self, delta: isize)
        ensures
            thread_selection_moved(*old(self), *final(self), delta as int),
            old(self).rows_in_step() ==> final(self).rows_in_step(),
    {
        let n = self.visible_rows.len();
        if n == 0 {
            return;
        }
        self.row_index = ui::clamped(self.row_index, delta, n);
    }
}

pub open spec fn thread_selection_moved(pre: App, post: App, delta: int) -> bool {
    let n = pre.visible_rows@.len() as int;
    post == if n == 0 {
        pre
    } else {
        App { row_index: ui::clamp_index(pre.row_index as int, delta, n) as usize, ..pre }
    }
}

fn was_expanded(threads: &Vec<ThreadView>, key: &String) -> (r: bool)
    ensures
        r == is_expanded_key(threads@, key@),
{
    let mut i: usize = 0;
    while i < threads.len()
        invariant
            i <= threads@.len(),
            forall|t: int|
                0 <= t < i ==> !((#[trigger] threads@[t]).expanded && threads@[t].thread.key@
                    == key@),
        decreases threads@.len() - i,
    {
        if threads[i].expanded && threads[i].thread.key == *key {
            return true;
        }
        i += 1;
    }
    false
}

fn filtered(rows: Vec<MessageRow>, cat: &String) -> (r: Vec<MessageRow>)
    ensures
        r@ == rows@.filter(|m: MessageRow| has_category(m, cat@)),
{
    let ghost p = |m: MessageRow| has_category(m, cat@);
    let mut rest = rows;
    let mut kept: Vec<MessageRow> = Vec::new();
    let ghost mut i: int = 0;
    proof {
        reveal(Seq::filter);
        assert(rows@.take(0).filter(p) =~= kept@);
    }
    while rest.len() > 0
        invariant
            0 <= i <= rows@.len(),
            rest@ == rows@.skip(i),
            p == (|m: MessageRow| has_category(m, cat@)),
            kept@ == rows@.take(i).filter(p),
        decreases rest@.len(),
    {
        let m = rest.remove(0);
        proof {
            assert(m == rows@[i]);
            assert(rows@.take(i + 1) =~= rows@.take(i).push(m));
            model::lemma_filter_push(rows@.take(i), m, p);
        }
        if model::contains_text(&m.categories, cat) {
            kept.push(m);
        }
        proof {
            i = i + 1;
            assert(rest@ =~= rows@.skip(i));
        }
    }
    assert(rows@.take(i) =~= rows@);
    kept
}

}
