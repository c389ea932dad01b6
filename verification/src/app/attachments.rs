//! The attachments popup, and saving what it lists.

use crate::app;
use crate::app::names;
use crate::app::{Action, App, AttachmentsPopup};
use crate::cli;
use crate::model;
use crate::model::{AttachmentKind, AttachmentMeta, SyncCommand};
use crate::paths;
use crate::text;
use crate::ui;
use crate::ui::linkprompt;
use vstd::prelude::*;

verus! {

/// The attachments of the message under the cursor are asked for.
pub open spec fn attachments_asked(pre: App, post: App) -> bool {
    match pre.highlighted() {
        Some(m) => app::emitted(
            pre,
            post,
            seq![Action::ReadAttachments { id: m.id, has_attachments: m.has_attachments }],
        ),
        None => post == pre,
    }
}

/// The popup opens on what was found; where nothing was, but the message has
/// attachments, it opens empty and they are fetched.
pub open spec fn attachments_shown(
    pre: App,
    post: App,
    id: String,
    has_attachments: bool,
    items: Vec<AttachmentMeta>,
) -> bool {
    if items@.len() > 0 {
        post == (App {
            attachments: Some(AttachmentsPopup { message_id: id, items, index: 0, loading: false }),
            ..pre
        })
    } else if has_attachments {
        &&& post == (App { attachments: post.attachments, actions: post.actions, ..pre })
        &&& post.attachments matches Some(p) && p.message_id == id && p.items@.len() == 0
            && p.index == 0 && p.loading
        &&& post.actions@ =~= pre.actions@ + seq![
            Action::Send(SyncCommand::FetchAttachments { message_id: id }),
        ]
    } else {
        post == pre
    }
}

/// The popup's attachments are asked for again, if it is open for this message.
pub open spec fn attachments_asked_again(pre: App, post: App, message_id: String) -> bool {
    match pre.attachments {
        Some(p) => if p.message_id@ == message_id@ {
            app::emitted(pre, post, seq![Action::ReloadAttachments { message_id }])
        } else {
            post == pre
        },
        None => post == pre,
    }
}

pub open spec fn attachments_moved(pre: App, post: App, delta: int) -> bool {
    post == match pre.attachments {
        Some(p) => if p.items@.len() == 0 {
            pre
        } else {
            App {
                attachments: Some(
                    AttachmentsPopup {
                        index: ui::wrap_index(
                            p.index as int,
                            delta,
                            p.items@.len() as int,
                        ) as usize,
                        ..p
                    },
                ),
                ..pre
            }
        },
        None => pre,
    }
}

/// The position of a save under way, or the length where there is none.
pub open spec fn save_at(v: Seq<(String, bool)>, path: Seq<char>) -> int
    decreases v.len(),
{
    if v.len() == 0 || v[0].0@ == path {
        0
    } else {
        1 + save_at(v.skip(1), path)
    }
}

/// A save to `path` is under way, to be opened or not; a save to the same path
/// is the same save.
pub open spec fn save_recorded(
    v: Seq<(String, bool)>,
    w: Seq<(String, bool)>,
    path: Seq<char>,
    open_after: bool,
) -> bool {
    let i = save_at(v, path);
    if i < v.len() {
        w =~= v.update(i, (v[i].0, open_after))
    } else {
        &&& w.len() == v.len() + 1
        &&& w.drop_last() =~= v
        &&& w.last().0@ == path
        &&& w.last().1 == open_after
    }
}

pub open spec fn save_file(message_id: String, attachment_id: String, dest: String) -> Action {
    Action::Send(SyncCommand::SaveAttachment { message_id, attachment_id, dest })
}

pub open spec fn save_item(message_id: String, attachment_id: String, dest_base: String) -> Action {
    Action::Send(SyncCommand::SaveItemAttachment { message_id, attachment_id, dest_base })
}

/// The notice says `t`.
pub open spec fn noticed(pre: App, post: App, t: Seq<char>) -> bool {
    &&& post == (App { attachment_notice: post.attachment_notice, ..pre })
    &&& model::text_of(post.attachment_notice) == Some(t)
}

/// The saves under way and the actions change, nothing else.
pub open spec fn saving(pre: App, post: App) -> bool {
    post == (App { pending_saves: post.pending_saves, actions: post.actions, ..pre })
}

/// A file is saved to `to`.
pub open spec fn file_save_begun(
    pre: App,
    post: App,
    message_id: String,
    id: String,
    to: Seq<char>,
    open_after: bool,
) -> bool {
    exists|dest: String|
        {
            &&& dest@ == to
            &&& saving(pre, post)
            &&& save_recorded(pre.pending_saves@, post.pending_saves@, to, open_after)
            &&& post.actions@ =~= pre.actions@ + seq![#[trigger] save_file(message_id, id, dest)]
        }
}

/// An attached item is saved to `to` and an extension found out when it is.
pub open spec fn item_save_begun(
    pre: App,
    post: App,
    message_id: String,
    id: String,
    to: Seq<char>,
    open_after: bool,
) -> bool {
    exists|base: String|
        {
            &&& base@ == to
            &&& saving(pre, post)
            &&& save_recorded(pre.pending_saves@, post.pending_saves@, to, open_after)
            &&& post.actions@ =~= pre.actions@ + seq![#[trigger] save_item(message_id, id, base)]
        }
}

/// A link that leads to the web is opened, any other refused.
pub open spec fn link_followed(
    pre: App,
    post: App,
    source_url: Option<String>,
    name: Seq<char>,
) -> bool {
    match source_url {
        Some(url) => if linkprompt::has_web_scheme(text::trim_start(url@)) {
            &&& post == (App {
                attachment_notice: post.attachment_notice,
                attachments: None,
                actions: post.actions,
                ..pre
            })
            &&& model::text_of(post.attachment_notice) == Some("Opened link: "@ + name)
            &&& post.actions@ =~= pre.actions@ + seq![Action::OpenPath(url)]
        } else {
            noticed(pre, post, "Refusing to open non-web link"@)
        },
        None => noticed(pre, post, "No link for this attachment"@),
    }
}

/// The highlighted attachment is saved under a safe name among the downloads; an
/// attached item under its name without an extension. A link is followed.
pub open spec fn save_begun(pre: App, post: App, open_after: bool) -> bool {
    match pre.attachments {
        None => post == pre,
        Some(p) => if p.index >= p.items@.len() {
            post == pre
        } else {
            let a = p.items@[p.index as int];
            let safe = names::safe_name(a.name@);
            match a.kind {
                AttachmentKind::File => file_save_begun(
                    pre,
                    post,
                    p.message_id,
                    a.id,
                    cli::below(pre.downloads@, safe, pre.separator),
                    open_after,
                ),
                AttachmentKind::Item => item_save_begun(
                    pre,
                    post,
                    p.message_id,
                    a.id,
                    cli::below(pre.downloads@, names::item_base(safe), pre.separator),
                    open_after,
                ),
                AttachmentKind::Reference => link_followed(pre, post, a.source_url, a.name@),
            }
        },
    }
}

/// The save that ended: the one to this very path, or else the one to the path
/// without its extension.
pub open spec fn ended_save(v: Seq<(String, bool)>, path: Seq<char>, bare: Seq<char>) -> int {
    if save_at(v, path) < v.len() {
        save_at(v, path)
    } else {
        save_at(v, bare)
    }
}

/// The saves without the one at `i`.
pub open spec fn saves_left(v: Seq<(String, bool)>, i: int) -> Seq<(String, bool)> {
    if i < v.len() {
        v.remove(i)
    } else {
        v
    }
}

/// A save has come to its end: it is no longer under way, and is opened if it
/// was to be. The popup closes with the last save.
pub open spec fn save_finished(pre: App, post: App, path: String, bare: Seq<char>) -> bool {
    let v = pre.pending_saves@;
    let i = ended_save(v, path@, bare);
    &&& post == (App {
        pending_saves: post.pending_saves,
        attachment_notice: post.attachment_notice,
        attachments: if saves_left(v, i).len() == 0 {
            None
        } else {
            pre.attachments
        },
        actions: post.actions,
        ..pre
    })
    &&& post.pending_saves@ =~= saves_left(v, i)
    &&& model::text_of(post.attachment_notice) == Some("Saved: "@ + path@)
    &&& post.actions@ =~= if i < v.len() && v[i].1 {
        pre.actions@ + seq![Action::OpenPath(path)]
    } else {
        pre.actions@
    }
}

/// The save to `path` has come to its end.
pub open spec fn save_ended(pre: App, post: App, path: String) -> bool {
    exists|bare: Seq<char>|
        #[trigger] paths::is_bare(bare, path@) && save_finished(pre, post, path, bare)
}

/// No path occurs twice.
pub open spec fn distinct(v: Seq<(String, bool)>) -> bool {
    forall|i: int, j: int|
        0 <= i < j < v.len() ==> (#[trigger] v[i]).0@ != (#[trigger] v[j]).0@
}

fn find_save(v: &Vec<(String, bool)>, path: &String) -> (r: usize)
    ensures
        r == save_at(v@, path@),
        r <= v@.len(),
{
    let mut i: usize = 0;
    assert(v@.skip(0) =~= v@);
    while i < v.len()
        invariant
            i <= v@.len(),
            save_at(v@, path@) == i + save_at(v@.skip(i as int), path@),
        decreases v@.len() - i,
    {
        if v[i].0 == *path {
            return i;
        }
        assert(v@.skip(i as int).skip(1) =~= v@.skip(i + 1));
        i += 1;
    }
    i
}

impl App {
    /// Asks for the attachments of the highlighted message, to list them.
    pub fn open_attachments_popup(&mut self)
        requires
            old(self).rows_in_step(),
        ensures
            attachments_asked(*old(self), *final(self)),
            old(self).rows_in_step() ==> final(self).rows_in_step(),
    {
        if let Some((id, has_attachments)) = self.highlighted_message_fields() {
            self.emit(Action::ReadAttachments { id, has_attachments });
        }
    }

    /// What is stored of a message's attachments: listed at once, or fetched
    /// where there must be some.
    pub fn attachments_found(
        &mut self,
        id: String,
        has_attachments: bool,
        items: Vec<AttachmentMeta>,
    )
        ensures
            attachments_shown(*old(self), *final(self), id, has_attachments, items),
            old(self).rows_in_step() ==> final(self).rows_in_step(),
    {
        if items.len() > 0 {
            self.attachments = Some(
                AttachmentsPopup { message_id: id, items, index: 0, loading: false },
            );
            return;
        }
        if !has_attachments {
            return;
        }
        self.attachments = Some(
            AttachmentsPopup {
                message_id: id.clone(),
                items: Vec::new(),
                index: 0,
                loading: true,
            },
        );
        self.send(SyncCommand::FetchAttachments { message_id: id });
    }

    /// Asks for the popup's attachments again, if it is open for this message.
    pub fn reload_attachments(&mut self, message_id: &String)
        ensures
            attachments_asked_again(*old(self), *final(self), *message_id),
            old(self).rows_in_step() ==> final(self).rows_in_step(),
    {
        let open = match &self.attachments {
            Some(p) => p.message_id == *message_id,
            None => false,
        };
        if open {
            self.emit(Action::ReloadAttachments { message_id: message_id.clone() });
        }
    }

    /// What is stored of the popup's attachments by now; the popup closes where
    /// there is still nothing.
    pub fn attachments_reloaded(&mut self, items: Vec<AttachmentMeta>)
        ensures
            *final(self) == (match old(self).attachments {
                Some(p) => App {
                    attachments: if items@.len() == 0 {
                        None
                    } else {
                        Some(
                            AttachmentsPopup {
                                items,
                                index: ui::into_range(
                                    p.index as int,
                                    items@.len() as int,
                                ) as usize,
                                loading: false,
                                ..p
                            },
                        )
                    },
                    ..*old(self)
                },
                None => *old(self),
            }),
            old(self).rows_in_step() ==> final(self).rows_in_step(),
    {
        if items.len() == 0 {
            self.attachments = None;
            return;
        }
        if let Some(p) = &mut self.attachments {
            p.loading = false;
            p.index = ui::in_range(p.index, items.len());
            p.items = items;
        }
    }

    /// Moves the popup's cursor, wrapping.
    pub fn attachments_select(&mut self, delta: isize)
        ensures
            attachments_moved(*old(self), *final(self), delta as int),
            old(self).rows_in_step() ==> final(self).rows_in_step(),
    {
        if let Some(p) = &mut self.attachments {
            let n = p.items.len();
            if n > 0 {
                p.index = ui::wrapped(p.index, delta, n);
            }
        }
    }

    /// Closes the popup without saving anything.
    pub fn cancel_attachments_popup(&mut self)
        ensures
            *final(self) == (App { attachments: None, ..*old(self) }),
            old(self).rows_in_step() ==> final(self).rows_in_step(),
    {
        self.attachments = None;
    }

    /// Saves the highlighted attachment.
    pub fn save_attachment(&mut self)
        ensures
            save_begun(*old(self), *final(self), false),
            old(self).rows_in_step() ==> final(self).rows_in_step(),
    {
        self.send_save_attachment_command(false);
    }

    /// Saves the highlighted attachment, and opens it once it is saved.
    pub fn save_and_open_attachment(&mut self)
        ensures
            save_begun(*old(self), *final(self), true),
            old(self).rows_in_step() ==> final(self).rows_in_step(),
    {
        self.send_save_attachment_command(true);
    }

    fn record_save(&mut self, path: String, open_after: bool)
        ensures
            *final(self) == (App { pending_saves: final(self).pending_saves, ..*old(self) }),
            save_recorded(
                old(self).pending_saves@,
                final(self).pending_saves@,
                path@,
                open_after,
            ),
    {
        let i = find_save(&self.pending_saves, &path);
        if i < self.pending_saves.len() {
            let key = self.pending_saves[i].0.clone();
            self.pending_saves.set(i, (key, open_after));
        } else {
            self.pending_saves.push((path, open_after));
        }
    }

    fn send_save_attachment_command(&mut self, open_after: bool)
        ensures
            save_begun(*old(self), *final(self), open_after),
    {
        let (message_id, attachment_id, kind, name, source): (
            String,
            String,
            AttachmentKind,
            String,
            Option<String>,
        ) = match &self.attachments {
            Some(p) => {
                if p.index >= p.items.len() {
                    return;
                }
                let a = &p.items[p.index];
                (
                    p.message_id.clone(),
                    a.id.clone(),
                    a.kind,
                    a.name.clone(),
                    a.source_url.clone(),
                )
            },
            None => {
                return;
            },
        };
        match kind {
            AttachmentKind::File => {
                let safe = names::sanitize_filename(name.as_str());
                let dest = cli::join(self.downloads.as_str(), safe.as_str(), self.separator);
                self.save_file_to(message_id, attachment_id, dest, open_after);
            },
            AttachmentKind::Item => {
                let safe = names::sanitize_filename(name.as_str());
                let name = names::strip_item_ext(safe.as_str());
                let base = cli::join(self.downloads.as_str(), name.as_str(), self.separator);
                self.save_item_to(message_id, attachment_id, base, open_after);
            },
            AttachmentKind::Reference => {
                self.follow_link(source, name.as_str());
            },
        }
    }

    fn save_file_to(
        &mut self,
        message_id: String,
        attachment_id: String,
        dest: String,
        open_after: bool,
    )
        ensures
            file_save_begun(
                *old(self),
                *final(self),
                message_id,
                attachment_id,
                dest@,
                open_after,
            ),
    {
        self.record_save(dest.clone(), open_after);
        let ghost d = dest;
        self.send(SyncCommand::SaveAttachment { message_id, attachment_id, dest });
        assert(self.actions@.last() == save_file(message_id, attachment_id, d));
    }

    fn save_item_to(
        &mut self,
        message_id: String,
        attachment_id: String,
        dest_base: String,
        open_after: bool,
    )
        ensures
            item_save_begun(
                *old(self),
                *final(self),
                message_id,
                attachment_id,
                dest_base@,
                open_after,
            ),
    {
        self.record_save(dest_base.clone(), open_after);
        let ghost d = dest_base;
        self.send(SyncCommand::SaveItemAttachment { message_id, attachment_id, dest_base });
        assert(self.actions@.last() == save_item(message_id, attachment_id, d));
    }

    fn follow_link(&mut self, source: Option<String>, name: &str)
        ensures
            link_followed(*old(self), *final(self), source, name@),
    {
        match source {
            Some(url) => {
                if names::is_web_url(url.as_str()) {
                    self.emit(Action::OpenPath(url));
                    let mut notice: String = "Opened link: ".to_string();
                    notice.append(name);
                    self.attachment_notice = Some(notice);
                    self.attachments = None;
                } else {
                    self.attachment_notice = Some("Refusing to open non-web link".to_string());
                }
            },
            None => {
                self.attachment_notice = Some("No link for this attachment".to_string());
            },
        }
    }

    /// Takes the save to `path`, or else to `bare`, off those under way, and
    /// tells whether it was to be opened.
    fn take_save(&mut self, path: &String, bare: &String) -> (r: bool)
        ensures
            *final(self) == (App { pending_saves: final(self).pending_saves, ..*old(self) }),
            ({
                let v = old(self).pending_saves@;
                let i = ended_save(v, path@, bare@);
                &&& final(self).pending_saves@ =~= saves_left(v, i)
                &&& r == (i < v.len() && v[i].1)
            }),
    {
        let exact = find_save(&self.pending_saves, path);
        let i: usize = if exact < self.pending_saves.len() {
            exact
        } else {
            find_save(&self.pending_saves, bare)
        };
        if i < self.pending_saves.len() {
            let (_, open) = self.pending_saves.remove(i);
            open
        } else {
            false
        }
    }

    /// A save has come to its end. Without the extension of `path`, an attached
    /// item was to be saved under that.
    pub fn finish_attachment_save(&mut self, path: String)
        ensures
            save_ended(*old(self), *final(self), path),
            old(self).rows_in_step() ==> final(self).rows_in_step(),
    {
        let bare = paths::without_extension(path.as_str());
        let open_after = self.take_save(&path, &bare);
        let mut notice: String = "Saved: ".to_string();
        notice.append(path.as_str());
        if open_after {
            self.emit(Action::OpenPath(path));
        }
        self.attachment_notice = Some(notice);
        if self.pending_saves.len() == 0 {
            self.attachments = None;
        }
        assert(save_finished(*old(self), *self, path, bare@));
    }
}

// ---------------------------------------------------------------------------
// Laws
// ---------------------------------------------------------------------------

proof fn lemma_save_at(v: Seq<(String, bool)>, path: Seq<char>)
    ensures
        0 <= save_at(v, path) <= v.len(),
        save_at(v, path) < v.len() ==> v[save_at(v, path)].0@ == path,
        forall|j: int| 0 <= j < save_at(v, path) ==> (#[trigger] v[j]).0@ != path,
    decreases v.len(),
{
    if v.len() > 0 && v[0].0@ != path {
        let w = v.skip(1);
        lemma_save_at(w, path);
        assert forall|j: int| 0 <= j < save_at(v, path) implies (#[trigger] v[j]).0@ != path by {
            if j > 0 {
                assert(w[j - 1] == v[j]);
            }
        }
    }
}

/// Each path is saved to once at a time.
pub proof fn saves_stay_distinct(
    v: Seq<(String, bool)>,
    w: Seq<(String, bool)>,
    path: Seq<char>,
    open_after: bool,
)
    requires
        distinct(v),
        save_recorded(v, w, path, open_after),
    ensures
        distinct(w),
{
    lemma_save_at(v, path);
    let k = save_at(v, path);
    assert forall|i: int, j: int| 0 <= i < j < w.len() implies (#[trigger] w[i]).0@ != (
    #[trigger] w[j]).0@ by {
        if k < v.len() {
            assert(w[i].0 == v[i].0 && w[j].0 == v[j].0);
        } else {
            assert(w.drop_last()[i] == v[i]);
            if j < v.len() {
                assert(w.drop_last()[j] == v[j]);
            }
        }
    }
}

/// What a save was started with decides whether its file is opened, whatever
/// other saves are under way.
pub proof fn saves_keep_their_own_intent(pre: App, post: App, path: String, i: int)
    requires
        distinct(pre.pending_saves@),
        0 <= i < pre.pending_saves@.len(),
        pre.pending_saves@[i].0@ == path@,
        save_ended(pre, post, path),
    ensures
        post.actions@ == (if pre.pending_saves@[i].1 {
            pre.actions@.push(Action::OpenPath(path))
        } else {
            pre.actions@
        }),
        post.pending_saves@ == pre.pending_saves@.remove(i),
        distinct(post.pending_saves@),
{
    let v = pre.pending_saves@;
    lemma_save_at(v, path@);
    assert(save_at(v, path@) == i);
    assert(pre.actions@ + seq![Action::OpenPath(path)] =~= pre.actions@.push(
        Action::OpenPath(path),
    ));
    let w = v.remove(i);
    assert forall|a: int, b: int| 0 <= a < b < w.len() implies (#[trigger] w[a]).0@ != (
    #[trigger] w[b]).0@ by {
        let x = if a < i {
            a
        } else {
            a + 1
        };
        let y = if b < i {
            b
        } else {
            b + 1
        };
        assert(w[a] == v[x] && w[b] == v[y]);
    }
}

/// An attached item that was to be saved under `name` in the downloads directory
/// is known by that, whatever extension its file was given: its save comes to an
/// end, and the file is opened if it was to be.
pub proof fn items_are_found_by_their_stem(
    pre: App,
    post: App,
    name: Seq<char>,
    ext: Seq<char>,
    path: String,
    i: int,
)
    requires
        distinct(pre.pending_saves@),
        0 <= i < pre.pending_saves@.len(),
        names::is_component(name),
        pre.separator == '/' || pre.separator == '\\',
        pre.pending_saves@[i].0@ == cli::below(pre.downloads@, name, pre.separator),
        ext.len() > 0,
        forall|j: int|
            0 <= j < ext.len() ==> #[trigger] ext[j] != '.' && !paths::may_separate(ext[j]),
        path@ == pre.pending_saves@[i].0@ + "."@ + ext,
        paths::is_local(path@),
        forall|j: int| 0 <= j < pre.pending_saves@.len() ==> (#[trigger] pre.pending_saves@[j]).0@
            != path@,
        save_ended(pre, post, path),
    ensures
        post.actions@ == (if pre.pending_saves@[i].1 {
            pre.actions@.push(Action::OpenPath(path))
        } else {
            pre.actions@
        }),
        post.pending_saves@ == pre.pending_saves@.remove(i),
{
    let v = pre.pending_saves@;
    let base = v[i].0@;
    let p = path@;
    let n = base.len() as int;
    reveal_strlit(".");
    paths::lemma_last_dot(base, ext);
    assert(p =~= base + seq!['.'] + ext);
    assert forall|j: int| n < j < p.len() implies !paths::may_separate(#[trigger] p[j]) by {
        assert(p[j] == ext[j - n - 1]);
    }
    assert(p[n - 1] == name.last());
    assert(!names::is_unsafe(name[name.len() - 1]));
    if name.last() == '.' {
        if name.len() == 1 {
            assert(name =~= "."@);
        } else {
            assert(p[n - 2] == name[name.len() - 2]);
            assert(!names::is_unsafe(name[name.len() - 2]));
        }
    }
    assert(paths::has_extension(p));
    assert(p.take(n) =~= base);
    let bare = choose|bare: Seq<char>|
        #[trigger] paths::is_bare(bare, p) && save_finished(pre, post, path, bare);
    lemma_save_at(v, p);
    lemma_save_at(v, base);
    assert(save_at(v, base) == i);
    assert(pre.actions@ + seq![Action::OpenPath(path)] =~= pre.actions@.push(
        Action::OpenPath(path),
    ));
}

}
