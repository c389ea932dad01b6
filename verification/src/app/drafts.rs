//! Composing: opening drafts, sending, saving and discarding them, and what is
//! attached to them.

use crate::app;
use crate::app::names;
use crate::app::{Action, App, EditorOp, Key, KeyCode};
use crate::model;
use crate::model::{MessageRow, OutboundAttachment, SyncCommand};
use crate::text;
use crate::ui::compose;
use crate::ui::compose::{Compose, ComposeAction, ComposeField, Editor};
use crate::ui::filepicker;
use crate::ui::filepicker::{Entered, FileEntry, FilePicker};
use vstd::prelude::*;

verus! {

pub open spec fn create_draft(signature: Vec<String>) -> Action {
    Action::CreateDraft { signature }
}

/// A new draft is asked for, with the signature.
pub open spec fn composing_begun(pre: App, post: App) -> bool {
    exists|v: Vec<String>|
        model::texts(v@) == names::signature_of(pre.signature@) && app::emitted(
            pre,
            post,
            seq![#[trigger] create_draft(v)],
        )
}

/// A reply to the message under the cursor is asked for.
pub open spec fn reply_begun(pre: App, post: App, all: bool) -> bool {
    match pre.highlighted() {
        Some(m) => app::emitted(
            pre,
            post,
            seq![Action::Send(SyncCommand::ComposeReply { id: m.id, all })],
        ),
        None => post == pre,
    }
}

pub open spec fn forward_begun(pre: App, post: App) -> bool {
    match pre.highlighted() {
        Some(m) => app::emitted(
            pre,
            post,
            seq![Action::Send(SyncCommand::ComposeForward { id: m.id })],
        ),
        None => post == pre,
    }
}

/// The composer closes, and what it was asked for is carried out: the draft is
/// written and then sent or saved; or the edit is dropped, and nothing is written
/// or sent.
pub open spec fn compose_applied(pre: App, post: App) -> bool {
    let closed = App { compose: None, compose_action: None, ..pre };
    match (pre.compose_action, pre.compose) {
        (None, _) => post == pre,
        (Some(_), None) => post == closed,
        (Some(ComposeAction::Discard), Some(_)) => post == closed,
        (Some(action), Some(c)) => app::emitted(
            closed,
            post,
            seq![
                Action::UpdateDraft {
                    draft_id: c.draft_id,
                    subject: c.subject,
                    to: c.to,
                    cc: c.cc,
                    bcc: c.bcc,
                    body: c.editor.text,
                },
                Action::Send(
                    if action == ComposeAction::Send {
                        SyncCommand::SendDraft { id: c.draft_id }
                    } else {
                        SyncCommand::SaveDraft { id: c.draft_id }
                    },
                ),
            ],
        ),
    }
}

/// Enter in the file picker: a file is attached and the picker closes; a
/// directory is listed.
pub open spec fn picker_entered(pre: App, post: App) -> bool {
    match pre.file_picker {
        Some(p) => if p.index < p.entries@.len() {
            let e = p.entries@[p.index as int];
            if e.is_dir {
                app::emitted(pre, post, seq![Action::ListDirectory(e.path)])
            } else {
                app::emitted(App { file_picker: None, ..pre }, post, seq![Action::Attach(e.path)])
            }
        } else {
            post == pre
        },
        None => post == pre,
    }
}

/// A file is attached to the open draft, and what is attached is asked for.
pub open spec fn file_attached(
    pre: App,
    post: App,
    path: String,
    name: String,
    size: i64,
) -> bool {
    match pre.compose {
        Some(c) => app::emitted(
            pre,
            post,
            seq![
                Action::AddOutbound { draft_id: c.draft_id, path, name, size },
                Action::ReadOutbound { draft_id: c.draft_id },
            ],
        ),
        None => post == pre,
    }
}

/// What was attached last is dropped, and what is attached is asked for.
pub open spec fn last_attachment_removed(pre: App, post: App) -> bool {
    match pre.compose {
        Some(c) => if c.attachments@.len() > 0 {
            app::emitted(
                pre,
                post,
                seq![
                    Action::RemoveOutbound {
                        draft_id: c.draft_id,
                        path: c.attachments@.last().path,
                    },
                    Action::ReadOutbound { draft_id: c.draft_id },
                ],
            )
        } else {
            post == pre
        },
        None => post == pre,
    }
}

impl App {
    /// Starts a new message, with the signature.
    pub fn compose_new(&mut self)
        ensures
            composing_begun(*old(self), *final(self)),
            old(self).rows_in_step() ==> final(self).rows_in_step(),
    {
        let signature = names::signature_lines(self.signature.as_str());
        let ghost v = signature;
        self.emit(Action::CreateDraft { signature });
        assert(self.actions@.last() == create_draft(v));
    }

    /// Asks for a reply to the highlighted message, or for a reply to all.
    pub fn compose_reply(&mut self, all: bool)
        requires
            old(self).rows_in_step(),
        ensures
            reply_begun(*old(self), *final(self), all),
            old(self).rows_in_step() ==> final(self).rows_in_step(),
    {
        if let Some(id) = self.highlighted_message_id() {
            self.send(SyncCommand::ComposeReply { id, all });
        }
    }

    /// Asks for the highlighted message to be forwarded.
    pub fn compose_forward(&mut self)
        requires
            old(self).rows_in_step(),
        ensures
            forward_begun(*old(self), *final(self)),
            old(self).rows_in_step() ==> final(self).rows_in_step(),
    {
        if let Some(id) = self.highlighted_message_id() {
            self.send(SyncCommand::ComposeForward { id });
        }
    }

    /// A draft that was read opens in the composer: its row, its body, and what
    /// is attached to it.
    pub fn draft_loaded(
        &mut self,
        row: MessageRow,
        editor: Editor,
        attachments: Vec<OutboundAttachment>,
    )
        ensures
            *final(self) == (App {
                compose: Some(
                    Compose {
                        to: row.to_recipients,
                        cc: row.cc_recipients,
                        bcc: row.bcc_recipients,
                        subject: row.subject,
                        editor,
                        focus: ComposeField::To,
                        draft_id: row.id,
                        autocomplete: None,
                        attachments,
                    },
                ),
                ..*old(self)
            }),
            old(self).rows_in_step() ==> final(self).rows_in_step(),
    {
        self.compose = Some(
            Compose {
                to: row.to_recipients,
                cc: row.cc_recipients,
                bcc: row.bcc_recipients,
                subject: row.subject,
                editor,
                focus: ComposeField::To,
                draft_id: row.id,
                autocomplete: None,
                attachments,
            },
        );
    }

    /// Carries out what the composer's keys asked for, and closes it.
    pub fn apply_compose_action(&mut self)
        ensures
            compose_applied(*old(self), *final(self)),
            old(self).rows_in_step() ==> final(self).rows_in_step(),
    {
        let action = match self.compose_action.take() {
            Some(a) => a,
            None => {
                return;
            },
        };
        let c = match self.compose.take() {
            Some(c) => c,
            None => {
                return;
            },
        };
        if action == ComposeAction::Discard {
            return;
        }
        let id = c.draft_id.clone();
        self.emit(
            Action::UpdateDraft {
                draft_id: c.draft_id,
                subject: c.subject,
                to: c.to,
                cc: c.cc,
                bcc: c.bcc,
                body: c.editor.text,
            },
        );
        if action == ComposeAction::Send {
            self.send(SyncCommand::SendDraft { id });
        } else {
            self.send(SyncCommand::SaveDraft { id });
        }
    }

    /// Enter in the file picker.
    pub fn file_picker_enter(&mut self)
        ensures
            picker_entered(*old(self), *final(self)),
            old(self).rows_in_step() ==> final(self).rows_in_step(),
    {
        let entered = match &self.file_picker {
            Some(p) => p.enter(),
            None => {
                return;
            },
        };
        match entered {
            Entered::Nothing => {},
            Entered::Directory(path) => {
                self.emit(Action::ListDirectory(path));
            },
            Entered::File(path) => {
                self.file_picker = None;
                self.emit(Action::Attach(path));
            },
        }
    }

    /// A directory that was listed opens in the file picker.
    pub fn directory_listed(&mut self, dir: String, parent: Option<String>, found: Vec<FileEntry>)
        ensures
            *final(self) == (App { file_picker: final(self).file_picker, ..*old(self) }),
            final(self).file_picker matches Some(p) && p.dir == dir && p.index == 0
                && filepicker::is_listing(p.entries@, parent, found@),
            old(self).rows_in_step() ==> final(self).rows_in_step(),
    {
        self.file_picker = Some(FilePicker::open(dir, parent, found));
    }

    /// Attaches a file to the open draft.
    pub fn attach_file(&mut self, path: String, name: String, size: i64)
        ensures
            file_attached(*old(self), *final(self), path, name, size),
            old(self).rows_in_step() ==> final(self).rows_in_step(),
    {
        let draft_id = match &self.compose {
            Some(c) => c.draft_id.clone(),
            None => {
                return;
            },
        };
        self.emit(Action::AddOutbound { draft_id: draft_id.clone(), path, name, size });
        self.emit(Action::ReadOutbound { draft_id });
    }

    /// What is attached to the open draft.
    pub fn outbound_loaded(&mut self, attachments: Vec<OutboundAttachment>)
        ensures
            *final(self) == (match old(self).compose {
                Some(c) => App { compose: Some(Compose { attachments, ..c }), ..*old(self) },
                None => *old(self),
            }),
            old(self).rows_in_step() ==> final(self).rows_in_step(),
    {
        if let Some(c) = &mut self.compose {
            c.attachments = attachments;
        }
    }

    /// Drops what was attached last to the open draft.
    pub fn remove_last_attachment(&mut self)
        ensures
            last_attachment_removed(*old(self), *final(self)),
            old(self).rows_in_step() ==> final(self).rows_in_step(),
    {
        let (draft_id, path): (String, String) = match &self.compose {
            Some(c) => {
                let n = c.attachments.len();
                if n == 0 {
                    return;
                }
                (c.draft_id.clone(), c.attachments[n - 1].path.clone())
            },
            None => {
                return;
            },
        };
        self.emit(Action::RemoveOutbound { draft_id: draft_id.clone(), path });
        self.emit(Action::ReadOutbound { draft_id });
    }

    /// The body being composed, once it has been edited.
    pub fn body_edited(&mut self, editor: Editor)
        ensures
            *final(self) == (match old(self).compose {
                Some(c) => App { compose: Some(Compose { editor, ..c }), ..*old(self) },
                None => *old(self),
            }),
            old(self).rows_in_step() ==> final(self).rows_in_step(),
    {
        if let Some(c) = &mut self.compose {
            c.editor = editor;
        }
    }
}

// ---------------------------------------------------------------------------
// Keys of the composer
// ---------------------------------------------------------------------------

/// What a key does to the composer.
#[derive(Debug, Clone, Copy, PartialEq, Eq, Structural)]
pub enum ComposeKey {
    Nothing,
    Request(ComposeAction),
    NextField,
    Type(char),
    Backspace,
    Edit(EditorOp),
}

/// What Ctrl and a letter do to the body.
pub open spec fn style_key(c: char) -> ComposeKey {
    let l = text::ascii_lower(c);
    if l == 'b' {
        ComposeKey::Edit(EditorOp::ToggleBold)
    } else if l == 'i' {
        ComposeKey::Edit(EditorOp::ToggleItalic)
    } else if l == 'u' {
        ComposeKey::Edit(EditorOp::ToggleUnderline)
    } else if l == 'l' {
        ComposeKey::Edit(EditorOp::ToggleList)
    } else {
        ComposeKey::Nothing
    }
}

/// What a key does while `focus` has the focus. Ctrl-Enter, Ctrl-D and Esc ask
/// for something; Ctrl and a letter style the body, and nothing else; in the
/// header fields a character is appended, and Backspace takes the last one
/// away.
pub open spec fn compose_key(focus: ComposeField, key: Key) -> ComposeKey {
    let body = focus == ComposeField::Body;
    let extend = key.shift;
    match key.code {
        KeyCode::Esc => ComposeKey::Request(ComposeAction::Save),
        KeyCode::Enter => if key.ctrl {
            ComposeKey::Request(ComposeAction::Send)
        } else if body {
            ComposeKey::Edit(EditorOp::SplitParagraph)
        } else {
            ComposeKey::Nothing
        },
        KeyCode::Char(c) => if key.ctrl {
            if c == 'd' || c == 'D' {
                ComposeKey::Request(ComposeAction::Discard)
            } else if body {
                style_key(c)
            } else {
                ComposeKey::Nothing
            }
        } else if body {
            ComposeKey::Edit(EditorOp::Insert(c))
        } else {
            ComposeKey::Type(c)
        },
        KeyCode::Tab => if key.ctrl {
            ComposeKey::Nothing
        } else {
            ComposeKey::NextField
        },
        KeyCode::Backspace => if key.ctrl {
            ComposeKey::Nothing
        } else if body {
            ComposeKey::Edit(EditorOp::DeleteBackward)
        } else {
            ComposeKey::Backspace
        },
        KeyCode::Left => if !key.ctrl && body {
            ComposeKey::Edit(EditorOp::Left { extend })
        } else {
            ComposeKey::Nothing
        },
        KeyCode::Right => if !key.ctrl && body {
            ComposeKey::Edit(EditorOp::Right { extend })
        } else {
            ComposeKey::Nothing
        },
        KeyCode::Up => if !key.ctrl && body {
            ComposeKey::Edit(EditorOp::Up { extend })
        } else {
            ComposeKey::Nothing
        },
        KeyCode::Down => if !key.ctrl && body {
            ComposeKey::Edit(EditorOp::Down { extend })
        } else {
            ComposeKey::Nothing
        },
        KeyCode::Home => if !key.ctrl && body {
            ComposeKey::Edit(EditorOp::Home { extend })
        } else {
            ComposeKey::Nothing
        },
        KeyCode::End => if !key.ctrl && body {
            ComposeKey::Edit(EditorOp::End { extend })
        } else {
            ComposeKey::Nothing
        },
        _ => ComposeKey::Nothing,
    }
}

/// The focused header field holds `t`.
pub open spec fn header_set(pre: App, post: App, c: Compose, t: Seq<char>) -> bool {
    &&& post == (App { compose: post.compose, ..pre })
    &&& post.compose matches Some(d) && match c.focus {
        ComposeField::To => d == (Compose { to: d.to, ..c }) && d.to@ == t,
        ComposeField::Cc => d == (Compose { cc: d.cc, ..c }) && d.cc@ == t,
        ComposeField::Subject => d == (Compose { subject: d.subject, ..c }) && d.subject@ == t,
        ComposeField::Body => d == c,
    }
}

pub open spec fn header_text(c: Compose) -> Seq<char> {
    match c.focus {
        ComposeField::To => c.to@,
        ComposeField::Cc => c.cc@,
        ComposeField::Subject => c.subject@,
        ComposeField::Body => Seq::empty(),
    }
}

/// A key goes to the composer.
pub open spec fn compose_keyed(pre: App, post: App, key: Key) -> bool {
    match pre.compose {
        None => post == pre,
        Some(c) => match compose_key(c.focus, key) {
            ComposeKey::Nothing => post == pre,
            ComposeKey::Request(a) => post == (App { compose_action: Some(a), ..pre }),
            ComposeKey::NextField => post == (App {
                compose: Some(Compose { focus: compose::field_after(c.focus), ..c }),
                ..pre
            }),
            ComposeKey::Type(x) => header_set(pre, post, c, header_text(c).push(x)),
            ComposeKey::Backspace => header_set(pre, post, c, text::shortened(header_text(c))),
            ComposeKey::Edit(op) => app::emitted(pre, post, seq![Action::Edit(op)]),
        },
    }
}

fn style_of_key(c: char) -> (r: ComposeKey)
    ensures
        r == style_key(c),
{
    let l = text::lower(c);
    if l == 'b' {
        ComposeKey::Edit(EditorOp::ToggleBold)
    } else if l == 'i' {
        ComposeKey::Edit(EditorOp::ToggleItalic)
    } else if l == 'u' {
        ComposeKey::Edit(EditorOp::ToggleUnderline)
    } else if l == 'l' {
        ComposeKey::Edit(EditorOp::ToggleList)
    } else {
        ComposeKey::Nothing
    }
}

/// What a key does while `focus` has the focus.
pub fn key_of(focus: ComposeField, key: Key) -> (r: ComposeKey)
    ensures
        r == compose_key(focus, key),
{
    let body = focus == ComposeField::Body;
    let extend = key.shift;
    match key.code {
        KeyCode::Esc => ComposeKey::Request(ComposeAction::Save),
        KeyCode::Enter => {
            if key.ctrl {
                ComposeKey::Request(ComposeAction::Send)
            } else if body {
                ComposeKey::Edit(EditorOp::SplitParagraph)
            } else {
                ComposeKey::Nothing
            }
        },
        KeyCode::Char(c) => {
            if key.ctrl {
                if c == 'd' || c == 'D' {
                    ComposeKey::Request(ComposeAction::Discard)
                } else if body {
                    style_of_key(c)
                } else {
                    ComposeKey::Nothing
                }
            } else if body {
                ComposeKey::Edit(EditorOp::Insert(c))
            } else {
                ComposeKey::Type(c)
            }
        },
        KeyCode::Tab => {
            if key.ctrl {
                ComposeKey::Nothing
            } else {
                ComposeKey::NextField
            }
        },
        KeyCode::Backspace => {
            if key.ctrl {
                ComposeKey::Nothing
            } else if body {
                ComposeKey::Edit(EditorOp::DeleteBackward)
            } else {
                ComposeKey::Backspace
            }
        },
        KeyCode::Left if !key.ctrl && body => ComposeKey::Edit(EditorOp::Left { extend }),
        KeyCode::Right if !key.ctrl && body => ComposeKey::Edit(EditorOp::Right { extend }),
        KeyCode::Up if !key.ctrl && body => ComposeKey::Edit(EditorOp::Up { extend }),
        KeyCode::Down if !key.ctrl && body => ComposeKey::Edit(EditorOp::Down { extend }),
        KeyCode::Home if !key.ctrl && body => ComposeKey::Edit(EditorOp::Home { extend }),
        KeyCode::End if !key.ctrl && body => ComposeKey::Edit(EditorOp::End { extend }),
        _ => ComposeKey::Nothing,
    }
}

impl App {
    /// A key, while the composer is open. Sending, saving and discarding are
    /// only recorded here; `apply_compose_action` carries them out.
    pub fn compose_handle_key(&mut self, key: Key)
        ensures
            compose_keyed(*old(self), *final(self), key),
            old(self).rows_in_step() ==> final(self).rows_in_step(),
    {
        let focus = match &self.compose {
            Some(c) => c.focus,
            None => {
                return;
            },
        };
        match key_of(focus, key) {
            ComposeKey::Nothing => {},
            ComposeKey::Request(a) => {
                self.compose_action = Some(a);
            },
            ComposeKey::NextField => {
                if let Some(c) = &mut self.compose {
                    compose::cycle_focus(c);
                }
            },
            ComposeKey::Type(x) => {
                if let Some(c) = &mut self.compose {
                    match c.focus {
                        ComposeField::To => c.to.push(x),
                        ComposeField::Cc => c.cc.push(x),
                        ComposeField::Subject => c.subject.push(x),
                        ComposeField::Body => {},
                    }
                }
            },
            ComposeKey::Backspace => {
                if let Some(c) = &mut self.compose {
                    match c.focus {
                        ComposeField::To => {
                            c.to = text::without_last(c.to.as_str());
                        },
                        ComposeField::Cc => {
                            c.cc = text::without_last(c.cc.as_str());
                        },
                        ComposeField::Subject => {
                            c.subject = text::without_last(c.subject.as_str());
                        },
                        ComposeField::Body => {},
                    }
                }
            },
            ComposeKey::Edit(op) => {
                self.emit(Action::Edit(op));
            },
        }
    }
}

/// Nothing is asked for while the composer stays open: only Ctrl-Enter, Ctrl-D
/// and Esc close it.
pub proof fn only_requests_close_the_composer(pre: App, mid: App, post: App, key: Key)
    requires
        pre.compose is Some,
        pre.compose_action is None,
        compose_keyed(pre, mid, key),
        compose_applied(mid, post),
    ensures
        post.compose is None <==> (key.code == KeyCode::Esc || key.ctrl && (key.code
            == KeyCode::Enter || key.code == KeyCode::Char('d') || key.code == KeyCode::Char('D'))),
        post.compose_action is None,
{
}

/// Discarding writes nothing to the mailbox and sends nothing.
pub proof fn discarding_leaves_everything_as_it_was(pre: App, post: App)
    requires
        pre.compose_action == Some(ComposeAction::Discard),
        compose_applied(pre, post),
    ensures
        post.compose is None,
        post.compose_action is None,
        post.actions == pre.actions,
{
}

}
