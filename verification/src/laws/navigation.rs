//! How the keys lead from pane to pane, and which of what is open takes them.

use crate::app::drafts;
use crate::app::drafts::ComposeKey;
use crate::app::folders;
use crate::app::keys;
use crate::app::keys::{Command, PopupCommand};
use crate::app::navigate;
use crate::app::overlays;
use crate::app::reading;
use crate::app::{Action, App, Clock, EditorOp, Key, KeyCode, Mode, Pane, Row, ThreadView};
use crate::control;
use crate::laws::mail::{has_the_keys, struck, typed};
use crate::model;
use crate::model::{AttachmentMeta, ImageSource, MessageRow, SyncCommand};
use crate::text;
use crate::ui::compose::ComposeField;
use crate::ui::linkprompt;
use crate::ui::reading as body;
use crate::ui::ribbon::Focus;
use vstd::prelude::*;

verus! {

// ---------------------------------------------------------------------------
// Keys that are taken anywhere
// ---------------------------------------------------------------------------

/// `q` ends the client unless it would be typed into something; Ctrl-C always
/// does. Any key takes the last failure away.
pub proof fn q_quits_unless_it_is_typed(pre: App, post: App, key: Key, clock: Clock)
    requires
        keys::pressed(pre, post, key, clock),
    ensures
        key == typed('q') && pre.search is None && pre.compose is None && pre.rsvp_prompt is None
            && pre.oof_form is None && pre.event_form is None && pre.free_busy is None && !pre.help
            ==> post.quit && post.actions == pre.actions,
        key.code == KeyCode::Char('c') && key.ctrl ==> post.quit && post.actions == pre.actions,
        key == typed('q') && pre.search is Some ==> !keys::quits(pre, key),
        key == typed('q') && pre.compose is Some ==> !keys::quits(pre, key),
        key == typed('q') && pre.rsvp_prompt is Some ==> !keys::quits(pre, key),
        key == typed('q') && pre.oof_form is Some ==> !keys::quits(pre, key),
        key == typed('q') && pre.event_form is Some ==> !keys::quits(pre, key),
{
}

/// F1 and `?` show the help over the panes; Esc, `q`, F1 and `?` take it away.
pub proof fn help_comes_and_goes(pre: App, post: App, key: Key, clock: Clock)
    requires
        keys::pressed(pre, post, key, clock),
        key == struck(KeyCode::F(1)) || key == typed('?'),
    ensures
        has_the_keys(pre, Pane::List) || has_the_keys(pre, Pane::Folders) || has_the_keys(
            pre,
            Pane::Reading,
        ) ==> post.help && post.actions == pre.actions,
        pre.help && pre.signin_modal is None ==> !post.help && post.actions == pre.actions,
{
}

/// F9 brings up the ribbon from every pane.
pub proof fn f9_brings_the_ribbon(pre: App, post: App, clock: Clock, pane: Pane)
    requires
        keys::pressed(pre, post, struck(KeyCode::F(9)), clock),
        has_the_keys(pre, pane),
    ensures
        post.ribbon_open,
        post.ribbon_focus == Focus::Tab(pre.ribbon_tab),
        post.actions == pre.actions,
{
}

/// What is in front takes the keys, in this order: the replies editor, an answer,
/// the availability, the categories, the files, the composer, the event form, a
/// question.
pub proof fn what_is_in_front_takes_the_keys(a: App, key: Key)
    requires
        a.signin_modal is None,
        !a.help,
        a.backstage is None,
        a.link_prompt is None,
        a.ribbon_focus == Focus::Off,
        key.code != KeyCode::F(9),
    ensures
        a.oof_form is Some ==> keys::command_of(a, key) == Command::Popup(PopupCommand::OofForm),
        a.oof_form is None && a.rsvp_prompt is Some && key.code == KeyCode::Enter
            ==> keys::command_of(a, key) == Command::Popup(PopupCommand::SubmitRsvp),
        a.oof_form is None && a.rsvp_prompt is Some && key.code == KeyCode::Esc
            ==> keys::command_of(a, key) == Command::Popup(PopupCommand::CancelRsvp),
        a.oof_form is None && a.rsvp_prompt is None && a.free_busy is Some && key.code
            == KeyCode::Esc ==> keys::command_of(a, key) == Command::Popup(
            PopupCommand::CloseFreeBusy,
        ),
        a.oof_form is None && a.rsvp_prompt is None && a.free_busy is Some && key.code
            != KeyCode::Esc ==> keys::command_of(a, key) == Command::Nothing,
        a.oof_form is None && a.rsvp_prompt is None && a.free_busy is None && a.category_picker
            is None && a.file_picker is None && a.compose is Some ==> keys::command_of(a, key)
            == Command::Popup(PopupCommand::Compose),
        a.oof_form is None && a.rsvp_prompt is None && a.free_busy is None && a.category_picker
            is None && a.file_picker is None && a.compose is None && a.event_form is Some
            ==> keys::command_of(a, key) == Command::Popup(PopupCommand::EventForm),
{
}

/// A question is answered by Enter, and taken back by Esc; no other key answers
/// it.
pub proof fn questions_take_enter_and_esc(a: App, key: Key)
    requires
        a.signin_modal is None,
        !a.help,
        a.backstage is None,
        a.link_prompt is None,
        a.ribbon_focus == Focus::Off,
        key.code != KeyCode::F(9),
        a.oof_form is None,
        a.rsvp_prompt is None,
        a.free_busy is None,
        a.category_picker is None,
        a.file_picker is None,
        a.compose is None,
        a.event_form is None,
        a.confirm is Some,
    ensures
        key.code == KeyCode::Enter <==> keys::command_of(a, key) == Command::Popup(
            PopupCommand::Confirm,
        ),
        key.code == KeyCode::Esc <==> keys::command_of(a, key) == Command::Popup(
            PopupCommand::CancelConfirm,
        ),
{
}

/// The pickers and lists over the mail are gone through by arrows, taken by Enter
/// and left by Esc.
pub proof fn pickers_are_gone_through(code: KeyCode)
    ensures
        keys::move_command(KeyCode::Up) == Command::Popup(PopupCommand::SelectMove(-1isize)),
        keys::move_command(KeyCode::Down) == Command::Popup(PopupCommand::SelectMove(1)),
        keys::move_command(KeyCode::Enter) == Command::Popup(PopupCommand::ConfirmMove),
        keys::move_command(KeyCode::Esc) == Command::Popup(PopupCommand::CancelMove),
        keys::attachments_command(KeyCode::Up) == Command::Popup(
            PopupCommand::SelectAttachment(-1isize),
        ),
        keys::attachments_command(KeyCode::Down) == Command::Popup(
            PopupCommand::SelectAttachment(1),
        ),
        keys::attachments_command(KeyCode::Enter) == Command::Popup(PopupCommand::SaveAttachment),
        keys::attachments_command(KeyCode::Char('o')) == Command::Popup(
            PopupCommand::OpenAttachment,
        ),
        keys::attachments_command(KeyCode::Esc) == Command::Popup(PopupCommand::CloseAttachments),
        keys::category_command(KeyCode::Up) == Command::Popup(PopupCommand::SelectCategory(-1isize)),
        keys::category_command(KeyCode::Down) == Command::Popup(PopupCommand::SelectCategory(1)),
        keys::category_command(KeyCode::Char(' ')) == Command::Popup(PopupCommand::ToggleCategory),
        keys::category_command(KeyCode::Enter) == Command::Popup(PopupCommand::ApplyCategories),
        keys::category_command(KeyCode::Esc) == Command::Popup(PopupCommand::CloseCategories),
        keys::file_command(KeyCode::Up) == Command::Popup(PopupCommand::SelectFile(-1isize)),
        keys::file_command(KeyCode::Down) == Command::Popup(PopupCommand::SelectFile(1)),
        keys::file_command(KeyCode::Enter) == Command::Popup(PopupCommand::EnterFile),
        keys::file_command(KeyCode::Esc) == Command::Popup(PopupCommand::CloseFiles),
        keys::search_command(KeyCode::Up) == Command::Popup(PopupCommand::SelectResult(-1isize)),
        keys::search_command(KeyCode::Down) == Command::Popup(PopupCommand::SelectResult(1)),
        keys::search_command(KeyCode::Enter) == Command::Popup(PopupCommand::SubmitSearch),
        keys::search_command(KeyCode::Esc) == Command::Popup(PopupCommand::CancelSearch),
        keys::search_command(KeyCode::Backspace) == Command::Popup(PopupCommand::BackspaceSearch),
        keys::step_of(KeyCode::Char('j')) == keys::step_of(KeyCode::Down),
        keys::step_of(KeyCode::Char('k')) == keys::step_of(KeyCode::Up),
{
}

// ---------------------------------------------------------------------------
// The reader and the folders
// ---------------------------------------------------------------------------

/// In the reader, arrows scroll by one row, Home and End go to the ends, and the
/// page keys open the messages before and after.
pub proof fn the_reader_scrolls(pre: App, post: App, key: Key, clock: Clock)
    requires
        keys::pressed(pre, post, key, clock),
        has_the_keys(pre, Pane::Reading),
        pre.reading_scroll + pre.reading_viewport <= pre.reading_content_rows,
    ensures
        key == struck(KeyCode::Down) || key == typed('j') ==> post.reading_scroll == (
        if pre.reading_scroll + pre.reading_viewport < pre.reading_content_rows {
            pre.reading_scroll + 1
        } else {
            pre.reading_scroll as int
        }),
        key == struck(KeyCode::Up) || key == typed('k') ==> post.reading_scroll == (
        if pre.reading_scroll > 0 {
            pre.reading_scroll - 1
        } else {
            0
        }),
        key == struck(KeyCode::Home) ==> post.reading_scroll == 0,
        key == struck(KeyCode::End) ==> post.reading_scroll + pre.reading_viewport
            == pre.reading_content_rows,
{
    let seen = App { error_notice: None, ..pre };
    if key == struck(KeyCode::Down) || key == typed('j') || key == struck(KeyCode::Up) || key
        == typed('k') || key == struck(KeyCode::Home) || key == struck(KeyCode::End) {
        assert(keys::command_of(seen, key) == keys::mode_command(seen, key));
        assert(keys::mode_command(seen, key) == keys::pane_command(seen, key));
        assert(keys::reader_command(seen, key.code) is Some);
    }
}

/// The page keys in the reader move the cursor of the list, and open what it comes
/// to.
pub proof fn page_keys_open_the_neighbours(pre: App, post: App, clock: Clock, down: bool)
    requires
        keys::pressed(
            pre,
            post,
            struck(
                if down {
                    KeyCode::PageDown
                } else {
                    KeyCode::PageUp
                },
            ),
            clock,
        ),
        has_the_keys(pre, Pane::Reading),
        !pre.threaded,
        0 < pre.msg_index,
        pre.msg_index + 1 < pre.messages@.len(),
    ensures
        down ==> post.msg_index == pre.msg_index + 1,
        !down ==> post.msg_index == pre.msg_index - 1,
        post.selected_msg == Some(pre.messages@[post.msg_index as int].id),
        post.focus == Pane::Reading,
{
    let key = struck(
        if down {
            KeyCode::PageDown
        } else {
            KeyCode::PageUp
        },
    );
    let seen = App { error_notice: None, ..pre };
    assert(keys::command_of(seen, key) == keys::mode_command(seen, key));
    assert(keys::mode_command(seen, key) == keys::pane_command(seen, key));
    let n = pre.messages@.len() as int;
    assert(n == pre.messages.len());
    vstd::arithmetic::div_mod::lemma_small_mod((pre.msg_index + 1) as nat, n as nat);
    vstd::arithmetic::div_mod::lemma_small_mod((pre.msg_index - 1) as nat, n as nat);
}

/// Right in the folder pane goes to the list, and shows the message under its
/// cursor; from the list, Enter goes on to the reader.
pub proof fn right_leads_to_the_list(pre: App, post: App)
    requires
        navigate::went_right(pre, post),
        pre.focus == Pane::Folders,
        pre.folder_index < pre.visible_folders@.len(),
        !pre.visible_folders@[pre.folder_index as int].has_children
            || pre.visible_folders@[pre.folder_index as int].expanded,
    ensures
        post.focus == Pane::List,
        post.selected_folder == pre.selected_folder,
{
}

/// Left in the folder pane collapses a folder that is expanded; else it goes to the
/// folder above, and from a folder at the top to the rail.
pub proof fn left_collapses_or_goes_up(pre: App, post: App)
    requires
        navigate::went_left(pre, post),
        pre.focus == Pane::Folders,
        pre.folder_index < pre.visible_folders@.len(),
    ensures
        ({
            let v = pre.visible_folders@[pre.folder_index as int];
            &&& v.has_children && v.expanded ==> post.focus == Pane::Folders && post.actions@
                == pre.actions@.push(
                Action::SetFolderExpanded { id: v.row.id, expanded: false },
            )
            &&& !(v.has_children && v.expanded) && v.depth == 0 ==> post.focus == Pane::Rail
                && post.actions == pre.actions
            &&& !(v.has_children && v.expanded) && v.depth > 0 && v.row.parent_id is Some
                && folders::folder_at(pre.visible_folders@, v.row.parent_id->0@)
                < pre.visible_folders@.len() ==> post.selected_folder == v.row.parent_id
                && post.focus == Pane::Folders
        }),
{
}

/// The tree keeps the selected folder under the cursor; where it is gone, the
/// folder that the cursor then stands on is the selected one.
pub proof fn the_cursor_stands_on_the_selected_folder(pre: App, post: App)
    requires
        folders::tree_rebuilt(pre, post),
        pre.visible_folders@.len() < usize::MAX,
    ensures
        post.visible_folders@ == crate::ui::foldertree::visible(pre.folders@),
        post.visible_folders@.len() > 0 ==> {
            &&& post.folder_index < post.visible_folders@.len()
            &&& post.selected_folder matches Some(id) && post.visible_folders@[post.folder_index as int].row.id@
                == id@
        },
        post.visible_folders@.len() == 0 ==> post.selected_folder is None,
{
    let v = crate::ui::foldertree::visible(pre.folders@);
    assert(post.visible_folders@.len() == post.visible_folders.len());
    if pre.selected_folder is Some {
        lemma_folder_at(v, pre.selected_folder->0@);
    }
}

proof fn lemma_folder_at(v: Seq<crate::ui::foldertree::VisibleFolder>, id: Seq<char>)
    ensures
        0 <= folders::folder_at(v, id) <= v.len(),
        folders::folder_at(v, id) < v.len() ==> v[folders::folder_at(v, id)].row.id@ == id,
    decreases v.len(),
{
    if v.len() > 0 && v[0].row.id@ != id {
        lemma_folder_at(v.skip(1), id);
    }
}

/// Enter on the header of a conversation that is closed opens it, and the newest
/// message in it; on one that is open it closes it.
pub proof fn headers_open_and_close(pre: App, post: App, t: usize)
    requires
        navigate::row_activated(pre, post),
        pre.row_index < pre.visible_rows@.len(),
        pre.visible_rows@[pre.row_index as int] == Row::Header(t),
        t < pre.threads@.len(),
        pre.selected_folder is Some,
    ensures
        ({
            let tv = pre.threads@[t as int];
            let msgs = tv.thread.messages@;
            &&& post.threads@.len() == pre.threads@.len()
            &&& post.threads@[t as int].expanded == !tv.expanded
            &&& post.threads@[t as int].thread == tv.thread
            &&& forall|i: int|
                0 <= i < pre.threads@.len() && i != t ==> #[trigger] post.threads@[i]
                    == pre.threads@[i]
            &&& tv.expanded ==> post.actions == pre.actions
            &&& !tv.expanded && msgs.len() > 0 && !msgs.last().is_draft ==> post.selected_msg
                == Some(msgs.last().id) && post.focus == Pane::Reading
            &&& !tv.expanded && msgs.len() > 0 && msgs.last().is_draft ==> post.actions@
                == pre.actions@.push(Action::ReadDraft { id: msgs.last().id })
        }),
{
}

/// The message under the cursor, in conversations: the newest one where the cursor
/// stands on a header.
pub proof fn the_newest_message_stands_for_the_conversation(a: App, t: usize, m: usize)
    requires
        a.threaded,
        a.search is None,
        a.category_filter is None,
        a.mode == Mode::Mail,
        a.row_index < a.visible_rows@.len(),
        t < a.threads@.len(),
    ensures
        a.visible_rows@[a.row_index as int] == Row::Header(t)
            && a.threads@[t as int].thread.messages@.len() > 0 ==> a.highlighted() == Some(
            a.threads@[t as int].thread.messages@.last(),
        ),
        a.visible_rows@[a.row_index as int] == Row::Message(t, m) && m
            < a.threads@[t as int].thread.messages@.len() ==> a.highlighted() == Some(
            a.threads@[t as int].thread.messages@[m as int],
        ),
{
}

/// Without conversations, in a search and under a filter, the list is flat.
pub proof fn lists_are_flat_where_asked(a: App)
    ensures
        a.is_threaded() <==> a.threaded && a.search is None && a.category_filter is None && a.mode
            == Mode::Mail,
        !a.threaded && a.msg_index < a.messages@.len() ==> a.highlighted() == Some(
            a.messages@[a.msg_index as int],
        ),
        !a.threaded && a.msg_index >= a.messages@.len() ==> a.highlighted() is None,
{
}

// ---------------------------------------------------------------------------
// The composer's keys
// ---------------------------------------------------------------------------

/// In the body, keys edit: what is typed is inserted, Enter parts a paragraph, and
/// arrows move, with Shift selecting on the way.
pub proof fn body_keys_edit(c: char, shift: bool)
    ensures
        ({
            let b = ComposeField::Body;
            let key = |code: KeyCode| Key { code, ctrl: false, shift };
            &&& drafts::compose_key(b, typed(c)) == ComposeKey::Edit(EditorOp::Insert(c))
            &&& drafts::compose_key(b, key(KeyCode::Enter)) == ComposeKey::Edit(
                EditorOp::SplitParagraph,
            )
            &&& drafts::compose_key(b, key(KeyCode::Backspace)) == ComposeKey::Edit(
                EditorOp::DeleteBackward,
            )
            &&& drafts::compose_key(b, key(KeyCode::Left)) == ComposeKey::Edit(
                EditorOp::Left { extend: shift },
            )
            &&& drafts::compose_key(b, key(KeyCode::Right)) == ComposeKey::Edit(
                EditorOp::Right { extend: shift },
            )
            &&& drafts::compose_key(b, key(KeyCode::Up)) == ComposeKey::Edit(
                EditorOp::Up { extend: shift },
            )
            &&& drafts::compose_key(b, key(KeyCode::Down)) == ComposeKey::Edit(
                EditorOp::Down { extend: shift },
            )
            &&& drafts::compose_key(b, key(KeyCode::Home)) == ComposeKey::Edit(
                EditorOp::Home { extend: shift },
            )
            &&& drafts::compose_key(b, key(KeyCode::End)) == ComposeKey::Edit(
                EditorOp::End { extend: shift },
            )
        }),
        drafts::style_key('b') == ComposeKey::Edit(EditorOp::ToggleBold),
        drafts::style_key('i') == ComposeKey::Edit(EditorOp::ToggleItalic),
        drafts::style_key('u') == ComposeKey::Edit(EditorOp::ToggleUnderline),
        drafts::style_key('l') == ComposeKey::Edit(EditorOp::ToggleList),
        drafts::style_key('B') == ComposeKey::Edit(EditorOp::ToggleBold),
        forall|f: ComposeField| #[trigger]
            drafts::compose_key(f, struck(KeyCode::Tab)) == ComposeKey::NextField,
        crate::ui::compose::field_after(ComposeField::To) == ComposeField::Cc,
        crate::ui::compose::field_after(ComposeField::Cc) == ComposeField::Subject,
        crate::ui::compose::field_after(ComposeField::Subject) == ComposeField::Body,
        crate::ui::compose::field_after(ComposeField::Body) == ComposeField::To,
{
}

/// What is attached to a draft is attached to that draft; the last attachment is
/// the one that is taken away.
pub proof fn attachments_belong_to_the_draft(
    pre: App,
    post: App,
    path: String,
    name: String,
    size: i64,
)
    requires
        pre.compose is Some,
    ensures
        drafts::file_attached(pre, post, path, name, size) ==> post.actions@ == pre.actions@.push(
            Action::AddOutbound { draft_id: pre.compose->0.draft_id, path, name, size },
        ).push(Action::ReadOutbound { draft_id: pre.compose->0.draft_id }),
        drafts::last_attachment_removed(pre, post) && pre.compose->0.attachments@.len() > 0
            ==> post.actions@ == pre.actions@.push(
            Action::RemoveOutbound {
                draft_id: pre.compose->0.draft_id,
                path: pre.compose->0.attachments@.last().path,
            },
        ).push(Action::ReadOutbound { draft_id: pre.compose->0.draft_id }),
{
}

// ---------------------------------------------------------------------------
// Links and images
// ---------------------------------------------------------------------------

/// A link is opened where it is safe, and the question goes either way; `p` shows
/// its parts, and the whole again.
pub proof fn safe_links_are_opened(pre: App, post: App, code: KeyCode)
    requires
        overlays::link_keyed(pre, post, code),
        pre.link_prompt is Some,
    ensures
        code == KeyCode::Enter ==> post.link_prompt is None,
        code == KeyCode::Enter && linkprompt::is_safe(pre.link_prompt->0.url@) ==> post.actions@
            == pre.actions@.push(Action::OpenUrl(pre.link_prompt->0.url)),
        code == KeyCode::Enter && !linkprompt::is_safe(pre.link_prompt->0.url@) ==> post.actions
            == pre.actions,
        code == KeyCode::Esc ==> post.link_prompt is None && post.actions == pre.actions,
        code == KeyCode::Char('p') ==> (post.link_prompt matches Some(p) && p.parsed
            == !pre.link_prompt->0.parsed && p.url == pre.link_prompt->0.url),
{
}

/// An image in a body is fetched from the attachment that carries its content id.
pub proof fn images_come_from_their_attachment(metas: Seq<AttachmentMeta>, cid: Seq<char>)
    ensures
        ({
            let k = reading::attachment_for(metas, cid);
            &&& 0 <= k <= metas.len()
            &&& k < metas.len() ==> (metas[k].content_id matches Some(stored)
                && reading::cid_core(stored@) == reading::cid_core(cid))
            &&& forall|j: int| 0 <= j < k ==> !reading::answers(#[trigger] metas[j], cid)
        }),
    decreases metas.len(),
{
    if metas.len() > 0 && !reading::answers(metas[0], cid) {
        images_come_from_their_attachment(metas.skip(1), cid);
        let k = reading::attachment_for(metas, cid);
        assert forall|j: int| 0 <= j < k implies !reading::answers(#[trigger] metas[j], cid) by {
            if j > 0 {
                assert(metas.skip(1)[j - 1] == metas[j]);
            }
        }
    }
}

/// The first image of a body is asked for with the message, the attachment and
/// the content id it belongs to.
pub proof fn images_are_asked_for(
    pre: App,
    post: App,
    id: String,
    c: String,
    a: AttachmentMeta,
    stored: String,
)
    requires
        reading::images_fetched(pre, post, id, seq![ImageSource::Cid(c)], seq![a]),
        a.content_id == Some(stored),
        stored@ == c@,
        !model::texts(pre.requested_inline@).contains(c@),
    ensures
        post.actions@ == pre.actions@.push(
            Action::Send(
                SyncCommand::FetchInlineImage {
                    message_id: id,
                    attachment_id: a.id,
                    content_id: c,
                },
            ),
        ),
        post.requested_inline@ == pre.requested_inline@.push(c),
{
    let sources = seq![ImageSource::Cid(c)];
    assert(sources[0] is Cid);
    assert(reading::some_cid(sources));
    assert(reading::attachment_for(seq![a], c@) == 0);
    assert(reading::fetches(id, sources, 0, seq![a], pre.requested_inline@) == (
        pre.requested_inline@,
        Seq::<Action>::empty(),
    ));
    let (r, acts) = reading::fetches(id, sources, 1, seq![a], pre.requested_inline@);
    assert(acts =~= seq![
        Action::Send(
            SyncCommand::FetchInlineImage { message_id: id, attachment_id: a.id, content_id: c },
        ),
    ]);
}

/// A message that is open is found among those that were read, in the flat list
/// first.
pub proof fn open_messages_are_found(
    messages: Seq<MessageRow>,
    threads: Seq<ThreadView>,
    id: Seq<char>,
    i: int,
)
    requires
        0 <= i < messages.len(),
        messages[i].id@ == id,
        forall|j: int| 0 <= j < i ==> (#[trigger] messages[j]).id@ != id,
    ensures
        reading::loaded_row(messages, threads, id) == Some(messages[i]),
{
    lemma_message_at(messages, id, i);
}

proof fn lemma_message_at(v: Seq<MessageRow>, id: Seq<char>, i: int)
    requires
        0 <= i < v.len(),
        v[i].id@ == id,
        forall|j: int| 0 <= j < i ==> (#[trigger] v[j]).id@ != id,
    ensures
        reading::message_at(v, id) == i,
    decreases i,
{
    if i > 0 {
        assert(v[0].id@ != id);
        let w = v.skip(1);
        assert forall|j: int| 0 <= j < i - 1 implies (#[trigger] w[j]).id@ != id by {
            assert(w[j] == v[j + 1]);
        }
        lemma_message_at(w, id, i - 1);
    }
}

// ---------------------------------------------------------------------------
// Selection from outside
// ---------------------------------------------------------------------------

/// What is selected from outside is what is then shown: the folder's messages are
/// read, and the message is opened.
pub proof fn selections_from_outside_are_shown(
    pre: App,
    post: App,
    folder: String,
    id: String,
)
    requires
        control::selected(pre, post, Some(folder), Some(id)),
        !pre.threaded,
    ensures
        post.selected_folder == Some(folder),
        post.selected_msg == Some(id),
        post.actions@ == pre.actions@ + seq![
            Action::ReadMessages { folder, limit: 200 },
            Action::ClearImages,
            Action::ReadBody { id },
        ],
{
}

/// Nothing that is selected from outside changes nothing.
pub proof fn no_selection_changes_nothing(pre: App, post: App)
    requires
        control::selected(pre, post, None, None),
    ensures
        post == pre,
{
}

/// Rows of a body are told line by line, set in as they are shown.
pub proof fn bodies_are_told_line_by_line(a: body::StyledLine, b: body::StyledLine, unit: int)
    ensures
        control::plain_body(seq![a], 1, unit) == control::plain_row(a, unit),
        control::plain_body(seq![a, b], 2, unit) == control::plain_row(a, unit) + "\n"@
            + control::plain_row(b, unit),
        a.spans@.len() == 1 ==> control::plain_row(a, unit) == text::spaces(a.indent * unit)
            + a.spans@[0].text@,
{
    reveal_with_fuel(control::plain_body, 3);
    if a.spans@.len() == 1 {
        assert(control::span_text(a, 0) =~= Seq::empty());
        assert(control::span_text(a, 1) =~= a.spans@[0].text@);
    }
}

}
