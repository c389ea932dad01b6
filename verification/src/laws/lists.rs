//! Lists that are looked through: pickers, attachments, search results, and what
//! is read into the panes.

use crate::app::attachments;
use crate::app::folders;
use crate::app::keys;
use crate::app::keys::{CalendarCommand, Command, MailCommand, OverlayCommand, PaneCommand};
use crate::app::names;
use crate::app::navigate;
use crate::app::overlays;
use crate::app::reading;
use crate::app::search;
use crate::app::sync;
use crate::app::triage;
use crate::app::{Action, App, Clock, Key, KeyCode, Mode, Pane, Row};
use crate::cli;
use crate::control;
use crate::json::Value;
use crate::laws::mail::struck;
use crate::model;
use crate::model::{AttachmentKind, AttachmentMeta, FolderRow, MessageRow, SyncCommand, SyncEvent};
use crate::text;
use crate::ui::reading::BodyLink;
use crate::ui::ribbon::{Dir, Focus};
use vstd::prelude::*;

verus! {

/// One step on and one step back, round the ends of `n`.
proof fn lemma_round(i: int, n: int)
    requires
        0 <= i < n,
    ensures
        (i + 1) % n == (if i + 1 < n {
            i + 1
        } else {
            0
        }),
        (i + -1) % n == (if i > 0 {
            i - 1
        } else {
            n - 1
        }),
{
    assert(i + 1 == n ==> (i + 1) % n == 0) by (nonlinear_arith)
        requires
            n > 0,
    ;
    if i + 1 < n {
        vstd::arithmetic::div_mod::lemma_small_mod((i + 1) as nat, n as nat);
    }
    if i > 0 {
        vstd::arithmetic::div_mod::lemma_small_mod((i - 1) as nat, n as nat);
    } else {
        vstd::arithmetic::div_mod::lemma_mod_add_multiples_vanish(-1, n);
        vstd::arithmetic::div_mod::lemma_small_mod((n - 1) as nat, n as nat);
    }
}

/// `j` follows `i` in a list of `n` that goes round.
pub open spec fn follows_round(i: int, j: int, n: int) -> bool {
    j == i + 1 || (i == n - 1 && j == 0)
}

/// In the pickers for folders and attachments, and among search results, down goes
/// to the next and up to the one before, round the ends.
pub proof fn pickers_go_round(pre: App, post: App, delta: int)
    requires
        delta == 1 || delta == -1,
    ensures
        pre.move_picker matches Some(p) ==> p.index < p.folders@.len() && triage::picker_moved(
            pre,
            post,
            delta,
        ) ==> (post.move_picker matches Some(q) && q.folders == p.folders && q.message_id
            == p.message_id && (if delta == 1 {
            follows_round(p.index as int, q.index as int, p.folders@.len() as int)
        } else {
            follows_round(q.index as int, p.index as int, p.folders@.len() as int)
        })),
        pre.attachments matches Some(p) ==> p.index < p.items@.len()
            && attachments::attachments_moved(pre, post, delta) ==> (post.attachments matches Some(
            q,
        ) && q.items == p.items && q.message_id == p.message_id && (if delta == 1 {
            follows_round(p.index as int, q.index as int, p.items@.len() as int)
        } else {
            follows_round(q.index as int, p.index as int, p.items@.len() as int)
        })),
        pre.msg_index < pre.shown_messages().len() && pre.shown_messages().len() <= usize::MAX
            && search::search_moved(pre, post, delta) ==> post.search == pre.search && (
        if delta == 1 {
            follows_round(
                pre.msg_index as int,
                post.msg_index as int,
                pre.shown_messages().len() as int,
            )
        } else {
            follows_round(
                post.msg_index as int,
                pre.msg_index as int,
                pre.shown_messages().len() as int,
            )
        }),
{
    if pre.move_picker is Some && pre.move_picker->0.index < pre.move_picker->0.folders@.len() {
        let p = pre.move_picker->0;
        assert(p.folders@.len() == p.folders.len());
        lemma_round(p.index as int, p.folders@.len() as int);
    }
    if pre.attachments is Some && pre.attachments->0.index < pre.attachments->0.items@.len() {
        let p = pre.attachments->0;
        assert(p.items@.len() == p.items.len());
        lemma_round(p.index as int, p.items@.len() as int);
    }
    if pre.msg_index < pre.shown_messages().len() {
        lemma_round(pre.msg_index as int, pre.shown_messages().len() as int);
    }
}

// ---------------------------------------------------------------------------
// Search
// ---------------------------------------------------------------------------

/// Results are shown once there are any; until then, and without a search, the
/// list itself is. Starting a search goes to the top, and leaving it goes back.
pub proof fn results_replace_the_list(pre: App, post: App)
    ensures
        pre.search is None ==> pre.shown_messages() == pre.messages@,
        pre.search matches Some(s) ==> s.results is None ==> pre.shown_messages() == pre.messages@,
        pre.search matches Some(s) ==> s.results matches Some(v) ==> pre.shown_messages() == v@,
        search::search_started(pre, post) ==> post.msg_index == 0 && post.messages == pre.messages
            && post.shown_messages() == pre.messages@,
        search::search_cancelled(pre, post) ==> post.search is None && post.shown_messages()
            == pre.messages@ && (pre.msg_index < pre.messages@.len() ==> post.msg_index
            == pre.msg_index),
{
}

// ---------------------------------------------------------------------------
// Attachments
// ---------------------------------------------------------------------------

/// Attachments that the store knows are listed; those that a message says it has,
/// and the store does not know, are fetched first; where there are none, nothing
/// opens.
pub proof fn attachments_are_listed_or_fetched(
    pre: App,
    post: App,
    id: String,
    promised: bool,
    items: Vec<AttachmentMeta>,
)
    requires
        attachments::attachments_shown(pre, post, id, promised, items),
    ensures
        items@.len() > 0 ==> (post.attachments matches Some(p) && p.message_id == id && p.items
            == items && p.index == 0 && !p.loading) && post.actions == pre.actions,
        items@.len() == 0 && promised ==> (post.attachments matches Some(p) && p.message_id == id
            && p.loading && p.items@.len() == 0) && post.actions@ == pre.actions@.push(
            Action::Send(SyncCommand::FetchAttachments { message_id: id }),
        ),
        items@.len() == 0 && !promised ==> post == pre,
{
}

/// Attachments that have come in are read where they are shown, and not where
/// those of another message are.
pub proof fn listed_attachments_are_read_again(pre: App, post: App, id: String)
    requires
        attachments::attachments_asked_again(pre, post, id),
        pre.attachments is Some,
    ensures
        pre.attachments->0.message_id@ == id@ ==> post.actions@ == pre.actions@.push(
            Action::ReloadAttachments { message_id: id },
        ),
        pre.attachments->0.message_id@ != id@ ==> post == pre,
{
}

/// An attached message or event is saved under its name without the ending, which
/// is added once it is known what it is.
pub proof fn items_are_saved_without_their_ending(pre: App, post: App, open_after: bool)
    requires
        attachments::save_begun(pre, post, open_after),
        pre.attachments matches Some(p) && p.index < p.items@.len() && p.items@[p.index as int].kind
            == AttachmentKind::Item,
    ensures
        ({
            let p = pre.attachments->0;
            let a = p.items@[p.index as int];
            let to = cli::below(
                pre.downloads@,
                names::item_base(names::safe_name(a.name@)),
                pre.separator,
            );
            &&& post.actions@.len() == pre.actions@.len() + 1
            &&& post.actions@.last() matches Action::Send(
                SyncCommand::SaveItemAttachment { message_id, attachment_id, dest_base },
            ) && message_id == p.message_id && attachment_id == a.id && dest_base@ == to
        }),
{
}

/// A path below a directory is the directory, one separator, and the name.
pub proof fn names_are_put_below_directories(dir: Seq<char>, name: Seq<char>, sep: char)
    ensures
        dir.len() > 0 && dir.last() != sep ==> cli::below(dir, name, sep) == dir + seq![sep] + name,
        dir.len() > 0 && dir.last() == sep ==> cli::below(dir, name, sep) == dir + name,
        cli::below(Seq::empty(), name, sep) == name,
{
    assert(dir.push(sep) =~= dir + seq![sep]);
    assert(Seq::<char>::empty() + name =~= name);
}

/// What is queued from outside says where the file goes.
pub proof fn saves_from_outside_are_queued(
    pre: App,
    post: App,
    r: Result<crate::json::Json, String>,
    id: String,
    attachment: String,
    dest: Seq<char>,
)
    requires
        control::save_queued(pre, post, r, id, attachment, dest),
    ensures
        post.actions@.len() == pre.actions@.len() + 1,
        post.actions@.last() matches Action::Send(
            SyncCommand::SaveAttachment { message_id, attachment_id, dest: d },
        ) && message_id == id && attachment_id == attachment && d@ == dest,
        r matches Ok(j) && (j@ matches Value::Obj(e) && e.len() == 2 && e[0].key == "queued"@
            && e[0].value == Value::Bool(true) && e[1].key == "dest"@ && e[1].value == Value::Str(
            dest,
        )),
{
    let d = choose|d: String|
        {
            &&& d@ == dest
            &&& crate::app::emitted(
                pre,
                post,
                seq![#[trigger] control::save_to(id, attachment, d)],
            )
        };
    assert(post.actions@.last() == control::save_to(id, attachment, d));
}

/// The total of a list is what the folder says it holds, or what is listed where
/// the folder is not known.
pub proof fn lists_tell_their_total(folder: FolderRow, rows: Seq<MessageRow>, other: Seq<char>)
    requires
        other != folder.id@,
    ensures
        ({
            let v = control::list_of(folder.id@, rows, seq![folder]);
            v matches Value::Obj(e) && e.len() == 3 && e[0].value == Value::Str(folder.id@)
                && e[1].key == "total"@ && e[1].value == Value::Num(folder.total_count as int)
                && e[2].key == "messages"@
        }),
        ({
            let v = control::list_of(other, rows, seq![folder]);
            v matches Value::Obj(e) && e[1].value == Value::Num(rows.len() as int)
        }),
        control::summaries(rows) matches Value::Arr(a) && a.len() == rows.len(),
{
    assert(control::folder_at(seq![folder], folder.id@) == 0);
    assert(control::folder_at(seq![folder].skip(1), other) == 0);
    assert(control::folder_at(seq![folder], other) == 1);
}

// ---------------------------------------------------------------------------
// Folders
// ---------------------------------------------------------------------------

/// The first time that there is an inbox it is expanded, once.
pub proof fn the_inbox_is_expanded_once(pre: App, post: App, i: int)
    requires
        folders::tree_initialized(pre, post),
        0 <= i < pre.folders@.len(),
        model::text_of(pre.folders@[i].well_known_name) == Some("inbox"@),
        forall|j: int|
            0 <= j < i ==> model::text_of((#[trigger] pre.folders@[j]).well_known_name) != Some(
                "inbox"@,
            ),
        forall|j: int|
            0 <= j < i ==> (#[trigger] pre.folders@[j]).id@ != pre.folders@[i].id@,
    ensures
        pre.folder_tree_initialized ==> post == pre,
        !pre.folder_tree_initialized ==> {
            &&& post.folder_tree_initialized
            &&& post.folders@.len() == pre.folders@.len()
            &&& post.folders@[i].is_expanded
            &&& post.actions@[pre.actions@.len() as int] == (Action::SetFolderExpanded {
                id: pre.folders@[i].id,
                expanded: true,
            })
            &&& pre.config_path is Some ==> post.actions@.last() == Action::PersistFolderTree
        },
{
    lemma_inbox_at(pre.folders@, i);
    lemma_row_at(pre.folders@, i);
}

proof fn lemma_inbox_at(v: Seq<FolderRow>, i: int)
    requires
        0 <= i < v.len(),
        model::text_of(v[i].well_known_name) == Some("inbox"@),
        forall|j: int|
            0 <= j < i ==> model::text_of((#[trigger] v[j]).well_known_name) != Some("inbox"@),
    ensures
        folders::inbox_at(v) == i,
    decreases i,
{
    if i > 0 {
        assert(model::text_of(v[0].well_known_name) != Some("inbox"@));
        let w = v.skip(1);
        assert forall|j: int| 0 <= j < i - 1 implies model::text_of(
            (#[trigger] w[j]).well_known_name,
        ) != Some("inbox"@) by {
            assert(w[j] == v[j + 1]);
        }
        lemma_inbox_at(w, i - 1);
    }
}

proof fn lemma_row_at(v: Seq<FolderRow>, i: int)
    requires
        0 <= i < v.len(),
        forall|j: int| 0 <= j < i ==> (#[trigger] v[j]).id@ != v[i].id@,
    ensures
        folders::row_at(v, v[i].id@) == i,
    decreases i,
{
    if i > 0 {
        assert(v[0].id@ != v[i].id@);
        let w = v.skip(1);
        assert forall|j: int| 0 <= j < i - 1 implies (#[trigger] w[j]).id@ != w[i - 1].id@ by {
            assert(w[j] == v[j + 1]);
        }
        lemma_row_at(w, i - 1);
    }
}

/// What was sent lies in the folder that the server calls `sentitems`.
pub proof fn sent_mail_lies_in_its_folder(v: Seq<FolderRow>, i: int, a: App, ids: Seq<String>)
    requires
        0 <= i < v.len(),
        model::text_of(v[i].well_known_name) == Some("sentitems"@),
        forall|j: int|
            0 <= j < i ==> model::text_of((#[trigger] v[j]).well_known_name) != Some(
                "sentitems"@,
            ),
    ensures
        triage::in_sent(a, ids, v) == triage::count_in(
            a.threads@,
            ids,
            ids.len() as int,
            v[i].id@,
        ),
        triage::in_sent(a, ids, v) == 0 ==> triage::scope_of(a, ids, v) == text::integer(
            ids.len() as int,
        ) + " messages"@,
        triage::in_sent(a, ids, v) > 0 ==> triage::scope_of(a, ids, v) == text::integer(
            ids.len() as int,
        ) + " messages"@ + " (incl. "@ + text::integer(triage::in_sent(a, ids, v)) + " in Sent)"@,
{
    lemma_kind_at(v, i);
}

proof fn lemma_kind_at(v: Seq<FolderRow>, i: int)
    requires
        0 <= i < v.len(),
        model::text_of(v[i].well_known_name) == Some("sentitems"@),
        forall|j: int|
            0 <= j < i ==> model::text_of((#[trigger] v[j]).well_known_name) != Some(
                "sentitems"@,
            ),
    ensures
        triage::kind_at(v, "sentitems"@) == i,
    decreases i,
{
    if i > 0 {
        assert(model::text_of(v[0].well_known_name) != Some("sentitems"@));
        let w = v.skip(1);
        assert forall|j: int| 0 <= j < i - 1 implies model::text_of(
            (#[trigger] w[j]).well_known_name,
        ) != Some("sentitems"@) by {
            assert(w[j] == v[j + 1]);
        }
        lemma_kind_at(w, i - 1);
    }
}

/// In the list of a conversation's rows, right on a closed header opens it and
/// goes to its first message.
pub proof fn right_opens_the_conversation(pre: App, post: App, t: usize)
    requires
        navigate::list_entered(pre, post),
        pre.is_threaded(),
        pre.row_index < pre.visible_rows@.len(),
        pre.visible_rows@[pre.row_index as int] == Row::Header(t),
        t < pre.threads@.len(),
    ensures
        post.threads@[t as int].expanded,
        post.actions == pre.actions,
        post.threads@[t as int].thread == pre.threads@[t as int].thread,
        pre.threads@[t as int].expanded && pre.row_index + 1 < pre.visible_rows@.len()
            ==> post.row_index == pre.row_index + 1,
{
    assert(pre.visible_rows@.len() == pre.visible_rows.len());
}

// ---------------------------------------------------------------------------
// The reader
// ---------------------------------------------------------------------------

/// A body that has been laid out keeps the place that was read, as long as there
/// is so much of it.
pub proof fn laying_out_keeps_the_place(
    pre: App,
    post: App,
    links: Vec<BodyLink>,
    rows: usize,
    viewport: usize,
)
    requires
        reading::laid_out(pre, post, links, rows, viewport),
    ensures
        post.body_links == links,
        post.reading_content_rows == rows,
        post.reading_viewport == viewport,
        pre.reading_scroll + viewport <= rows ==> post.reading_scroll == pre.reading_scroll,
        pre.reading_scroll + viewport > rows && viewport <= rows ==> post.reading_scroll + viewport
            == rows,
        viewport > rows ==> post.reading_scroll == 0,
{
}

/// Images are looked for in bodies of HTML alone.
pub proof fn images_are_looked_for_in_html(pre: App, post: App, id: String, b: model::Body)
    requires
        reading::images_asked(pre, post),
        pre.selected_msg == Some(id),
        pre.body == Some(b),
    ensures
        reading::is_html(b) ==> post.actions@ == pre.actions@.push(
            Action::ReadInlineImages { id, html: b.content },
        ),
        !reading::is_html(b) ==> post == pre,
{
}

/// The link with the focus is the one that the focus counts to.
pub proof fn the_focus_counts_to_the_link(a: App, i: usize)
    ensures
        a.focused_link == Some(i) && i < a.body_links@.len() ==> a.link_target() == Some(
            a.body_links@[i as int].url,
        ),
        a.focused_link is None ==> a.link_target() is None,
{
}

// ---------------------------------------------------------------------------
// Further keys
// ---------------------------------------------------------------------------

/// In the folder tree, `h` and `l` go left and right, and Space expands or
/// collapses.
pub proof fn the_tree_has_keys_of_its_own()
    ensures
        keys::tree_command(KeyCode::Char('h')) == Some(Command::Pane(PaneCommand::Left)),
        keys::tree_command(KeyCode::Char('l')) == Some(Command::Pane(PaneCommand::Right)),
        keys::tree_command(KeyCode::Char(' ')) == Some(Command::Pane(PaneCommand::ToggleFolder)),
        keys::any_pane_command(Pane::List, KeyCode::Delete) == Command::Mail(MailCommand::Delete),
        keys::any_pane_command(Pane::List, KeyCode::Right) == Command::Pane(PaneCommand::Right),
        keys::any_pane_command(Pane::Folders, KeyCode::Enter) == Command::Pane(
            PaneCommand::Activate,
        ),
        keys::any_pane_command(Pane::Folders, KeyCode::Esc) == Command::Nothing,
        keys::rail_command(KeyCode::Right) == Command::Calendar(CalendarCommand::EnterFolders),
        keys::rail_command(KeyCode::Enter) == Command::Calendar(CalendarCommand::EnterFolders),
        keys::rail_command(KeyCode::Char('j')) == Command::Calendar(
            CalendarCommand::SetMode(Mode::Calendar),
        ),
        keys::rail_command(KeyCode::Char('k')) == Command::Calendar(
            CalendarCommand::SetMode(Mode::Mail),
        ),
        keys::calendar_command(KeyCode::Char('O')) == Command::Mail(MailCommand::OpenOof),
{
}

/// In the ribbon, arrows move the focus, Enter enters a tab or runs a button, and
/// Esc leaves; the first tab opens the menu.
pub proof fn the_ribbon_has_keys_of_its_own(t: usize, b: usize)
    requires
        1 <= t < 6,
    ensures
        keys::ribbon_command(Focus::Tab(t), KeyCode::Left) == Command::Overlay(
            OverlayCommand::MoveRibbon(Dir::Left),
        ),
        keys::ribbon_command(Focus::Tab(t), KeyCode::Right) == Command::Overlay(
            OverlayCommand::MoveRibbon(Dir::Right),
        ),
        keys::ribbon_command(Focus::Tab(t), KeyCode::Up) == Command::Overlay(
            OverlayCommand::MoveRibbon(Dir::Up),
        ),
        keys::ribbon_command(Focus::Tab(t), KeyCode::Down) == Command::Overlay(
            OverlayCommand::MoveRibbon(Dir::Down),
        ),
        keys::ribbon_command(Focus::Tab(t), KeyCode::Enter) == Command::Overlay(
            OverlayCommand::EnterRibbon,
        ),
        keys::ribbon_command(Focus::Tab(0), KeyCode::Enter) == Command::Overlay(
            OverlayCommand::OpenBackstage,
        ),
        keys::ribbon_command(Focus::Button(b), KeyCode::Enter) == Command::Overlay(
            OverlayCommand::RunRibbon,
        ),
        keys::ribbon_command(Focus::Button(b), KeyCode::Esc) == Command::Overlay(
            OverlayCommand::LeaveRibbon,
        ),
        forall|a: App| (#[trigger] overlays::ribbon_focused(a, Focus::Tab(t))).ribbon_tab == t,
        forall|a: App|
            (#[trigger] overlays::ribbon_focused(a, Focus::Tab(0))).ribbon_tab == a.ribbon_tab,
        forall|a: App|
            (#[trigger] overlays::ribbon_focused(a, Focus::Button(b))).ribbon_tab == a.ribbon_tab,
{
}

/// Esc takes, in this order, the reminder in front, and the filter; only then does
/// it lead back.
pub proof fn esc_takes_what_is_in_front(pre: App, post: App, clock: Clock)
    requires
        keys::pressed(pre, post, struck(KeyCode::Esc), clock),
        pre.mode == Mode::Mail,
        pre.focus == Pane::List,
        pre.signin_modal is None,
        !pre.help,
        pre.backstage is None,
        pre.link_prompt is None,
        pre.ribbon_focus == Focus::Off,
        pre.oof_form is None,
        pre.rsvp_prompt is None,
        pre.free_busy is None,
        pre.category_picker is None,
        pre.file_picker is None,
        pre.compose is None,
        pre.event_form is None,
        pre.confirm is None,
        pre.move_picker is None,
        pre.attachments is None,
        pre.search is None,
    ensures
        pre.reminder_queue@.len() > 0 ==> post.reminder_queue@ == pre.reminder_queue@.skip(1)
            && post.category_filter == pre.category_filter && post.focus == Pane::List,
        pre.reminder_queue@.len() == 0 && pre.category_filter is Some ==> post.category_filter
            is None && post.focus == Pane::List,
        pre.reminder_queue@.len() == 0 && pre.category_filter is None ==> post.focus
            == Pane::Folders,
{
    let seen = App { error_notice: None, ..pre };
    assert(keys::command_of(seen, struck(KeyCode::Esc)) == keys::mode_command(
        seen,
        struck(KeyCode::Esc),
    ));
}

/// With Ctrl, up and down go from link to link in the message that is open.
pub proof fn ctrl_arrows_go_through_the_links(a: App, shift: bool)
    requires
        a.selected_msg is Some,
    ensures
        keys::link_step(a, Key { code: KeyCode::Down, ctrl: true, shift }) == Some(1isize),
        keys::link_step(a, Key { code: KeyCode::Up, ctrl: true, shift }) == Some(-1isize),
        keys::link_step(a, Key { code: KeyCode::Down, ctrl: false, shift }) is None,
{
}

/// The event that a key acts on is the one that is open, or else the one under the
/// cursor.
pub proof fn the_open_event_is_acted_on(a: App, id: String)
    ensures
        a.selected_event == Some(id) ==> a.event_id() == Some(id),
        a.selected_event is None && a.agenda_index < a.agenda@.len() ==> a.event_id() == Some(
            a.agenda@[a.agenda_index as int].id,
        ),
        a.selected_event is None && a.agenda_index >= a.agenda@.len() ==> a.event_id() is None,
{
}

/// A signature stands below a line of its own, a paragraph for each of its lines.
pub proof fn signatures_are_paragraphs(a: Seq<char>, b: Seq<char>)
    ensures
        names::paragraphs(seq![a, b], 0) == "<p></p><p>--</p>"@,
        names::paragraphs(seq![a, b], 1) == "<p></p><p>--</p>"@ + "<p>"@ + a + "</p>"@,
        names::paragraphs(seq![a, b], 2) == "<p></p><p>--</p>"@ + "<p>"@ + a + "</p>"@ + "<p>"@ + b
            + "</p>"@,
{
    reveal_with_fuel(names::paragraphs, 3);
}

/// Attachments of the open message that have come in bring its images.
pub proof fn attachments_bring_images(pre: App, post: App, id: String, offset: int, b: model::Body)
    requires
        sync::synced(pre, post, SyncEvent::AttachmentsUpdated { message_id: id }, offset),
        pre.selected_msg == Some(id),
        pre.attachments is None,
        pre.body == Some(b),
        reading::is_html(b),
    ensures
        post.actions@ == pre.actions@.push(Action::ReadInlineImages { id, html: b.content }),
{
}

}
