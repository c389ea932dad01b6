//! What comes in from outside: requests, settings, arguments, and the events of
//! the sync engine.

use crate::app::folders;
use crate::app::sync;
use crate::app::{Action, App, SignInModal};
use crate::cli;
use crate::cli::CliMode;
use crate::config;
use crate::config::{Env, Settings};
use crate::control;
use crate::control::Request;
use crate::json;
use crate::json::{Entry, Value};
use crate::mcp;
use crate::model;
use crate::model::{
    AttachmentMeta, FolderRow, MessageRow, RsvpKind, ScheduleEntry, SyncCommand, SyncEvent,
    SyncState,
};
use crate::text;
use vstd::prelude::*;

verus! {

// ---------------------------------------------------------------------------
// Requests
// ---------------------------------------------------------------------------

/// The verbs are told apart by a few of their characters.
proof fn lemma_verbs()
    ensures
        "mail.status"@.len() == 11 && "mail.status"@[5] == 's' && "mail.status"@[6] == 't',
        "mail.folders"@.len() == 12 && "mail.folders"@[5] == 'f' && "mail.folders"@[6] == 'o',
        "mail.list"@.len() == 9 && "mail.list"@[5] == 'l' && "mail.list"@[6] == 'i',
        "mail.read"@.len() == 9 && "mail.read"@[5] == 'r' && "mail.read"@[6] == 'e',
        "mail.search"@.len() == 11 && "mail.search"@[5] == 's' && "mail.search"@[6] == 'e'
            && "mail.search"@[7] == 'a',
        "mail.mark"@.len() == 9 && "mail.mark"@[5] == 'm' && "mail.mark"@[6] == 'a',
        "mail.flag"@.len() == 9 && "mail.flag"@[5] == 'f' && "mail.flag"@[6] == 'l',
        "mail.move"@.len() == 9 && "mail.move"@[5] == 'm' && "mail.move"@[6] == 'o',
        "mail.delete"@.len() == 11 && "mail.delete"@[5] == 'd' && "mail.delete"@[6] == 'e',
        "mail.attachments"@.len() == 16 && "mail.attachments"@[5] == 'a',
        "mail.save-attachment"@.len() == 20 && "mail.save-attachment"@[5] == 's',
        "mail.select"@.len() == 11 && "mail.select"@[5] == 's' && "mail.select"@[6] == 'e'
            && "mail.select"@[7] == 'l',
        "mail.refresh"@.len() == 12 && "mail.refresh"@[5] == 'r' && "mail.refresh"@[6] == 'e',
{
    reveal_strlit("mail.status");
    reveal_strlit("mail.folders");
    reveal_strlit("mail.list");
    reveal_strlit("mail.read");
    reveal_strlit("mail.search");
    reveal_strlit("mail.mark");
    reveal_strlit("mail.flag");
    reveal_strlit("mail.move");
    reveal_strlit("mail.delete");
    reveal_strlit("mail.attachments");
    reveal_strlit("mail.save-attachment");
    reveal_strlit("mail.select");
    reveal_strlit("mail.refresh");
}

/// A request to mark, flag, move or delete a message is for the message that it
/// names, and says what it was asked.
pub proof fn triage_requests_say_what_was_asked(
    r: Result<Request, String>,
    verb: Seq<char>,
    args: Value,
    selected: Option<Seq<char>>,
    t: Seq<char>,
)
    requires
        control::is_request(r, verb, args, selected),
        args.text("id"@) == Some(t),
    ensures
        verb == "mail.mark"@ && args.flag("read"@) is Some ==> (
        r matches Ok(Request::Mark { id, read }) && id@ == t && Some(read) == args.flag("read"@)),
        verb == "mail.mark"@ && args.flag("read"@) is None ==> r is Err,
        verb == "mail.flag"@ && args.flag("flagged"@) is Some ==> (
        r matches Ok(Request::Flag { id, flagged }) && id@ == t && Some(flagged) == args.flag(
            "flagged"@,
        )),
        verb == "mail.flag"@ && args.flag("flagged"@) is None ==> r is Err,
        verb == "mail.move"@ && args.text("dest"@) is Some ==> (
        r matches Ok(Request::Move { id, dest }) && id@ == t && Some(dest@) == args.text("dest"@)),
        verb == "mail.move"@ && args.text("dest"@) is None ==> r is Err,
        verb == "mail.delete"@ ==> (r matches Ok(Request::Delete { id }) && id@ == t),
        verb == "mail.read"@ ==> (r matches Ok(Request::Read { id }) && id@ == t),
        verb == "mail.attachments"@ ==> (r matches Ok(Request::Attachments { id }) && id@ == t),
        verb == "mail.save-attachment"@ && args.text("attachment"@) is Some ==> (
        r matches Ok(Request::SaveAttachment { id, attachment, dest }) && id@ == t && Some(
            attachment@,
        ) == args.text("attachment"@) && model::text_of(dest) == args.text("dest"@)),
        verb == "mail.save-attachment"@ && args.text("attachment"@) is None ==> r is Err,
{
    lemma_verbs();
}

/// A request that needs the id of a message, and names none, is refused.
pub proof fn requests_without_a_message_are_refused(
    r: Result<Request, String>,
    verb: Seq<char>,
    args: Value,
    selected: Option<Seq<char>>,
)
    requires
        control::is_request(r, verb, args, selected),
        args.text("id"@) is None,
        verb == "mail.mark"@ || verb == "mail.flag"@ || verb == "mail.move"@ || verb
            == "mail.delete"@ || verb == "mail.read"@ || verb == "mail.attachments"@ || verb
            == "mail.save-attachment"@,
    ensures
        r is Err,
{
    lemma_verbs();
}

/// The messages of the folder that is named, or else of the one that is selected,
/// are listed: fifty from the first, unless a count says otherwise. A count below
/// zero says nothing.
pub proof fn listing_requests_take_their_counts(
    r: Result<Request, String>,
    args: Value,
    selected: Option<Seq<char>>,
)
    requires
        control::is_request(r, "mail.list"@, args, selected),
    ensures
        args.text("folder"@) is None && selected is None ==> r is Err,
        args.text("folder"@) is Some || selected is Some ==> (
        r matches Ok(Request::List { folder, limit, offset }) && {
            &&& args.text("folder"@) matches Some(f) ==> folder@ == f
            &&& args.text("folder"@) is None ==> Some(folder@) == selected
            &&& args.number("limit"@) is None ==> limit == 50
            &&& args.number("limit"@) matches Some(n) ==> (0 <= n <= i64::MAX ==> limit == n) && (n
                < 0 ==> limit == 50)
            &&& args.number("offset"@) is None ==> offset == 0
            &&& args.number("offset"@) matches Some(n) ==> (0 <= n <= i64::MAX ==> offset == n) && (
            n < 0 ==> offset == 0)
        }),
{
    lemma_verbs();
}

/// A search is for the words that are given, and for fifty messages unless it says
/// otherwise.
pub proof fn search_requests_take_their_words(
    r: Result<Request, String>,
    args: Value,
    selected: Option<Seq<char>>,
)
    requires
        control::is_request(r, "mail.search"@, args, selected),
    ensures
        args.text("query"@) is None ==> r is Err,
        args.text("query"@) matches Some(q) ==> (r matches Ok(Request::Search { query, limit }) && {
            &&& query@ == q
            &&& args.number("limit"@) is None ==> limit == 50
            &&& args.number("limit"@) matches Some(n) ==> (0 <= n <= i64::MAX ==> limit == n)
        }),
{
    lemma_verbs();
}

/// The requests that need no arguments are themselves, and a selection is what is
/// named.
pub proof fn plain_requests_are_themselves(
    r: Result<Request, String>,
    verb: Seq<char>,
    args: Value,
    selected: Option<Seq<char>>,
)
    requires
        control::is_request(r, verb, args, selected),
    ensures
        verb == "mail.status"@ ==> r == Ok::<Request, String>(Request::Status),
        verb == "mail.folders"@ ==> r == Ok::<Request, String>(Request::Folders),
        verb == "mail.refresh"@ ==> r == Ok::<Request, String>(Request::Refresh),
        verb == "mail.select"@ ==> (r matches Ok(Request::Select { folder, id }) && model::text_of(
            folder,
        ) == args.text("folder"@) && model::text_of(id) == args.text("id"@)),
        r matches Ok(Request::Delete { .. }) ==> verb == "mail.delete"@,
        r matches Ok(Request::Move { .. }) ==> verb == "mail.move"@,
        r matches Ok(Request::Mark { .. }) ==> verb == "mail.mark"@,
        r matches Ok(Request::Flag { .. }) ==> verb == "mail.flag"@,
{
    lemma_verbs();
}

/// The verbs that change something are those that show as activity.
pub proof fn changes_show_as_activity(
    r: Result<Request, String>,
    verb: Seq<char>,
    args: Value,
    selected: Option<Seq<char>>,
)
    requires
        control::is_request(r, verb, args, selected),
        r is Ok,
    ensures
        control::is_triage(verb) <==> (r->Ok_0 is Mark || r->Ok_0 is Flag || r->Ok_0 is Move
            || r->Ok_0 is Delete || r->Ok_0 is SaveAttachment),
{
    lemma_verbs();
}

// ---------------------------------------------------------------------------
// Answers
// ---------------------------------------------------------------------------

/// The first entry of a key is the one that counts.
proof fn lemma_entry_at(v: Seq<Entry>, i: int)
    requires
        0 <= i < v.len(),
        forall|j: int| 0 <= j < i ==> (#[trigger] v[j]).key != v[i].key,
    ensures
        json::entry_at(v, v[i].key) == i,
    decreases i,
{
    if i > 0 {
        assert(v[0].key != v[i].key);
        let w = v.skip(1);
        assert forall|j: int| 0 <= j < i - 1 implies (#[trigger] w[j]).key != w[i - 1].key by {
            assert(w[j] == v[j + 1]);
        }
        lemma_entry_at(w, i - 1);
    }
}

/// A summary holds the message's own fields under their names.
pub proof fn summaries_hold_the_message(m: MessageRow)
    ensures
        ({
            let v = control::summary_of(m);
            &&& v.text("id"@) == Some(m.id@)
            &&& v.text("from_name"@) == Some(m.from_name@)
            &&& v.text("from_addr"@) == Some(m.from_addr@)
            &&& v.text("subject"@) == Some(m.subject@)
            &&& v.text("received"@) == Some(m.received_at@)
            &&& v.flag("is_read"@) == Some(m.is_read)
            &&& v.flag("is_flagged"@) == Some(m.is_flagged)
            &&& v.flag("has_attachments"@) == Some(m.has_attachments)
            &&& v.text("preview"@) == Some(m.preview@)
        }),
{
    lemma_message_keys();
    let v = control::summary_of(m);
    let e = v->Obj_0;
    lemma_entry_at(e, 0);
    lemma_entry_at(e, 1);
    lemma_entry_at(e, 2);
    lemma_entry_at(e, 3);
    lemma_entry_at(e, 4);
    lemma_entry_at(e, 5);
    lemma_entry_at(e, 6);
    lemma_entry_at(e, 7);
    lemma_entry_at(e, 8);
}

/// What is read of a message holds its own fields under their names, and its body
/// or a note that it is still to come.
pub proof fn messages_are_read_whole(m: MessageRow, body: Option<Seq<char>>)
    ensures
        ({
            let v = Value::Obj(control::message_of(m) + control::body_of(body));
            &&& v.text("id"@) == Some(m.id@)
            &&& v.text("folder"@) == Some(m.folder_id@)
            &&& v.text("subject"@) == Some(m.subject@)
            &&& v.text("from"@) == Some(m.from_name@ + " <"@ + m.from_addr@ + ">"@)
            &&& v.text("to"@) == Some(m.to_recipients@)
            &&& v.text("cc"@) == Some(m.cc_recipients@)
            &&& v.text("received"@) == Some(m.received_at@)
            &&& v.flag("is_read"@) == Some(m.is_read)
            &&& v.flag("is_flagged"@) == Some(m.is_flagged)
            &&& v.flag("has_attachments"@) == Some(m.has_attachments)
            &&& body matches Some(t) ==> v.text("body_text"@) == Some(t)
            &&& body is None ==> v.flag("body_pending"@) == Some(true)
        }),
{
    lemma_message_keys();
    let e = control::message_of(m) + control::body_of(body);
    lemma_entry_at(e, 0);
    lemma_entry_at(e, 1);
    lemma_entry_at(e, 2);
    lemma_entry_at(e, 3);
    lemma_entry_at(e, 4);
    lemma_entry_at(e, 5);
    lemma_entry_at(e, 6);
    lemma_entry_at(e, 7);
    lemma_entry_at(e, 8);
    lemma_entry_at(e, 9);
    lemma_entry_at(e, 10);
    if body is None {
        lemma_entry_at(e, 11);
    }
}

proof fn lemma_message_keys()
    ensures
        "id"@.len() == 2 && "id"@[0] == 'i',
        "from_name"@.len() == 9 && "from_name"@[5] == 'n',
        "from_addr"@.len() == 9 && "from_addr"@[5] == 'a',
        "subject"@.len() == 7 && "subject"@[0] == 's',
        "received"@.len() == 8 && "received"@[0] == 'r',
        "is_read"@.len() == 7 && "is_read"@[0] == 'i',
        "is_flagged"@.len() == 10 && "is_flagged"@[0] == 'i',
        "has_attachments"@.len() == 15,
        "preview"@.len() == 7 && "preview"@[0] == 'p',
        "folder"@.len() == 6,
        "from"@.len() == 4,
        "to"@.len() == 2 && "to"@[0] == 't',
        "cc"@.len() == 2 && "cc"@[0] == 'c',
        "body_text"@.len() == 9 && "body_text"@[5] == 't',
        "body_pending"@.len() == 12,
        "name"@.len() == 4 && "name"@[0] == 'n',
        "content_type"@.len() == 12 && "content_type"@[0] == 'c',
        "size"@.len() == 4 && "size"@[0] == 's',
        "unread"@.len() == 6 && "unread"@[0] == 'u',
        "total"@.len() == 5,
{
    reveal_strlit("id");
    reveal_strlit("from_name");
    reveal_strlit("from_addr");
    reveal_strlit("subject");
    reveal_strlit("received");
    reveal_strlit("is_read");
    reveal_strlit("is_flagged");
    reveal_strlit("has_attachments");
    reveal_strlit("preview");
    reveal_strlit("folder");
    reveal_strlit("from");
    reveal_strlit("to");
    reveal_strlit("cc");
    reveal_strlit("body_text");
    reveal_strlit("body_pending");
    reveal_strlit("name");
    reveal_strlit("content_type");
    reveal_strlit("size");
    reveal_strlit("unread");
    reveal_strlit("total");
}

/// A folder and an attachment are told of by their own fields.
pub proof fn folders_and_attachments_are_told_of(f: FolderRow, a: AttachmentMeta)
    ensures
        ({
            let v = control::folder_entry(f);
            &&& v.text("id"@) == Some(f.id@)
            &&& v.text("name"@) == Some(f.display_name@)
            &&& v.number("unread"@) == Some(f.unread_count as int)
            &&& v.number("total"@) == Some(f.total_count as int)
        }),
        ({
            let v = control::attachment_entry(a);
            &&& v.text("id"@) == Some(a.id@)
            &&& v.text("name"@) == Some(a.name@)
            &&& v.text("content_type"@) == Some(a.content_type@)
            &&& v.number("size"@) == Some(a.size as int)
        }),
{
    lemma_message_keys();
    let e = control::folder_entry(f)->Obj_0;
    lemma_entry_at(e, 0);
    lemma_entry_at(e, 1);
    lemma_entry_at(e, 2);
    lemma_entry_at(e, 3);
    let g = control::attachment_entry(a)->Obj_0;
    lemma_entry_at(g, 0);
    lemma_entry_at(g, 1);
    lemma_entry_at(g, 2);
    lemma_entry_at(g, 3);
}

/// The status counts the folders, what is unread in all of them, and what is still
/// to be handed on.
pub proof fn the_status_counts(a: App, folders: Seq<FolderRow>, pending: int)
    ensures
        ({
            let v = control::status_of(a, folders, pending);
            &&& a.account matches Some(s) ==> v.text("account"@) == Some(s@)
            &&& v.number("folders"@) == Some(folders.len() as int)
            &&& v.number("unread_total"@) == Some(
                control::unread_in(folders, folders.len() as int),
            )
            &&& v.number("pending_ops"@) == Some(pending)
            &&& v.text("sync_state"@) == Some(control::state_name(a.status))
        }),
{
    reveal_strlit("account");
    reveal_strlit("sync_state");
    reveal_strlit("folders");
    reveal_strlit("unread_total");
    reveal_strlit("pending_ops");
    assert("account"@.len() == 7 && "account"@[0] == 'a');
    assert("sync_state"@.len() == 10);
    assert("folders"@.len() == 7 && "folders"@[0] == 'f');
    assert("unread_total"@.len() == 12);
    assert("pending_ops"@.len() == 11);
    let e = control::status_of(a, folders, pending)->Obj_0;
    lemma_entry_at(e, 0);
    lemma_entry_at(e, 1);
    lemma_entry_at(e, 2);
    lemma_entry_at(e, 3);
    lemma_entry_at(e, 4);
}

/// What is unread is counted folder by folder.
pub proof fn unread_counts_add_up(a: Seq<FolderRow>, b: Seq<FolderRow>)
    ensures
        control::unread_in(a + b, (a + b).len() as int) == control::unread_in(a, a.len() as int)
            + control::unread_in(b, b.len() as int),
        forall|f: FolderRow| #[trigger] control::unread_in(seq![f], 1) == f.unread_count,
    decreases b.len(),
{
    assert forall|f: FolderRow| #[trigger] control::unread_in(seq![f], 1) == f.unread_count by {
        assert(control::unread_in(seq![f], 0) == 0);
    }
    if b.len() > 0 {
        let c = b.drop_last();
        unread_counts_add_up(a, c);
        lemma_unread_prefix(a + b, a + c, (a + c).len() as int);
        lemma_unread_prefix(b, c, c.len() as int);
        assert((a + b)[(a + b).len() - 1] == b.last());
    } else {
        assert(a + b =~= a);
    }
}

proof fn lemma_unread_prefix(v: Seq<FolderRow>, w: Seq<FolderRow>, n: int)
    requires
        0 <= n <= w.len() <= v.len(),
        forall|i: int| 0 <= i < w.len() ==> v[i] == w[i],
    ensures
        control::unread_in(v, n) == control::unread_in(w, n),
    decreases n,
{
    if n > 0 {
        lemma_unread_prefix(v, w, n - 1);
    }
}

/// Each state of the sync engine has a name of its own.
pub proof fn states_have_their_names(n: int)
    ensures
        control::state_name(SyncState::Idle) == "idle"@,
        control::state_name(SyncState::Syncing) == "syncing"@,
        control::state_name(SyncState::Offline) == "offline"@,
        control::state_name(SyncState::SignInRequired) == "signin_required"@,
        forall|s: SyncState|
            s != SyncState::Idle && s != SyncState::Syncing && s != SyncState::Offline && s
                != SyncState::SignInRequired ==> #[trigger] control::state_name(s)
                == "pending_ops"@,
{
}

// ---------------------------------------------------------------------------
// Tools
// ---------------------------------------------------------------------------

/// Each tool asks for the verb of the same name.
pub proof fn tools_ask_for_their_verbs(name: Seq<char>)
    ensures
        mcp::verb_of("lookxy_status"@) == Some("mail.status"@),
        mcp::verb_of("lookxy_folders"@) == Some("mail.folders"@),
        mcp::verb_of("lookxy_messages"@) == Some("mail.list"@),
        mcp::verb_of("lookxy_read"@) == Some("mail.read"@),
        mcp::verb_of("lookxy_search"@) == Some("mail.search"@),
        mcp::verb_of("lookxy_mark"@) == Some("mail.mark"@),
        mcp::verb_of("lookxy_flag"@) == Some("mail.flag"@),
        mcp::verb_of("lookxy_move"@) == Some("mail.move"@),
        mcp::verb_of("lookxy_delete"@) == Some("mail.delete"@),
        mcp::verb_of("lookxy_attachments"@) == Some("mail.attachments"@),
        mcp::verb_of("lookxy_save_attachment"@) == Some("mail.save-attachment"@),
        mcp::verb_of("lookxy_select"@) == Some("mail.select"@),
        mcp::verb_of("lookxy_refresh"@) == Some("mail.refresh"@),
        mcp::verb_of(name) is Some ==> name.len() > 7 && name.take(7) == "lookxy_"@,
{
    reveal_strlit("lookxy_");
    reveal_strlit("lookxy_status");
    reveal_strlit("lookxy_folders");
    reveal_strlit("lookxy_messages");
    reveal_strlit("lookxy_read");
    reveal_strlit("lookxy_search");
    reveal_strlit("lookxy_mark");
    reveal_strlit("lookxy_flag");
    reveal_strlit("lookxy_move");
    reveal_strlit("lookxy_delete");
    reveal_strlit("lookxy_attachments");
    reveal_strlit("lookxy_save_attachment");
    reveal_strlit("lookxy_select");
    reveal_strlit("lookxy_refresh");
    assert("lookxy_status"@.len() == 13 && "lookxy_status"@[8] == 't');
    assert("lookxy_folders"@.len() == 14 && "lookxy_folders"@[7] == 'f');
    assert("lookxy_messages"@.len() == 15);
    assert("lookxy_read"@.len() == 11 && "lookxy_read"@[7] == 'r');
    assert("lookxy_search"@.len() == 13 && "lookxy_search"@[9] == 'a' && "lookxy_search"@[8] == 'e'
        && "lookxy_search"@[7] == 's');
    assert("lookxy_mark"@.len() == 11 && "lookxy_mark"@[7] == 'm' && "lookxy_mark"@[8] == 'a');
    assert("lookxy_flag"@.len() == 11 && "lookxy_flag"@[7] == 'f');
    assert("lookxy_move"@.len() == 11 && "lookxy_move"@[7] == 'm' && "lookxy_move"@[8] == 'o');
    assert("lookxy_delete"@.len() == 13 && "lookxy_delete"@[7] == 'd');
    assert("lookxy_attachments"@.len() == 18);
    assert("lookxy_save_attachment"@.len() == 22);
    assert("lookxy_select"@.len() == 13 && "lookxy_select"@[9] == 'l' && "lookxy_select"@[7] == 's');
    assert("lookxy_refresh"@.len() == 14 && "lookxy_refresh"@[7] == 'r');
    if mcp::verb_of(name) is Some {
        assert(name.take(7) =~= "lookxy_"@);
    }
}

// ---------------------------------------------------------------------------
// Settings
// ---------------------------------------------------------------------------

/// A file sets what it names, as long as it is sane, and nothing else.
pub proof fn files_set_what_they_name(s: Settings, v: Value)
    ensures
        ({
            let t = config::with_file(s, Some(v));
            &&& v.text("client_id"@) matches Some(x) ==> t.client_id == x
            &&& v.text("client_id"@) is None ==> t.client_id == s.client_id
            &&& v.number("backfill_days"@) matches Some(n) ==> (1 <= n <= i64::MAX
                ==> t.backfill_days == n) && (n < 1 ==> t.backfill_days == s.backfill_days)
            &&& v.number("backfill_days"@) is None ==> t.backfill_days == s.backfill_days
            &&& v.number("refresh_secs"@) matches Some(n) ==> (1 <= n <= i64::MAX
                ==> t.refresh_secs == n) && (n < 1 ==> t.refresh_secs == s.refresh_secs)
            &&& v.number("refresh_secs"@) is None ==> t.refresh_secs == s.refresh_secs
            &&& v.flag("threaded"@) matches Some(b) ==> t.threaded == b
            &&& v.flag("threaded"@) is None ==> t.threaded == s.threaded
            &&& v.text("signature"@) matches Some(x) ==> t.signature == x
            &&& v.text("signature"@) is None ==> t.signature == s.signature
            &&& v.flag("reminders_notify"@) matches Some(b) ==> t.reminders_notify == b
            &&& v.flag("reminders_notify"@) is None ==> t.reminders_notify == s.reminders_notify
            &&& v.flag("folder_tree_initialized"@) matches Some(b) ==> t.folder_tree_initialized == b
            &&& v.flag("folder_tree_initialized"@) is None ==> t.folder_tree_initialized
                == s.folder_tree_initialized
        }),
        config::with_file(s, None) == s,
{
}

/// The environment sets what it names, as long as it is sane; the signature, the
/// notifications and the folder tree are not its to set.
pub proof fn the_environment_sets_what_it_names(s: Settings, e: Env, days: nat, secs: nat)
    ensures
        ({
            let t = config::with_env(s, e);
            &&& e.client_id matches Some(x) ==> x@.len() > 0 ==> t.client_id == x@
            &&& e.client_id is None ==> t.client_id == s.client_id
            &&& e.backfill_days matches Some(x) ==> x@ == text::decimal(days) && 1 <= days
                <= i64::MAX ==> t.backfill_days == days
            &&& e.backfill_days is None ==> t.backfill_days == s.backfill_days
            &&& e.refresh_secs matches Some(x) ==> x@ == text::decimal(secs) && 1 <= secs
                <= u64::MAX ==> t.refresh_secs == secs
            &&& e.refresh_secs is None ==> t.refresh_secs == s.refresh_secs
            &&& e.threaded matches Some(x) ==> (x@ == "true"@ || x@ == "1"@ ==> t.threaded) && (x@
                == "false"@ || x@ == "0"@ ==> !t.threaded)
            &&& e.threaded is None ==> t.threaded == s.threaded
            &&& t.signature == s.signature
            &&& t.reminders_notify == s.reminders_notify
            &&& t.folder_tree_initialized == s.folder_tree_initialized
        }),
{
    text::lemma_decimal_len(days);
    text::lemma_decimal_value(days);
    text::lemma_decimal_len(secs);
    text::lemma_decimal_value(secs);
    assert(text::is_digit(text::decimal(days)[0]));
    reveal_strlit("true");
    reveal_strlit("false");
    reveal_strlit("1");
    reveal_strlit("0");
    assert("true"@.len() == 4 && "false"@.len() == 5 && "1"@[0] == '1' && "0"@[0] == '0' && "1"@.len()
        == 1 && "0"@.len() == 1);
    text::lemma_trim_none("true"@);
    text::lemma_trim_none("false"@);
    text::lemma_trim_none("1"@);
    text::lemma_trim_none("0"@);
    text::lemma_lowercase_none("true"@);
    text::lemma_lowercase_none("false"@);
    text::lemma_lowercase_none("1"@);
    text::lemma_lowercase_none("0"@);
}

// ---------------------------------------------------------------------------
// Arguments and places
// ---------------------------------------------------------------------------

/// `--mcp` anywhere offers the tools; `install skill` at the front installs the
/// document; anything else is the client.
pub proof fn arguments_choose_the_mode(args: Seq<String>, i: int)
    ensures
        0 <= i < args.len() && args[i]@ == "--mcp"@ ==> cli::mode_of(args) == CliMode::Mcp,
        (forall|j: int| 0 <= j < args.len() ==> (#[trigger] args[j])@ != "--mcp"@) && args.len()
            >= 2 && args[0]@ == "install"@ && args[1]@ == "skill"@ ==> cli::mode_of(args)
            == CliMode::InstallSkill,
        args.len() == 0 ==> cli::mode_of(args) == CliMode::Tui,
        cli::mode_of(args) == CliMode::Mcp ==> exists|j: int|
            0 <= j < args.len() && (#[trigger] args[j])@ == "--mcp"@,
        cli::mode_of(args) == CliMode::InstallSkill ==> args.len() >= 2 && args[0]@ == "install"@
            && args[1]@ == "skill"@,
{
}

/// Data, downloads and settings lie where the system keeps such things, each part
/// of the path parted from the next by one separator.
pub proof fn places_are_the_systems(
    base: String,
    other: Option<String>,
    profile: Option<String>,
    sep: char,
)
    requires
        base@.len() > 0,
        base@.last() != sep,
        sep == '/' || sep == '\\',
    ensures
        cli::data_dir(Some(base), other, profile, sep) == base@ + seq![sep] + "lookxy"@,
        cli::data_dir(None, Some(base), profile, sep) == base@ + seq![sep] + ".local"@ + seq![sep]
            + "share"@ + seq![sep] + "lookxy"@,
        cli::data_dir(None, None, Some(base), sep) == base@ + seq![sep] + ".local"@ + seq![sep]
            + "share"@ + seq![sep] + "lookxy"@,
        cli::downloads_of(Some(base), other, profile, sep) == base@ + seq![sep] + "Downloads"@,
        cli::downloads_of(None, Some(base), profile, sep) == base@ + seq![sep] + "Downloads"@,
        cli::downloads_of(None, None, Some(base), sep) == base@ + seq![sep] + "Downloads"@,
        cli::config_path_of(Some(base), true, sep) == Some(
            base@ + seq![sep] + "lookxy"@ + seq![sep] + "config.json"@,
        ),
        cli::config_path_of(Some(base), false, sep) == Some(
            base@ + seq![sep] + ".config"@ + seq![sep] + "lookxy"@ + seq![sep] + "config.json"@,
        ),
        cli::config_path_of(None, true, sep) is None,
{
    reveal_strlit(".local");
    reveal_strlit("share");
    reveal_strlit("lookxy");
    reveal_strlit(".config");
    reveal_strlit("config.json");
    let b = base@;
    let one = seq![sep];
    assert(b.push(sep) + "lookxy"@ =~= b + one + "lookxy"@);
    assert(b.push(sep) + "Downloads"@ =~= b + one + "Downloads"@);
    let l = b + one + ".local"@;
    assert(b.push(sep) + ".local"@ =~= l);
    assert(l.last() == ".local"@[5]);
    let m = l + one + "share"@;
    assert(l.push(sep) + "share"@ =~= m);
    assert(m.last() == "share"@[4]);
    assert(m.push(sep) + "lookxy"@ =~= m + one + "lookxy"@);
    let c = b + one + ".config"@;
    assert(b.push(sep) + ".config"@ =~= c);
    assert(c.last() == ".config"@[6]);
    let d = c + one + "lookxy"@;
    assert(c.push(sep) + "lookxy"@ =~= d);
    assert(d.last() == "lookxy"@[5]);
    assert(d.push(sep) + "config.json"@ =~= d + one + "config.json"@);
    let r = b + one + "lookxy"@;
    assert(r.last() == "lookxy"@[5]);
    assert(r.push(sep) + "config.json"@ =~= r + one + "config.json"@);
}

// ---------------------------------------------------------------------------
// The sync engine
// ---------------------------------------------------------------------------

/// An answered invitation that is open is said to be answered as it was, and
/// counts as read.
pub proof fn answered_invitations_are_noted(
    pre: App,
    post: App,
    id: String,
    kind: RsvpKind,
    offset: int,
    folder: String,
)
    requires
        sync::synced(
            pre,
            post,
            SyncEvent::MeetingResponded { message_id: id, kind },
            offset,
        ),
        pre.selected_msg == Some(id),
        pre.selected_folder == Some(folder),
    ensures
        kind == RsvpKind::Accept ==> model::text_of(post.attachment_notice) == Some(
            "Accepted the invite"@,
        ),
        kind == RsvpKind::Decline ==> model::text_of(post.attachment_notice) == Some(
            "Declined the invite"@,
        ),
        kind == RsvpKind::Tentative ==> model::text_of(post.attachment_notice) == Some(
            "Tentatively accepted the invite"@,
        ),
        post.actions@.len() == pre.actions@.len() + 3,
        post.actions@[pre.actions@.len() as int] == (Action::SetRead { id, read: true }),
        post.actions@.last() == Action::Send(SyncCommand::MarkRead { id, read: true }),
{
}

/// Each event asks for what it made stale.
pub proof fn events_ask_for_what_is_stale(
    pre: App,
    post: App,
    evt: SyncEvent,
    offset: int,
    folder: String,
)
    requires
        sync::synced(pre, post, evt, offset),
        pre.selected_folder == Some(folder),
        !pre.threaded,
    ensures
        evt matches SyncEvent::MessagesUpdated { folder_id } ==> {
            &&& folder_id@ == folder@ ==> post.actions@ == pre.actions@.push(
                Action::ReadMessages { folder, limit: 200 },
            )
            &&& folder_id@ != folder@ ==> post == pre
        },
        evt is CalendarUpdated ==> post.actions@ == pre.actions@.push(Action::ReadAgenda),
        evt is CategoriesUpdated ==> post.actions@ == pre.actions@.push(
            Action::ReadMasterCategories,
        ),
        evt is FoldersUpdated ==> post.signin_modal is None && post.error_notice is None
            && post.actions@ == pre.actions@.push(Action::ReadAccount).push(
            Action::ReadFolders,
        ).push(Action::InitFolderTree),
        evt matches SyncEvent::DraftReady { id } ==> post.actions@ == pre.actions@.push(
            Action::ReadDraft { id },
        ),
        evt matches SyncEvent::BodyReady { id } ==> {
            &&& pre.selected_msg == Some(id) ==> post.actions@ == pre.actions@.push(
                Action::ReadBody { id },
            )
            &&& pre.selected_msg is None ==> post == pre
        },
        evt matches SyncEvent::SignInStarted { authorize_url } ==> post.actions@
            == pre.actions@.push(Action::OpenUrl(authorize_url)) && post.signin_modal == Some(
            SignInModal::Started { authorize_url },
        ),
        evt is SignInRequired ==> post.signin_modal == Some(SignInModal::Required),
        evt is AutomaticRepliesUpdated ==> post.oof_form is None && post.actions == pre.actions,
{
}

/// A failure is said, and nothing waits any longer; what was waited for is shown
/// when it comes.
pub proof fn waiting_ends(pre: App, post: App, evt: SyncEvent, offset: int)
    requires
        sync::synced(pre, post, evt, offset),
    ensures
        evt matches SyncEvent::Error(msg) ==> {
            &&& post.error_notice == Some(msg)
            &&& post.oof_form matches Some(f) ==> !f.loading
            &&& post.free_busy matches Some(v) ==> !v.loading
            &&& (post.oof_form is Some) == (pre.oof_form is Some)
            &&& post.actions == pre.actions
        },
        evt matches SyncEvent::ScheduleFetched { entries } ==> pre.free_busy matches Some(v) ==> (
        post.free_busy matches Some(w) && w.entries == entries && !w.loading && w.day_label
            == v.day_label && w.slot_count == v.slot_count),
        evt matches SyncEvent::State(s) ==> {
            &&& post.status == s
            &&& s == SyncState::Idle ==> post.error_notice is None
            &&& s != SyncState::Idle ==> post.error_notice == pre.error_notice
            &&& s != SyncState::SignInRequired ==> post.signin_modal is None
            &&& s == SyncState::SignInRequired ==> post.signin_modal == pre.signin_modal
        },
{
}

}
