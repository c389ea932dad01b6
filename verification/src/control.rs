//! The control channel: an agent reads and triages the open mailbox through
//! verbs, each with arguments and a result.
//!
//! A verb is read into a `Request`. Whoever runs the client reads from the store
//! what the request is about, and hands it to the function of that verb, which
//! says what the answer is and what else is asked for.

use crate::app;
use crate::app::folders as lists;
use crate::app::names;
use crate::app::reading as messages;
use crate::app::triage;
use crate::app::{Action, App};
use crate::cli;
use crate::config;
use crate::json;
use crate::json::{Entry, Json, Value};
use crate::model;
use crate::model::{AttachmentMeta, FolderRow, MessageRow, SyncCommand, SyncState};
use crate::paths;
use crate::text;
use crate::ui::reading::StyledLine;
use vstd::prelude::*;

verus! {

/// How many messages are reported where no limit is given.
pub const DEFAULT_LIMIT: i64 = 50;

/// The width a body is wrapped to for a reader that has no screen.
pub const CONTROL_BODY_WRAP_WIDTH: usize = 100;

/// What is asked for.
#[derive(Debug, PartialEq, Eq)]
#[allow(inconsistent_fields)]
pub enum Request {
    Status,
    Folders,
    List { folder: String, limit: i64, offset: i64 },
    Read { id: String },
    Search { query: String, limit: i64 },
    Mark { id: String, read: bool },
    Flag { id: String, flagged: bool },
    Move { id: String, dest: String },
    Delete { id: String },
    Attachments { id: String },
    SaveAttachment { id: String, attachment: String, dest: Option<String> },
    Select { folder: Option<String>, id: Option<String> },
    Refresh,
}

// ---------------------------------------------------------------------------
// Reading a request
// ---------------------------------------------------------------------------

/// A count under a key, from 0 on; `default` where there is none.
pub open spec fn count_of(args: Value, key: Seq<char>, default: int) -> int {
    match args.number(key) {
        Some(n) => if 0 <= n <= i64::MAX {
            n
        } else {
            default
        },
        None => default,
    }
}

/// The request is refused, for this reason.
pub open spec fn refused(r: Result<Request, String>, why: Seq<char>) -> bool {
    r matches Err(e) && e@ == why
}

pub open spec fn is_list(
    r: Result<Request, String>,
    args: Value,
    selected: Option<Seq<char>>,
) -> bool {
    let folder = match args.text("folder"@) {
        Some(f) => Some(f),
        None => selected,
    };
    match folder {
        None => refused(
            r,
            "mail.list has no 'folder' and no folder is currently selected"@,
        ),
        Some(f) => r matches Ok(Request::List { folder, limit, offset }) && folder@ == f && limit
            == count_of(args, "limit"@, 50) && offset == count_of(args, "offset"@, 0),
    }
}

pub open spec fn is_search(r: Result<Request, String>, args: Value) -> bool {
    match args.text("query"@) {
        None => refused(r, "mail.search needs a 'query'"@),
        Some(q) => r matches Ok(Request::Search { query, limit }) && query@ == q && limit
            == count_of(args, "limit"@, 50),
    }
}

pub open spec fn is_read(r: Result<Request, String>, args: Value) -> bool {
    match args.text("id"@) {
        None => refused(r, "mail.read needs an 'id'"@),
        Some(t) => r matches Ok(Request::Read { id }) && id@ == t,
    }
}

pub open spec fn is_mark(r: Result<Request, String>, args: Value) -> bool {
    match args.text("id"@) {
        None => refused(r, "mail.mark needs an 'id'"@),
        Some(t) => match args.flag("read"@) {
            None => refused(r, "mail.mark needs a boolean 'read'"@),
            Some(b) => r matches Ok(Request::Mark { id, read }) && id@ == t && read == b,
        },
    }
}

pub open spec fn is_flag(r: Result<Request, String>, args: Value) -> bool {
    match args.text("id"@) {
        None => refused(r, "mail.flag needs an 'id'"@),
        Some(t) => match args.flag("flagged"@) {
            None => refused(r, "mail.flag needs a boolean 'flagged'"@),
            Some(b) => r matches Ok(Request::Flag { id, flagged }) && id@ == t && flagged == b,
        },
    }
}

pub open spec fn is_move(r: Result<Request, String>, args: Value) -> bool {
    match args.text("id"@) {
        None => refused(r, "mail.move needs an 'id'"@),
        Some(t) => match args.text("dest"@) {
            None => refused(r, "mail.move needs a 'dest' folder id"@),
            Some(d) => r matches Ok(Request::Move { id, dest }) && id@ == t && dest@ == d,
        },
    }
}

pub open spec fn is_delete(r: Result<Request, String>, args: Value) -> bool {
    match args.text("id"@) {
        None => refused(r, "mail.delete needs an 'id'"@),
        Some(t) => r matches Ok(Request::Delete { id }) && id@ == t,
    }
}

pub open spec fn is_attachments(r: Result<Request, String>, args: Value) -> bool {
    match args.text("id"@) {
        None => refused(r, "mail.attachments needs an 'id'"@),
        Some(t) => r matches Ok(Request::Attachments { id }) && id@ == t,
    }
}

pub open spec fn is_save(r: Result<Request, String>, args: Value) -> bool {
    match args.text("id"@) {
        None => refused(r, "mail.save-attachment needs an 'id'"@),
        Some(t) => match args.text("attachment"@) {
            None => refused(r, "mail.save-attachment needs an 'attachment'"@),
            Some(a) => r matches Ok(Request::SaveAttachment { id, attachment, dest }) && id@ == t
                && attachment@ == a && model::text_of(dest) == args.text("dest"@),
        },
    }
}

pub open spec fn is_select(r: Result<Request, String>, args: Value) -> bool {
    r matches Ok(Request::Select { folder, id }) && model::text_of(folder) == args.text("folder"@)
        && model::text_of(id) == args.text("id"@)
}

/// What a verb and its arguments ask for. `selected` is the folder that is open.
pub open spec fn is_request(
    r: Result<Request, String>,
    verb: Seq<char>,
    args: Value,
    selected: Option<Seq<char>>,
) -> bool {
    if verb == "mail.status"@ {
        r == Ok::<Request, String>(Request::Status)
    } else if verb == "mail.folders"@ {
        r == Ok::<Request, String>(Request::Folders)
    } else if verb == "mail.list"@ {
        is_list(r, args, selected)
    } else if verb == "mail.read"@ {
        is_read(r, args)
    } else if verb == "mail.search"@ {
        is_search(r, args)
    } else if verb == "mail.mark"@ {
        is_mark(r, args)
    } else if verb == "mail.flag"@ {
        is_flag(r, args)
    } else if verb == "mail.move"@ {
        is_move(r, args)
    } else if verb == "mail.delete"@ {
        is_delete(r, args)
    } else if verb == "mail.attachments"@ {
        is_attachments(r, args)
    } else if verb == "mail.save-attachment"@ {
        is_save(r, args)
    } else if verb == "mail.select"@ {
        is_select(r, args)
    } else if verb == "mail.refresh"@ {
        r == Ok::<Request, String>(Request::Refresh)
    } else {
        refused(r, "unknown verb '"@ + verb + "'"@)
    }
}

fn read_count(args: &Json, key: &str, default: i64) -> (r: i64)
    ensures
        r == count_of(args@, key@, default as int),
{
    match args.get_num(key) {
        Some(n) => {
            if 0 <= n && n <= i64::MAX as i128 {
                n as i64
            } else {
                default
            }
        },
        None => default,
    }
}

fn optional(args: &Json, key: &str) -> (r: Option<String>)
    ensures
        model::text_of(r) == args@.text(key@),
{
    match args.get_str(key) {
        Some(s) => Some(s.clone()),
        None => None,
    }
}

fn needed(args: &Json, key: &str, why: &str) -> (r: Result<String, String>)
    ensures
        match args@.text(key@) {
            Some(t) => r matches Ok(s) && s@ == t,
            None => r matches Err(e) && e@ == why@,
        },
{
    match args.get_str(key) {
        Some(s) => Ok(s.clone()),
        None => Err(why.to_string()),
    }
}

fn list_request(args: &Json, selected: &Option<String>) -> (r: Result<Request, String>)
    ensures
        is_list(r, args@, model::text_of(*selected)),
{
    let folder: String = match args.get_str("folder") {
        Some(f) => f.clone(),
        None => match selected {
            Some(f) => f.clone(),
            None => {
                return Err(
                    "mail.list has no 'folder' and no folder is currently selected".to_string(),
                );
            },
        },
    };
    let limit = read_count(args, "limit", DEFAULT_LIMIT);
    let offset = read_count(args, "offset", 0);
    Ok(Request::List { folder, limit, offset })
}

fn search_request(args: &Json) -> (r: Result<Request, String>)
    ensures
        is_search(r, args@),
{
    match needed(args, "query", "mail.search needs a 'query'") {
        Ok(query) => {
            let limit = read_count(args, "limit", DEFAULT_LIMIT);
            Ok(Request::Search { query, limit })
        },
        Err(e) => Err(e),
    }
}

fn read_request(args: &Json) -> (r: Result<Request, String>)
    ensures
        is_read(r, args@),
{
    match needed(args, "id", "mail.read needs an 'id'") {
        Ok(id) => Ok(Request::Read { id }),
        Err(e) => Err(e),
    }
}

fn mark_request(args: &Json) -> (r: Result<Request, String>)
    ensures
        is_mark(r, args@),
{
    match needed(args, "id", "mail.mark needs an 'id'") {
        Ok(id) => match args.get_bool("read") {
            Some(read) => Ok(Request::Mark { id, read }),
            None => Err("mail.mark needs a boolean 'read'".to_string()),
        },
        Err(e) => Err(e),
    }
}

fn flag_request(args: &Json) -> (r: Result<Request, String>)
    ensures
        is_flag(r, args@),
{
    match needed(args, "id", "mail.flag needs an 'id'") {
        Ok(id) => match args.get_bool("flagged") {
            Some(flagged) => Ok(Request::Flag { id, flagged }),
            None => Err("mail.flag needs a boolean 'flagged'".to_string()),
        },
        Err(e) => Err(e),
    }
}

fn move_request(args: &Json) -> (r: Result<Request, String>)
    ensures
        is_move(r, args@),
{
    match needed(args, "id", "mail.move needs an 'id'") {
        Ok(id) => match needed(args, "dest", "mail.move needs a 'dest' folder id") {
            Ok(dest) => Ok(Request::Move { id, dest }),
            Err(e) => Err(e),
        },
        Err(e) => Err(e),
    }
}

fn delete_request(args: &Json) -> (r: Result<Request, String>)
    ensures
        is_delete(r, args@),
{
    match needed(args, "id", "mail.delete needs an 'id'") {
        Ok(id) => Ok(Request::Delete { id }),
        Err(e) => Err(e),
    }
}

fn attachments_request(args: &Json) -> (r: Result<Request, String>)
    ensures
        is_attachments(r, args@),
{
    match needed(args, "id", "mail.attachments needs an 'id'") {
        Ok(id) => Ok(Request::Attachments { id }),
        Err(e) => Err(e),
    }
}

fn save_request(args: &Json) -> (r: Result<Request, String>)
    ensures
        is_save(r, args@),
{
    match needed(args, "id", "mail.save-attachment needs an 'id'") {
        Ok(id) => match needed(
            args,
            "attachment",
            "mail.save-attachment needs an 'attachment'",
        ) {
            Ok(attachment) => {
                let dest = optional(args, "dest");
                Ok(Request::SaveAttachment { id, attachment, dest })
            },
            Err(e) => Err(e),
        },
        Err(e) => Err(e),
    }
}

/// Reads a verb and its arguments. `selected` is the folder that is open.
pub fn request(verb: &str, args: &Json, selected: &Option<String>) -> (r: Result<Request, String>)
    ensures
        is_request(r, verb@, args@, model::text_of(*selected)),
{
    if text::same(verb, "mail.status") {
        Ok(Request::Status)
    } else if text::same(verb, "mail.folders") {
        Ok(Request::Folders)
    } else if text::same(verb, "mail.list") {
        list_request(args, selected)
    } else if text::same(verb, "mail.read") {
        read_request(args)
    } else if text::same(verb, "mail.search") {
        search_request(args)
    } else if text::same(verb, "mail.mark") {
        mark_request(args)
    } else if text::same(verb, "mail.flag") {
        flag_request(args)
    } else if text::same(verb, "mail.move") {
        move_request(args)
    } else if text::same(verb, "mail.delete") {
        delete_request(args)
    } else if text::same(verb, "mail.attachments") {
        attachments_request(args)
    } else if text::same(verb, "mail.save-attachment") {
        save_request(args)
    } else if text::same(verb, "mail.select") {
        let folder = optional(args, "folder");
        let id = optional(args, "id");
        Ok(Request::Select { folder, id })
    } else if text::same(verb, "mail.refresh") {
        Ok(Request::Refresh)
    } else {
        let mut e: String = "unknown verb '".to_string();
        e.append(verb);
        e.append("'");
        Err(e)
    }
}

/// A verb that changes the mailbox.
pub open spec fn is_triage(verb: Seq<char>) -> bool {
    ||| verb == "mail.mark"@
    ||| verb == "mail.flag"@
    ||| verb == "mail.move"@
    ||| verb == "mail.delete"@
    ||| verb == "mail.save-attachment"@
}

/// Whether carrying out this verb is to be shown to whoever watches.
pub fn signals_activity(verb: &str) -> (r: bool)
    ensures
        r == is_triage(verb@),
{
    text::same(verb, "mail.mark") || text::same(verb, "mail.flag") || text::same(verb, "mail.move")
        || text::same(verb, "mail.delete") || text::same(verb, "mail.save-attachment")
}

// ---------------------------------------------------------------------------
// Answers to what only reads
// ---------------------------------------------------------------------------

pub open spec fn state_name(s: SyncState) -> Seq<char> {
    match s {
        SyncState::Idle => "idle"@,
        SyncState::Syncing => "syncing"@,
        SyncState::Offline => "offline"@,
        SyncState::PendingOps(_) => "pending_ops"@,
        SyncState::SignInRequired => "signin_required"@,
    }
}

/// How a sync state is reported.
pub fn sync_state_str(s: SyncState) -> (r: &'static str)
    ensures
        r@ == state_name(s),
{
    match s {
        SyncState::Idle => "idle",
        SyncState::Syncing => "syncing",
        SyncState::Offline => "offline",
        SyncState::PendingOps(_) => "pending_ops",
        SyncState::SignInRequired => "signin_required",
    }
}

/// The unread messages of the first `n` folders.
pub open spec fn unread_in(v: Seq<FolderRow>, n: int) -> int
    decreases n,
{
    if n <= 0 {
        0
    } else {
        unread_in(v, n - 1) + v[n - 1].unread_count
    }
}

pub open spec fn text_entry(key: Seq<char>, t: Option<Seq<char>>) -> Seq<Entry> {
    match t {
        Some(s) => seq![json::entry(key, Value::Str(s))],
        None => Seq::empty(),
    }
}

/// The folder and the message that are open.
pub open spec fn selection(a: App) -> Seq<Entry> {
    text_entry("selected_folder"@, model::text_of(a.selected_folder)) + text_entry(
        "selected_message"@,
        model::text_of(a.selected_msg),
    )
}

pub open spec fn status_of(a: App, folders: Seq<FolderRow>, pending: int) -> Value {
    Value::Obj(
        seq![
            json::entry(
                "account"@,
                match a.account {
                    Some(s) => Value::Str(s@),
                    None => Value::Null,
                },
            ),
            json::entry("sync_state"@, Value::Str(state_name(a.status))),
            json::entry("folders"@, Value::Num(folders.len() as int)),
            json::entry("unread_total"@, Value::Num(unread_in(folders, folders.len() as int))),
            json::entry("pending_ops"@, Value::Num(pending)),
        ] + selection(a),
    )
}

fn unread_total(v: &Vec<FolderRow>) -> (r: i128)
    ensures
        r == unread_in(v@, v@.len() as int),
{
    let mut sum: i128 = 0;
    let mut i: usize = 0;
    while i < v.len()
        invariant
            i <= v@.len(),
            sum == unread_in(v@, i as int),
            -0x8000_0000_0000_0000 * i <= sum <= 0x8000_0000_0000_0000 * i,
        decreases v@.len() - i,
    {
        sum = sum + v[i].unread_count as i128;
        i += 1;
    }
    sum
}

fn put_selection(v: &mut Vec<(String, Json)>, app: &App)
    ensures
        json::entries(final(v)@) == json::entries(old(v)@) + selection(*app),
{
    let ghost before = json::entries(v@);
    if let Some(f) = &app.selected_folder {
        json::put(v, "selected_folder", Json::text(f.as_str()));
    }
    if let Some(m) = &app.selected_msg {
        json::put(v, "selected_message", Json::text(m.as_str()));
    }
    assert(json::entries(v@) =~= before + selection(*app));
}

/// The account, the sync state, the folder and unread counts, and what is open.
/// `pending` is how many changes wait to be carried on.
pub fn status(app: &App, folders: &Vec<FolderRow>, pending: usize) -> (r: Json)
    ensures
        r@ == status_of(*app, folders@, pending as int),
{
    let mut f = json::no_entries();
    let account: Json = match &app.account {
        Some(s) => Json::text(s.as_str()),
        None => Json::Null,
    };
    json::put(&mut f, "account", account);
    json::put(&mut f, "sync_state", Json::text(sync_state_str(app.status)));
    json::put(&mut f, "folders", Json::Num(folders.len() as i128));
    json::put(&mut f, "unread_total", Json::Num(unread_total(folders)));
    json::put(&mut f, "pending_ops", Json::Num(pending as i128));
    put_selection(&mut f, app);
    let r = Json::object(f);
    assert(r@->Obj_0 =~= status_of(*app, folders@, pending as int)->Obj_0);
    r
}

pub open spec fn folder_entry(f: FolderRow) -> Value {
    Value::Obj(
        seq![
            json::entry("id"@, Value::Str(f.id@)),
            json::entry("name"@, Value::Str(f.display_name@)),
            json::entry("unread"@, Value::Num(f.unread_count as int)),
            json::entry("total"@, Value::Num(f.total_count as int)),
        ] + text_entry("well_known"@, model::text_of(f.well_known_name)),
    )
}

fn folder_json(row: &FolderRow) -> (r: Json)
    ensures
        r@ == folder_entry(*row),
{
    let mut f = json::no_entries();
    json::put(&mut f, "id", Json::text(row.id.as_str()));
    json::put(&mut f, "name", Json::text(row.display_name.as_str()));
    json::put(&mut f, "unread", Json::Num(row.unread_count as i128));
    json::put(&mut f, "total", Json::Num(row.total_count as i128));
    if let Some(wk) = &row.well_known_name {
        json::put(&mut f, "well_known", Json::text(wk.as_str()));
    }
    let r = Json::object(f);
    assert(r@->Obj_0 =~= folder_entry(*row)->Obj_0);
    r
}

/// The folders.
pub fn folders(rows: &Vec<FolderRow>) -> (r: Json)
    ensures
        r@ == Value::Obj(
            seq![
                json::entry(
                    "folders"@,
                    Value::Arr(rows@.map_values(|f: FolderRow| folder_entry(f))),
                ),
            ],
        ),
{
    let ghost want = rows@.map_values(|f: FolderRow| folder_entry(f));
    let mut v: Vec<Json> = Vec::new();
    let mut i: usize = 0;
    while i < rows.len()
        invariant
            i <= rows@.len(),
            want == rows@.map_values(|f: FolderRow| folder_entry(f)),
            json::values(v@) =~= want.take(i as int),
        decreases rows@.len() - i,
    {
        let ghost before = v@;
        v.push(folder_json(&rows[i]));
        assert(json::values(v@) =~= json::values(before).push(v@.last()@));
        i += 1;
        assert(json::values(v@) =~= want.take(i as int));
    }
    assert(want.take(i as int) =~= want);
    one_entry("folders", Json::array(v))
}

fn one_entry(key: &str, value: Json) -> (r: Json)
    ensures
        r@ == Value::Obj(seq![json::entry(key@, value@)]),
{
    let mut f = json::no_entries();
    json::put(&mut f, key, value);
    let r = Json::object(f);
    assert(r@->Obj_0 =~= seq![json::entry(key@, value@)]);
    r
}

fn two_entries(k0: &str, v0: Json, k1: &str, v1: Json) -> (r: Json)
    ensures
        r@ == Value::Obj(seq![json::entry(k0@, v0@), json::entry(k1@, v1@)]),
{
    let mut f = json::no_entries();
    json::put(&mut f, k0, v0);
    json::put(&mut f, k1, v1);
    let r = Json::object(f);
    assert(r@->Obj_0 =~= seq![json::entry(k0@, v0@), json::entry(k1@, v1@)]);
    r
}

/// How a message is listed.
pub open spec fn summary_of(m: MessageRow) -> Value {
    Value::Obj(
        seq![
            json::entry("id"@, Value::Str(m.id@)),
            json::entry("from_name"@, Value::Str(m.from_name@)),
            json::entry("from_addr"@, Value::Str(m.from_addr@)),
            json::entry("subject"@, Value::Str(m.subject@)),
            json::entry("received"@, Value::Str(m.received_at@)),
            json::entry("is_read"@, Value::Bool(m.is_read)),
            json::entry("is_flagged"@, Value::Bool(m.is_flagged)),
            json::entry("has_attachments"@, Value::Bool(m.has_attachments)),
            json::entry("preview"@, Value::Str(m.preview@)),
        ],
    )
}

/// A message as it is listed.
pub fn message_summary(m: &MessageRow) -> (r: Json)
    ensures
        r@ == summary_of(*m),
{
    let mut f = json::no_entries();
    json::put(&mut f, "id", Json::text(m.id.as_str()));
    json::put(&mut f, "from_name", Json::text(m.from_name.as_str()));
    json::put(&mut f, "from_addr", Json::text(m.from_addr.as_str()));
    json::put(&mut f, "subject", Json::text(m.subject.as_str()));
    json::put(&mut f, "received", Json::text(m.received_at.as_str()));
    json::put(&mut f, "is_read", Json::Bool(m.is_read));
    json::put(&mut f, "is_flagged", Json::Bool(m.is_flagged));
    json::put(&mut f, "has_attachments", Json::Bool(m.has_attachments));
    json::put(&mut f, "preview", Json::text(m.preview.as_str()));
    let r = Json::object(f);
    assert(r@->Obj_0 =~= summary_of(*m)->Obj_0);
    r
}

pub open spec fn summaries(rows: Seq<MessageRow>) -> Value {
    Value::Arr(rows.map_values(|m: MessageRow| summary_of(m)))
}

fn message_summaries(rows: &Vec<MessageRow>) -> (r: Json)
    ensures
        r@ == summaries(rows@),
{
    let ghost want = rows@.map_values(|m: MessageRow| summary_of(m));
    let mut v: Vec<Json> = Vec::new();
    let mut i: usize = 0;
    while i < rows.len()
        invariant
            i <= rows@.len(),
            want == rows@.map_values(|m: MessageRow| summary_of(m)),
            json::values(v@) =~= want.take(i as int),
        decreases rows@.len() - i,
    {
        let ghost before = v@;
        v.push(message_summary(&rows[i]));
        assert(json::values(v@) =~= json::values(before).push(v@.last()@));
        i += 1;
        assert(json::values(v@) =~= want.take(i as int));
    }
    assert(want.take(i as int) =~= want);
    Json::array(v)
}

/// Where a folder stands, or the number of folders where it is not among them.
pub open spec fn folder_at(v: Seq<FolderRow>, id: Seq<char>) -> int
    decreases v.len(),
{
    if v.len() == 0 || v[0].id@ == id {
        0
    } else {
        1 + folder_at(v.skip(1), id)
    }
}

fn find_folder(v: &Vec<FolderRow>, id: &String) -> (r: usize)
    ensures
        r == folder_at(v@, id@),
        r <= v@.len(),
{
    let mut i: usize = 0;
    assert(v@.skip(0) =~= v@);
    while i < v.len()
        invariant
            i <= v@.len(),
            folder_at(v@, id@) == i + folder_at(v@.skip(i as int), id@),
        decreases v@.len() - i,
    {
        if v[i].id == *id {
            return i;
        }
        assert(v@.skip(i as int).skip(1) =~= v@.skip(i + 1));
        i += 1;
    }
    i
}

/// A page of a folder: `total` is how many messages the folder has, or, where it
/// is not known, how many the page has.
pub open spec fn list_of(
    folder: Seq<char>,
    rows: Seq<MessageRow>,
    folders: Seq<FolderRow>,
) -> Value {
    let i = folder_at(folders, folder);
    Value::Obj(
        seq![
            json::entry("folder"@, Value::Str(folder)),
            json::entry(
                "total"@,
                Value::Num(
                    if i < folders.len() {
                        folders[i].total_count as int
                    } else {
                        rows.len() as int
                    },
                ),
            ),
            json::entry("messages"@, summaries(rows)),
        ],
    )
}

/// A page of a folder's messages.
pub fn list(folder: &String, rows: &Vec<MessageRow>, folders: &Vec<FolderRow>) -> (r: Json)
    ensures
        r@ == list_of(folder@, rows@, folders@),
{
    let i = find_folder(folders, folder);
    let total: i128 = if i < folders.len() {
        folders[i].total_count as i128
    } else {
        rows.len() as i128
    };
    let mut f = json::no_entries();
    json::put(&mut f, "folder", Json::text(folder.as_str()));
    json::put(&mut f, "total", Json::Num(total));
    json::put(&mut f, "messages", message_summaries(rows));
    let r = Json::object(f);
    assert(r@->Obj_0 =~= list_of(folder@, rows@, folders@)->Obj_0);
    r
}

/// The messages that a search found.
pub fn search(query: &String, rows: &Vec<MessageRow>) -> (r: Json)
    ensures
        r@ == Value::Obj(
            seq![
                json::entry("query"@, Value::Str(query@)),
                json::entry("count"@, Value::Num(rows@.len() as int)),
                json::entry("messages"@, summaries(rows@)),
            ],
        ),
{
    let mut f = json::no_entries();
    json::put(&mut f, "query", Json::text(query.as_str()));
    json::put(&mut f, "count", Json::Num(rows.len() as i128));
    json::put(&mut f, "messages", message_summaries(rows));
    let r = Json::object(f);
    assert(r@->Obj_0 =~= seq![
        json::entry("query"@, Value::Str(query@)),
        json::entry("count"@, Value::Num(rows@.len() as int)),
        json::entry("messages"@, summaries(rows@)),
    ]);
    r
}

// ---------------------------------------------------------------------------
// Reading a message
// ---------------------------------------------------------------------------

/// The first `n` spans of a row, one after the other.
pub open spec fn span_text(l: StyledLine, n: int) -> Seq<char>
    decreases n,
{
    if n <= 0 {
        Seq::empty()
    } else {
        span_text(l, n - 1) + l.spans@[n - 1].text@
    }
}

/// A row of a body as plain text, `unit` columns in per level.
pub open spec fn plain_row(l: StyledLine, unit: int) -> Seq<char> {
    text::spaces(l.indent * unit) + span_text(l, l.spans@.len() as int)
}

/// The first `n` rows of a body, with a line break between them.
pub open spec fn plain_body(v: Seq<StyledLine>, n: int, unit: int) -> Seq<char>
    decreases n,
{
    if n <= 0 {
        Seq::empty()
    } else if n == 1 {
        plain_row(v[0], unit)
    } else {
        plain_body(v, n - 1, unit) + "\n"@ + plain_row(v[n - 1], unit)
    }
}

fn push_row(s: &mut String, l: &StyledLine, unit: u16)
    ensures
        final(s)@ == old(s)@ + plain_row(*l, unit as int),
{
    let ghost before = s@;
    assert(l.indent * unit <= 0xffff * 0xffff) by (nonlinear_arith)
        requires
            l.indent <= 0xffff,
            unit <= 0xffff,
    ;
    let n: u32 = l.indent as u32 * unit as u32;
    text::push_spaces(s, n as usize);
    let ghost start = s@;
    let mut i: usize = 0;
    assert(start + span_text(*l, 0) =~= start);
    while i < l.spans.len()
        invariant
            i <= l.spans@.len(),
            s@ == start + span_text(*l, i as int),
        decreases l.spans@.len() - i,
    {
        s.append(l.spans[i].text.as_str());
        i += 1;
        assert(s@ =~= start + span_text(*l, i as int));
    }
    assert(s@ =~= before + plain_row(*l, unit as int));
}

/// A laid-out body as plain text, `unit` columns per level of indent.
pub fn render_body_plain(lines: &Vec<StyledLine>, unit: u16) -> (r: String)
    ensures
        r@ == plain_body(lines@, lines@.len() as int, unit as int),
{
    let mut s: String = String::new();
    let mut i: usize = 0;
    assert(s@ =~= plain_body(lines@, 0, unit as int));
    while i < lines.len()
        invariant
            i <= lines@.len(),
            s@ == plain_body(lines@, i as int, unit as int),
        decreases lines@.len() - i,
    {
        if i > 0 {
            s.append("\n");
        }
        push_row(&mut s, &lines[i], unit);
        i += 1;
        assert(s@ =~= plain_body(lines@, i as int, unit as int));
    }
    s
}

/// What is known of a message.
pub open spec fn message_of(m: MessageRow) -> Seq<Entry> {
    seq![
        json::entry("id"@, Value::Str(m.id@)),
        json::entry("folder"@, Value::Str(m.folder_id@)),
        json::entry("subject"@, Value::Str(m.subject@)),
        json::entry("from"@, Value::Str(m.from_name@ + " <"@ + m.from_addr@ + ">"@)),
        json::entry("to"@, Value::Str(m.to_recipients@)),
        json::entry("cc"@, Value::Str(m.cc_recipients@)),
        json::entry("received"@, Value::Str(m.received_at@)),
        json::entry("is_read"@, Value::Bool(m.is_read)),
        json::entry("is_flagged"@, Value::Bool(m.is_flagged)),
        json::entry("has_attachments"@, Value::Bool(m.has_attachments)),
    ]
}

/// The body; a body that is not there yet is still to come.
pub open spec fn body_of(body: Option<Seq<char>>) -> Seq<Entry> {
    match body {
        Some(t) => seq![json::entry("body_text"@, Value::Str(t))],
        None => seq![
            json::entry("body_text"@, Value::Str(Seq::empty())),
            json::entry("body_pending"@, Value::Bool(true)),
        ],
    }
}

fn message_entries(m: &MessageRow) -> (r: Vec<(String, Json)>)
    ensures
        json::entries(r@) == message_of(*m),
{
    let mut from: String = m.from_name.clone();
    from.append(" <");
    from.append(m.from_addr.as_str());
    from.append(">");
    let mut f = json::no_entries();
    json::put(&mut f, "id", Json::text(m.id.as_str()));
    json::put(&mut f, "folder", Json::text(m.folder_id.as_str()));
    json::put(&mut f, "subject", Json::text(m.subject.as_str()));
    json::put(&mut f, "from", Json::text(from.as_str()));
    json::put(&mut f, "to", Json::text(m.to_recipients.as_str()));
    json::put(&mut f, "cc", Json::text(m.cc_recipients.as_str()));
    json::put(&mut f, "received", Json::text(m.received_at.as_str()));
    json::put(&mut f, "is_read", Json::Bool(m.is_read));
    json::put(&mut f, "is_flagged", Json::Bool(m.is_flagged));
    json::put(&mut f, "has_attachments", Json::Bool(m.has_attachments));
    assert(json::entries(f@) =~= message_of(*m));
    f
}

/// A message and its body. A body that is not there yet is fetched. `row` is the
/// message with this id, if there is one.
pub fn read(app: &mut App, id: &String, row: Option<&MessageRow>, body: Option<String>) -> (r: Result<
    Json,
    String,
>)
    ensures
        match row {
            Some(m) => {
                &&& r matches Ok(j) && j@ == Value::Obj(
                    message_of(*m) + body_of(model::text_of(body)),
                )
                &&& if body is Some {
                    *final(app) == *old(app)
                } else {
                    app::emitted(
                        *old(app),
                        *final(app),
                        seq![Action::Send(SyncCommand::FetchBody { id: *id })],
                    )
                }
            },
            None => {
                &&& r matches Err(e) && e@ == "no such message '"@ + id@ + "'"@
                &&& *final(app) == *old(app)
            },
        },
{
    let m = match row {
        Some(m) => m,
        None => {
            let mut e: String = "no such message '".to_string();
            e.append(id.as_str());
            e.append("'");
            return Err(e);
        },
    };
    let mut f = message_entries(m);
    let ghost want = message_of(*m) + body_of(model::text_of(body));
    match body {
        Some(t) => {
            json::put(&mut f, "body_text", Json::Str(t));
        },
        None => {
            let none: String = String::new();
            assert(none@ =~= Seq::<char>::empty());
            json::put(&mut f, "body_text", Json::Str(none));
            json::put(&mut f, "body_pending", Json::Bool(true));
            app.send(SyncCommand::FetchBody { id: id.clone() });
        },
    }
    assert(json::entries(f@) =~= want);
    Ok(Json::object(f))
}

// ---------------------------------------------------------------------------
// Triage: the store is written at once, the list asked for again, and the
// change handed on, for the message that the arguments name
// ---------------------------------------------------------------------------

pub open spec fn answer(k0: Seq<char>, v0: Value, k1: Seq<char>, v1: Value) -> Value {
    Value::Obj(seq![json::entry(k0, v0), json::entry(k1, v1)])
}

/// Marks a message read or unread.
pub fn mark(app: &mut App, id: &String, read: bool) -> (r: Json)
    ensures
        triage::asked_around(
            *old(app),
            *final(app),
            seq![Action::SetRead { id: *id, read }],
            seq![Action::Send(SyncCommand::MarkRead { id: *id, read })],
        ),
        r@ == answer("id"@, Value::Str(id@), "is_read"@, Value::Bool(read)),
        old(app).rows_in_step() ==> final(app).rows_in_step(),
{
    app.emit(Action::SetRead { id: id.clone(), read });
    let ghost a = *app;
    app.reload_messages();
    let ghost b = *app;
    app.send(SyncCommand::MarkRead { id: id.clone(), read });
    assert(lists::messages_asked(a, b));
    two_entries("id", Json::text(id.as_str()), "is_read", Json::Bool(read))
}

/// Flags a message, or no longer.
pub fn flag(app: &mut App, id: &String, flagged: bool) -> (r: Json)
    ensures
        triage::asked_around(
            *old(app),
            *final(app),
            seq![Action::SetFlag { id: *id, flagged }],
            seq![Action::Send(SyncCommand::SetFlag { id: *id, flagged })],
        ),
        r@ == answer("id"@, Value::Str(id@), "is_flagged"@, Value::Bool(flagged)),
        old(app).rows_in_step() ==> final(app).rows_in_step(),
{
    app.emit(Action::SetFlag { id: id.clone(), flagged });
    let ghost a = *app;
    app.reload_messages();
    let ghost b = *app;
    app.send(SyncCommand::SetFlag { id: id.clone(), flagged });
    assert(lists::messages_asked(a, b));
    two_entries("id", Json::text(id.as_str()), "is_flagged", Json::Bool(flagged))
}

/// A message has been moved in the store, or could not be.
pub fn move_msg(app: &mut App, id: &String, dest: &String, moved: Result<(), String>) -> (r: Result<
    Json,
    String,
>)
    ensures
        match moved {
            Ok(_) => {
                &&& triage::asked_around(
                    *old(app),
                    *final(app),
                    Seq::empty(),
                    seq![Action::Send(SyncCommand::Move { id: *id, dest: *dest })],
                )
                &&& r matches Ok(j) && j@ == answer(
                    "id"@,
                    Value::Str(id@),
                    "folder"@,
                    Value::Str(dest@),
                )
            },
            Err(why) => r == Err::<Json, String>(why) && *final(app) == *old(app),
        },
        old(app).rows_in_step() ==> final(app).rows_in_step(),
{
    match moved {
        Ok(_) => {
            let ghost a = *app;
            assert(app::emitted(*old(app), a, Seq::empty()));
            app.reload_messages();
            let ghost b = *app;
            app.send(SyncCommand::Move { id: id.clone(), dest: dest.clone() });
            assert(lists::messages_asked(a, b));
            Ok(two_entries("id", Json::text(id.as_str()), "folder", Json::text(dest.as_str())))
        },
        Err(why) => Err(why),
    }
}

/// A message has been deleted from the store, or could not be.
pub fn delete(app: &mut App, id: &String, deleted: Result<(), String>) -> (r: Result<Json, String>)
    ensures
        match deleted {
            Ok(_) => {
                &&& triage::asked_around(
                    *old(app),
                    *final(app),
                    Seq::empty(),
                    seq![Action::Send(SyncCommand::Delete { id: *id })],
                )
                &&& r matches Ok(j) && j@ == answer(
                    "id"@,
                    Value::Str(id@),
                    "deleted"@,
                    Value::Bool(true),
                )
            },
            Err(why) => r == Err::<Json, String>(why) && *final(app) == *old(app),
        },
        old(app).rows_in_step() ==> final(app).rows_in_step(),
{
    match deleted {
        Ok(_) => {
            let ghost a = *app;
            assert(app::emitted(*old(app), a, Seq::empty()));
            app.reload_messages();
            let ghost b = *app;
            app.send(SyncCommand::Delete { id: id.clone() });
            assert(lists::messages_asked(a, b));
            Ok(two_entries("id", Json::text(id.as_str()), "deleted", Json::Bool(true)))
        },
        Err(why) => Err(why),
    }
}

// ---------------------------------------------------------------------------
// Attachments
// ---------------------------------------------------------------------------

pub open spec fn attachment_entry(a: AttachmentMeta) -> Value {
    Value::Obj(
        seq![
            json::entry("id"@, Value::Str(a.id@)),
            json::entry("name"@, Value::Str(a.name@)),
            json::entry("content_type"@, Value::Str(a.content_type@)),
            json::entry("size"@, Value::Num(a.size as int)),
        ],
    )
}

fn attachment_json(a: &AttachmentMeta) -> (r: Json)
    ensures
        r@ == attachment_entry(*a),
{
    let mut f = json::no_entries();
    json::put(&mut f, "id", Json::text(a.id.as_str()));
    json::put(&mut f, "name", Json::text(a.name.as_str()));
    json::put(&mut f, "content_type", Json::text(a.content_type.as_str()));
    json::put(&mut f, "size", Json::Num(a.size as i128));
    let r = Json::object(f);
    assert(r@->Obj_0 =~= attachment_entry(*a)->Obj_0);
    r
}

fn attachment_list(items: &Vec<AttachmentMeta>) -> (r: Json)
    ensures
        r@ == Value::Arr(items@.map_values(|a: AttachmentMeta| attachment_entry(a))),
{
    let ghost want = items@.map_values(|a: AttachmentMeta| attachment_entry(a));
    let mut v: Vec<Json> = Vec::new();
    let mut i: usize = 0;
    while i < items.len()
        invariant
            i <= items@.len(),
            want == items@.map_values(|a: AttachmentMeta| attachment_entry(a)),
            json::values(v@) =~= want.take(i as int),
        decreases items@.len() - i,
    {
        let ghost before = v@;
        v.push(attachment_json(&items[i]));
        assert(json::values(v@) =~= json::values(before).push(v@.last()@));
        i += 1;
        assert(json::values(v@) =~= want.take(i as int));
    }
    assert(want.take(i as int) =~= want);
    Json::array(v)
}

/// A message's attachments, as the store has them. Where it has none though the
/// message has attachments, they are fetched.
pub fn attachments(
    app: &mut App,
    id: &String,
    items: &Vec<AttachmentMeta>,
    row: Option<&MessageRow>,
) -> (r: Json)
    ensures
        if items@.len() == 0 && row is Some && row.unwrap().has_attachments {
            app::emitted(
                *old(app),
                *final(app),
                seq![Action::Send(SyncCommand::FetchAttachments { message_id: *id })],
            )
        } else {
            *final(app) == *old(app)
        },
        r@ == answer(
            "id"@,
            Value::Str(id@),
            "attachments"@,
            Value::Arr(items@.map_values(|a: AttachmentMeta| attachment_entry(a))),
        ),
{
    if items.len() == 0 {
        if let Some(m) = row {
            if m.has_attachments {
                app.send(SyncCommand::FetchAttachments { message_id: id.clone() });
            }
        }
    }
    two_entries("id", Json::text(id.as_str()), "attachments", attachment_list(items))
}

/// A path directly below the downloads, named after a part of `dest`.
pub open spec fn is_confined(
    to: Seq<char>,
    downloads: Seq<char>,
    sep: char,
    dest: Seq<char>,
) -> bool {
    exists|name: Seq<char>|
        paths::is_part(name, dest) && to == cli::below(
            downloads,
            #[trigger] names::safe_name(name),
            sep,
        )
}

/// Where a file goes for which a caller names the destination `dest`: directly
/// below the downloads; under the last name of `dest`, made safe, where it has
/// one, and under a name of its own where it has none.
pub open spec fn is_destination(
    to: Seq<char>,
    downloads: Seq<char>,
    sep: char,
    dest: Seq<char>,
) -> bool {
    &&& is_confined(to, downloads, sep, dest)
    &&& paths::is_plain(dest) ==> to == cli::below(
        downloads,
        names::safe_name(config::or(paths::last_name(dest), Seq::empty())),
        sep,
    )
}

/// Where a file goes that is to be saved under `component`: into the downloads
/// directory, under a safe name.
pub fn download_path(downloads: &str, sep: char, component: &str) -> (r: String)
    ensures
        r@ == cli::below(downloads@, names::safe_name(component@), sep),
{
    cli::join(downloads, names::sanitize_filename(component).as_str(), sep)
}

/// Where an attachment goes that a caller names a destination for: the last
/// component of that, made safe, in the downloads directory.
pub fn resolve_explicit_dest(downloads: &str, sep: char, dest: &str) -> (r: String)
    ensures
        is_destination(r@, downloads@, sep, dest@),
{
    match paths::last_component(dest) {
        Some(name) => download_path(downloads, sep, name.as_str()),
        None => {
            proof {
                reveal_strlit("");
                assert(dest@.subrange(0, 0) =~= ""@);
                assert(""@ =~= Seq::<char>::empty());
            }
            download_path(downloads, sep, "")
        },
    }
}

/// Where an attachment stands, or the number of attachments where it is not
/// among them.
pub open spec fn attachment_at(v: Seq<AttachmentMeta>, id: Seq<char>) -> int
    decreases v.len(),
{
    if v.len() == 0 || v[0].id@ == id {
        0
    } else {
        1 + attachment_at(v.skip(1), id)
    }
}

fn find_attachment(v: &Vec<AttachmentMeta>, id: &String) -> (r: usize)
    ensures
        r == attachment_at(v@, id@),
        r <= v@.len(),
{
    let mut i: usize = 0;
    assert(v@.skip(0) =~= v@);
    while i < v.len()
        invariant
            i <= v@.len(),
            attachment_at(v@, id@) == i + attachment_at(v@.skip(i as int), id@),
        decreases v@.len() - i,
    {
        if v[i].id == *id {
            return i;
        }
        assert(v@.skip(i as int).skip(1) =~= v@.skip(i + 1));
        i += 1;
    }
    i
}

pub open spec fn save_to(id: String, attachment: String, dest: String) -> Action {
    Action::Send(SyncCommand::SaveAttachment { message_id: id, attachment_id: attachment, dest })
}

/// The save to `dest` is handed on, and the answer says so.
pub open spec fn save_queued(
    pre: App,
    post: App,
    r: Result<Json, String>,
    id: String,
    attachment: String,
    dest: Seq<char>,
) -> bool {
    exists|d: String|
        {
            &&& d@ == dest
            &&& app::emitted(pre, post, seq![#[trigger] save_to(id, attachment, d)])
            &&& r matches Ok(j) && j@ == answer(
                "queued"@,
                Value::Bool(true),
                "dest"@,
                Value::Str(dest),
            )
        }
}

/// Saves an attachment among the downloads: under the name that is asked for, or
/// else under its own. `items` is what the store has of the message's
/// attachments.
pub fn save_attachment(
    app: &mut App,
    id: &String,
    attachment: &String,
    dest: &Option<String>,
    items: &Vec<AttachmentMeta>,
) -> (r: Result<Json, String>)
    ensures
        match *dest {
            Some(named) => exists|to: Seq<char>|
                is_destination(
                    to,
                    old(app).downloads@,
                    old(app).separator,
                    named@,
                ) && #[trigger] save_queued(
                    *old(app),
                    *final(app),
                    r,
                    *id,
                    *attachment,
                    to,
                ),
            None => {
                let i = attachment_at(items@, attachment@);
                if i < items@.len() {
                    save_queued(
                        *old(app),
                        *final(app),
                        r,
                        *id,
                        *attachment,
                        cli::below(
                            old(app).downloads@,
                            names::safe_name(items@[i].name@),
                            old(app).separator,
                        ),
                    )
                } else {
                    &&& r matches Err(e) && e@ == "no attachment '"@ + attachment@
                        + "' on message '"@ + id@ + "'"@
                    &&& *final(app) == *old(app)
                }
            },
        },
{
    let to: String = match dest {
        Some(d) => resolve_explicit_dest(app.downloads.as_str(), app.separator, d.as_str()),
        None => {
            let i = find_attachment(items, attachment);
            if i >= items.len() {
                let mut e: String = "no attachment '".to_string();
                e.append(attachment.as_str());
                e.append("' on message '");
                e.append(id.as_str());
                e.append("'");
                return Err(e);
            }
            download_path(app.downloads.as_str(), app.separator, items[i].name.as_str())
        },
    };
    let said = Json::text(to.as_str());
    let ghost d = to;
    app.send(
        SyncCommand::SaveAttachment {
            message_id: id.clone(),
            attachment_id: attachment.clone(),
            dest: to,
        },
    );
    let r: Result<Json, String> = Ok(two_entries("queued", Json::Bool(true), "dest", said));
    proof {
        assert(app.actions@.last() == save_to(*id, *attachment, d));
        assert(app::emitted(*old(app), *app, seq![save_to(*id, *attachment, d)]));
        assert(save_queued(*old(app), *app, r, *id, *attachment, d@));
    }
    r
}

// ---------------------------------------------------------------------------
// Selection and refresh
// ---------------------------------------------------------------------------

/// The folder is opened, with the cursor on it where it is visible, and its
/// messages asked for.
pub open spec fn folder_selected(pre: App, post: App, folder: Option<String>) -> bool {
    match folder {
        Some(f) => {
            let at = lists::folder_at(pre.visible_folders@, f@);
            lists::messages_asked(
                App {
                    selected_folder: Some(f),
                    folder_index: if at < pre.visible_folders@.len() {
                        at as usize
                    } else {
                        pre.folder_index
                    },
                    ..pre
                },
                post,
            )
        },
        None => post == pre,
    }
}

pub open spec fn message_selected(pre: App, post: App, id: Option<String>) -> bool {
    match id {
        Some(m) => messages::message_opened(pre, post, m),
        None => post == pre,
    }
}

pub open spec fn selected(pre: App, post: App, folder: Option<String>, id: Option<String>) -> bool {
    exists|mid: App|
        #[trigger] folder_selected(pre, mid, folder) && message_selected(mid, post, id)
}

/// Opens a folder, a message, or both. `folders` is what the store has.
pub fn select(
    app: &mut App,
    folder: Option<String>,
    folders: &Vec<FolderRow>,
    id: Option<String>,
) -> (r: Result<Json, String>)
    ensures
        if folder is Some && folder_at(folders@, folder.unwrap()@) >= folders@.len() {
            &&& r matches Err(e) && e@ == "no such folder '"@ + folder.unwrap()@ + "'"@
            &&& *final(app) == *old(app)
        } else {
            &&& selected(*old(app), *final(app), folder, id)
            &&& r matches Ok(j) && j@ == Value::Obj(selection(*final(app)))
        },
        old(app).rows_in_step() ==> final(app).rows_in_step(),
{
    if let Some(f) = &folder {
        if find_folder(folders, f) >= folders.len() {
            let mut e: String = "no such folder '".to_string();
            e.append(f.as_str());
            e.append("'");
            return Err(e);
        }
        let at = lists::find_visible(&app.visible_folders, f);
        if at < app.visible_folders.len() {
            app.folder_index = at;
        }
        app.selected_folder = Some(f.clone());
        app.reload_messages();
    }
    let ghost mid = *app;
    if let Some(m) = &id {
        app.open_message(m);
    }
    assert(folder_selected(*old(app), mid, folder));
    assert(message_selected(mid, *app, id));
    let mut f = json::no_entries();
    put_selection(&mut f, app);
    let j = Json::object(f);
    assert(j@->Obj_0 =~= selection(*app));
    Ok(j)
}

/// Asks the engine to look for news.
pub fn refresh(app: &mut App) -> (r: Json)
    ensures
        app::emitted(*old(app), *final(app), seq![Action::Send(SyncCommand::Refresh)]),
        r@ == Value::Obj(seq![json::entry("refreshing"@, Value::Bool(true))]),
{
    app.send(SyncCommand::Refresh);
    one_entry("refreshing", Json::Bool(true))
}

// ---------------------------------------------------------------------------
// Laws
// ---------------------------------------------------------------------------

/// Whatever destination a caller names, a saved attachment lies directly in the
/// downloads directory: below it there is one path component.
pub proof fn saved_files_stay_among_the_downloads(
    to: Seq<char>,
    downloads: Seq<char>,
    sep: char,
    dest: Seq<char>,
)
    requires
        is_destination(to, downloads, sep, dest),
    ensures
        exists|name: Seq<char>|
            to == cli::below(downloads, name, sep) && #[trigger] names::is_component(name),
{
    let name = choose|name: Seq<char>|
        paths::is_part(name, dest) && to == cli::below(
            downloads,
            #[trigger] names::safe_name(name),
            sep,
        );
    names::saved_names_are_components(name);
    assert(names::is_component(names::safe_name(name)));
}

/// What changes the mailbox names the message it changes.
pub proof fn triage_names_its_message(
    r: Result<Request, String>,
    verb: Seq<char>,
    args: Value,
    selected: Option<Seq<char>>,
)
    requires
        is_request(r, verb, args, selected),
        r is Ok,
        is_triage(verb),
    ensures
        args.text("id"@) is Some,
{
    reveal_strlit("mail.status");
    reveal_strlit("mail.folders");
    reveal_strlit("mail.list");
    reveal_strlit("mail.read");
    reveal_strlit("mail.search");
    reveal_strlit("mail.mark");
    reveal_strlit("mail.flag");
    reveal_strlit("mail.move");
    reveal_strlit("mail.delete");
    reveal_strlit("mail.attachments");
    reveal_strlit("mail.save-attachment");
    assert("mail.status"@.len() == 11 && "mail.folders"@.len() == 12 && "mail.list"@.len() == 9
        && "mail.read"@.len() == 9 && "mail.search"@.len() == 11 && "mail.mark"@.len() == 9
        && "mail.flag"@.len() == 9 && "mail.move"@.len() == 9 && "mail.delete"@.len() == 11
        && "mail.attachments"@.len() == 16 && "mail.save-attachment"@.len() == 20);
    assert("mail.list"@[5] == 'l' && "mail.read"@[5] == 'r' && "mail.mark"@[5] == 'm'
        && "mail.flag"@[5] == 'f' && "mail.move"@[5] == 'm' && "mail.mark"@[6] == 'a'
        && "mail.move"@[6] == 'o');
    assert("mail.status"@[5] == 's' && "mail.delete"@[5] == 'd' && "mail.search"@[5] == 's');
    if verb == "mail.mark"@ {
        assert(is_mark(r, args));
    } else if verb == "mail.flag"@ {
        assert(is_flag(r, args));
    } else if verb == "mail.move"@ {
        assert(is_move(r, args));
    } else if verb == "mail.delete"@ {
        assert(is_delete(r, args));
    } else {
        assert(is_save(r, args));
    }
}

}
