//! The tools that an agent is offered: what each is called, what it does, what
//! it takes, and the verb of the control channel it stands for.

use crate::json;
use crate::json::{Entry, Json, Value};
use crate::text;
use vstd::prelude::*;

verus! {

/// What a tool takes: a name, its type, and what it is for.
#[derive(Debug, Clone, Copy, PartialEq, Eq)]
pub struct Prop {
    pub name: &'static str,
    pub kind: &'static str,
    pub description: &'static str,
}

/// A tool.
#[derive(Debug, PartialEq, Eq)]
pub struct Tool {
    pub name: &'static str,
    pub description: &'static str,
    pub props: Vec<Prop>,
    pub required: Vec<&'static str>,
}

/// A tool's name, description, arguments, and those it needs.
pub type Outline = (&'static str, &'static str, Seq<Prop>, Seq<&'static str>);

pub open spec fn outline(t: Tool) -> Outline {
    (t.name, t.description, t.props@, t.required@)
}

pub open spec fn outlines(v: Seq<Tool>) -> Seq<Outline> {
    v.map_values(|t: Tool| outline(t))
}

// ---------------------------------------------------------------------------
// Verbs
// ---------------------------------------------------------------------------

/// The verb that a tool stands for.
pub open spec fn verb_of(name: Seq<char>) -> Option<Seq<char>> {
    if name == "lookxy_status"@ {
        Some("mail.status"@)
    } else if name == "lookxy_folders"@ {
        Some("mail.folders"@)
    } else if name == "lookxy_messages"@ {
        Some("mail.list"@)
    } else if name == "lookxy_read"@ {
        Some("mail.read"@)
    } else if name == "lookxy_search"@ {
        Some("mail.search"@)
    } else if name == "lookxy_mark"@ {
        Some("mail.mark"@)
    } else if name == "lookxy_flag"@ {
        Some("mail.flag"@)
    } else if name == "lookxy_move"@ {
        Some("mail.move"@)
    } else if name == "lookxy_delete"@ {
        Some("mail.delete"@)
    } else if name == "lookxy_attachments"@ {
        Some("mail.attachments"@)
    } else if name == "lookxy_save_attachment"@ {
        Some("mail.save-attachment"@)
    } else if name == "lookxy_select"@ {
        Some("mail.select"@)
    } else if name == "lookxy_refresh"@ {
        Some("mail.refresh"@)
    } else {
        None
    }
}

fn tool_verb(name: &str) -> (r: Option<&'static str>)
    ensures
        match r {
            Some(v) => verb_of(name@) == Some(v@),
            None => verb_of(name@) is None,
        },
{
    if text::same(name, "lookxy_status") {
        Some("mail.status")
    } else if text::same(name, "lookxy_folders") {
        Some("mail.folders")
    } else if text::same(name, "lookxy_messages") {
        Some("mail.list")
    } else if text::same(name, "lookxy_read") {
        Some("mail.read")
    } else if text::same(name, "lookxy_search") {
        Some("mail.search")
    } else if text::same(name, "lookxy_mark") {
        Some("mail.mark")
    } else if text::same(name, "lookxy_flag") {
        Some("mail.flag")
    } else if text::same(name, "lookxy_move") {
        Some("mail.move")
    } else if text::same(name, "lookxy_delete") {
        Some("mail.delete")
    } else if text::same(name, "lookxy_attachments") {
        Some("mail.attachments")
    } else if text::same(name, "lookxy_save_attachment") {
        Some("mail.save-attachment")
    } else if text::same(name, "lookxy_select") {
        Some("mail.select")
    } else if text::same(name, "lookxy_refresh") {
        Some("mail.refresh")
    } else {
        None
    }
}

/// What calling a tool comes to.
#[derive(Debug, Clone, Copy, PartialEq, Eq)]
pub enum Call {
    /// List the clients that are running.
    List,
    /// Pass the arguments on with this verb.
    Verb(&'static str),
}

/// What to do to call a tool.
pub fn do_tool(name: &str) -> (r: Result<Call, String>)
    ensures
        if name@ == "lookxy_list"@ {
            r == Ok::<Call, String>(Call::List)
        } else {
            match verb_of(name@) {
                Some(v) => r matches Ok(Call::Verb(verb)) && verb@ == v,
                None => r matches Err(e) && e@ == "unknown tool: "@ + name@,
            }
        },
{
    if text::same(name, "lookxy_list") {
        return Ok(Call::List);
    }
    match tool_verb(name) {
        Some(verb) => Ok(Call::Verb(verb)),
        None => {
            let mut e: String = "unknown tool: ".to_string();
            e.append(name);
            Err(e)
        },
    }
}

// ---------------------------------------------------------------------------
// Definitions
// ---------------------------------------------------------------------------

/// Which client is meant, which every tool but the first takes.
pub open spec fn target_prop() -> Prop {
    Prop {
        name: "target",
        kind: "string",
        description: "Optional: which lookxy to act on (a substring of its instance/pane id) when several are open.",
    }
}

pub open spec fn prop_of(
    name: &'static str,
    kind: &'static str,
    description: &'static str,
) -> Prop {
    Prop { name, kind, description }
}

fn prop(name: &'static str, kind: &'static str, description: &'static str) -> (r: Prop)
    ensures
        r == prop_of(name, kind, description),
{
    Prop { name, kind, description }
}

fn target() -> (r: Prop)
    ensures
        r == target_prop(),
{
    Prop {
        name: "target",
        kind: "string",
        description: "Optional: which lookxy to act on (a substring of its instance/pane id) when several are open.",
    }
}

fn tool(
    name: &'static str,
    description: &'static str,
    props: Vec<Prop>,
    required: Vec<&'static str>,
) -> (r: Tool)
    ensures
        outline(r) == (name, description, props@, required@),
{
    Tool { name, description, props, required }
}

/// How many tools there are.
pub const TOOLS: usize = 14;

/// The tools, in order.
pub open spec fn tool_at(i: int) -> Outline {
    if i == 0 {
        (
            "lookxy_list",
            "List the lookxy mail clients currently running on this machine (instance/pane id, port, pid).",
            Seq::<Prop>::empty(),
            Seq::<&'static str>::empty(),
        )
    } else if i == 1 {
        (
            "lookxy_status",
            "Report the account, sync state, folder/unread counts, pending outbox ops, and current selection.",
            seq![
                target_prop(),
            ],
            Seq::<&'static str>::empty(),
        )
    } else if i == 2 {
        (
            "lookxy_folders",
            "List the mail folders (id, name, unread/total counts, well-known name).",
            seq![
                target_prop(),
            ],
            Seq::<&'static str>::empty(),
        )
    } else if i == 3 {
        (
            "lookxy_messages",
            "List messages in a folder (defaults to the currently selected folder), newest first, paginated.",
            seq![
                prop_of("folder", "string", "Folder id to list (default: the currently selected folder)."),
                prop_of("limit", "integer", "Max messages to return (default 50)."),
                prop_of("offset", "integer", "Number of messages to skip (default 0)."),
                target_prop(),
            ],
            Seq::<&'static str>::empty(),
        )
    } else if i == 4 {
        (
            "lookxy_read",
            "Read a message's full metadata and rendered plain-text body. If the body isn't cached yet, requests a fetch and returns `body_pending:true`.",
            seq![
                prop_of("id", "string", "Message id."),
                target_prop(),
            ],
            seq!["id"],
        )
    } else if i == 5 {
        (
            "lookxy_search",
            "Full-text search the local mailbox (subject/sender/body) and return matching message summaries.",
            seq![
                prop_of("query", "string", "Search text."),
                prop_of("limit", "integer", "Max messages to return (default 50)."),
                target_prop(),
            ],
            seq!["query"],
        )
    } else if i == 6 {
        (
            "lookxy_mark",
            "Mark a message read or unread. Applies immediately in the local store and queues the change for sync.",
            seq![
                prop_of("id", "string", "Message id."),
                prop_of("read", "boolean", "true to mark read, false to mark unread."),
                target_prop(),
            ],
            seq!["id", "read"],
        )
    } else if i == 7 {
        (
            "lookxy_flag",
            "Flag or unflag a message for follow-up. Applies immediately in the local store and queues the change for sync.",
            seq![
                prop_of("id", "string", "Message id."),
                prop_of("flagged", "boolean", "true to flag, false to unflag."),
                target_prop(),
            ],
            seq!["id", "flagged"],
        )
    } else if i == 8 {
        (
            "lookxy_move",
            "Move a message to another folder. Applies immediately in the local store and queues the change for sync.",
            seq![
                prop_of("id", "string", "Message id."),
                prop_of("dest", "string", "Destination folder id."),
                target_prop(),
            ],
            seq!["id", "dest"],
        )
    } else if i == 9 {
        (
            "lookxy_delete",
            "Delete a message. Applies immediately in the local store and queues the change for sync.",
            seq![
                prop_of("id", "string", "Message id."),
                target_prop(),
            ],
            seq!["id"],
        )
    } else if i == 10 {
        (
            "lookxy_attachments",
            "List a message's attachments (id, name, content type, size). Requests a metadata fetch if none are cached yet but the message reports attachments.",
            seq![
                prop_of("id", "string", "Message id."),
                target_prop(),
            ],
            seq!["id"],
        )
    } else if i == 11 {
        (
            "lookxy_save_attachment",
            "Save an attachment to disk (queued; defaults to the Downloads folder).",
            seq![
                prop_of("id", "string", "Message id."),
                prop_of("attachment", "string", "Attachment id."),
                prop_of("dest", "string", "Destination file path (default: Downloads folder)."),
                target_prop(),
            ],
            seq!["id", "attachment"],
        )
    } else if i == 12 {
        (
            "lookxy_select",
            "Move the TUI's selection so the open pane reflects a folder and/or message (either can be omitted to leave it unchanged).",
            seq![
                prop_of("folder", "string", "Folder id to select."),
                prop_of("id", "string", "Message id to open."),
                target_prop(),
            ],
            Seq::<&'static str>::empty(),
        )
    } else {
        (
            "lookxy_refresh",
            "Trigger a background sync refresh against Exchange.",
            seq![
                target_prop(),
            ],
            Seq::<&'static str>::empty(),
        )
    }
}

fn list_tool() -> (r: Tool)
    ensures
        outline(r) == tool_at(0),
{
    let props: Vec<Prop> = Vec::new();
    let required: Vec<&'static str> = Vec::new();
    assert(props@ =~= tool_at(0).2);
    assert(required@ =~= tool_at(0).3);
    tool(
        "lookxy_list",
        "List the lookxy mail clients currently running on this machine (instance/pane id, port, pid).",
        props,
        required,
    )
}

fn status_tool() -> (r: Tool)
    ensures
        outline(r) == tool_at(1),
{
    let props: Vec<Prop> = vec![
        target(),
    ];
    let required: Vec<&'static str> = Vec::new();
    assert(props@ =~= tool_at(1).2);
    assert(required@ =~= tool_at(1).3);
    tool(
        "lookxy_status",
        "Report the account, sync state, folder/unread counts, pending outbox ops, and current selection.",
        props,
        required,
    )
}

fn folders_tool() -> (r: Tool)
    ensures
        outline(r) == tool_at(2),
{
    let props: Vec<Prop> = vec![
        target(),
    ];
    let required: Vec<&'static str> = Vec::new();
    assert(props@ =~= tool_at(2).2);
    assert(required@ =~= tool_at(2).3);
    tool(
        "lookxy_folders",
        "List the mail folders (id, name, unread/total counts, well-known name).",
        props,
        required,
    )
}

fn messages_tool() -> (r: Tool)
    ensures
        outline(r) == tool_at(3),
{
    let props: Vec<Prop> = vec![
        prop("folder", "string", "Folder id to list (default: the currently selected folder)."),
        prop("limit", "integer", "Max messages to return (default 50)."),
        prop("offset", "integer", "Number of messages to skip (default 0)."),
        target(),
    ];
    let required: Vec<&'static str> = Vec::new();
    assert(props@ =~= tool_at(3).2);
    assert(required@ =~= tool_at(3).3);
    tool(
        "lookxy_messages",
        "List messages in a folder (defaults to the currently selected folder), newest first, paginated.",
        props,
        required,
    )
}

fn read_tool() -> (r: Tool)
    ensures
        outline(r) == tool_at(4),
{
    let props: Vec<Prop> = vec![
        prop("id", "string", "Message id."),
        target(),
    ];
    let required: Vec<&'static str> = vec!["id"];
    assert(props@ =~= tool_at(4).2);
    assert(required@ =~= tool_at(4).3);
    tool(
        "lookxy_read",
        "Read a message's full metadata and rendered plain-text body. If the body isn't cached yet, requests a fetch and returns `body_pending:true`.",
        props,
        required,
    )
}

fn search_tool() -> (r: Tool)
    ensures
        outline(r) == tool_at(5),
{
    let props: Vec<Prop> = vec![
        prop("query", "string", "Search text."),
        prop("limit", "integer", "Max messages to return (default 50)."),
        target(),
    ];
    let required: Vec<&'static str> = vec!["query"];
    assert(props@ =~= tool_at(5).2);
    assert(required@ =~= tool_at(5).3);
    tool(
        "lookxy_search",
        "Full-text search the local mailbox (subject/sender/body) and return matching message summaries.",
        props,
        required,
    )
}

fn mark_tool() -> (r: Tool)
    ensures
        outline(r) == tool_at(6),
{
    let props: Vec<Prop> = vec![
        prop("id", "string", "Message id."),
        prop("read", "boolean", "true to mark read, false to mark unread."),
        target(),
    ];
    let required: Vec<&'static str> = vec!["id", "read"];
    assert(props@ =~= tool_at(6).2);
    assert(required@ =~= tool_at(6).3);
    tool(
        "lookxy_mark",
        "Mark a message read or unread. Applies immediately in the local store and queues the change for sync.",
        props,
        required,
    )
}

fn flag_tool() -> (r: Tool)
    ensures
        outline(r) == tool_at(7),
{
    let props: Vec<Prop> = vec![
        prop("id", "string", "Message id."),
        prop("flagged", "boolean", "true to flag, false to unflag."),
        target(),
    ];
    let required: Vec<&'static str> = vec!["id", "flagged"];
    assert(props@ =~= tool_at(7).2);
    assert(required@ =~= tool_at(7).3);
    tool(
        "lookxy_flag",
        "Flag or unflag a message for follow-up. Applies immediately in the local store and queues the change for sync.",
        props,
        required,
    )
}

fn move_tool() -> (r: Tool)
    ensures
        outline(r) == tool_at(8),
{
    let props: Vec<Prop> = vec![
        prop("id", "string", "Message id."),
        prop("dest", "string", "Destination folder id."),
        target(),
    ];
    let required: Vec<&'static str> = vec!["id", "dest"];
    assert(props@ =~= tool_at(8).2);
    assert(required@ =~= tool_at(8).3);
    tool(
        "lookxy_move",
        "Move a message to another folder. Applies immediately in the local store and queues the change for sync.",
        props,
        required,
    )
}

fn delete_tool() -> (r: Tool)
    ensures
        outline(r) == tool_at(9),
{
    let props: Vec<Prop> = vec![
        prop("id", "string", "Message id."),
        target(),
    ];
    let required: Vec<&'static str> = vec!["id"];
    assert(props@ =~= tool_at(9).2);
    assert(required@ =~= tool_at(9).3);
    tool(
        "lookxy_delete",
        "Delete a message. Applies immediately in the local store and queues the change for sync.",
        props,
        required,
    )
}

fn attachments_tool() -> (r: Tool)
    ensures
        outline(r) == tool_at(10),
{
    let props: Vec<Prop> = vec![
        prop("id", "string", "Message id."),
        target(),
    ];
    let required: Vec<&'static str> = vec!["id"];
    assert(props@ =~= tool_at(10).2);
    assert(required@ =~= tool_at(10).3);
    tool(
        "lookxy_attachments",
        "List a message's attachments (id, name, content type, size). Requests a metadata fetch if none are cached yet but the message reports attachments.",
        props,
        required,
    )
}

fn save_attachment_tool() -> (r: Tool)
    ensures
        outline(r) == tool_at(11),
{
    let props: Vec<Prop> = vec![
        prop("id", "string", "Message id."),
        prop("attachment", "string", "Attachment id."),
        prop("dest", "string", "Destination file path (default: Downloads folder)."),
        target(),
    ];
    let required: Vec<&'static str> = vec!["id", "attachment"];
    assert(props@ =~= tool_at(11).2);
    assert(required@ =~= tool_at(11).3);
    tool(
        "lookxy_save_attachment",
        "Save an attachment to disk (queued; defaults to the Downloads folder).",
        props,
        required,
    )
}

fn select_tool() -> (r: Tool)
    ensures
        outline(r) == tool_at(12),
{
    let props: Vec<Prop> = vec![
        prop("folder", "string", "Folder id to select."),
        prop("id", "string", "Message id to open."),
        target(),
    ];
    let required: Vec<&'static str> = Vec::new();
    assert(props@ =~= tool_at(12).2);
    assert(required@ =~= tool_at(12).3);
    tool(
        "lookxy_select",
        "Move the TUI's selection so the open pane reflects a folder and/or message (either can be omitted to leave it unchanged).",
        props,
        required,
    )
}

fn refresh_tool() -> (r: Tool)
    ensures
        outline(r) == tool_at(13),
{
    let props: Vec<Prop> = vec![
        target(),
    ];
    let required: Vec<&'static str> = Vec::new();
    assert(props@ =~= tool_at(13).2);
    assert(required@ =~= tool_at(13).3);
    tool(
        "lookxy_refresh",
        "Trigger a background sync refresh against Exchange.",
        props,
        required,
    )
}

/// The tools that are offered.
pub fn tool_defs() -> (r: Vec<Tool>)
    ensures
        r@.len() == 14,
        forall|i: int| 0 <= i < 14 ==> outline(#[trigger] r@[i]) == tool_at(i),
{
    let mut v: Vec<Tool> = Vec::new();
    v.push(list_tool());
    v.push(status_tool());
    v.push(folders_tool());
    v.push(messages_tool());
    v.push(read_tool());
    v.push(search_tool());
    v.push(mark_tool());
    v.push(flag_tool());
    v.push(move_tool());
    v.push(delete_tool());
    v.push(attachments_tool());
    v.push(save_attachment_tool());
    v.push(select_tool());
    v.push(refresh_tool());
    v
}

// ---------------------------------------------------------------------------
// As JSON
// ---------------------------------------------------------------------------

pub open spec fn prop_entry(p: Prop) -> Entry {
    json::entry(
        p.name@,
        Value::Obj(
            seq![
                json::entry("type"@, Value::Str(p.kind@)),
                json::entry("description"@, Value::Str(p.description@)),
            ],
        ),
    )
}

/// A tool as it is announced, with the schema of what it takes.
pub open spec fn tool_value(t: Outline) -> Value {
    Value::Obj(
        seq![
            json::entry("name"@, Value::Str(t.0@)),
            json::entry("description"@, Value::Str(t.1@)),
            json::entry(
                "inputSchema"@,
                Value::Obj(
                    seq![
                        json::entry("type"@, Value::Str("object"@)),
                        json::entry(
                            "properties"@,
                            Value::Obj(t.2.map_values(|p: Prop| prop_entry(p))),
                        ),
                        json::entry(
                            "required"@,
                            Value::Arr(t.3.map_values(|s: &'static str| Value::Str(s@))),
                        ),
                    ],
                ),
            ),
        ],
    )
}

fn props_json(props: &Vec<Prop>) -> (r: Json)
    ensures
        r@ == Value::Obj(props@.map_values(|p: Prop| prop_entry(p))),
{
    let ghost want = props@.map_values(|p: Prop| prop_entry(p));
    let mut f = json::no_entries();
    let mut i: usize = 0;
    while i < props.len()
        invariant
            i <= props@.len(),
            want == props@.map_values(|p: Prop| prop_entry(p)),
            json::entries(f@) =~= want.take(i as int),
        decreases props@.len() - i,
    {
        let mut e = json::no_entries();
        json::put(&mut e, "type", Json::text(props[i].kind));
        json::put(&mut e, "description", Json::text(props[i].description));
        let schema = Json::object(e);
        assert(schema@->Obj_0 =~= prop_entry(props@[i as int]).value->Obj_0);
        json::put(&mut f, props[i].name, schema);
        i += 1;
        assert(json::entries(f@) =~= want.take(i as int));
    }
    assert(want.take(i as int) =~= want);
    Json::object(f)
}

fn names_json(v: &Vec<&'static str>) -> (r: Json)
    ensures
        r@ == Value::Arr(v@.map_values(|s: &'static str| Value::Str(s@))),
{
    let ghost want = v@.map_values(|s: &'static str| Value::Str(s@));
    let mut out: Vec<Json> = Vec::new();
    let mut i: usize = 0;
    while i < v.len()
        invariant
            i <= v@.len(),
            want == v@.map_values(|s: &'static str| Value::Str(s@)),
            json::values(out@) =~= want.take(i as int),
        decreases v@.len() - i,
    {
        let ghost before = out@;
        out.push(Json::text(v[i]));
        assert(json::values(out@) =~= json::values(before).push(out@.last()@));
        i += 1;
        assert(json::values(out@) =~= want.take(i as int));
    }
    assert(want.take(i as int) =~= want);
    Json::array(out)
}

/// A tool, as it is announced.
pub fn tool_json(t: &Tool) -> (r: Json)
    ensures
        r@ == tool_value(outline(*t)),
{
    let mut schema = json::no_entries();
    json::put(&mut schema, "type", Json::text("object"));
    json::put(&mut schema, "properties", props_json(&t.props));
    json::put(&mut schema, "required", names_json(&t.required));
    let mut f = json::no_entries();
    json::put(&mut f, "name", Json::text(t.name));
    json::put(&mut f, "description", Json::text(t.description));
    let ghost want = tool_value(outline(*t));
    assert(json::entries(schema@) =~= want->Obj_0[2].value->Obj_0);
    json::put(&mut f, "inputSchema", Json::object(schema));
    assert(json::entries(f@) =~= want->Obj_0);
    Json::object(f)
}

// ---------------------------------------------------------------------------
// Laws
// ---------------------------------------------------------------------------

/// Every tool that is offered can be called.
pub proof fn offered_tools_can_be_called(i: int)
    requires
        0 <= i < TOOLS,
    ensures
        tool_at(i).0@ == "lookxy_list"@ || verb_of(tool_at(i).0@) is Some,
{
}

/// What a tool needs is among what it takes.
pub proof fn needed_arguments_are_taken(i: int, j: int)
    requires
        0 <= i < TOOLS,
        0 <= j < tool_at(i).3.len(),
    ensures
        exists|k: int|
            0 <= k < tool_at(i).2.len() && (#[trigger] tool_at(i).2[k]).name == tool_at(i).3[j],
{
    assert(tool_at(i).2[j].name == tool_at(i).3[j]);
}

}
