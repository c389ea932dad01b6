//! The client over a mailbox in memory: keys and sync events go in, and what
//! the client asks for is carried out on the mailbox.

use lookxy::app::keys::command_for;
use lookxy::app::reading::BodyRead;
use lookxy::app::reminders::utc_to_epoch;
use lookxy::app::{
    Action, App, Clock, ConfirmAction, ConfirmModal, EditorOp, Key, KeyCode, Mode, Pane, Row,
    RsvpField, RsvpPrompt, RsvpTarget,
};
use lookxy::cli::downloads_dir;
use lookxy::control;
use lookxy::control::Request;
use lookxy::json::Json;
use lookxy::mcp;
use lookxy::model::{
    AttachmentKind, AttachmentMeta, Attendee, AutomaticReplies, Body, EventFields, EventRow,
    ExternalAudience, FolderRow, ImageSource, MasterCategory, MessageRow, OofStatus,
    OutboundAttachment, Recurrence, RecurrenceKind, RsvpKind, ScheduleEntry, StoredEvent,
    SyncCommand, SyncEvent, SyncState, Thread,
};
use lookxy::ui::agenda;
use lookxy::ui::agenda::AgendaLine;
use lookxy::ui::calendar::{parse_iso_utc, unix_to_iso8601};
use lookxy::ui::categories::{color_for, preset_color};
use lookxy::ui::categorypicker::PickerMode;
use lookxy::ui::compose;
use lookxy::ui::compose::{
    Block, Compose, ComposeAction, ComposeField, Editor, Pos, RichText, Run,
};
use lookxy::ui::eventform;
use lookxy::ui::eventform::{EventField, EventForm};
use lookxy::ui::filepicker::{Entered, FileEntry, FilePicker};
use lookxy::ui::folders::folder_line;
use lookxy::ui::foldertree::build_visible;
use lookxy::ui::freebusy::{combined_glyph, grid_lines, slot_glyph, FreeBusyView};
use lookxy::ui::layout;
use lookxy::ui::layout::Area;
use lookxy::ui::message_list;
use lookxy::ui::oofform;
use lookxy::ui::oofform::OofForm;
use lookxy::ui::reading;
use lookxy::ui::reading::{ImageRef, StyledLine, StyledSpan};
use lookxy::ui::ribbon::{Act, Dir, Focus};
use lookxy::ui::screen;
use lookxy::ui::screen::Widget;
use lookxy::ui::style::{Color, Line};
use std::collections::VecDeque;
use std::ops::{Deref, DerefMut};

// ---------------------------------------------------------------------------
// Markup: paragraphs, links and images, as far as the mailbox holds them
// ---------------------------------------------------------------------------

enum Piece {
    Text(String),
    Tag(String),
}

fn pieces(html: &str) -> Vec<Piece> {
    let mut out = Vec::new();
    let mut rest = html;
    while let Some(open) = rest.find('<') {
        if open > 0 {
            out.push(Piece::Text(rest[..open].to_string()));
        }
        let close = rest[open..].find('>').map_or(rest.len(), |c| open + c);
        out.push(Piece::Tag(rest[open + 1..close].to_string()));
        rest = &rest[(close + 1).min(rest.len())..];
    }
    if !rest.is_empty() {
        out.push(Piece::Text(rest.to_string()));
    }
    out
}

fn attribute(tag: &str, name: &str) -> Option<String> {
    let from = tag.find(&format!("{name}=\""))? + name.len() + 2;
    let to = tag[from..].find('"')? + from;
    Some(tag[from..to].to_string())
}

fn image_of(tag: &str) -> Option<ImageRef> {
    if !tag.starts_with("img") {
        return None;
    }
    let src = attribute(tag, "src").unwrap_or_default();
    let src = match src.strip_prefix("cid:") {
        Some(cid) => ImageSource::Cid(cid.to_string()),
        None => ImageSource::Remote(src),
    };
    Some(ImageRef { src, alt: attribute(tag, "alt").unwrap_or_default() })
}

fn images(html: &str) -> Vec<ImageSource> {
    pieces(html)
        .into_iter()
        .filter_map(|p| match p {
            Piece::Tag(t) => image_of(&t).map(|i| i.src),
            Piece::Text(_) => None,
        })
        .collect()
}

fn plain_span(text: String, link: Option<String>) -> StyledSpan {
    StyledSpan { text, bold: false, italic: false, underline: false, link }
}

fn text_row(spans: Vec<StyledSpan>) -> StyledLine {
    StyledLine { spans, indent: 0, image: None }
}

fn styled(html: &str) -> Vec<StyledLine> {
    let mut lines = Vec::new();
    let mut spans: Vec<StyledSpan> = Vec::new();
    let mut link: Option<String> = None;
    for p in pieces(html) {
        match p {
            Piece::Text(t) => spans.push(plain_span(t, link.clone())),
            Piece::Tag(t) if t.starts_with("a ") => link = attribute(&t, "href"),
            Piece::Tag(t) if t == "/a" => link = None,
            Piece::Tag(t) => {
                if !spans.is_empty() {
                    lines.push(text_row(std::mem::take(&mut spans)));
                }
                if let Some(image) = image_of(&t) {
                    lines.push(StyledLine { spans: Vec::new(), indent: 0, image: Some(image) });
                }
            }
        }
    }
    if !spans.is_empty() {
        lines.push(text_row(spans));
    }
    lines
}

fn plain_run(text: &str) -> Run {
    Run { text: text.into(), bold: false, italic: false, underline: false, link: None }
}

fn rich(html: &str) -> RichText {
    let blocks = pieces(html)
        .into_iter()
        .filter_map(|p| match p {
            Piece::Text(t) => Some(Block::Paragraph(vec![plain_run(&t)])),
            Piece::Tag(_) => None,
        })
        .collect();
    RichText { blocks }
}

fn runs(b: &Block) -> &Vec<Run> {
    match b {
        Block::Paragraph(r) => r,
        Block::ListItem { runs, .. } => runs,
    }
}

fn plain(t: &RichText) -> String {
    let blocks: Vec<String> =
        t.blocks.iter().map(|b| runs(b).iter().map(|r| r.text.as_str()).collect()).collect();
    blocks.join("\n")
}

fn editor(html: &str) -> Editor {
    Editor { text: rich(html), caret: Pos { block: 0, run: 0, offset: 0 } }
}

fn markup(t: &RichText) -> String {
    t.blocks
        .iter()
        .map(|b| {
            let text: String = runs(b).iter().map(|r| r.text.as_str()).collect();
            format!("<p>{text}</p>")
        })
        .collect()
}

// ---------------------------------------------------------------------------
// The mailbox
// ---------------------------------------------------------------------------

struct Event {
    row: EventRow,
    body_html: String,
    attendees: Vec<Attendee>,
    recurrence: Option<Recurrence>,
}

#[derive(Default)]
struct Mailbox {
    folders: Vec<FolderRow>,
    /// Each with its conversation.
    messages: Vec<(String, MessageRow)>,
    bodies: Vec<(String, Body)>,
    attachments: Vec<(String, Vec<AttachmentMeta>)>,
    events: Vec<Event>,
    outbound: Vec<(String, OutboundAttachment)>,
    made: usize,
}

impl Mailbox {
    fn upsert_folder(&mut self, id: &str, name: &str, parent: Option<&str>, known: Option<&str>) {
        self.folders.retain(|f| f.id != id);
        self.folders.push(FolderRow {
            id: id.into(),
            parent_id: parent.map(Into::into),
            display_name: name.into(),
            total_count: 0,
            unread_count: 0,
            well_known_name: known.map(Into::into),
            is_expanded: false,
        });
        self.folders.sort_by_key(|f| {
            let order = ["inbox", "drafts", "sentitems", "archive"];
            order.iter().position(|w| f.well_known_name.as_deref() == Some(*w)).unwrap_or(9)
        });
    }

    fn upsert_message(&mut self, folder: &str, conversation: &str, mut row: MessageRow) {
        row.folder_id = folder.into();
        self.messages.retain(|(_, m)| m.id != row.id);
        self.messages.push((conversation.into(), row));
    }

    fn message(&mut self, id: &str) -> Option<&mut MessageRow> {
        self.messages.iter_mut().map(|(_, m)| m).find(|m| m.id == id)
    }

    fn messages_in_folder(&self, folder: &str) -> Vec<MessageRow> {
        let mut v: Vec<MessageRow> =
            self.messages.iter().map(|(_, m)| m.clone()).filter(|m| m.folder_id == folder).collect();
        v.sort_by(|a, b| b.received_at.cmp(&a.received_at));
        v
    }

    fn conversations(&self, folder: &str) -> Vec<Thread> {
        let mut v: Vec<Thread> = Vec::new();
        for (key, m) in &self.messages {
            if m.folder_id != folder {
                continue;
            }
            match v.iter_mut().find(|t| t.key == *key) {
                Some(t) => t.messages.push(m.clone()),
                None => v.push(Thread {
                    key: key.clone(),
                    subject: String::new(),
                    participants: Vec::new(),
                    messages: vec![m.clone()],
                    latest_received: String::new(),
                    unread_count: 0,
                    any_flagged: false,
                    any_attachments: false,
                }),
            }
        }
        for t in &mut v {
            t.messages.sort_by(|a, b| a.received_at.cmp(&b.received_at));
            let last = t.messages.last().unwrap();
            t.subject = last.subject.clone();
            t.latest_received = last.received_at.clone();
            for m in &t.messages {
                if !t.participants.contains(&m.from_name) {
                    t.participants.push(m.from_name.clone());
                }
            }
            t.unread_count = t.messages.iter().filter(|m| !m.is_read).count();
            t.any_flagged = t.messages.iter().any(|m| m.is_flagged);
            t.any_attachments = t.messages.iter().any(|m| m.has_attachments);
        }
        v.sort_by(|a, b| b.latest_received.cmp(&a.latest_received));
        v
    }

    fn search(&self, query: &str) -> Vec<MessageRow> {
        self.messages.iter().map(|(_, m)| m.clone()).filter(|m| m.subject.contains(query)).collect()
    }

    fn put_body(&mut self, id: &str, content_type: &str, content: &str) {
        self.bodies.retain(|(i, _)| i != id);
        let body = Body { content_type: content_type.into(), content: content.into() };
        self.bodies.push((id.into(), body));
    }

    fn body(&self, id: &str) -> Option<Body> {
        self.bodies.iter().find(|(i, _)| i == id).map(|(_, b)| b.clone())
    }

    fn put_attachments(&mut self, id: &str, items: Vec<AttachmentMeta>) {
        self.attachments.retain(|(i, _)| i != id);
        self.attachments.push((id.into(), items));
    }

    fn attachments(&self, id: &str) -> Vec<AttachmentMeta> {
        let found = self.attachments.iter().find(|(i, _)| i == id);
        found.map(|(_, v)| v.clone()).unwrap_or_default()
    }

    fn outbound(&self, draft: &str) -> Vec<OutboundAttachment> {
        self.outbound.iter().filter(|(d, _)| d == draft).map(|(_, a)| a.clone()).collect()
    }

    fn new_id(&mut self) -> String {
        self.made += 1;
        format!("local:{}", self.made)
    }

    fn create_local_draft(&mut self, subject: &str, to: &str, cc: &str, html: &str) -> String {
        let id = self.new_id();
        let mut row = message(&id, subject, "", "", "2026-07-17T08:00:00Z");
        row.to_recipients = to.into();
        row.cc_recipients = cc.into();
        row.is_draft = true;
        self.upsert_message("drafts", &id.clone(), row);
        self.put_body(&id, "html", html);
        id
    }

    fn upsert_event(&mut self, row: EventRow, body_html: &str) {
        let body_html = body_html.to_string();
        let event = Event { row, body_html, attendees: Vec::new(), recurrence: None };
        self.events.push(event);
    }

    fn event(&mut self, id: &str) -> Option<&mut Event> {
        self.events.iter_mut().find(|e| e.row.id == id)
    }

    fn events_in_window(&self, from: &str, to: &str) -> Vec<EventRow> {
        let mut v: Vec<EventRow> = self
            .events
            .iter()
            .map(|e| e.row.clone())
            .filter(|e| from <= e.start_utc.as_str() && e.start_utc.as_str() < to)
            .collect();
        v.sort_by(|a, b| a.start_utc.cmp(&b.start_utc));
        v
    }
}

fn escaped(text: &str) -> String {
    text.replace('&', "&amp;").replace('<', "&lt;").replace('>', "&gt;")
}

fn write_event(e: &mut Event, f: EventFields) {
    e.row.subject = f.subject;
    e.row.start_utc = f.start_utc;
    e.row.end_utc = f.end_utc;
    e.row.is_all_day = f.is_all_day;
    e.row.location = f.location;
    e.body_html = escaped(&f.body_text);
    e.attendees = f
        .attendees
        .into_iter()
        .map(|(name, addr)| Attendee { name, addr, response: "none".into() })
        .collect();
    e.recurrence = f.recurrence;
}

// ---------------------------------------------------------------------------
// The client
// ---------------------------------------------------------------------------

const NOW: &str = "2026-07-17T09:20:00Z";
const DOWNLOADS: &str = "/home/me/Downloads";

struct Client {
    app: App,
    store: Mailbox,
    now: i64,
    sent: VecDeque<SyncCommand>,
    /// Paths and URLs that were opened.
    opened: Vec<String>,
    notified: Vec<String>,
    /// What is selected in the body being composed.
    selection: Option<(Pos, Pos)>,
}

impl Deref for Client {
    type Target = App;

    fn deref(&self) -> &App {
        &self.app
    }
}

impl DerefMut for Client {
    fn deref_mut(&mut self) -> &mut App {
        &mut self.app
    }
}

impl Client {
    fn over(store: Mailbox) -> Client {
        let mut app = App::new();
        app.downloads = downloads_dir(&None, &Some("/home/me".to_string()), &None, '/');
        assert_eq!(app.downloads, DOWNLOADS);
        let mut client = Client {
            app,
            store,
            now: utc_to_epoch(NOW),
            sent: VecDeque::new(),
            opened: Vec::new(),
            notified: Vec::new(),
            selection: None,
        };
        client.settle();
        client
    }

    /// A mailbox with the folder "Inbox" and one message in it.
    fn seeded() -> Client {
        let mut store = Mailbox::default();
        store.upsert_folder("inbox", "Inbox", None, Some("inbox"));
        store.folders[0].total_count = 1;
        store.folders[0].unread_count = 1;
        store.upsert_message("inbox", "c1", hello());
        Client::over(store)
    }

    /// An Inbox with a child, and a second folder, all collapsed.
    fn with_folder_tree() -> Client {
        let mut store = Mailbox::default();
        store.upsert_folder("inbox", "Inbox", None, Some("inbox"));
        store.upsert_folder("epam", "EPAM", Some("inbox"), None);
        store.upsert_folder("sent", "Sent", None, Some("sentitems"));
        Client::over(store)
    }

    fn empty() -> Client {
        Client::over(Mailbox::default())
    }

    fn clock(&self) -> Clock {
        Clock { now: agenda::local_time(self.now, 0), offset: 0 }
    }

    /// Calls the client, and carries out what it asks for.
    fn run(&mut self, f: impl FnOnce(&mut App)) {
        f(&mut self.app);
        self.settle();
    }

    fn key_event(&mut self, key: Key) {
        let clock = self.clock();
        self.run(|a| a.handle_key(key, clock));
    }

    fn key(&mut self, code: KeyCode) {
        self.key_event(plain_key(code));
    }

    fn ctrl(&mut self, code: KeyCode) {
        self.key_event(Key { code, ctrl: true, shift: false });
    }

    fn chr(&mut self, c: char) {
        self.key(KeyCode::Char(c));
    }

    fn open_message(&mut self, id: &str) {
        self.run(|a| a.open_message(&id.to_string()));
    }

    fn on_key_char(&mut self, c: char) {
        self.run(|a| a.on_key_char(c));
    }

    fn reload_messages(&mut self) {
        self.run(|a| a.reload_messages());
    }

    fn on_sync_event(&mut self, evt: SyncEvent) {
        self.run(|a| a.on_sync_event(evt, 0));
    }

    fn save_event_form(&mut self) {
        let clock = self.clock();
        self.run(|a| a.save_event_form(clock));
    }

    fn open_new_event(&mut self) {
        let clock = self.clock();
        self.run(|a| a.open_new_event(clock));
    }

    fn save_oof_form(&mut self) {
        let clock = self.clock();
        self.run(|a| a.save_oof_form(clock));
    }

    fn submit_rsvp(&mut self) {
        let clock = self.clock();
        self.run(|a| a.submit_rsvp(clock));
    }

    fn finish_attachment_save(&mut self, path: &str) {
        self.run(|a| a.finish_attachment_save(path.to_string()));
    }

    fn draws(&self, w: Widget) -> bool {
        screen::widgets(&self.app).contains(&w)
    }

    /// Carries out what is asked for, and what that asks for, in order.
    fn settle(&mut self) {
        let asked = std::mem::take(&mut self.app.actions);
        for a in asked {
            self.carry_out(a);
            self.settle();
        }
    }

    fn carry_out(&mut self, a: Action) {
        match a {
            Action::Send(c) => self.sent.push_back(c),
            Action::ReadAccount => self.app.account_loaded(None),
            Action::ReadMasterCategories => {}
            Action::ReadFolders => self.app.folders_loaded(self.store.folders.clone()),
            Action::InitFolderTree => self.app.ensure_folder_tree_initialized(),
            Action::ReadMessages { folder, .. } => {
                self.app.messages_loaded(self.store.messages_in_folder(&folder));
            }
            Action::ReadConversations { folder, .. } => {
                self.app.conversations_loaded(self.store.conversations(&folder));
            }
            Action::ReadBody { id } => {
                let found = match self.store.body(&id) {
                    Some(b) => BodyRead::Found(b),
                    None => BodyRead::Missing,
                };
                self.app.body_loaded(id, found);
            }
            Action::ReadInlineImages { id, html } => {
                let metas = self.store.attachments(&id);
                self.app.inline_images_found(id, &images(&html), &metas);
            }
            Action::ReadAgenda => {
                let (from, to) = agenda::agenda_window(self.now);
                self.app.agenda_loaded(self.store.events_in_window(&from, &to));
            }
            Action::ReadEvent { id } => {
                if let Some(e) = self.store.event(&id) {
                    let event = StoredEvent {
                        subject: e.row.subject.clone(),
                        start_utc: e.row.start_utc.clone(),
                        end_utc: e.row.end_utc.clone(),
                        is_all_day: e.row.is_all_day,
                        location: e.row.location.clone(),
                        body_text: plain(&rich(&e.body_html)),
                        attendees: e.attendees.clone(),
                    };
                    self.app.event_loaded(id, event, 0);
                }
            }
            Action::ReadMoveTargets { message_id, thread_ids } => {
                self.app.move_targets_loaded(message_id, thread_ids, self.store.folders.clone());
            }
            Action::ReadDeleteScope { ids } => {
                self.app.ask_delete_thread(ids, &self.store.folders);
            }
            Action::ReadMoveScope { ids, dest } => {
                self.app.ask_move_thread(ids, dest, &self.store.folders);
            }
            Action::ReadDraft { id } => {
                let body = self.store.body(&id);
                let outbound = self.store.outbound(&id);
                if let (Some(row), Some(b)) = (self.store.message(&id), body) {
                    self.app.draft_loaded(row.clone(), editor(&b.content), outbound);
                }
            }
            Action::ReadAttachments { id, has_attachments } => {
                let items = self.store.attachments(&id);
                self.app.attachments_found(id, has_attachments, items);
            }
            Action::ReloadAttachments { message_id } => {
                self.app.attachments_reloaded(self.store.attachments(&message_id));
            }
            Action::ReadOutbound { draft_id } => {
                self.app.outbound_loaded(self.store.outbound(&draft_id));
            }
            Action::Search { query, .. } => self.app.search_loaded(self.store.search(&query)),
            Action::Edit(op) => self.edit(op),
            Action::RibbonNav(dir) => self.ribbon_nav(dir),
            Action::RibbonEnterBody => self.app.ribbon_moved(Focus::Button(0)),
            Action::OpenPath(p) | Action::OpenUrl(p) => self.opened.push(p),
            Action::Notify(text) => self.notified.push(text),
            Action::ListDirectory(dir) => self.app.directory_listed(dir, None, Vec::new()),
            Action::Attach(path) => self.attach(&path),
            Action::PersistThreaded { .. }
            | Action::PersistFolderTree
            | Action::ClearImages
            | Action::RibbonRun => {}
            written => self.write(written),
        }
    }

    /// What changes the mailbox.
    fn write(&mut self, a: Action) {
        match a {
            Action::SetFolderExpanded { id, expanded } => {
                if let Some(f) = self.store.folders.iter_mut().find(|f| f.id == id) {
                    f.is_expanded = expanded;
                }
            }
            Action::SetRead { id, read } => {
                if let Some(m) = self.store.message(&id) {
                    m.is_read = read;
                }
            }
            Action::SetFlag { id, flagged } => {
                if let Some(m) = self.store.message(&id) {
                    m.is_flagged = flagged;
                }
            }
            Action::SetCategories { id, categories } => {
                if let Some(m) = self.store.message(&id) {
                    m.categories = categories;
                }
            }
            Action::DeleteMessage { id } => self.store.messages.retain(|(_, m)| m.id != id),
            Action::MoveMessage { id, dest, reload } => {
                if let Some(m) = self.store.message(&id) {
                    m.folder_id = dest.clone();
                    self.app.message_moved(id, dest, reload);
                }
            }
            Action::DeleteEvent { id } => self.store.events.retain(|e| e.row.id != id),
            Action::SetEventResponse { id, kind } => {
                if let Some(e) = self.store.event(&id) {
                    e.row.response_status = kind;
                }
            }
            Action::CreateEvent { fields, account } => {
                let id = self.store.new_id();
                let mut row = event_row(&id, "", "", "");
                row.organizer_addr = account;
                self.store.upsert_event(row, "");
                write_event(self.store.events.last_mut().unwrap(), fields);
                self.app.event_created(Some(id));
            }
            Action::UpdateEvent { id, fields } => {
                let found = self.store.event(&id).map(|e| write_event(e, fields));
                self.app.event_updated(id, found.is_some());
            }
            Action::CreateDraft { signature } => {
                let html = lookxy::app::names::signature_body_html(&signature);
                let id = self.store.create_local_draft("", "", "", &html);
                self.app.open_draft(&id);
            }
            Action::UpdateDraft { draft_id, subject, to, cc, bcc, body } => {
                self.store.put_body(&draft_id, "html", &markup(&body));
                if let Some(m) = self.store.message(&draft_id) {
                    m.subject = subject;
                    m.to_recipients = to;
                    m.cc_recipients = cc;
                    m.bcc_recipients = bcc;
                }
            }
            Action::AddOutbound { draft_id, path, name, size } => {
                self.store.outbound.push((draft_id, OutboundAttachment { path, name, size }));
            }
            Action::RemoveOutbound { draft_id, path } => {
                self.store.outbound.retain(|(d, a)| *d != draft_id || a.path != path);
            }
            other => panic!("not a change of the mailbox: {other:?}"),
        }
    }

    fn attach(&mut self, path: &str) {
        let name = path.rsplit('/').next().unwrap().to_string();
        self.run(|a| a.attach_file(path.to_string(), name, 3));
    }

    fn ribbon_nav(&mut self, dir: Dir) {
        let next = match (self.app.ribbon_focus, dir) {
            (Focus::Tab(t), Dir::Right) => Focus::Tab((t + 1).min(5)),
            (Focus::Tab(t), Dir::Left) => Focus::Tab(t.saturating_sub(1)),
            (f, _) => f,
        };
        self.app.ribbon_moved(next);
    }

    /// The editor of the body, as far as these tests go.
    fn edit(&mut self, op: EditorOp) {
        let selection = self.selection;
        let Some(c) = self.app.compose.as_mut() else { return };
        let mut blocks = std::mem::take(&mut c.editor.text.blocks);
        if blocks.is_empty() {
            blocks.push(Block::Paragraph(Vec::new()));
        }
        let last = blocks.len() - 1;
        match op {
            EditorOp::Insert(x) => match &mut blocks[last] {
                Block::Paragraph(r) | Block::ListItem { runs: r, .. } => r.push(plain_run(&x.to_string())),
            },
            EditorOp::SplitParagraph => blocks.push(Block::Paragraph(Vec::new())),
            EditorOp::ToggleList => {
                if let Some(Block::Paragraph(r)) = blocks.pop() {
                    blocks.push(Block::ListItem { ordered: false, level: 0, runs: r });
                }
            }
            EditorOp::ToggleBold => {
                if let (Some((from, to)), Block::Paragraph(r)) = (selection, &mut blocks[0]) {
                    let whole = r.remove(0).text;
                    let mut bold = plain_run(&whole[from.offset..to.offset]);
                    bold.bold = true;
                    r.insert(0, bold);
                    r.insert(1, plain_run(&whole[to.offset..]));
                }
            }
            _ => {}
        }
        let caret = c.editor.caret;
        self.app.body_edited(Editor { text: RichText { blocks }, caret });
    }
}

fn plain_key(code: KeyCode) -> Key {
    Key { code, ctrl: false, shift: false }
}

fn message(id: &str, subject: &str, name: &str, addr: &str, received: &str) -> MessageRow {
    MessageRow {
        id: id.into(),
        folder_id: String::new(),
        subject: subject.into(),
        from_name: name.into(),
        from_addr: addr.into(),
        to_recipients: String::new(),
        cc_recipients: String::new(),
        bcc_recipients: String::new(),
        received_at: received.into(),
        is_read: false,
        is_flagged: false,
        has_attachments: false,
        preview: "hi there".into(),
        is_draft: false,
        is_meeting_request: false,
        categories: Vec::new(),
    }
}

fn hello() -> MessageRow {
    message("m1", "Hello", "Alice", "alice@example.com", "2026-07-16T10:00:00Z")
}

/// Makes a two-message conversation of "c1": from Bob, newer than "m1", unread.
fn seed_second_in_c1(c: &mut Client) {
    let m2 = message("m2", "Re: Hello", "Bob", "bob@example.com", "2026-07-16T11:00:00Z");
    c.store.upsert_message("inbox", "c1", m2);
}

/// A message in a conversation of its own.
fn seed_singleton_c2(c: &mut Client) {
    let mut m3 = message("m3", "Standalone", "Carol", "carol@example.com", "2026-07-15T10:00:00Z");
    m3.is_read = true;
    c.store.upsert_message("inbox", "c2", m3);
}

fn invite() -> MessageRow {
    let mut m = message("invite1", "Sprint review", "Boss", "boss@x", "2026-07-18T10:00:00Z");
    m.is_meeting_request = true;
    m
}

/// Seeds a meeting invite and opens it.
fn open_meeting_invite(c: &mut Client) {
    c.store.upsert_message("inbox", "c9", invite());
    c.reload_messages();
    c.open_message("invite1");
    c.sent.clear();
}

fn event_row(id: &str, subject: &str, start: &str, end: &str) -> EventRow {
    EventRow {
        id: id.into(),
        subject: subject.into(),
        start_utc: start.into(),
        end_utc: end.into(),
        is_all_day: false,
        location: "Room 1".into(),
        organizer_name: "Boss".into(),
        organizer_addr: "boss@example.com".into(),
        response_status: "accepted".into(),
        series_master_id: None,
        reminder_minutes: 0,
        is_reminder_on: false,
    }
}

fn attachment(id: &str, name: &str, kind: AttachmentKind) -> AttachmentMeta {
    AttachmentMeta {
        id: id.into(),
        name: name.into(),
        content_type: "text/plain".into(),
        size: 12,
        is_inline: false,
        content_id: None,
        kind,
        source_url: None,
    }
}

fn shown(l: &Line) -> String {
    l.spans.iter().map(|s| s.text.as_str()).collect()
}

fn all_shown(lines: &[Line]) -> String {
    lines.iter().map(shown).collect::<Vec<String>>().join("\n")
}

fn header_at(c: &Client) -> usize {
    c.visible_rows.iter().position(|r| matches!(r, Row::Header(_))).unwrap()
}

fn thread_of(c: &Client, row: usize) -> usize {
    match c.visible_rows[row] {
        Row::Header(t) | Row::Message(t, _) => t,
    }
}

// ---------------------------------------------------------------------------
// Automatic replies, reminders, availability
// ---------------------------------------------------------------------------

#[test]
fn o_opens_the_oof_form_and_fetches() {
    let mut app = Client::seeded();
    app.on_key_char('O');
    assert!(app.oof_form.as_ref().unwrap().loading);
    match app.sent.pop_front() {
        Some(SyncCommand::FetchAutomaticReplies) => {}
        other => panic!("expected FetchAutomaticReplies, got {other:?}"),
    }
}

fn reminder_row(id: &str, start_utc: &str, minutes: i64, on: bool) -> EventRow {
    EventRow {
        id: id.into(),
        subject: "Standup".into(),
        start_utc: start_utc.into(),
        end_utc: "2026-07-20T10:00:00Z".into(),
        is_all_day: false,
        location: String::new(),
        organizer_name: String::new(),
        organizer_addr: String::new(),
        response_status: "organizer".into(),
        series_master_id: None,
        reminder_minutes: minutes,
        is_reminder_on: on,
    }
}

#[test]
fn check_due_reminders_fires_once_in_window() {
    let mut app = Client::seeded();
    app.agenda = vec![reminder_row("E1", "2026-07-20T09:00:00Z", 15, true)];
    let start = utc_to_epoch("2026-07-20T09:00:00Z");
    let now = start - 5 * 60; // 5 min before, inside the 15-min window
    app.run(|a| a.check_due_reminders(now, 0));
    assert_eq!(app.reminder_queue.len(), 1);
    assert!(app.reminder_queue.front().unwrap().contains("Standup"));
    app.run(|a| a.check_due_reminders(now, 0)); // de-dup
    assert_eq!(app.reminder_queue.len(), 1);
}

#[test]
fn check_due_reminders_respects_window_and_flag() {
    let start = utc_to_epoch("2026-07-20T09:00:00Z");

    let mut app = Client::seeded();
    app.agenda = vec![reminder_row("E1", "2026-07-20T09:00:00Z", 15, false)]; // reminder off
    app.run(|a| a.check_due_reminders(start - 5 * 60, 0));
    assert!(app.reminder_queue.is_empty());

    let mut app = Client::seeded();
    app.agenda = vec![reminder_row("E1", "2026-07-20T09:00:00Z", 15, true)];
    app.run(|a| a.check_due_reminders(start - 60 * 60, 0)); // before the 15-min window
    assert!(app.reminder_queue.is_empty());
    app.run(|a| a.check_due_reminders(start + 60, 0)); // after start
    assert!(app.reminder_queue.is_empty());
}

#[test]
fn agwinterm_notify_fires_only_when_flag_on() {
    let now = utc_to_epoch("2026-07-20T09:00:00Z") - 5 * 60;

    let mut app = Client::seeded();
    app.agenda = vec![reminder_row("E1", "2026-07-20T09:00:00Z", 15, true)];
    app.run(|a| a.check_due_reminders(now, 0)); // flag off (default)
    assert_eq!(app.notified.len(), 0);
    assert_eq!(app.reminder_queue.len(), 1);

    let mut app = Client::seeded();
    app.agenda = vec![reminder_row("E2", "2026-07-20T09:00:00Z", 15, true)];
    app.reminders_notify = true;
    app.run(|a| a.check_due_reminders(now, 0));
    assert_eq!(app.notified.len(), 1);
    assert_eq!(Some(&app.notified[0]), app.reminder_queue.front());
}

#[test]
fn dismiss_reminder_pops_the_front() {
    let mut app = Client::seeded();
    app.reminder_queue.push_back("a".into());
    app.reminder_queue.push_back("b".into());
    app.run(|a| a.dismiss_reminder());
    assert_eq!(app.reminder_queue.front().map(String::as_str), Some("b"));
    app.run(|a| a.dismiss_reminder());
    assert!(app.reminder_queue.is_empty());
}

fn event_form(title: &str, start: &str, end: &str) -> EventForm {
    EventForm {
        editing_id: None,
        title: title.into(),
        start: start.into(),
        end: end.into(),
        all_day: false,
        repeat: None,
        interval: "1".into(),
        days: [false; 7],
        until: String::new(),
        location: String::new(),
        attendees: String::new(),
        body: String::new(),
        focus: EventField::Title,
        autocomplete: None,
        error: None,
    }
}

#[test]
fn open_free_busy_sends_fetch_with_organizer_and_attendees() {
    let mut app = Client::seeded();
    app.account = Some("me@x".into());
    let mut form = event_form("Sync", "2026-07-21 14:00", "2026-07-21 15:00");
    form.attendees = "Alice <alice@x>; bob@x".into();
    app.event_form = Some(form);
    let clock = app.clock();
    app.run(|a| a.open_free_busy(clock));
    assert!(app.free_busy.as_ref().unwrap().loading);
    match app.sent.pop_front() {
        Some(SyncCommand::FetchSchedule { schedules, start_utc, end_utc, interval_minutes }) => {
            assert_eq!(schedules, vec!["me@x", "alice@x", "bob@x"]);
            assert!(start_utc.contains("2026-07-21") && start_utc.ends_with('Z'));
            assert!(end_utc.ends_with('Z'));
            assert_eq!(interval_minutes, 30);
        }
        other => panic!("expected FetchSchedule, got {other:?}"),
    }
}

#[test]
fn schedule_fetched_fills_the_view() {
    let mut app = Client::seeded();
    app.free_busy = Some(FreeBusyView {
        day_label: "Mon Jul 21".into(),
        slot_count: 20,
        entries: Vec::new(),
        loading: true,
    });
    app.on_sync_event(SyncEvent::ScheduleFetched {
        entries: vec![ScheduleEntry { email: "me@x".into(), availability: "000222".into() }],
    });
    let v = app.free_busy.as_ref().unwrap();
    assert!(!v.loading);
    assert_eq!(v.entries.len(), 1);
}

#[test]
fn save_event_form_weekly_builds_recurrence() {
    let mut app = Client::seeded();
    app.mode = Mode::Calendar;
    let mut form = event_form("Standup", "2026-07-20 09:00", "2026-07-20 09:15");
    form.repeat = Some(RecurrenceKind::Weekly);
    form.interval = "2".into();
    form.days[0] = true; // Mon
    form.days[2] = true; // Wed
    form.until = "2026-12-31".into();
    app.event_form = Some(form);
    app.save_event_form();
    assert!(app.event_form.is_none(), "form should close on success");
    let ev = app.store.events_in_window("2026-07-01T00:00:00Z", "2026-08-01T00:00:00Z");
    let id = ev.iter().find(|e| e.subject == "Standup").unwrap().id.clone();
    let rec = app.store.event(&id).unwrap().recurrence.clone().unwrap();
    assert_eq!(rec.kind, RecurrenceKind::Weekly);
    assert_eq!(rec.interval, 2);
    assert_eq!(rec.days_of_week, vec!["monday".to_string(), "wednesday".to_string()]);
    assert_eq!(rec.until.as_deref(), Some("2026-12-31"));
}

#[test]
fn save_event_form_invalid_interval_errors_and_sends_nothing() {
    let mut app = Client::seeded();
    app.mode = Mode::Calendar;
    let mut form = event_form("X", "2026-07-20 09:00", "2026-07-20 09:15");
    form.repeat = Some(RecurrenceKind::Daily);
    form.interval = "zero".into();
    app.event_form = Some(form);
    app.save_event_form();
    assert!(app.event_form.is_some()); // stayed open
    assert_eq!(app.event_form.as_ref().unwrap().error.as_deref(), Some("Invalid interval"));
    assert!(app.sent.is_empty());
}

#[test]
fn o_opens_the_oof_form_in_calendar_mode_too() {
    let mut app = Client::seeded();
    app.mode = Mode::Calendar;
    app.chr('O');
    assert!(app.oof_form.is_some());
}

fn replies(status: OofStatus) -> AutomaticReplies {
    AutomaticReplies {
        status,
        external_audience: ExternalAudience::ContactsOnly,
        internal_message: "Away".into(),
        external_message: "Out".into(),
        scheduled_start_utc: "".into(),
        scheduled_end_utc: "".into(),
    }
}

#[test]
fn automatic_replies_fetched_prefills_the_form() {
    let mut app = Client::seeded();
    app.run(|a| a.open_oof_form());
    app.on_sync_event(SyncEvent::AutomaticRepliesFetched {
        replies: replies(OofStatus::AlwaysEnabled),
    });
    let form = app.oof_form.as_ref().unwrap();
    assert!(!form.loading);
    assert_eq!(form.status, OofStatus::AlwaysEnabled);
    assert_eq!(form.internal, "Away");
}

/// A client with the form open and filled, and nothing sent yet.
fn with_oof_form(status: OofStatus) -> Client {
    let mut app = Client::seeded();
    app.run(|a| a.open_oof_form());
    app.sent.clear();
    let form = app.oof_form.as_mut().unwrap();
    form.loading = false;
    form.status = status;
    app
}

#[test]
fn save_oof_form_scheduled_sends_set_with_parsed_utc() {
    let mut app = with_oof_form(OofStatus::Scheduled);
    let form = app.oof_form.as_mut().unwrap();
    form.start = "2026-07-20 09:00".into();
    form.end = "2026-07-27 17:00".into();
    form.internal = "Away".into();
    app.save_oof_form();
    match app.sent.pop_front() {
        Some(SyncCommand::SetAutomaticReplies { replies }) => {
            assert_eq!(replies.status, OofStatus::Scheduled);
            assert!(replies.scheduled_start_utc.ends_with('Z'));
            assert!(!replies.scheduled_start_utc.is_empty());
            assert!(!replies.scheduled_end_utc.is_empty());
            assert_eq!(replies.scheduled_start_utc, "2026-07-20T09:00:00Z");
            assert_eq!(replies.scheduled_end_utc, "2026-07-27T17:00:00Z");
        }
        other => panic!("expected SetAutomaticReplies, got {other:?}"),
    }
}

#[test]
fn save_oof_form_invalid_schedule_errors_and_sends_nothing() {
    let mut app = with_oof_form(OofStatus::Scheduled);
    app.oof_form.as_mut().unwrap().start = "not a time".into();
    app.save_oof_form();
    assert!(app.oof_form.as_ref().unwrap().error.is_some());
    assert!(app.sent.is_empty()); // nothing sent
}

#[test]
fn save_oof_form_disabled_sends_empty_schedule() {
    let mut app = with_oof_form(OofStatus::Disabled);
    app.oof_form.as_mut().unwrap().start = "garbage".into(); // ignored when not Scheduled
    app.save_oof_form();
    match app.sent.pop_front() {
        Some(SyncCommand::SetAutomaticReplies { replies }) => {
            assert_eq!(replies.status, OofStatus::Disabled);
            assert_eq!(replies.scheduled_start_utc, "");
            assert_eq!(replies.scheduled_end_utc, "");
        }
        other => panic!("expected SetAutomaticReplies, got {other:?}"),
    }
}

#[test]
fn automatic_replies_updated_closes_form_and_notifies() {
    let mut app = Client::seeded();
    app.run(|a| a.open_oof_form());
    app.on_sync_event(SyncEvent::AutomaticRepliesUpdated);
    assert!(app.oof_form.is_none());
    assert_eq!(app.attachment_notice.as_deref(), Some("Automatic replies updated"));
}

#[test]
fn oof_form_captures_text() {
    let mut app = Client::seeded();
    assert!(!app.is_capturing_text());
    app.run(|a| a.open_oof_form());
    assert!(app.is_capturing_text());
}

// ---------------------------------------------------------------------------
// Categories
// ---------------------------------------------------------------------------

fn master(name: &str, color: &str) -> MasterCategory {
    MasterCategory { display_name: name.into(), color: color.into() }
}

#[test]
fn l_opens_assign_picker_seeded_from_message_and_applies() {
    let mut app = Client::seeded();
    app.master_categories = vec![master("Work", "preset0"), master("Urgent", "preset1")];
    app.run(|a| a.open_category_picker(PickerMode::Assign));
    app.sent.clear(); // RefreshCategories
    app.run(|a| a.category_picker_toggle()); // toggle the first item on
    app.run(|a| a.apply_category_picker());
    assert!(app.category_picker.is_none());
    match app.sent.pop_front() {
        Some(SyncCommand::SetCategories { categories, .. }) => {
            assert_eq!(categories.len(), 1);
        }
        other => panic!("expected SetCategories, got {other:?}"),
    }
    assert_eq!(app.store.message("m1").unwrap().categories, vec!["Work".to_string()]);
}

#[test]
fn filter_shows_only_matching_and_clears() {
    let mut app = Client::seeded();
    app.master_categories = vec![master("Work", "preset0")];
    let mut w = message("w", "Work item", "B", "b@x", "2026-07-19T11:00:00Z");
    w.is_read = true;
    w.categories = vec!["Work".into()];
    app.store.upsert_message("inbox", "c2", w);
    app.reload_messages();
    app.run(|a| a.open_category_picker(PickerMode::Filter));
    app.run(|a| a.apply_category_picker()); // highlight = "Work" (only master item)
    assert_eq!(app.category_filter.as_deref(), Some("Work"));
    assert!(app.messages.iter().all(|m| m.categories.contains(&"Work".to_string())));
    assert_eq!(app.messages.len(), 1);
    app.run(|a| a.clear_category_filter());
    assert!(app.category_filter.is_none());
    assert!(app.messages.len() >= 2); // m1 back
}

#[test]
fn toggling_a_category_twice_changes_nothing() {
    let mut app = Client::seeded();
    app.master_categories = vec![master("Work", "preset0")];
    app.run(|a| a.open_category_picker(PickerMode::Assign));
    app.run(|a| a.category_picker_toggle());
    assert!(app.category_picker.as_ref().unwrap().items[0].selected);
    app.run(|a| a.category_picker_toggle());
    assert!(!app.category_picker.as_ref().unwrap().items[0].selected);
}

// ---------------------------------------------------------------------------
// Answering invites
// ---------------------------------------------------------------------------

fn declining(start: &str, end: &str) -> RsvpPrompt {
    RsvpPrompt {
        target: RsvpTarget::Event("E1".into()),
        kind: "declined".into(),
        comment: String::new(),
        proposed_start: start.into(),
        proposed_end: end.into(),
        focus: RsvpField::ProposedStart,
    }
}

#[test]
fn calendar_decline_with_proposed_time_sends_respond_event() {
    let mut app = Client::seeded();
    app.rsvp_prompt = Some(declining("2026-07-21 14:00", "2026-07-21 15:00"));
    app.submit_rsvp();
    let mut found = None;
    while let Some(cmd) = app.sent.pop_front() {
        if let SyncCommand::RespondEvent { proposed_start_utc, .. } = cmd {
            found = proposed_start_utc;
            break;
        }
    }
    assert!(found.is_some_and(|s| s.ends_with('Z')));
    assert!(app.rsvp_prompt.is_none());
}

#[test]
fn mail_d_opens_prompt_and_a_is_instant() {
    let mut app = Client::seeded();
    open_meeting_invite(&mut app);
    app.on_key_char('A');
    assert!(app.rsvp_prompt.is_none());
    assert!(matches!(app.sent.pop_front(), Some(SyncCommand::RespondMeeting { .. })));
    app.on_key_char('D');
    let p = app.rsvp_prompt.as_ref().unwrap();
    assert!(matches!(p.target, RsvpTarget::Message(_)));
    assert_eq!(p.focus, RsvpField::ProposedStart);
    assert!(app.sent.is_empty());
}

#[test]
fn mail_decline_with_proposed_time_sends_respond_meeting() {
    let mut app = Client::seeded();
    open_meeting_invite(&mut app);
    app.run(|a| a.start_meeting_rsvp("declined"));
    let p = app.rsvp_prompt.as_mut().unwrap();
    p.proposed_start = "2026-07-21 14:00".into();
    p.proposed_end = "2026-07-21 15:00".into();
    app.submit_rsvp();
    match app.sent.pop_front() {
        Some(SyncCommand::RespondMeeting { kind, proposed_start_utc, .. }) => {
            assert_eq!(kind, RsvpKind::Decline);
            assert!(proposed_start_utc.is_some());
        }
        other => panic!("expected RespondMeeting, got {other:?}"),
    }
}

#[test]
fn half_filled_proposed_time_errors_and_sends_nothing() {
    let mut app = Client::seeded();
    app.rsvp_prompt = Some(declining("2026-07-21 14:00", "")); // half-filled
    app.submit_rsvp();
    assert!(app.rsvp_prompt.is_some()); // stayed open
    assert!(app.sent.is_empty());
    assert_eq!(app.error_notice.as_deref(), Some("Invalid proposed time"));
}

#[test]
fn respond_meeting_on_an_invite_sends_command() {
    let mut app = Client::seeded();
    open_meeting_invite(&mut app);
    app.run(|a| a.respond_meeting(RsvpKind::Accept));
    match app.sent.pop_front() {
        Some(SyncCommand::RespondMeeting { message_id, kind, .. }) => {
            assert_eq!(message_id, "invite1");
            assert_eq!(kind, RsvpKind::Accept);
        }
        other => panic!("expected RespondMeeting, got {other:?}"),
    }
}

#[test]
fn respond_meeting_on_ordinary_mail_is_a_noop() {
    let mut app = Client::seeded();
    app.open_message("m1"); // m1 is an ordinary message
    app.sent.clear(); // open's FetchBody
    app.run(|a| a.respond_meeting(RsvpKind::Accept));
    assert!(app.sent.is_empty()); // nothing sent
}

#[test]
fn uppercase_a_d_t_route_to_respond_meeting_only_for_invites() {
    // Ordinary mail: A/D/T do nothing (no command, no prompt).
    let mut app = Client::seeded();
    app.open_message("m1");
    app.sent.clear(); // open's FetchBody
    app.on_key_char('A');
    app.on_key_char('D');
    app.on_key_char('T');
    assert!(app.sent.is_empty());
    assert!(app.rsvp_prompt.is_none());

    // Invite: 'D' opens the RSVP prompt with the matching kind.
    let mut app = Client::seeded();
    open_meeting_invite(&mut app);
    app.on_key_char('D');
    assert_eq!(app.rsvp_prompt.as_ref().unwrap().kind, "declined");
}

#[test]
fn meeting_responded_notice_and_marks_read() {
    let mut app = Client::seeded();
    open_meeting_invite(&mut app);
    app.on_sync_event(SyncEvent::MeetingResponded {
        message_id: "invite1".into(),
        kind: RsvpKind::Tentative,
    });
    assert_eq!(app.attachment_notice.as_deref(), Some("Tentatively accepted the invite"));
    // Marked read locally.
    let rows = app.store.messages_in_folder("inbox");
    assert!(rows.iter().find(|m| m.id == "invite1").unwrap().is_read);
}

// ---------------------------------------------------------------------------
// Conversations and triage
// ---------------------------------------------------------------------------

#[test]
fn threaded_reload_groups_into_visible_rows() {
    let mut app = Client::seeded();
    app.threaded = true;
    seed_second_in_c1(&mut app); // c1 now has m1 + m2 → a 2-message thread
    seed_singleton_c2(&mut app); // c2 is a 1-message thread
    app.reload_messages();

    // The multi-message thread (c1) is a Header; the singleton (c2) a bare Message.
    assert!(app.visible_rows.iter().any(|r| matches!(r, Row::Header(_))));
    assert!(app.visible_rows.iter().any(|r| matches!(r, Row::Message(_, _))));
}

#[test]
fn threaded_reload_expands_to_show_children() {
    let mut app = Client::seeded();
    app.threaded = true;
    seed_second_in_c1(&mut app);
    app.reload_messages();
    let pos = header_at(&app);
    let before = app.visible_rows.len();
    let t = thread_of(&app, pos);
    app.threads[t].expanded = true;
    app.run(|a| a.rebuild_visible_rows());
    assert!(app.visible_rows.len() > before); // child rows appeared
}

#[test]
fn thread_navigation_is_clamped_over_visible_rows() {
    let mut app = Client::seeded();
    app.threaded = true;
    seed_second_in_c1(&mut app); // c1 header
    seed_singleton_c2(&mut app); // c2 message → visible_rows.len() >= 2
    app.reload_messages();
    app.row_index = 0;
    app.run(|a| a.move_thread_selection(-1));
    assert_eq!(app.row_index, 0); // clamped at the top
    let last = app.visible_rows.len().saturating_sub(1);
    app.row_index = last;
    app.run(|a| a.move_thread_selection(1));
    assert_eq!(app.row_index, last); // clamped at the bottom
}

#[test]
fn activating_a_collapsed_header_expands_and_opens_latest() {
    let mut app = Client::seeded();
    app.threaded = true;
    seed_second_in_c1(&mut app); // c1 = [m1 10:00, m2 11:00]; latest = m2
    app.reload_messages();
    let pos = header_at(&app);
    app.row_index = pos;
    app.run(|a| a.activate_thread_row());
    match app.visible_rows[pos] {
        Row::Header(t) => {
            assert!(app.threads[t].expanded);
            assert_eq!(app.selected_msg.as_deref(), Some("m2")); // newest opened
        }
        other => panic!("expected the header, got {other:?}"),
    }
}

#[test]
fn reload_with_no_folder_resets_cursors() {
    let mut app = Client::seeded();
    app.msg_index = 5;
    app.row_index = 5;
    app.selected_folder = None;
    app.reload_messages();

    assert_eq!(app.msg_index, 0);
    assert_eq!(app.row_index, 0);
    assert!(app.messages.is_empty());
    assert!(app.visible_rows.is_empty());
}

#[test]
fn mark_read_updates_store_and_enqueues_command() {
    let mut app = Client::seeded(); // has one unread message selected
    app.on_key_char('m');
    // store row now read
    let folder = app.selected_folder.clone().unwrap();
    let rows = app.store.messages_in_folder(&folder);
    assert!(rows[0].is_read);
    // a MarkRead command was sent
    assert!(matches!(app.sent.pop_back(), Some(SyncCommand::MarkRead { .. })));
}

#[test]
fn mark_read_on_a_collapsed_header_marks_the_whole_thread() {
    let mut app = Client::seeded();
    app.threaded = true;
    seed_second_in_c1(&mut app); // c1 = m1 + m2, both unread
    app.reload_messages();
    app.row_index = header_at(&app);

    app.run(|a| a.mark_read(true));

    // Both messages are now read in the reloaded thread...
    let t = thread_of(&app, header_at(&app));
    assert!(app.threads[t].thread.messages.iter().all(|m| m.is_read));
    // ...and one MarkRead command was enqueued per message.
    let mut count = 0;
    while let Some(SyncCommand::MarkRead { read: true, .. }) = app.sent.pop_front() {
        count += 1;
    }
    assert_eq!(count, 2);
}

#[test]
fn toggle_flag_on_mixed_thread_flags_all() {
    let mut app = Client::seeded();
    app.threaded = true;
    seed_second_in_c1(&mut app); // c1 = m1 + m2, both start unflagged
    app.store.message("m1").unwrap().is_flagged = true; // now MIXED: m1 flagged, m2 not
    app.reload_messages();
    app.row_index = header_at(&app);

    app.run(|a| a.toggle_flag());

    // The mixed thread must be completed (every message flagged), not stripped.
    let t = thread_of(&app, header_at(&app));
    assert!(app.threads[t].thread.messages.iter().all(|m| m.is_flagged));
    // ...and one SetFlag { flagged: true } command was enqueued per message.
    let mut count = 0;
    while let Some(SyncCommand::SetFlag { flagged: true, .. }) = app.sent.pop_front() {
        count += 1;
    }
    assert_eq!(count, 2);
}

#[test]
fn a_conversation_flagged_throughout_is_cleared() {
    let mut app = Client::seeded();
    app.threaded = true;
    seed_second_in_c1(&mut app);
    app.store.message("m1").unwrap().is_flagged = true;
    app.store.message("m2").unwrap().is_flagged = true;
    app.reload_messages();
    app.row_index = header_at(&app);
    app.run(|a| a.toggle_flag());
    assert!(app.store.messages_in_folder("inbox").iter().all(|m| !m.is_flagged));
}

#[test]
fn deleting_a_thread_confirms_then_deletes_every_message() {
    let mut app = Client::seeded();
    app.threaded = true;
    seed_second_in_c1(&mut app); // c1 = m1 + m2
    app.reload_messages();
    app.row_index = header_at(&app);

    // First `d` only opens the confirm modal — nothing deleted yet.
    app.run(|a| a.delete_selected());
    assert!(app.confirm.is_some());
    assert!(app.sent.is_empty());

    // Confirming deletes all messages and enqueues one Delete per message.
    app.run(|a| a.confirm_yes());
    assert!(app.confirm.is_none());
    let mut count = 0;
    while let Some(SyncCommand::Delete { .. }) = app.sent.pop_front() {
        count += 1;
    }
    assert_eq!(count, 2);
}

#[test]
fn canceling_the_confirm_deletes_nothing() {
    let mut app = Client::seeded();
    app.threaded = true;
    seed_second_in_c1(&mut app);
    app.reload_messages();
    app.row_index = header_at(&app);
    app.run(|a| a.delete_selected());
    app.run(|a| a.cancel_confirm());
    assert!(app.confirm.is_none());
    assert!(app.sent.is_empty());
}

#[test]
fn the_question_says_how_many_messages_and_in_which_folder() {
    let mut app = Client::seeded();
    app.threaded = true;
    seed_second_in_c1(&mut app);
    app.reload_messages();
    app.row_index = header_at(&app);
    app.run(|a| a.delete_selected());
    let prompt = &app.confirm.as_ref().unwrap().prompt;
    assert!(prompt.starts_with("Delete "), "{prompt}");
    assert!(prompt.contains('2'), "{prompt}");
    assert!(prompt.ends_with('?'), "{prompt}");
}

#[test]
fn moving_a_thread_confirms_then_moves_every_message() {
    let mut app = Client::seeded();
    app.threaded = true;
    app.store.upsert_folder("archive", "Archive", None, Some("archive"));
    seed_second_in_c1(&mut app); // c1 = m1 + m2
    app.reload_messages();
    app.row_index = header_at(&app);

    // `v` must open the picker on a thread.
    app.run(|a| a.open_move_picker());
    assert!(app.move_picker.is_some());

    let picker = app.move_picker.as_mut().unwrap();
    picker.index = picker.folders.iter().position(|f| f.id == "archive").unwrap();

    // Enter on the picker only opens the confirm modal for a multi-message
    // thread — nothing moved yet.
    app.run(|a| a.confirm_move());
    assert!(app.confirm.is_some());
    assert!(app.sent.is_empty());

    // Confirming moves every message and enqueues one Move per message.
    app.run(|a| a.confirm_yes());
    assert!(app.confirm.is_none());
    let mut count = 0;
    while let Some(SyncCommand::Move { dest, .. }) = app.sent.pop_front() {
        assert_eq!(dest, "archive");
        count += 1;
    }
    assert_eq!(count, 2);
}

#[test]
fn t_key_toggles_threaded_and_rebuilds() {
    let mut app = Client::seeded();
    // starts flat; config_path is None → no disk write
    seed_second_in_c1(&mut app);
    app.reload_messages();
    assert!(!app.messages.is_empty()); // flat list populated

    app.on_key_char('t');
    assert!(app.threaded);
    assert!(!app.visible_rows.is_empty()); // threaded view built

    app.on_key_char('t');
    assert!(!app.threaded);
    assert!(!app.messages.is_empty()); // back to flat
}

// ---------------------------------------------------------------------------
// Reading
// ---------------------------------------------------------------------------

#[test]
fn opening_a_message_with_no_cached_body_requests_a_fetch() {
    let mut app = Client::seeded();
    app.open_message("m1");

    assert!(app.body_loading);
    assert!(app.body.is_none());
    match app.sent.pop_front() {
        Some(SyncCommand::FetchBody { id }) => assert_eq!(id, "m1"),
        other => panic!("expected a FetchBody command, got {other:?}"),
    }
}

#[test]
fn opening_a_message_with_a_cached_body_renders_it_without_fetching() {
    let mut app = Client::seeded();
    app.store.put_body("m1", "text", "hello body");

    app.open_message("m1");

    assert!(!app.body_loading);
    assert_eq!(app.body.as_ref().map(|b| b.content.as_str()), Some("hello body"));
    assert!(app.sent.is_empty());
}

#[test]
fn reading_scroll_clamps_and_resets_on_open() {
    let mut app = Client::seeded();
    app.reading_scroll = 0;
    app.reading_viewport = 5; // 5 visible body rows
    app.reading_content_rows = 20; // 20 total rows
    app.run(|a| a.reading_scroll_by(100)); // way past the end
    assert_eq!(app.reading_scroll, 15); // clamped to content(20) - viewport(5)
    app.run(|a| a.reading_scroll_by(-100));
    assert_eq!(app.reading_scroll, 0);
    // opening a message resets scroll
    app.reading_scroll = 7;
    app.open_message("m1");
    assert_eq!(app.reading_scroll, 0);
}

#[test]
fn reload_body_clears_state_when_nothing_is_selected() {
    let mut app = Client::seeded();
    app.open_message("m1");
    assert!(app.body_loading);

    app.selected_msg = None;
    app.run(|a| a.reload_body());

    assert!(!app.body_loading);
    assert!(app.body.is_none());
}

/// Seeds a message with an HTML body.
fn seed_html_message(app: &mut Client, id: &str, html: &str) {
    let mut m = message(id, "Hello", "Alice", "alice@example.com", "2026-07-16T10:00:00Z");
    m.has_attachments = true;
    app.store.upsert_message("inbox", "c1", m);
    app.store.put_body(id, "html", html);
}

fn inline_image(content_id: &str) -> AttachmentMeta {
    AttachmentMeta {
        id: "att1".into(),
        name: "logo.png".into(),
        content_type: "image/png".into(),
        size: 3,
        is_inline: true,
        content_id: Some(content_id.into()),
        kind: AttachmentKind::File,
        source_url: None,
    }
}

/// The attachments asked for as the image with this content id.
fn fetches_of(app: &Client, cid: &str) -> Vec<String> {
    app.sent
        .iter()
        .filter_map(|c| match c {
            SyncCommand::FetchInlineImage { attachment_id, content_id, .. }
                if content_id == cid =>
            {
                Some(attachment_id.clone())
            }
            _ => None,
        })
        .collect()
}

#[test]
fn opening_a_message_with_cid_images_requests_their_bytes() {
    let mut app = Client::seeded();
    seed_html_message(&mut app, "mimg", r#"<p>hi</p><img src="cid:logo"><p>bye</p>"#);
    app.store.put_attachments("mimg", vec![inline_image("logo")]);

    app.open_message("mimg"); // loads body + should request inline images

    assert_eq!(fetches_of(&app, "logo"), vec!["att1"], "exactly one fetch");

    // Delivering the bytes caches them by content_id:
    app.on_sync_event(SyncEvent::InlineImageReady {
        message_id: "mimg".into(),
        content_id: "logo".into(),
        bytes: vec![1, 2, 3],
    });
    let cached = app.inline_images.iter().find(|(c, _)| c == "logo");
    assert_eq!(cached.map(|(_, b)| b.as_slice()), Some(&[1, 2, 3][..]));
}

#[test]
fn cid_matching_tolerates_angle_bracketed_content_ids() {
    let mut app = Client::seeded();
    seed_html_message(&mut app, "mimg2", r#"<p>hi</p><img src="cid:logo@x"><p>bye</p>"#);
    app.store.put_attachments("mimg2", vec![inline_image("<logo@x>")]);

    app.open_message("mimg2");

    assert_eq!(fetches_of(&app, "logo@x"), vec!["att1"], "exactly one fetch");
}

#[test]
fn opening_a_cached_html_message_sends_only_one_fetch_attachments() {
    let mut app = Client::seeded();
    seed_html_message(&mut app, "mimg3", r#"<p>hi</p><img src="cid:logo"><p>bye</p>"#);
    // No attachments are stored: what they are is unknown.

    app.open_message("mimg3");

    let fetches = app
        .sent
        .iter()
        .filter(|c| matches!(c, SyncCommand::FetchAttachments { message_id } if message_id == "mimg3"))
        .count();
    assert_eq!(fetches, 1, "expected exactly one FetchAttachments for mimg3");
}

#[test]
fn an_image_for_another_message_is_dropped() {
    let mut app = Client::seeded();
    app.open_message("m1");
    app.on_sync_event(SyncEvent::InlineImageReady {
        message_id: "gone".into(),
        content_id: "logo".into(),
        bytes: vec![1],
    });
    assert!(app.inline_images.is_empty());
}

// ---------------------------------------------------------------------------
// Attachments
// ---------------------------------------------------------------------------

/// Seeds one attachment of the highlighted message, and opens the popup.
fn seed_one_attachment(app: &mut Client, meta: AttachmentMeta) {
    app.store.put_attachments("m1", vec![meta]);
    app.run(|a| a.open_attachments_popup());
}

fn notes() -> AttachmentMeta {
    attachment("a1", "notes.txt", AttachmentKind::File)
}

#[test]
fn opening_attachments_popup_lists_stored_attachments() {
    let mut app = Client::seeded();
    seed_one_attachment(&mut app, notes());

    let popup = app.attachments.as_ref().expect("popup open");
    assert_eq!(popup.message_id, "m1");
    assert_eq!(popup.items.len(), 1);
    assert_eq!(popup.items[0].name, "notes.txt");
}

#[test]
fn attachments_popup_does_not_open_with_no_attachments() {
    let mut app = Client::seeded();
    app.run(|a| a.open_attachments_popup());
    assert!(app.attachments.is_none());
}

#[test]
fn does_not_open_when_the_highlighted_message_has_no_attachments() {
    let mut app = Client::seeded();
    app.run(|a| a.open_attachments_popup());
    assert!(app.attachments.is_none());
}

#[test]
fn esc_closes_the_attachments_popup() {
    let mut app = Client::seeded();
    seed_one_attachment(&mut app, notes());
    assert!(app.attachments.is_some());

    app.run(|a| a.cancel_attachments_popup());

    assert!(app.attachments.is_none());
}

#[test]
fn popup_overlay_draws_nothing_when_closed() {
    let app = Client::seeded();
    assert!(app.attachments.is_none());
    assert!(!app.draws(Widget::Attachments));
}

#[test]
fn enter_saves_the_highlighted_attachment_via_sync_command() {
    let mut app = Client::seeded();
    seed_one_attachment(&mut app, notes());

    app.run(|a| a.save_attachment());

    let dest = match app.sent.pop_front() {
        Some(SyncCommand::SaveAttachment { message_id, attachment_id, dest }) => {
            assert_eq!(message_id, "m1");
            assert_eq!(attachment_id, "a1");
            assert!(dest.ends_with("/notes.txt"));
            assert!(dest.starts_with(DOWNLOADS));
            dest
        }
        other => panic!("expected a SaveAttachment command, got {other:?}"),
    };
    // Enter, not `o`: nothing is opened once the save completes.
    app.finish_attachment_save(&dest);
    assert_eq!(app.opened.len(), 0);
}

fn saved_path(name: &str) -> String {
    format!("{DOWNLOADS}/{name}")
}

fn pending(app: &Client, dest: &str) -> Option<bool> {
    app.pending_saves.iter().find(|(p, _)| p == dest).map(|(_, open)| *open)
}

#[test]
fn o_marks_the_save_to_open_once_it_completes() {
    let mut app = Client::seeded();
    seed_one_attachment(&mut app, notes());

    app.run(|a| a.save_and_open_attachment());
    let dest = saved_path("notes.txt");
    assert_eq!(pending(&app, &dest), Some(true));

    // Once the sync engine reports the save, it is opened exactly once.
    app.finish_attachment_save(&dest);

    assert!(app.pending_saves.is_empty());
    assert!(app.attachments.is_none());
    assert_eq!(app.opened, vec![dest.clone()]);
    assert_eq!(app.attachment_notice.as_deref(), Some(format!("Saved: {dest}").as_str()));
}

#[test]
fn enter_save_does_not_invoke_the_os_open_seam() {
    let mut app = Client::seeded();
    seed_one_attachment(&mut app, notes());

    app.run(|a| a.save_attachment());
    app.finish_attachment_save(&saved_path("notes.txt"));

    assert_eq!(app.opened.len(), 0);
}

#[test]
fn overlapping_saves_resolve_independent_open_intents() {
    // Saving attachment #1 with `o` and attachment #2 with Enter, before #1's
    // event lands, must not cross-wire: #2 finishing first must not open
    // anything or close the popup; #1 finishing must open, and only then can
    // the popup close.
    let mut app = Client::seeded();
    app.store.put_attachments(
        "m1",
        vec![
            attachment("a1", "one.txt", AttachmentKind::File),
            attachment("a2", "two.txt", AttachmentKind::File),
        ],
    );
    app.run(|a| a.open_attachments_popup());

    app.run(|a| a.save_and_open_attachment()); // #1: "one.txt", open-after = true
    app.run(|a| a.attachments_select(1));
    app.run(|a| a.save_attachment()); // #2: "two.txt", open-after = false

    app.finish_attachment_save(&saved_path("two.txt"));
    assert_eq!(app.opened.len(), 0);
    assert!(app.attachments.is_some(), "popup must stay open while save #1 is still pending");

    app.finish_attachment_save(&saved_path("one.txt"));
    assert_eq!(app.opened.len(), 1);
    assert!(app.attachments.is_none());
}

#[test]
fn saving_an_item_attachment_sends_save_item_command_with_extensionless_base() {
    let mut app = Client::seeded();
    seed_one_attachment(&mut app, attachment("a1", "Invite.ics", AttachmentKind::Item));
    app.run(|a| a.save_attachment()); // Enter
    match app.sent.pop_front() {
        Some(SyncCommand::SaveItemAttachment { dest_base, .. }) => {
            // extension stripped so the engine can choose .ics/.eml
            assert!(!dest_base.contains('.'));
            assert!(dest_base.rsplit('/').next().unwrap().starts_with("Invite"));
        }
        other => panic!("expected SaveItemAttachment, got {other:?}"),
    }
}

fn linked(url: Option<&str>) -> AttachmentMeta {
    let mut a = attachment("a2", "Doc", AttachmentKind::Reference);
    a.source_url = url.map(Into::into);
    a
}

#[test]
fn opening_a_reference_attachment_opens_the_link_and_sends_no_command() {
    let mut app = Client::seeded();
    seed_one_attachment(&mut app, linked(Some("https://x/y")));
    app.run(|a| a.save_attachment()); // Enter -> opens the link
    assert_eq!(app.opened, vec!["https://x/y"]); // OS handler invoked
    assert!(app.sent.is_empty()); // no command
    assert!(app.attachments.is_none()); // popup closed
}

#[test]
fn opening_a_reference_attachment_with_no_link_leaves_the_popup_open() {
    let mut app = Client::seeded();
    seed_one_attachment(&mut app, linked(None));
    app.run(|a| a.save_attachment());
    assert!(app.opened.is_empty()); // no OS handler invoked
    assert!(app.sent.is_empty()); // no command
    assert!(app.attachments.is_some()); // popup stays open
    assert_eq!(app.attachment_notice.as_deref(), Some("No link for this attachment"));
}

#[test]
fn opening_a_reference_attachment_with_a_non_web_url_refuses_to_open() {
    let mut app = Client::seeded();
    seed_one_attachment(&mut app, linked(Some(r"\\attacker\share")));
    app.run(|a| a.save_attachment());
    assert!(app.opened.is_empty()); // no OS handler invoked
    assert!(app.sent.is_empty()); // no command
    assert!(app.attachments.is_some()); // popup stays open
    assert_eq!(app.attachment_notice.as_deref(), Some("Refusing to open non-web link"));
}

#[test]
fn finish_attachment_save_opens_item_file_by_stem() {
    let mut app = Client::seeded();
    app.pending_saves.push((saved_path("Invite"), true)); // open_after = true
    app.finish_attachment_save(&saved_path("Invite.ics")); // engine chose .ics
    assert_eq!(app.opened.len(), 1); // opened via stem match
}

/// The message has attachments, but nothing is known of them yet.
fn seed_message_with_has_attachments_but_no_local_rows(app: &mut Client) {
    let mut m1 = hello();
    m1.has_attachments = true;
    app.store.upsert_message("inbox", "c1", m1);
    app.reload_messages();
}

#[test]
fn a_fetches_attachment_metadata_when_none_stored_locally_but_graph_has_some() {
    let mut app = Client::seeded();
    seed_message_with_has_attachments_but_no_local_rows(&mut app);
    assert!(app.messages[0].has_attachments);
    assert!(app.store.attachments("m1").is_empty());

    app.run(|a| a.open_attachments_popup());

    let popup = app.attachments.as_ref().expect("popup should open in a loading state");
    assert!(popup.loading);
    assert!(popup.items.is_empty());
    assert!(matches!(
        app.sent.pop_front(),
        Some(SyncCommand::FetchAttachments { message_id }) if message_id == "m1"
    ));
}

#[test]
fn popup_shows_a_loading_placeholder_while_metadata_fetch_is_in_flight() {
    let mut app = Client::seeded();
    seed_message_with_has_attachments_but_no_local_rows(&mut app);
    app.run(|a| a.open_attachments_popup());
    assert!(app.attachments.as_ref().unwrap().loading);
    assert!(app.draws(Widget::Attachments));
}

#[test]
fn reload_attachments_fills_in_the_popup_once_metadata_lands() {
    let mut app = Client::seeded();
    seed_message_with_has_attachments_but_no_local_rows(&mut app);
    app.run(|a| a.open_attachments_popup());
    assert!(app.attachments.as_ref().unwrap().loading);

    // The fetch has now landed and stored the metadata.
    let f = attachment("a1", "f.txt", AttachmentKind::File);
    app.store.put_attachments("m1", vec![f]);
    app.run(|a| a.reload_attachments(&"m1".to_string()));

    let popup = app.attachments.as_ref().expect("popup stays open");
    assert!(!popup.loading);
    assert_eq!(popup.items.len(), 1);
    assert_eq!(popup.items[0].name, "f.txt");
}

#[test]
fn reload_attachments_ignores_updates_for_a_different_message() {
    let mut app = Client::seeded();
    seed_one_attachment(&mut app, attachment("a1", "f.txt", AttachmentKind::File));
    assert!(app.attachments.is_some());

    app.run(|a| a.reload_attachments(&"some-other-message-id".to_string()));

    assert_eq!(app.attachments.as_ref().unwrap().items.len(), 1);
}

#[test]
fn attachments_in_threaded_mode_uses_cursor_message() {
    let mut app = Client::seeded();
    app.threaded = true;
    seed_second_in_c1(&mut app); // c1 = m1@10:00, m2@11:00; latest = m2
    app.store.message("m1").unwrap().has_attachments = true;
    app.store.message("m2").unwrap().has_attachments = true;
    let one = attachment("a1", "one.txt", AttachmentKind::File);
    let two = attachment("a2", "two.txt", AttachmentKind::File);
    app.store.put_attachments("m1", vec![one]);
    app.store.put_attachments("m2", vec![two]);
    app.reload_messages();

    // Cursor on the (collapsed) header: the thread's latest message (m2).
    let pos = header_at(&app);
    app.row_index = pos;
    app.run(|a| a.open_attachments_popup());
    {
        let popup = app.attachments.as_ref().expect("popup for the header's latest message");
        assert_eq!(popup.message_id, "m2");
        assert_eq!(popup.items[0].name, "two.txt");
    }
    app.attachments = None;

    // Expand and move onto m1's own child row: now it must target m1.
    expand_and_point_at(&mut app, pos, "m1");
    app.run(|a| a.open_attachments_popup());
    let popup = app.attachments.as_ref().expect("popup should open for m1's row");
    assert_eq!(popup.message_id, "m1");
    assert_eq!(popup.items[0].name, "one.txt");
}

/// Expands the conversation of a row, and puts the cursor on one of its
/// messages.
fn expand_and_point_at(app: &mut Client, header: usize, id: &str) {
    let t = thread_of(app, header);
    app.threads[t].expanded = true;
    app.run(|a| a.rebuild_visible_rows());
    let at = app.visible_rows.iter().position(|r| match r {
        Row::Message(t, m) => app.threads[*t].thread.messages[*m].id == id,
        Row::Header(_) => false,
    });
    app.row_index = at.unwrap();
}

// ---------------------------------------------------------------------------
// Sign-in, sync state, folders
// ---------------------------------------------------------------------------

const AUTHORIZE: &str = "https://login.microsoftonline.com/organizations/oauth2/v2.0/authorize?x=1";

fn sign_in_started() -> SyncEvent {
    SyncEvent::SignInStarted { authorize_url: AUTHORIZE.into() }
}

fn asked_to_sign_in(app: &mut Client) -> bool {
    matches!(app.sent.pop_back(), Some(SyncCommand::SignIn))
}

#[test]
fn signin_required_shows_prompt_and_enter_sends_signin() {
    let mut app = Client::seeded();
    app.on_sync_event(SyncEvent::SignInRequired);
    assert!(app.draws(Widget::SignIn));
    app.run(|a| a.on_key_enter());
    assert!(asked_to_sign_in(&mut app));
}

#[test]
fn signin_started_shows_browser_message() {
    let mut app = Client::seeded();
    app.on_sync_event(sign_in_started());
    assert!(app.draws(Widget::SignIn));
    assert_eq!(app.opened, vec![AUTHORIZE]);
}

#[test]
fn enter_on_the_started_modal_does_not_resend_signin() {
    let mut app = Client::seeded();
    app.on_sync_event(sign_in_started());
    app.run(|a| a.on_key_enter());
    assert!(!asked_to_sign_in(&mut app));
}

#[test]
fn folders_updated_clears_the_signin_modal() {
    let mut app = Client::seeded();
    app.on_sync_event(SyncEvent::SignInRequired);
    assert!(app.signin_modal.is_some());

    app.on_sync_event(SyncEvent::FoldersUpdated);

    assert!(app.signin_modal.is_none());
}

#[test]
fn idle_state_clears_the_signin_modal() {
    let mut app = Client::seeded();
    app.on_sync_event(sign_in_started());
    assert!(app.signin_modal.is_some());

    app.on_sync_event(SyncEvent::State(SyncState::Idle));

    assert!(app.signin_modal.is_none());
}

#[test]
fn empty_store_app_has_no_account_and_no_signin_modal() {
    let app = Client::empty();
    assert!(app.account.is_none());
    assert!(app.signin_modal.is_none());
}

#[test]
fn sync_error_is_surfaced_and_rendered_in_the_status_bar() {
    let mut app = Client::seeded();
    app.on_sync_event(SyncEvent::Error("boom".into()));
    assert_eq!(app.error_notice.as_deref(), Some("boom"));
    assert!(app.draws(Widget::StatusBar));
}

#[test]
fn a_successful_sync_state_clears_a_prior_error_notice() {
    let mut app = Client::seeded();
    app.on_sync_event(SyncEvent::Error("boom".into()));
    assert!(app.error_notice.is_some());
    app.on_sync_event(SyncEvent::State(SyncState::Idle));
    assert!(app.error_notice.is_none());
}

#[test]
fn a_non_signin_state_after_sign_in_clears_the_modal() {
    let mut app = Client::seeded();
    app.on_sync_event(sign_in_started());
    assert!(app.signin_modal.is_some());

    app.on_sync_event(SyncEvent::State(SyncState::Syncing));
    assert!(app.signin_modal.is_none());
}

#[test]
fn state_signin_required_keeps_the_modal_showing() {
    let mut app = Client::seeded();
    app.on_sync_event(SyncEvent::SignInRequired);
    assert!(app.signin_modal.is_some());

    app.on_sync_event(SyncEvent::State(SyncState::SignInRequired));
    assert!(app.signin_modal.is_some());
}

#[test]
fn a_failure_ends_the_waiting() {
    let mut app = Client::seeded();
    app.run(|a| a.open_oof_form());
    app.on_sync_event(SyncEvent::Error("offline".into()));
    assert!(!app.oof_form.as_ref().unwrap().loading);
}

fn inbox_expanded(a: &Client) -> bool {
    a.folders.iter().any(|f| f.id == "inbox" && f.is_expanded)
}

fn visible_at(app: &Client, id: &str) -> Option<usize> {
    app.visible_folders.iter().position(|v| v.row.id == id)
}

#[test]
fn inbox_expands_once_on_first_run_then_respects_user() {
    let mut app = Client::with_folder_tree();
    assert!(!inbox_expanded(&app)); // seeded collapsed
    app.run(|a| a.ensure_folder_tree_initialized());
    assert!(inbox_expanded(&app)); // auto-expanded on first run

    // User collapses the Inbox.
    app.folder_index = visible_at(&app, "inbox").unwrap();
    app.run(|a| a.collapse_or_parent());
    assert!(!inbox_expanded(&app));

    // A later init attempt is a no-op — the flag was consumed.
    app.run(|a| a.ensure_folder_tree_initialized());
    assert!(!inbox_expanded(&app));
}

#[test]
fn expand_and_collapse_selected_folder() {
    let mut app = Client::with_folder_tree();
    app.focus = Pane::Folders;
    app.folder_index = 0; // Inbox
    app.run(|a| a.expand_selected());
    assert!(visible_at(&app, "epam").is_some());
    app.run(|a| a.collapse_or_parent());
    assert!(visible_at(&app, "epam").is_none());
}

fn expand_inbox(app: &mut Client) {
    app.store.folders[0].is_expanded = true;
    app.run(|a| a.reload_folders());
}

#[test]
fn collapse_on_a_child_moves_selection_to_its_parent() {
    let mut app = Client::with_folder_tree();
    expand_inbox(&mut app);
    app.folder_index = visible_at(&app, "epam").unwrap();
    app.run(|a| a.collapse_or_parent()); // EPAM is a leaf → jump to parent
    assert_eq!(app.selected_folder.as_deref(), Some("inbox"));
}

#[test]
fn reload_folders_builds_the_visible_tree() {
    let mut app = Client::with_folder_tree();
    // Collapsed by default: EPAM (child of Inbox) is hidden.
    let ids: Vec<_> = app.visible_folders.iter().map(|v| v.row.id.clone()).collect();
    assert_eq!(ids, vec!["inbox".to_string(), "sent".to_string()]);
    // Expand Inbox → EPAM becomes visible at depth 1.
    expand_inbox(&mut app);
    let shape: Vec<_> = app.visible_folders.iter().map(|v| (v.row.id.clone(), v.depth)).collect();
    assert_eq!(
        shape,
        vec![("inbox".to_string(), 0), ("epam".to_string(), 1), ("sent".to_string(), 0)]
    );
}

fn fr(id: &str, parent: Option<&str>, exp: bool) -> FolderRow {
    FolderRow {
        id: id.into(),
        parent_id: parent.map(Into::into),
        display_name: id.into(),
        total_count: 0,
        unread_count: 0,
        well_known_name: None,
        is_expanded: exp,
    }
}

#[test]
fn nests_children_under_expanded_parents_and_hides_collapsed() {
    // Inbox(expanded) -> [EPAM(collapsed) -> ADPT], Sent(top, leaf)
    let rows = vec![
        fr("Inbox", None, true),
        fr("EPAM", Some("Inbox"), false),
        fr("ADPT", Some("EPAM"), false),
        fr("Sent", None, false),
    ];
    let v = build_visible(&rows);
    let shape: Vec<_> =
        v.iter().map(|x| (x.row.id.as_str(), x.depth, x.has_children)).collect();
    // ADPT hidden: EPAM is collapsed.
    assert_eq!(shape, vec![("Inbox", 0, true), ("EPAM", 1, true), ("Sent", 0, false)]);
}

#[test]
fn top_level_when_parent_outside_set() {
    let rows = vec![fr("Inbox", Some("msgroot"), false)]; // parent not a row
    let v = build_visible(&rows);
    assert_eq!(v.len(), 1);
    assert_eq!(v[0].depth, 0);
}

// ---------------------------------------------------------------------------
// Composing
// ---------------------------------------------------------------------------

#[test]
fn search_prompt_captures_text_so_q_is_not_a_global_quit() {
    let mut app = Client::seeded();
    assert!(!app.is_capturing_text());
    app.run(|a| a.start_search());
    assert!(app.is_capturing_text());
    app.run(|a| a.cancel_search());
    assert!(!app.is_capturing_text());
}

#[test]
fn c_key_creates_a_fresh_local_draft_and_opens_the_composer() {
    let mut app = Client::seeded();
    app.on_key_char('c');

    let compose = app.compose.as_ref().expect("compose should be open");
    assert_eq!(compose.to, "");
    assert_eq!(compose.cc, "");
    assert_eq!(compose.subject, "");
    // The composer is editing a real store row, not just UI state.
    let id = compose.draft_id.clone();
    assert!(app.store.message(&id).is_some());
}

fn composing(id: &str, bcc: &str, html: &str) -> Compose {
    Compose {
        to: "a@x".into(),
        cc: "".into(),
        bcc: bcc.into(),
        subject: "Subj".into(),
        editor: editor(html),
        focus: ComposeField::Body,
        draft_id: id.into(),
        autocomplete: None,
        attachments: Vec::new(),
    }
}

#[test]
fn saving_a_compose_with_bcc_persists_it_to_the_draft_row() {
    let mut app = Client::seeded();
    let id = app.store.create_local_draft("Subj", "a@x", "", "<p>body</p>");
    app.compose = Some(composing(&id, "secret@x", "<p>body</p>"));
    app.compose_action = Some(ComposeAction::Save);

    app.run(|a| a.apply_compose_action());

    assert_eq!(app.store.message(&id).unwrap().bcc_recipients, "secret@x");
}

#[test]
fn r_key_sends_compose_reply_for_the_highlighted_message() {
    let mut app = Client::seeded();
    app.on_key_char('r');
    assert!(matches!(
        app.sent.pop_front(),
        Some(SyncCommand::ComposeReply { id, all }) if id == "m1" && !all
    ));
}

#[test]
fn shift_r_key_sends_compose_reply_all_for_the_highlighted_message() {
    let mut app = Client::seeded();
    app.on_key_char('R');
    assert!(matches!(
        app.sent.pop_front(),
        Some(SyncCommand::ComposeReply { id, all }) if id == "m1" && all
    ));
}

#[test]
fn shift_f_key_sends_compose_forward_for_the_highlighted_message() {
    let mut app = Client::seeded();
    app.on_key_char('F');
    assert!(matches!(
        app.sent.pop_front(),
        Some(SyncCommand::ComposeForward { id }) if id == "m1"
    ));
}

#[test]
fn reply_in_threaded_mode_targets_message_under_cursor() {
    let mut app = Client::seeded();
    app.threaded = true;
    seed_second_in_c1(&mut app); // c1 = m1@10:00, m2@11:00; latest = m2
    app.reload_messages();

    // Cursor on the (collapsed) header: the thread's latest message (m2), not
    // the flat list's first.
    let pos = header_at(&app);
    app.row_index = pos;
    app.run(|a| a.compose_reply(false));
    assert!(matches!(
        app.sent.pop_front(),
        Some(SyncCommand::ComposeReply { id, all }) if id == "m2" && !all
    ));

    // On m1's own child row it must target m1.
    expand_and_point_at(&mut app, pos, "m1");
    app.run(|a| a.compose_reply(false));
    assert!(matches!(
        app.sent.pop_front(),
        Some(SyncCommand::ComposeReply { id, all }) if id == "m1" && !all
    ));
}

#[test]
fn lowercase_f_still_toggles_the_flag_unaffected_by_the_forward_binding() {
    let mut app = Client::seeded();
    app.on_key_char('f');
    assert!(app.store.messages_in_folder("inbox")[0].is_flagged);
}

#[test]
fn draft_ready_event_opens_the_composer_loaded_from_the_store() {
    let mut app = Client::seeded();
    let id = app.store.create_local_draft(
        "Re: Hi",
        "alice@example.com",
        "carol@example.com",
        "<p>Hello</p>",
    );

    app.on_sync_event(SyncEvent::DraftReady { id: id.clone() });

    let compose = app.compose.as_ref().expect("compose should be open");
    assert_eq!(compose.subject, "Re: Hi");
    assert_eq!(compose.to, "alice@example.com");
    assert_eq!(compose.cc, "carol@example.com");
    assert_eq!(plain(&compose.editor.text), "Hello");
    assert_eq!(compose.draft_id, id);
}

#[test]
fn draft_ready_for_an_unknown_id_does_not_open_the_composer() {
    let mut app = Client::seeded();
    app.on_sync_event(SyncEvent::DraftReady { id: "no-such-draft".into() });
    assert!(app.compose.is_none());
}

#[test]
fn compose_new_seeds_the_signature_into_the_draft_body() {
    let mut app = Client::seeded();
    app.signature = "Boris".into();
    app.run(|a| a.compose_new());
    let editor_text = plain(&app.compose.as_ref().unwrap().editor.text);
    assert!(editor_text.contains("Boris")); // signature landed in the composer body
}

fn composing_new() -> (Client, String) {
    let mut app = Client::seeded();
    app.run(|a| a.compose_new()); // opens a fresh local draft
    let id = app.compose.as_ref().unwrap().draft_id.clone();
    (app, id)
}

#[test]
fn attaching_a_file_records_it_on_the_draft_and_in_compose() {
    let (mut app, draft_id) = composing_new();

    app.attach("/tmp/attach/r.pdf");

    // stored on the draft AND reflected in the composer's list
    assert_eq!(app.store.outbound(&draft_id).len(), 1);
    assert_eq!(app.compose.as_ref().unwrap().attachments.len(), 1);
    assert_eq!(app.compose.as_ref().unwrap().attachments[0].name, "r.pdf");
}

#[test]
fn remove_last_attachment_removes_the_most_recent_and_stays_consistent() {
    let (mut app, draft_id) = composing_new();
    app.attach("/tmp/remove/a.txt");
    app.attach("/tmp/remove/b.txt");

    // the most-recently-attached file is last in attach order
    assert_eq!(app.compose.as_ref().unwrap().attachments.last().unwrap().name, "b.txt");

    app.run(|a| a.remove_last_attachment());

    // gone from the in-memory list...
    let names: Vec<String> =
        app.compose.as_ref().unwrap().attachments.iter().map(|a| a.name.clone()).collect();
    assert_eq!(names, vec!["a.txt"]);
    // ...and from the store, and the two stay in agreement.
    let stored = app.store.outbound(&draft_id);
    assert_eq!(stored.len(), 1);
    assert_eq!(stored[0].name, "a.txt");
}

#[test]
fn open_draft_loads_existing_attachments() {
    let (mut app, draft_id) = composing_new();
    let x = OutboundAttachment { path: "/tmp/x.txt".into(), name: "x.txt".into(), size: 3 };
    app.store.outbound.push((draft_id.clone(), x));
    app.run(|a| a.open_draft(&draft_id)); // reopen
    assert_eq!(app.compose.as_ref().unwrap().attachments.len(), 1);
}

/// A composer with its fields set and a one-paragraph body.
fn seeded_compose() -> Compose {
    let mut c = composing("d1", "", "Hello body");
    c.to = "alice@example.com".into();
    c.subject = "Re: Hi".into();
    c
}

fn body_text(c: &Compose) -> String {
    compose::body_view(c, 20).map(|v| all_shown(&v.lines)).unwrap_or_default()
}

#[test]
fn draw_compose_renders_fields_and_body_without_panic() {
    let mut app = Client::seeded();
    app.compose = Some(seeded_compose());
    assert!(app.draws(Widget::Compose));
    let c = app.compose.as_ref().unwrap();
    assert_eq!(c.to, "alice@example.com");
    assert_eq!(c.subject, "Re: Hi");
    // The caret may stand in the body, but takes nothing away from it.
    assert!(body_text(c).contains("ello body"));
}

#[test]
fn empty_compose_renders_without_panic() {
    let mut app = Client::seeded();
    app.compose = Some(Compose::new("new".into()));
    assert!(app.draws(Widget::Compose));
    assert!(compose::body_view(app.compose.as_ref().unwrap(), 20).is_none());
}

#[test]
fn draw_compose_is_a_no_op_when_compose_is_closed() {
    let app = Client::seeded();
    assert!(app.compose.is_none());
    assert!(!app.draws(Widget::Compose));
}

/// A key for the composer alone.
fn compose_key(app: &mut Client, key: Key) {
    app.run(|a| a.compose_handle_key(key));
}

#[test]
fn typing_a_char_in_body_appends_to_editor_text() {
    let mut app = Client::seeded();
    app.compose = Some(seeded_compose()); // focus already Body

    compose_key(&mut app, plain_key(KeyCode::Char('!')));

    assert!(plain(&app.compose.as_ref().unwrap().editor.text).ends_with('!'));
}

#[test]
fn ctrl_b_toggles_bold_on_a_selection() {
    let mut app = Client::seeded();
    app.compose = Some(seeded_compose());
    let from = Pos { block: 0, run: 0, offset: 0 };
    let to = Pos { block: 0, run: 0, offset: 5 };
    app.selection = Some((from, to)); // select "Hello"

    compose_key(&mut app, Key { code: KeyCode::Char('b'), ctrl: true, shift: false });

    let r = match &app.compose.as_ref().unwrap().editor.text.blocks[0] {
        Block::Paragraph(r) => r,
        _ => panic!("expected a paragraph"),
    };
    assert!(r.iter().any(|r| r.bold && r.text.contains("Hello")));
}

#[test]
fn tab_cycles_focus_to_cc_subject_body() {
    let mut app = Client::seeded();
    app.compose = Some(Compose::new("new".into()));
    assert_eq!(app.compose.as_ref().unwrap().focus, ComposeField::To);
    for field in [
        ComposeField::Cc,
        ComposeField::Subject,
        ComposeField::Body,
        ComposeField::To,
    ] {
        compose_key(&mut app, plain_key(KeyCode::Tab));
        assert_eq!(app.compose.as_ref().unwrap().focus, field);
    }
}

#[test]
fn printable_and_backspace_edit_the_to_field() {
    let mut app = Client::seeded();
    app.compose = Some(Compose::new("new".into()));

    compose_key(&mut app, plain_key(KeyCode::Char('a')));
    compose_key(&mut app, plain_key(KeyCode::Char('b')));
    assert_eq!(app.compose.as_ref().unwrap().to, "ab");

    compose_key(&mut app, plain_key(KeyCode::Backspace));
    assert_eq!(app.compose.as_ref().unwrap().to, "a");
}

#[test]
fn enter_in_body_splits_the_paragraph() {
    let mut app = Client::seeded();
    app.compose = Some(seeded_compose());

    compose_key(&mut app, plain_key(KeyCode::Enter));

    assert_eq!(app.compose.as_ref().unwrap().editor.text.blocks.len(), 2);
}

#[test]
fn ctrl_l_toggles_the_current_block_into_a_bulleted_list_item() {
    let mut app = Client::seeded();
    app.compose = Some(seeded_compose());

    compose_key(&mut app, Key { code: KeyCode::Char('l'), ctrl: true, shift: false });

    assert!(matches!(
        app.compose.as_ref().unwrap().editor.text.blocks[0],
        Block::ListItem { ordered: false, .. }
    ));
}

#[test]
fn esc_requests_save_and_ctrl_enter_requests_send_and_ctrl_d_requests_discard() {
    let mut app = Client::seeded();
    app.compose = Some(Compose::new("d1".into()));
    assert!(app.compose_action.is_none());

    compose_key(&mut app, plain_key(KeyCode::Esc));
    assert_eq!(app.compose_action, Some(ComposeAction::Save));
    // The request is only recorded: the composer stays open.
    assert!(app.compose.is_some());

    app.compose_action = None;
    compose_key(&mut app, Key { code: KeyCode::Enter, ctrl: true, shift: false });
    assert_eq!(app.compose_action, Some(ComposeAction::Send));

    app.compose_action = None;
    compose_key(&mut app, Key { code: KeyCode::Char('d'), ctrl: true, shift: false });
    assert_eq!(app.compose_action, Some(ComposeAction::Discard));
}

#[test]
fn handle_key_is_a_no_op_when_compose_is_closed() {
    let mut app = Client::seeded();
    assert!(app.compose.is_none());
    compose_key(&mut app, plain_key(KeyCode::Char('x'))); // must not panic
    assert!(app.compose.is_none());
}

#[test]
fn empty_compose_boundary_keys_do_not_panic() {
    let mut app = Client::seeded();
    let mut c = Compose::new("new".into());
    c.focus = ComposeField::Body;
    app.compose = Some(c);

    for code in [
        KeyCode::Backspace,
        KeyCode::Left,
        KeyCode::Right,
        KeyCode::Up,
        KeyCode::Down,
        KeyCode::Home,
        KeyCode::End,
        KeyCode::Enter,
    ] {
        compose_key(&mut app, plain_key(code));
    }
    // The body that is left has to be drawn too.
    let _ = body_text(app.compose.as_ref().unwrap());
}

#[test]
fn list_item_with_no_runs_renders_a_caret_without_panicking() {
    let mut c = Compose::new("new".into());
    c.editor.text.blocks.push(Block::ListItem { ordered: true, level: 1, runs: vec![] });
    c.focus = ComposeField::Body;
    assert!(body_text(&c).contains('1'));
}

// ---------------------------------------------------------------------------
// Events
// ---------------------------------------------------------------------------

/// A time stamp so many days from now, at some hours past.
fn days_from_now(app: &Client, days: i64) -> String {
    unix_to_iso8601(app.now + days * 86_400 + 12 * 3600)
}

fn an_hour_after(iso_utc: &str) -> String {
    unix_to_iso8601(parse_iso_utc(iso_utc) + 3600)
}

/// An event so many days from now.
fn seed_event(app: &mut Client, id: &str, subject: &str, days: i64, series: Option<&str>) {
    let start = days_from_now(app, days);
    let mut row = event_row(id, subject, &start, &an_hour_after(&start));
    row.series_master_id = series.map(Into::into);
    app.store.upsert_event(row, "<p>agenda</p>");
}

/// The calendar with one event, opened.
fn calendar_with(id: &str, subject: &str, series: Option<&str>) -> Client {
    let mut app = Client::seeded();
    app.mode = Mode::Calendar;
    seed_event(&mut app, id, subject, 1, series);
    app.run(|a| a.reload_agenda());
    app.selected_event = Some(id.into());
    app
}

#[test]
fn open_new_event_starts_a_blank_form_with_prefilled_times() {
    let mut app = Client::seeded();
    app.mode = Mode::Calendar;
    app.open_new_event();
    let f = app.event_form.as_ref().unwrap();
    assert!(f.editing_id.is_none());
    assert!(f.title.is_empty());
    assert!(!f.start.is_empty() && !f.end.is_empty()); // prefilled (next hour / +1h)
    assert_eq!(f.start, "2026-07-17 10:00");
    assert_eq!(f.end, "2026-07-17 11:00");
}

#[test]
fn open_edit_event_prefills_from_the_selected_event() {
    let mut app = calendar_with("e1", "Standup", None);
    app.run(|a| a.open_edit_event());
    let f = app.event_form.as_ref().unwrap();
    assert_eq!(f.editing_id.as_deref(), Some("e1"));
    assert_eq!(f.title, "Standup");
}

#[test]
fn open_edit_event_refuses_a_recurring_event() {
    let mut app = calendar_with("e2", "Weekly Sync", Some("SERIES1"));
    app.run(|a| a.open_edit_event());
    assert!(app.event_form.is_none()); // refused
}

/// The form for a new event, filled.
fn with_new_event(title: &str, all_day: bool, start: &str, end: &str) -> Client {
    let mut app = Client::seeded();
    app.mode = Mode::Calendar;
    app.open_new_event();
    let f = app.event_form.as_mut().unwrap();
    f.title = title.into();
    f.all_day = all_day;
    f.start = start.into();
    f.end = end.into();
    app
}

fn created(app: &mut Client) -> String {
    match app.sent.pop_front() {
        Some(SyncCommand::CreateEvent { id }) => id,
        other => panic!("expected CreateEvent, got {other:?}"),
    }
}

#[test]
fn saving_a_new_event_form_creates_and_enqueues_create_event() {
    let mut app = with_new_event("Planning", false, "2026-07-20 14:00", "2026-07-20 15:00");
    app.save_event_form();
    assert!(app.event_form.is_none()); // form closed on success
    // a CreateEvent was enqueued and a local event exists
    let id = created(&mut app);
    assert!(app.store.event(&id).is_some());
}

#[test]
fn saving_with_an_invalid_time_keeps_the_form_open() {
    let mut app = with_new_event("X", false, "nonsense", "2026-07-20 15:00");
    app.save_event_form();
    assert!(app.event_form.is_some()); // still open — invalid start
}

fn assert_one_day_holiday(app: &mut Client, id: &str) {
    let e = app.store.event(id).unwrap();
    assert_eq!(e.row.start_utc, "2026-07-20T00:00:00Z");
    assert_eq!(e.row.end_utc, "2026-07-21T00:00:00Z");
    assert!(e.row.is_all_day);
}

#[test]
fn saving_an_all_day_event_stores_midnight_boundaries_and_enqueues_create() {
    let mut app = with_new_event("Holiday", true, "2026-07-20", "2026-07-20"); // one-day all-day
    app.save_event_form();
    assert!(app.event_form.is_none()); // saved + closed
    let id = created(&mut app);
    assert_one_day_holiday(&mut app, &id);
}

#[test]
fn saving_an_all_day_event_with_an_unparseable_date_keeps_the_form_open() {
    let mut app = with_new_event("", true, "nonsense", "");
    app.save_event_form();
    assert!(app.event_form.is_some()); // still open — invalid all-day date
}

#[test]
fn editing_an_all_day_event_round_trips_the_same_boundaries() {
    let mut app = with_new_event("Holiday", true, "2026-07-20", "2026-07-20"); // one-day all-day
    app.save_event_form();
    let id = created(&mut app);

    // Re-open it for editing and save it back without changing anything.
    app.selected_event = Some(id.clone());
    app.run(|a| a.open_edit_event());
    assert!(app.event_form.is_some());
    app.save_event_form();

    // Editing an all-day event must not grow or shift it.
    assert_one_day_holiday(&mut app, &id);
}

#[test]
fn editing_a_local_not_yet_synced_event_enqueues_no_update_event() {
    let mut app = with_new_event("Planning", false, "2026-07-20 14:00", "2026-07-20 15:00");
    app.save_event_form();
    let id = created(&mut app);
    assert!(id.starts_with("local:"));

    // Edit that same still-not-yet-synced event.
    app.selected_event = Some(id.clone());
    app.run(|a| a.open_edit_event());
    app.event_form.as_mut().unwrap().title = "Planning v2".into();
    app.save_event_form();

    // The fields were written to the store locally...
    assert_eq!(app.store.event(&id).unwrap().row.subject, "Planning v2");
    // ...but nothing further was enqueued: no second CreateEvent and no
    // UpdateEvent.
    assert!(app.sent.is_empty(), "expected no command, got {:?}", app.sent);
}

#[test]
fn editing_an_event_with_an_html_body_round_trips_without_double_escaping() {
    // The event's body is "<p>agenda</p>".
    let mut app = calendar_with("e3", "Planning", None);
    app.run(|a| a.open_edit_event());
    // The form must hold the PLAIN TEXT, not the raw HTML source.
    assert_eq!(app.event_form.as_ref().unwrap().body, "agenda");

    // Re-save unchanged.
    app.save_event_form();
    assert_eq!(app.store.event("e3").unwrap().body_html, "agenda");
}

#[test]
fn editing_an_event_that_the_server_knows_is_handed_on() {
    let mut app = calendar_with("e1", "Standup", None);
    app.run(|a| a.open_edit_event());
    app.save_event_form();
    assert!(app.event_form.is_none());
    assert!(matches!(app.sent.pop_front(), Some(SyncCommand::UpdateEvent { id }) if id == "e1"));
}

#[test]
fn deleting_an_event_confirms_then_removes_and_enqueues() {
    let mut app = calendar_with("e1", "Standup", None);
    app.run(|a| a.delete_selected_event());
    assert!(app.confirm.is_some()); // confirm modal opened, nothing deleted yet
    assert!(app.store.event("e1").is_some());

    app.run(|a| a.confirm_yes()); // execute
    assert!(app.confirm.is_none());
    assert!(app.store.event("e1").is_none()); // removed locally
    assert!(matches!(app.sent.pop_front(), Some(SyncCommand::DeleteEvent { .. })));
}

#[test]
fn deleting_a_recurring_event_is_refused() {
    let mut app = calendar_with("e2", "Weekly Sync", Some("SERIES1"));
    app.run(|a| a.delete_selected_event());
    assert!(app.confirm.is_none()); // refused, no modal
}

#[test]
fn draw_is_a_no_op_when_no_form_is_open() {
    let mut app = Client::seeded();
    app.mode = Mode::Calendar;
    assert!(app.event_form.is_none());
    assert!(!app.draws(Widget::EventForm));
}

#[test]
fn draw_renders_fields_and_error_footer_without_panicking() {
    let mut app = Client::seeded();
    app.mode = Mode::Calendar;
    let mut form = event_form("Standup", "2026-07-20 14:00", "2026-07-20 15:00");
    form.error = Some("Invalid start time".into());
    app.event_form = Some(form);
    assert!(app.draws(Widget::EventForm));
    let f = app.event_form.as_ref().unwrap();
    assert!(eventform::field_text(&f.title, true).contains("Standup"));
    assert!(eventform::field_text(&f.start, false).contains("2026-07-20 14:00"));
    assert!(eventform::footer(f).contains("Invalid start time"));
}

// ---------------------------------------------------------------------------
// The calendar
// ---------------------------------------------------------------------------

#[test]
fn esc_also_returns_to_mail_from_calendar() {
    let mut app = Client::seeded();
    app.run(|a| a.toggle_mode());
    assert_eq!(app.mode, Mode::Calendar);
    app.key(KeyCode::Esc);
    assert_eq!(app.mode, Mode::Mail);
}

/// The agenda's lines: a header per day, and the events.
fn agenda_text(app: &Client) -> String {
    let lines = agenda::agenda_lines(&app.agenda, app.now, 0);
    let rows: Vec<String> = lines
        .iter()
        .map(|l| match l {
            AgendaLine::Header(h) => h.clone(),
            AgendaLine::Event(i) => agenda::event_row(&app.agenda[*i], 0),
        })
        .collect();
    rows.join("\n")
}

#[test]
fn calendar_mode_renders_day_headers_and_subjects_for_events_on_different_days() {
    let mut app = Client::seeded();
    seed_event(&mut app, "e1", "Standup", 1, None);
    seed_event(&mut app, "e2", "Planning", 10, None);
    app.run(|a| a.toggle_mode());
    assert_eq!(app.agenda.len(), 2);

    let text = agenda_text(&app);
    assert!(text.contains("Standup"));
    assert!(text.contains("Planning"));
}

#[test]
fn empty_calendar_renders_without_panicking() {
    let mut app = Client::empty();
    app.run(|a| a.toggle_mode());
    assert!(app.agenda.is_empty());
    assert_eq!(agenda_text(&app), "");
}

#[test]
fn navigation_on_an_empty_agenda_does_not_panic_and_stays_put() {
    let mut app = Client::empty();
    app.run(|a| a.toggle_mode());
    app.run(|a| a.move_agenda_selection(-1));
    app.run(|a| a.move_agenda_selection(1));
    assert_eq!(app.agenda_index, 0);
    app.run(|a| a.open_selected_event());
    assert!(app.selected_event.is_none());
}

#[test]
fn navigation_clamps_at_both_ends_without_wrapping() {
    let mut app = Client::seeded();
    seed_event(&mut app, "e1", "First", 1, None);
    seed_event(&mut app, "e2", "Second", 2, None);
    app.run(|a| a.toggle_mode());
    assert_eq!(app.agenda.len(), 2);
    assert_eq!(app.agenda_index, 0);

    app.run(|a| a.move_agenda_selection(-1));
    assert_eq!(app.agenda_index, 0, "must clamp, not wrap, at the top");

    app.run(|a| a.move_agenda_selection(1));
    assert_eq!(app.agenda_index, 1);
    app.run(|a| a.move_agenda_selection(1));
    assert_eq!(app.agenda_index, 1, "must clamp, not wrap, at the bottom");
}

#[test]
fn enter_opens_the_detail_pane_for_the_highlighted_event() {
    let mut app = Client::seeded();
    seed_event(&mut app, "e1", "Standup", 1, None);
    let alice = Attendee {
        name: "Alice".into(),
        addr: "alice@example.com".into(),
        response: "accepted".into(),
    };
    app.store.event("e1").unwrap().attendees.push(alice);
    app.run(|a| a.toggle_mode());

    app.run(|a| a.open_selected_event());
    assert_eq!(app.selected_event.as_deref(), Some("e1"));

    let e = agenda::selected_event(&app.agenda, &app.selected_event).unwrap();
    assert!(agenda::detail_header_lines(e, 0).join("\n").contains("Standup"));
    let attendees = app.store.event("e1").unwrap().attendees.clone();
    assert!(agenda::attendee_lines(&attendees).join("\n").contains("Alice"));
}

#[test]
fn calendar_updated_event_reloads_the_agenda() {
    let mut app = Client::seeded();
    app.run(|a| a.toggle_mode());
    assert!(app.agenda.is_empty());

    seed_event(&mut app, "e1", "Standup", 1, None);
    app.on_sync_event(SyncEvent::CalendarUpdated);

    assert_eq!(app.agenda.len(), 1);
}

/// The calendar with one event that is not answered yet, highlighted.
fn with_unanswered_event() -> Client {
    let mut app = Client::seeded();
    seed_event(&mut app, "e1", "Standup", 1, None);
    app.store.event("e1").unwrap().row.response_status = "none".into();
    app.run(|a| a.toggle_mode());
    assert_eq!(app.agenda.len(), 1);
    assert_eq!(app.agenda_index, 0);
    app.sent.clear(); // RefreshCalendar
    app
}

fn type_text(app: &mut Client, text: &str) {
    for c in text.chars() {
        app.chr(c);
    }
}

#[test]
fn accept_key_opens_a_comment_prompt_and_enter_submits_it_with_the_comment() {
    let mut app = with_unanswered_event();

    app.chr('a');
    assert!(app.rsvp_prompt.is_some(), "'a' must open the comment prompt");
    type_text(&mut app, "sounds good");
    app.key(KeyCode::Enter);

    assert!(app.rsvp_prompt.is_none());
    // The local write landed immediately.
    assert_eq!(app.store.event("e1").unwrap().row.response_status, "accepted");
    // The agenda (and therefore the glyph) reflects it too.
    assert_eq!(app.agenda[0].response_status, "accepted");

    match app.sent.pop_front() {
        Some(SyncCommand::RespondEvent { id, kind, comment, .. }) => {
            assert_eq!(id, "e1");
            assert_eq!(kind, "accepted");
            assert_eq!(comment.as_deref(), Some("sounds good"));
        }
        other => panic!("expected a RespondEvent command, got {other:?}"),
    }
    assert!(agenda_text(&app).contains('✓'), "the glyph must reflect the new status");
}

#[test]
fn esc_on_the_comment_prompt_submits_the_rsvp_with_no_comment() {
    let mut app = with_unanswered_event();

    app.chr('d');
    assert!(app.rsvp_prompt.is_some());
    type_text(&mut app, "never mind");
    app.key(KeyCode::Esc);

    assert!(app.rsvp_prompt.is_none());
    assert_eq!(app.agenda[0].response_status, "declined");
    match app.sent.pop_front() {
        Some(SyncCommand::RespondEvent { id, kind, comment, .. }) => {
            assert_eq!(id, "e1");
            assert_eq!(kind, "declined");
            assert_eq!(comment, None, "Esc must send with no comment");
        }
        other => panic!("expected a RespondEvent command, got {other:?}"),
    }
}

#[test]
fn tentative_key_sets_the_tentative_status() {
    let mut app = with_unanswered_event();
    app.chr('t');
    app.key(KeyCode::Enter);
    assert_eq!(app.agenda[0].response_status, "tentativelyAccepted");
}

#[test]
fn rsvp_keys_on_an_empty_agenda_are_no_ops() {
    let mut app = Client::empty();
    app.run(|a| a.toggle_mode());
    assert!(app.agenda.is_empty());
    app.sent.clear();

    for key in ['a', 'd', 't'] {
        app.chr(key);
        assert!(app.rsvp_prompt.is_none(), "no event to respond to — must not open a prompt");
    }
    assert!(app.sent.is_empty(), "no command should have been sent");
}

#[test]
fn c_opens_the_event_form_in_calendar_mode_and_routes_keys_to_it_ahead_of_calendar() {
    let mut app = Client::seeded();
    app.mode = Mode::Calendar;
    assert!(app.event_form.is_none());

    app.chr('c');
    assert!(app.event_form.is_some());

    // While the form is open, a letter that's otherwise a calendar key
    // ('t' = RSVP tentative) must type into the focused Title field.
    app.chr('t');
    assert_eq!(app.event_form.as_ref().unwrap().title, "t");
    assert!(app.rsvp_prompt.is_none());

    app.key(KeyCode::Esc);
    assert!(app.event_form.is_none());
}

#[test]
fn e_opens_the_event_form_prefilled_for_the_highlighted_event() {
    let mut app = calendar_with("e1", "Standup", None);
    app.chr('e');
    let f = app.event_form.as_ref().expect("form opens");
    assert_eq!(f.editing_id.as_deref(), Some("e1"));
    assert_eq!(f.title, "Standup");
}

#[test]
fn deleting_an_event_through_handle_key_in_calendar_mode() {
    let mut app = calendar_with("e1", "Standup", None);

    app.chr('x');
    assert!(app.confirm.is_some(), "'x' should open the delete-confirm modal");

    app.key(KeyCode::Enter);

    assert!(app.confirm.is_none(), "Enter should have confirmed, not opened the event");
    assert!(app.store.event("e1").is_none(), "the event should have been deleted");
    assert!(matches!(app.sent.pop_front(), Some(SyncCommand::DeleteEvent { .. })));
}

#[test]
fn confirm_modal_renders_over_the_calendar() {
    let mut app = Client::seeded();
    app.mode = Mode::Calendar;
    app.confirm = Some(ConfirmModal {
        prompt: "Delete event 'Standup'?".into(),
        action: ConfirmAction::DeleteEvent("e1".into()),
    });
    let drawn = screen::widgets(&app.app);
    let calendar = drawn.iter().position(|w| *w == Widget::Calendar).unwrap();
    let confirm = drawn.iter().position(|w| *w == Widget::Confirm).unwrap();
    assert!(calendar < confirm);
    assert!(app.confirm.as_ref().unwrap().prompt.contains("Delete event"));
}

// ---------------------------------------------------------------------------
// Keys
// ---------------------------------------------------------------------------

#[test]
fn f9_focuses_the_ribbon_arrows_move_tabs_esc_leaves() {
    let mut app = Client::seeded();
    app.key(KeyCode::F(9));
    assert!(app.ribbon_open);
    assert!(matches!(app.ribbon_focus, Focus::Tab(_)));
    let before = app.ribbon_tab;
    app.key(KeyCode::Right);
    // Moving right lands on the next tab with a body → the active tab advances.
    assert_ne!(app.ribbon_tab, before);
    app.key(KeyCode::Esc);
    assert_eq!(app.ribbon_focus, Focus::Off);
    assert!(!app.ribbon_open);
}

#[test]
fn rail_up_down_switches_mail_and_calendar() {
    let mut app = Client::seeded();
    app.focus = Pane::Rail;
    assert_eq!(app.mode, Mode::Mail);
    app.key(KeyCode::Down);
    assert_eq!(app.mode, Mode::Calendar);
    app.key(KeyCode::Up);
    assert_eq!(app.mode, Mode::Mail);
}

#[test]
fn right_from_folders_enters_list_then_activates_to_reading() {
    let mut app = Client::seeded();
    app.focus = Pane::Folders; // Inbox is a leaf here
    app.key(KeyCode::Right);
    assert_eq!(app.focus, Pane::List);
    app.key(KeyCode::Right);
    assert_eq!(app.focus, Pane::Reading);
    assert!(app.selected_msg.is_some());
}

#[test]
fn left_walks_back_out_to_the_rail() {
    let mut app = Client::seeded();
    app.focus = Pane::Reading;
    app.key(KeyCode::Left);
    assert_eq!(app.focus, Pane::List);
    app.key(KeyCode::Left);
    assert_eq!(app.focus, Pane::Folders);
    app.key(KeyCode::Left); // top-level folder → Rail
    assert_eq!(app.focus, Pane::Rail);
}

#[test]
fn g_tab_and_backtab_no_longer_navigate() {
    let mut app = Client::seeded();
    app.focus = Pane::Folders;
    let before = (app.mode, app.focus);
    app.chr('g');
    app.key(KeyCode::Tab);
    app.key(KeyCode::BackTab);
    assert_eq!((app.mode, app.focus), before);
}

#[test]
fn reminder_banner_renders_front_and_more_count() {
    let mut app = Client::seeded();
    app.reminder_queue.push_back("⏰ Standup starts in 5 min (09:00)".into());
    app.reminder_queue.push_back("⏰ Review starts in 8 min (09:03)".into());
    assert!(app.draws(Widget::ReminderBanner));
    let text = screen::reminder_banner(&app.app);
    assert!(text.contains("Standup starts in 5 min"));
    assert!(text.contains("+1 more"));
    assert!(text.contains("Esc"));
}

#[test]
fn esc_dismisses_reminder_banner() {
    let mut app = Client::seeded();
    app.reminder_queue.push_back("⏰ Standup".into());
    app.key(KeyCode::Esc);
    assert!(app.reminder_queue.is_empty());
}

#[test]
fn draws_three_panes_with_folder_names() {
    let app = Client::seeded();
    for w in [Widget::Folders, Widget::MessageList, Widget::Reading] {
        assert!(app.draws(w));
    }
    assert!(shown(&folder_line(&app.visible_folders[0], 30)).contains("Inbox"));
}

#[test]
fn enter_on_list_selects_the_highlighted_message() {
    let mut app = Client::seeded();
    app.focus = Pane::List;
    assert_eq!(app.selected_msg, None);
    app.key(KeyCode::Enter);
    assert_eq!(app.selected_msg.as_deref(), Some("m1"));
    assert_eq!(app.focus, Pane::Reading);
}

/// A second message in the Inbox, older than "m1", so that it is listed second.
fn seed_second_message(app: &mut Client) {
    let mut m2 = message("m2", "Second", "Bob", "bob@example.com", "2026-07-15T09:00:00Z");
    m2.is_read = true;
    app.store.upsert_message("inbox", "c1", m2);
    app.reload_messages();
}

#[test]
fn list_selection_wraps_at_both_ends() {
    let mut app = Client::seeded();
    seed_second_message(&mut app);
    app.focus = Pane::List;
    assert_eq!(app.messages.len(), 2);
    assert_eq!(app.msg_index, 0);

    // Up from the first row wraps to the last row.
    app.key(KeyCode::Up);
    assert_eq!(app.msg_index, app.messages.len() - 1);

    // Down from the last row wraps back to the first.
    app.key(KeyCode::Down);
    assert_eq!(app.msg_index, 0);
}

#[test]
fn moving_folder_selection_reloads_visible_messages() {
    let mut app = Client::seeded();
    app.store.upsert_folder("sent", "Sent Items", None, Some("sentitems"));
    let mut m2 = message("m2", "From Sent", "Bob", "bob@example.com", "2026-07-15T09:00:00Z");
    m2.is_read = true;
    app.store.upsert_message("sent", "c2", m2);
    app.run(|a| a.reload_folders());

    // The selection stays on "inbox" across the reload.
    assert_eq!(app.folders.len(), 2);
    assert_eq!(app.selected_folder.as_deref(), Some("inbox"));
    assert_eq!(app.messages.len(), 1);
    assert_eq!(app.messages[0].id, "m1");

    app.focus = Pane::Folders;
    app.key(KeyCode::Down);

    assert_eq!(app.selected_folder.as_deref(), Some("sent"));
    assert_eq!(app.messages.len(), 1);
    assert_eq!(app.messages[0].id, "m2");
}

#[test]
fn flag_key_toggles_the_highlighted_row_and_sends_set_flag() {
    let mut app = Client::seeded();
    app.focus = Pane::List;
    assert!(!app.messages[0].is_flagged);

    app.chr('f');

    assert!(app.messages[0].is_flagged);
    assert!(app.store.messages_in_folder("inbox")[0].is_flagged);
    assert!(matches!(app.sent.pop_front(), Some(SyncCommand::SetFlag { flagged: true, .. })));
}

#[test]
fn delete_key_removes_the_row_and_clamps_selection() {
    let mut app = Client::seeded();
    seed_second_message(&mut app);
    app.focus = Pane::List;
    assert_eq!(app.messages.len(), 2);
    app.msg_index = 1;
    let doomed_id = app.messages[1].id.clone();

    app.key(KeyCode::Delete);

    assert_eq!(app.messages.len(), 1);
    assert!(app.messages.iter().all(|m| m.id != doomed_id));
    assert_eq!(app.msg_index, 0); // clamped, not left pointing past the end
    assert!(matches!(app.sent.pop_front(), Some(SyncCommand::Delete { .. })));

    // 'd' does the same thing as the Delete key.
    app.chr('d');
    assert!(app.messages.is_empty());
    assert_eq!(app.msg_index, 0);
}

#[test]
fn move_picker_opens_selects_and_confirms_a_move() {
    let mut app = Client::seeded();
    app.store.upsert_folder("archive", "Archive", None, Some("archive"));
    app.focus = Pane::List;

    app.chr('v');
    assert!(app.move_picker.is_some());
    // "inbox" comes before "archive"; move down onto it.
    app.key(KeyCode::Down);
    let p = app.move_picker.as_ref().unwrap();
    assert_eq!(p.folders[p.index].id, "archive");

    app.key(KeyCode::Enter);

    assert!(app.move_picker.is_none());
    assert!(app.store.messages_in_folder("inbox").is_empty());
    assert_eq!(app.store.messages_in_folder("archive")[0].id, "m1");
    assert!(matches!(app.sent.pop_front(), Some(SyncCommand::Move { .. })));
}

#[test]
fn esc_cancels_the_move_picker_without_moving_anything() {
    let mut app = Client::seeded();
    app.focus = Pane::List;

    app.chr('v');
    assert!(app.move_picker.is_some());
    app.key(KeyCode::Esc);

    assert!(app.move_picker.is_none());
    assert_eq!(app.store.messages_in_folder("inbox").len(), 1);
}

#[test]
fn move_picker_does_not_open_with_nothing_highlighted() {
    let mut app = Client::empty();
    app.focus = Pane::List;
    app.chr('v');
    assert!(app.move_picker.is_none());
}

#[test]
fn move_picker_overlay_renders_folder_names_when_open() {
    let mut app = Client::seeded();
    app.store.upsert_folder("archive", "Archive", None, Some("archive"));
    app.run(|a| a.open_move_picker());
    let p = app.move_picker.as_ref().unwrap();
    assert!(p.folders.iter().any(|f| f.display_name == "Archive"));
    assert!(app.draws(Widget::MovePicker));
}

#[test]
fn move_picker_overlay_draws_nothing_when_closed() {
    let app = Client::seeded();
    assert!(app.move_picker.is_none());
    assert!(!app.draws(Widget::MovePicker));
}

#[test]
fn slash_opens_search_and_letters_type_into_the_query_not_navigation() {
    let mut app = Client::seeded();
    app.focus = Pane::List;

    app.chr('/');
    assert!(app.search.is_some());

    app.chr('j');
    app.chr('k');
    assert_eq!(app.search.as_ref().unwrap().query, "jk");

    app.key(KeyCode::Backspace);
    assert_eq!(app.search.as_ref().unwrap().query, "j");

    app.key(KeyCode::Esc);
    assert!(app.search.is_none());
}

#[test]
fn search_enter_runs_the_query_and_esc_restores_the_folder_view() {
    let mut app = Client::seeded();
    app.chr('/');
    type_text(&mut app, "Hello");
    app.key(KeyCode::Enter);

    assert_eq!(app.visible_message_count(), 1);

    app.key(KeyCode::Esc);

    assert!(app.search.is_none());
    assert_eq!(app.visible_message_count(), app.messages.len());
}

#[test]
fn attachments_popup_enter_sends_save_attachment_and_esc_closes_it() {
    let mut app = Client::seeded();
    let f = attachment("a1", "f.txt", AttachmentKind::File);
    app.store.put_attachments("m1", vec![f]);
    app.focus = Pane::List;

    app.chr('a');
    assert!(app.attachments.is_some());

    app.key(KeyCode::Enter);
    assert!(matches!(app.sent.pop_front(), Some(SyncCommand::SaveAttachment { .. })));

    app.key(KeyCode::Esc);
    assert!(app.attachments.is_none());
}

#[test]
fn a_key_fetches_attachment_metadata_when_graph_has_some_but_none_are_stored_yet() {
    let mut app = Client::seeded();
    seed_message_with_has_attachments_but_no_local_rows(&mut app);
    app.focus = Pane::List;

    app.chr('a');

    let popup = app.attachments.as_ref().expect("popup opens in a loading state");
    assert!(popup.loading);
    assert!(matches!(
        app.sent.pop_front(),
        Some(SyncCommand::FetchAttachments { message_id }) if message_id == "m1"
    ));
}

#[test]
fn empty_store_renders_and_handles_keys_without_panicking() {
    let mut app = Client::empty();
    let keys = [
        KeyCode::Down,
        KeyCode::Up,
        KeyCode::Char('j'),
        KeyCode::Char('k'),
        KeyCode::Tab,
        KeyCode::Down,
        KeyCode::Up,
        KeyCode::Enter,
        KeyCode::Tab,
        KeyCode::Enter,
        KeyCode::Down,
        KeyCode::Char('m'),
        KeyCode::Char('u'),
        KeyCode::Char('f'),
        KeyCode::Char('d'),
        KeyCode::Delete,
        KeyCode::Char('v'),
        KeyCode::Esc,
        KeyCode::Char('a'),
        KeyCode::Esc,
        KeyCode::Char('/'),
        KeyCode::Char('x'),
        KeyCode::Backspace,
        KeyCode::Up,
        KeyCode::Down,
        KeyCode::Enter,
        KeyCode::Esc,
    ];
    for code in keys {
        app.key(code);
        assert!(!screen::widgets(&app.app).is_empty());
    }

    assert!(app.selected_folder.is_none());
    assert!(app.selected_msg.is_none());
    assert!(app.attachments.is_none());
    assert!(app.search.is_none());
    assert_eq!(app.folder_index, 0);
    assert_eq!(app.msg_index, 0);
}

#[test]
fn enter_on_a_draft_message_opens_the_composer_loaded_from_the_store() {
    let mut app = Client::seeded();
    let id =
        app.store.create_local_draft("Draft Subj", "bob@x", "carol@x", "<p>Body text</p>");
    app.selected_folder = Some("drafts".into());
    app.reload_messages();
    app.focus = Pane::List;
    app.msg_index = 0;
    assert_eq!(app.messages.len(), 1);
    assert!(app.messages[0].is_draft);

    app.key(KeyCode::Enter);

    let compose = app.compose.as_ref().expect("compose should be open");
    assert_eq!(compose.subject, "Draft Subj");
    assert_eq!(compose.to, "bob@x");
    assert_eq!(compose.cc, "carol@x");
    assert_eq!(plain(&compose.editor.text), "Body text");
    assert_eq!(compose.draft_id, id);
    // Must not also fall through to the normal reading-pane open path.
    assert!(app.selected_msg.is_none());
}

/// A composer over a stored draft whose body is "old".
fn seeded_compose_session() -> (Client, String) {
    let mut app = Client::seeded();
    let id = app.store.create_local_draft("Subj", "a@x", "", "<p>old</p>");
    app.compose = Some(composing(&id, "", "<p>new body</p>"));
    (app, id)
}

#[test]
fn ctrl_enter_in_compose_saves_the_body_sends_send_draft_and_closes_the_composer() {
    let (mut app, id) = seeded_compose_session();
    app.ctrl(KeyCode::Enter);

    assert!(app.compose.is_none());
    assert!(app.store.body(&id).unwrap().content.contains("new body"));
    assert!(matches!(app.sent.pop_front(), Some(SyncCommand::SendDraft { id: sent }) if sent == id));
}

#[test]
fn esc_in_compose_saves_the_body_sends_save_draft_and_closes_the_composer() {
    let (mut app, id) = seeded_compose_session();
    app.key(KeyCode::Esc);

    assert!(app.compose.is_none());
    assert!(app.store.body(&id).unwrap().content.contains("new body"));
    assert!(matches!(app.sent.pop_front(), Some(SyncCommand::SaveDraft { id: saved }) if saved == id));
}

#[test]
fn ctrl_d_in_compose_discards_and_sends_no_command() {
    let (mut app, id) = seeded_compose_session();
    app.ctrl(KeyCode::Char('d'));

    assert!(app.compose.is_none());
    // The store's copy of the draft is untouched.
    assert!(app.store.body(&id).unwrap().content.contains("old"));
    assert!(app.sent.is_empty());
}

#[test]
fn discarding_keeps_what_is_attached_to_the_draft() {
    let (mut app, id) = seeded_compose_session();
    app.attach("/tmp/x.txt");
    assert_eq!(app.store.outbound(&id).len(), 1);
    app.ctrl(KeyCode::Char('d'));
    assert!(app.compose.is_none());
    assert_eq!(app.store.outbound(&id).len(), 1);
    assert!(app.actions.is_empty());
}

#[test]
fn f1_opens_and_esc_closes() {
    let mut app = Client::seeded();
    app.key(KeyCode::F(1));
    assert!(app.help);
    app.key(KeyCode::Esc);
    assert!(!app.help);
}

#[test]
fn question_mark_does_not_open_help_while_searching() {
    let mut app = Client::seeded();
    app.run(|a| a.start_search());
    app.chr('?');
    assert!(!app.help);
}

#[test]
fn q_over_help_closes_it_rather_than_quitting() {
    let mut app = Client::seeded();
    app.run(|a| a.open_help());
    // Counts as capturing text, which is what guards the global `q`-quit.
    assert!(app.is_capturing_text());
}

#[test]
fn q_in_the_search_prompt_types_into_the_query_rather_than_quitting() {
    let mut app = Client::seeded();
    app.run(|a| a.start_search());
    let k = plain_key(KeyCode::Char('q'));
    // This `q` is not a global quit...
    assert!(!app.is_global_quit(k));
    // ...it falls through to the search input handler, appending 'q'.
    app.key_event(k);
    assert_eq!(app.search.as_ref().unwrap().query, "q");
    assert!(!app.quit);
}

#[test]
fn q_still_quits_when_no_text_input_is_active() {
    let app = Client::seeded();
    assert!(app.is_global_quit(plain_key(KeyCode::Char('q'))));
}

#[test]
fn ctrl_c_quits_even_while_the_search_prompt_is_capturing_text() {
    let mut app = Client::seeded();
    app.run(|a| a.start_search());
    let k = Key { code: KeyCode::Char('c'), ctrl: true, shift: false };
    assert!(app.is_global_quit(k));
}

#[test]
fn a_key_press_acknowledges_a_failure_and_may_quit() {
    let mut app = Client::seeded();
    app.error_notice = Some("boom".into());
    let clock = app.clock();
    app.run(|a| a.on_key(plain_key(KeyCode::Down), clock));
    assert!(app.error_notice.is_none());
    assert!(!app.quit);
    app.run(|a| a.on_key(plain_key(KeyCode::Char('q')), clock));
    assert!(app.quit);
}

#[test]
fn the_sign_in_takes_every_key() {
    let mut app = Client::seeded();
    app.on_sync_event(SyncEvent::SignInRequired);
    app.focus = Pane::List;
    for code in [KeyCode::Char('d'), KeyCode::Down, KeyCode::F(9), KeyCode::Esc] {
        app.key(code);
    }
    assert!(app.signin_modal.is_some());
    assert!(app.sent.is_empty());
    assert_eq!(app.store.messages_in_folder("inbox").len(), 1);
    app.key(KeyCode::Enter);
    assert!(asked_to_sign_in(&mut app));
}

#[test]
fn ribbon_buttons_do_what_their_keys_do() {
    let mut app = Client::seeded();
    let clock = app.clock();
    let flag = command_for(Act::Flag).unwrap();
    app.run(|a| a.perform(flag, plain_key(KeyCode::Enter), clock));
    assert!(app.store.messages_in_folder("inbox")[0].is_flagged);
    assert!(command_for(Act::SendReceive).is_none());
}

// ---------------------------------------------------------------------------
// What is drawn
// ---------------------------------------------------------------------------

#[test]
fn threaded_view_renders_headers_and_expanded_children() {
    let mut app = Client::seeded();
    app.threaded = true;
    seed_second_in_c1(&mut app); // c1 = [Alice "Hello", Bob "Re: Hello"]
    app.reload_messages();
    // expand the first header
    let t = thread_of(&app, header_at(&app));
    app.threads[t].expanded = true;
    app.run(|a| a.rebuild_visible_rows());

    let text = all_shown(&message_list::threaded_lines(&app.app, 98));
    assert!(text.contains("(2)")); // thread count
    assert!(text.contains("Re: Hello")); // latest subject
    assert!(text.contains("Alice")); // a participant
}

/// Lays the opened body out, as drawing it does.
fn draw_body(app: &mut Client, viewport: usize) -> String {
    let html = app.body.as_ref().unwrap().content.clone();
    let lines = styled(&html);
    let focused = app.focused_url();
    let layout = reading::body_layout(&lines, &focused, 2);
    let captions: Vec<String> = layout
        .images
        .iter()
        .map(|(_, l)| reading::image_caption(lines[*l].image.as_ref().unwrap()))
        .collect();
    let text = all_shown(&layout.lines);
    let rows = layout.lines.len();
    app.run(|a| a.body_laid_out(layout.links, rows, viewport));
    format!("{text}\n{}", captions.join("\n"))
}

#[test]
fn drawing_a_two_link_body_populates_body_links() {
    let mut app = Client::seeded();
    app.store.put_body(
        "m1",
        "html",
        r#"<p><a href="https://a">one</a> and <a href="https://b">two</a></p>"#,
    );
    app.open_message("m1");
    assert!(app.body_links.is_empty()); // cleared until drawn
    draw_body(&mut app, 20);
    assert_eq!(app.body_links.len(), 2);
    assert_eq!(app.body_links[0].url, "https://a");
    assert_eq!(app.body_links[1].url, "https://b");
    assert_eq!(app.focused_link, None);
}

#[test]
fn links_are_walked_and_opened_only_after_asking() {
    let mut app = Client::seeded();
    app.store.put_body(
        "m1",
        "html",
        r#"<p><a href="https://a">one</a> and <a href="javascript:x">two</a></p>"#,
    );
    app.open_message("m1");
    draw_body(&mut app, 20);
    app.run(|a| a.focus_link(1));
    assert_eq!(app.focused_url().as_deref(), Some("https://a"));
    app.run(|a| a.open_focused_link());
    assert!(app.link_prompt.is_some());
    assert!(app.opened.is_empty());
    app.run(|a| a.link_prompt_key(KeyCode::Enter));
    assert!(app.link_prompt.is_none());
    assert_eq!(app.opened, vec!["https://a"]);
}

#[test]
fn renders_an_image_fallback_box_for_an_inline_cid_image() {
    let mut app = Client::seeded();
    let html = r#"<p>hello</p><img src="cid:logo123" alt="Logo"><p>bye</p>"#;
    app.store.put_body("m1", "html", html);
    app.open_message("m1");
    assert!(draw_body(&mut app, 30).contains("[image: Logo]"));
}

#[test]
fn cid_image_without_graphics_capability_draws_the_box() {
    let mut app = Client::seeded();
    app.store.put_body("m1", "html", r#"<img src="cid:logo" alt="Logo">"#);
    app.inline_images.push(("logo".into(), vec![0, 1, 2]));
    app.open_message("m1");
    assert!(app.inline_images.is_empty()); // open cleared it
    app.inline_images.push(("logo".into(), vec![0, 1, 2]));
    assert!(draw_body(&mut app, 24).contains("[image: Logo]"));
}

fn opened_header(app: &Client) -> String {
    let m = app.selected_message_row().unwrap();
    all_shown(&reading::header_lines(m, &app.master_categories))
}

#[test]
fn reader_shows_category_chips() {
    let mut app = Client::seeded();
    app.master_categories = vec![master("Work", "preset0")];
    let mut mc = message("mc", "Budget", "Al", "a@x", "2026-07-19T10:00:00Z");
    mc.is_read = true;
    mc.categories = vec!["Work".into()];
    app.store.upsert_message("inbox", "c1", mc);
    app.reload_messages();
    app.open_message("mc");
    let text = opened_header(&app);
    assert!(text.contains("Categories:"));
    assert!(text.contains("Work"));
}

#[test]
fn renders_the_meeting_banner_for_an_invite_only() {
    let mut app = Client::seeded();
    app.store.upsert_message("inbox", "c9", invite());
    app.reload_messages();

    // Invite → banner present.
    app.open_message("invite1");
    let text = opened_header(&app);
    assert!(text.contains("Meeting invite"));
    assert!(text.contains("[A]ccept"));

    // Ordinary message → no banner.
    app.open_message("m1");
    assert!(!opened_header(&app).contains("Meeting invite"));
}

#[test]
fn preset_and_lookup() {
    assert_eq!(preset_color("preset0"), Color::Red);
    assert_eq!(preset_color("none"), Color::Gray);
    assert_eq!(preset_color("bogus"), Color::Gray);
    let known = vec![master("Work", "preset4")];
    assert_eq!(color_for(&known, "Work"), Color::Green);
    assert_eq!(color_for(&known, "Missing"), Color::Gray); // fallback
}

#[test]
fn draw_renders_rows_and_free_row() {
    let mut app = Client::seeded();
    app.mode = Mode::Calendar;
    app.free_busy = Some(FreeBusyView {
        day_label: "Mon Jul 21".into(),
        slot_count: 20,
        entries: vec![ScheduleEntry {
            email: "alice@x".into(),
            availability: "00222200000000000000".into(),
        }],
        loading: false,
    });
    assert!(app.draws(Widget::FreeBusy));
    let text = grid_lines(app.free_busy.as_ref().unwrap()).join("\n");
    assert!(text.contains("alice@x"));
    assert!(text.contains("free?"));
}

#[test]
fn glyph_mapping() {
    assert_eq!(slot_glyph('0'), '·');
    assert_eq!(slot_glyph('1'), '▓');
    assert_eq!(slot_glyph('2'), '█');
    let entries = vec![
        ScheduleEntry { email: "a".into(), availability: "02".into() },
        ScheduleEntry { email: "b".into(), availability: "00".into() },
    ];
    assert_eq!(combined_glyph(&entries, 0), '✓'); // both free
    assert_eq!(combined_glyph(&entries, 1), '█'); // a busy
    assert_eq!(combined_glyph(&entries, 5), '✓'); // past end = free
}

#[test]
fn draw_renders_radios_and_message_labels() {
    let mut app = Client::seeded();
    let mut form = OofForm::loading_default();
    form.loading = false;
    let mut settings = replies(OofStatus::Scheduled);
    settings.external_audience = ExternalAudience::All;
    settings.scheduled_start_utc = "2026-07-20T09:00:00Z".into();
    settings.scheduled_end_utc = "2026-07-27T17:00:00Z".into();
    form.prefill(&settings, 0);
    app.oof_form = Some(form);

    assert!(app.draws(Widget::OofForm));
    let form = app.oof_form.as_ref().unwrap();
    assert!(oofform::status_text(form.status).contains("Scheduled"));
    assert_eq!(form.internal, "Away");
    assert_eq!(form.external, "Out");
    assert_eq!(form.start, "2026-07-20 09:00");
}

#[test]
fn cycling_status_and_audience_wraps() {
    let mut form = OofForm::loading_default();
    assert_eq!(form.status, OofStatus::Disabled);
    form.cycle_status();
    assert_eq!(form.status, OofStatus::AlwaysEnabled);
    form.cycle_status();
    assert_eq!(form.status, OofStatus::Scheduled);
    form.cycle_status();
    assert_eq!(form.status, OofStatus::Disabled);

    form.audience = ExternalAudience::Nobody;
    form.cycle_audience();
    assert_eq!(form.audience, ExternalAudience::ContactsOnly);
    form.cycle_audience();
    assert_eq!(form.audience, ExternalAudience::All);
    form.cycle_audience();
    assert_eq!(form.audience, ExternalAudience::Nobody);
}

fn entry(base: &str, name: &str, is_dir: bool) -> FileEntry {
    FileEntry { name: name.into(), path: format!("{base}/{name}"), is_dir, size: 1 }
}

#[test]
fn lists_parent_then_dirs_then_files_and_navigates() {
    let found = || {
        vec![
            entry("/base", "z.txt", false),
            entry("/base", "sub", true),
            entry("/base", "a.txt", false),
        ]
    };
    let open = || FilePicker::open("/base".to_string(), Some("/".to_string()), found());

    let mut fp = open();
    // ".." first, then the directory "sub", then files a.txt, z.txt
    let names: Vec<&str> = fp.entries.iter().map(|e| e.name.as_str()).collect();
    assert_eq!(names, vec!["..", "sub", "a.txt", "z.txt"]);

    // entering "sub" (a directory) asks for it to be listed
    fp.index = 1;
    assert_eq!(fp.enter(), Entered::Directory("/base/sub".to_string()));

    // selecting a file returns its path
    fp.index = 2;
    assert_eq!(fp.enter(), Entered::File("/base/a.txt".to_string()));

    // move is clamped
    let mut fp3 = open();
    fp3.move_selection(-1);
    assert_eq!(fp3.index, 0);
}

// ---------------------------------------------------------------------------
// The control channel
// ---------------------------------------------------------------------------

fn args(pairs: Vec<(&str, Json)>) -> Json {
    Json::object(pairs.into_iter().map(|(k, v)| (k.to_string(), v)).collect())
}

fn str_arg(s: &str) -> Json {
    Json::Str(s.to_string())
}

/// Answers a request from the mailbox, and carries out what it asks for.
fn dispatch(app: &mut Client, verb: &str, a: &Json) -> Result<Json, String> {
    let request = control::request(verb, a, &app.selected_folder)?;
    let folders = app.store.folders.clone();
    let r = match request {
        Request::Status => Ok(control::status(&app.app, &folders, 0)),
        Request::Folders => Ok(control::folders(&folders)),
        Request::List { folder, limit, offset } => {
            let rows: Vec<MessageRow> = app
                .store
                .messages_in_folder(&folder)
                .into_iter()
                .skip(usize::try_from(offset).unwrap())
                .take(usize::try_from(limit).unwrap())
                .collect();
            Ok(control::list(&folder, &rows, &folders))
        }
        Request::Search { query, .. } => Ok(control::search(&query, &app.store.search(&query))),
        Request::Read { id } => {
            let body = app.store.body(&id).map(|b| {
                let line = text_row(vec![plain_span(b.content, None)]);
                control::render_body_plain(&vec![line], 2)
            });
            let row = app.store.message(&id).cloned();
            control::read(&mut app.app, &id, row.as_ref(), body)
        }
        Request::Mark { id, read } => Ok(control::mark(&mut app.app, &id, read)),
        Request::Flag { id, flagged } => Ok(control::flag(&mut app.app, &id, flagged)),
        Request::Move { id, dest } => {
            if let Some(m) = app.store.message(&id) {
                m.folder_id = dest.clone();
            }
            control::move_msg(&mut app.app, &id, &dest, Ok(()))
        }
        Request::Delete { id } => {
            app.store.messages.retain(|(_, m)| m.id != id);
            control::delete(&mut app.app, &id, Ok(()))
        }
        Request::Attachments { id } => {
            let items = app.store.attachments(&id);
            let row = app.store.message(&id).cloned();
            Ok(control::attachments(&mut app.app, &id, &items, row.as_ref()))
        }
        Request::SaveAttachment { id, attachment, dest } => {
            let items = app.store.attachments(&id);
            control::save_attachment(&mut app.app, &id, &attachment, &dest, &items)
        }
        Request::Select { folder, id } => control::select(&mut app.app, folder, &folders, id),
        Request::Refresh => Ok(control::refresh(&mut app.app)),
    };
    app.settle();
    r
}

fn text_at<'a>(r: &'a Json, key: &str) -> Option<&'a str> {
    r.get_str(key).map(String::as_str)
}

fn list_at<'a>(r: &'a Json, key: &str) -> &'a Vec<Json> {
    match r.get(key) {
        Some(Json::Arr(v)) => v,
        other => panic!("expected an array under {key}, got {other:?}"),
    }
}

fn with_archive() -> Client {
    let mut app = Client::seeded();
    app.store.upsert_folder("archive", "Archive", None, Some("archive"));
    app
}

#[test]
fn status_reports_account_folders_and_selection() {
    let mut app = Client::seeded();
    let r = dispatch(&mut app, "mail.status", &Json::Null).unwrap();
    assert_eq!(r.get("account").unwrap(), &Json::Null);
    assert_eq!(text_at(&r, "sync_state"), Some("idle"));
    assert_eq!(r.get_num("folders"), Some(1));
    assert_eq!(r.get_num("unread_total"), Some(1));
    assert_eq!(r.get_num("pending_ops"), Some(0));
    assert_eq!(text_at(&r, "selected_folder"), Some("inbox"));
}

#[test]
fn folders_lists_the_seeded_folder() {
    let mut app = Client::seeded();
    let r = dispatch(&mut app, "mail.folders", &Json::Null).unwrap();
    let fs = list_at(&r, "folders");
    assert_eq!(fs.len(), 1);
    assert_eq!(text_at(&fs[0], "id"), Some("inbox"));
    assert_eq!(text_at(&fs[0], "name"), Some("Inbox"));
    assert_eq!(fs[0].get_num("unread"), Some(1));
    assert_eq!(text_at(&fs[0], "well_known"), Some("inbox"));
}

#[test]
fn list_defaults_to_the_selected_folder() {
    let mut app = Client::seeded();
    let r = dispatch(&mut app, "mail.list", &Json::Null).unwrap();
    assert_eq!(text_at(&r, "folder"), Some("inbox"));
    let msgs = list_at(&r, "messages");
    assert_eq!(msgs.len(), 1);
    assert_eq!(text_at(&msgs[0], "id"), Some("m1"));
    assert_eq!(text_at(&msgs[0], "subject"), Some("Hello"));
    assert_eq!(msgs[0].get_bool("is_read"), Some(false));
}

#[test]
fn list_respects_explicit_folder_and_limit() {
    let mut app = with_archive();
    let a = args(vec![("folder", str_arg("archive")), ("limit", Json::Num(10))]);
    let r = dispatch(&mut app, "mail.list", &a).unwrap();
    assert_eq!(text_at(&r, "folder"), Some("archive"));
    assert!(list_at(&r, "messages").is_empty());
}

#[test]
fn read_returns_cached_body() {
    let mut app = Client::seeded();
    app.store.put_body("m1", "text", "hello body");
    let r = dispatch(&mut app, "mail.read", &args(vec![("id", str_arg("m1"))])).unwrap();
    assert_eq!(text_at(&r, "id"), Some("m1"));
    assert_eq!(text_at(&r, "folder"), Some("inbox"));
    assert_eq!(text_at(&r, "body_text"), Some("hello body"));
    assert!(r.get("body_pending").is_none());
}

#[test]
fn read_requests_a_fetch_when_body_is_missing() {
    let mut app = Client::seeded();
    let r = dispatch(&mut app, "mail.read", &args(vec![("id", str_arg("m1"))])).unwrap();
    assert_eq!(r.get_bool("body_pending"), Some(true));
    assert_eq!(text_at(&r, "body_text"), Some(""));
    assert!(matches!(app.sent.pop_back(), Some(SyncCommand::FetchBody { id }) if id == "m1"));
}

#[test]
fn read_errors_on_unknown_id() {
    let mut app = Client::seeded();
    let err = dispatch(&mut app, "mail.read", &args(vec![("id", str_arg("nope"))])).unwrap_err();
    assert_eq!(err, "no such message 'nope'");
}

#[test]
fn search_finds_seeded_message_by_subject() {
    let mut app = Client::seeded();
    let r = dispatch(&mut app, "mail.search", &args(vec![("query", str_arg("Hello"))])).unwrap();
    assert_eq!(r.get_num("count"), Some(1));
    assert_eq!(text_at(&list_at(&r, "messages")[0], "id"), Some("m1"));
}

#[test]
fn mark_writes_store_and_sends_command() {
    let mut app = Client::seeded();
    let a = args(vec![("id", str_arg("m1")), ("read", Json::Bool(true))]);
    let r = dispatch(&mut app, "mail.mark", &a).unwrap();
    assert_eq!(r.get_bool("is_read"), Some(true));
    assert!(app.messages.iter().find(|m| m.id == "m1").unwrap().is_read);
    assert!(matches!(
        app.sent.pop_back(),
        Some(SyncCommand::MarkRead { id, read: true }) if id == "m1"
    ));
}

#[test]
fn flag_writes_store_and_sends_command() {
    let mut app = Client::seeded();
    let a = args(vec![("id", str_arg("m1")), ("flagged", Json::Bool(true))]);
    let r = dispatch(&mut app, "mail.flag", &a).unwrap();
    assert_eq!(r.get_bool("is_flagged"), Some(true));
    assert!(app.messages.iter().find(|m| m.id == "m1").unwrap().is_flagged);
    assert!(matches!(
        app.sent.pop_back(),
        Some(SyncCommand::SetFlag { id, flagged: true }) if id == "m1"
    ));
}

#[test]
fn move_relocates_and_sends_command() {
    let mut app = with_archive();
    let a = args(vec![("id", str_arg("m1")), ("dest", str_arg("archive"))]);
    let r = dispatch(&mut app, "mail.move", &a).unwrap();
    assert_eq!(text_at(&r, "folder"), Some("archive"));
    assert!(app.store.messages_in_folder("inbox").is_empty());
    assert_eq!(app.store.messages_in_folder("archive")[0].id, "m1");
    assert!(app.messages.is_empty());
    assert!(matches!(
        app.sent.pop_back(),
        Some(SyncCommand::Move { id, dest }) if id == "m1" && dest == "archive"
    ));
}

#[test]
fn delete_removes_and_sends_command() {
    let mut app = Client::seeded();
    let r = dispatch(&mut app, "mail.delete", &args(vec![("id", str_arg("m1"))])).unwrap();
    assert_eq!(r.get_bool("deleted"), Some(true));
    assert!(app.store.messages_in_folder("inbox").is_empty());
    assert!(matches!(app.sent.pop_back(), Some(SyncCommand::Delete { id }) if id == "m1"));
}

#[test]
fn attachments_returns_stored_metadata() {
    let mut app = Client::seeded();
    app.store.put_attachments("m1", vec![notes()]);
    let r = dispatch(&mut app, "mail.attachments", &args(vec![("id", str_arg("m1"))])).unwrap();
    let items = list_at(&r, "attachments");
    assert_eq!(items.len(), 1);
    assert_eq!(text_at(&items[0], "name"), Some("notes.txt"));
}

#[test]
fn attachments_requests_a_fetch_when_none_stored_but_graph_has_some() {
    let mut app = Client::seeded();
    seed_message_with_has_attachments_but_no_local_rows(&mut app);
    let r = dispatch(&mut app, "mail.attachments", &args(vec![("id", str_arg("m1"))])).unwrap();
    assert!(list_at(&r, "attachments").is_empty());
    assert!(matches!(
        app.sent.pop_back(),
        Some(SyncCommand::FetchAttachments { message_id }) if message_id == "m1"
    ));
}

#[test]
fn save_attachment_defaults_dest_to_downloads() {
    let mut app = Client::seeded();
    app.store.put_attachments("m1", vec![notes()]);
    let a = args(vec![("id", str_arg("m1")), ("attachment", str_arg("a1"))]);
    let r = dispatch(&mut app, "mail.save-attachment", &a).unwrap();
    assert_eq!(r.get_bool("queued"), Some(true));
    let dest = text_at(&r, "dest").unwrap();
    assert!(dest.ends_with("notes.txt"));
    assert!(dest.contains("Downloads"));
    assert!(matches!(
        app.sent.pop_back(),
        Some(SyncCommand::SaveAttachment { dest, .. }) if dest == saved_path("notes.txt")
    ));
}

#[test]
fn save_attachment_confines_explicit_dest_to_downloads() {
    let mut app = Client::seeded();
    let a = args(vec![
        ("id", str_arg("m1")),
        ("attachment", str_arg("a1")),
        ("dest", str_arg("C:/tmp/custom.txt")),
    ]);
    let r = dispatch(&mut app, "mail.save-attachment", &a).unwrap();
    let dest = text_at(&r, "dest").unwrap();
    assert_ne!(dest, "C:/tmp/custom.txt");
    assert!(dest.contains("Downloads"));
    assert!(dest.ends_with("custom.txt"));
    assert!(matches!(
        app.sent.pop_back(),
        Some(SyncCommand::SaveAttachment { dest, .. }) if dest == saved_path("custom.txt")
    ));
}

#[test]
fn saving_an_unknown_attachment_is_refused() {
    let mut app = Client::seeded();
    let a = args(vec![("id", str_arg("m1")), ("attachment", str_arg("zz"))]);
    let err = dispatch(&mut app, "mail.save-attachment", &a).unwrap_err();
    assert_eq!(err, "no attachment 'zz' on message 'm1'");
    assert!(app.sent.is_empty());
}

#[test]
fn select_updates_folder_and_message() {
    let mut app = with_archive();
    let a = args(vec![("folder", str_arg("archive")), ("id", str_arg("m1"))]);
    let r = dispatch(&mut app, "mail.select", &a).unwrap();
    assert_eq!(text_at(&r, "selected_folder"), Some("archive"));
    assert_eq!(text_at(&r, "selected_message"), Some("m1"));
    assert_eq!(app.selected_folder.as_deref(), Some("archive"));
    assert_eq!(app.selected_msg.as_deref(), Some("m1"));
}

#[test]
fn select_errors_on_unknown_folder() {
    let mut app = Client::seeded();
    let a = args(vec![("folder", str_arg("nope"))]);
    assert_eq!(dispatch(&mut app, "mail.select", &a).unwrap_err(), "no such folder 'nope'");
}

#[test]
fn refresh_sends_refresh_command() {
    let mut app = Client::seeded();
    let r = dispatch(&mut app, "mail.refresh", &Json::Null).unwrap();
    assert_eq!(r.get_bool("refreshing"), Some(true));
    assert!(matches!(app.sent.pop_back(), Some(SyncCommand::Refresh)));
}

#[test]
fn dispatch_routes_a_known_verb_and_errors_on_unknown() {
    let mut app = Client::seeded();
    assert!(dispatch(&mut app, "mail.status", &Json::Null).is_ok());
    let err = dispatch(&mut app, "mail.frobnicate", &Json::Null).unwrap_err();
    assert!(err.contains("unknown verb"));
}

#[test]
fn missing_arguments_are_named() {
    let mut app = Client::seeded();
    for (verb, arg) in [
        ("mail.read", "id"),
        ("mail.search", "query"),
        ("mail.mark", "id"),
        ("mail.move", "id"),
        ("mail.delete", "id"),
        ("mail.attachments", "id"),
        ("mail.save-attachment", "id"),
    ] {
        let err = dispatch(&mut app, verb, &Json::Null).unwrap_err();
        assert!(err.contains(arg), "{verb}: {err}");
    }
}

#[test]
fn tools_list_includes_the_expected_tools() {
    let tools: Vec<Json> = mcp::tool_defs().iter().map(mcp::tool_json).collect();
    let names: Vec<&str> = tools.iter().filter_map(|t| text_at(t, "name")).collect();
    for expected in [
        "lookxy_list",
        "lookxy_status",
        "lookxy_folders",
        "lookxy_messages",
        "lookxy_read",
        "lookxy_search",
        "lookxy_mark",
        "lookxy_flag",
        "lookxy_move",
        "lookxy_delete",
        "lookxy_attachments",
        "lookxy_save_attachment",
        "lookxy_select",
        "lookxy_refresh",
    ] {
        assert!(names.contains(&expected), "missing tool {expected}");
    }
    // Every tool carries an object input schema.
    for t in &tools {
        assert_eq!(text_at(t.get("inputSchema").unwrap(), "type"), Some("object"));
    }
}

#[test]
fn unknown_tool_is_reported() {
    let err = mcp::do_tool("lookxy_nonesuch").unwrap_err();
    assert!(err.contains("unknown tool"));
}

#[test]
fn every_offered_tool_can_be_called() {
    for t in mcp::tool_defs() {
        assert!(mcp::do_tool(t.name).is_ok(), "{}", t.name);
    }
}

#[test]
fn switching_twice_between_mail_and_calendar_leads_back() {
    let mut app = Client::seeded();
    app.run(|a| a.toggle_mode());
    assert!(matches!(app.sent.pop_front(), Some(SyncCommand::RefreshCalendar)));
    app.run(|a| a.toggle_mode());
    assert_eq!(app.mode, Mode::Mail);
}

#[test]
fn the_ribbon_closes_as_it_opens() {
    let mut app = Client::seeded();
    app.key(KeyCode::F(9));
    app.key(KeyCode::F(9));
    assert_eq!(app.ribbon_focus, Focus::Off);
    assert!(!app.ribbon_open);
}

#[test]
fn attendees_named_twice_are_asked_once() {
    let mut app = Client::seeded();
    app.account = Some("me@x".into());
    let mut form = event_form("Sync", "2026-07-21 14:00", "2026-07-21 15:00");
    form.attendees = "bob@x; Bob <bob@x>; me@x".into();
    app.event_form = Some(form);
    let clock = app.clock();
    app.run(|a| a.open_free_busy(clock));
    match app.sent.pop_front() {
        Some(SyncCommand::FetchSchedule { schedules, .. }) => {
            assert_eq!(schedules, vec!["me@x", "bob@x"]);
        }
        other => panic!("expected FetchSchedule, got {other:?}"),
    }
}

#[test]
fn a_window_that_ends_before_it_starts_is_refused() {
    let mut app = Client::seeded();
    app.rsvp_prompt = Some(declining("2026-07-21 15:00", "2026-07-21 14:00"));
    app.submit_rsvp();
    assert_eq!(app.error_notice.as_deref(), Some("Invalid proposed time"));

    // Accepting proposes nothing, whatever the fields hold.
    let mut accept = declining("2026-07-21 15:00", "nonsense");
    accept.kind = "accepted".into();
    app.rsvp_prompt = Some(accept);
    app.submit_rsvp();
    match app.sent.pop_back() {
        Some(SyncCommand::RespondEvent { proposed_start_utc, proposed_end_utc, .. }) => {
            assert_eq!((proposed_start_utc, proposed_end_utc), (None, None));
        }
        other => panic!("expected RespondEvent, got {other:?}"),
    }
}

const SCREEN: Area = Area { x: 0, y: 0, width: 100, height: 30 };

fn area(x: u16, y: u16, width: u16, height: u16) -> Area {
    Area { x, y, width, height }
}

#[test]
fn the_screen_is_shared_out() {
    let mut app = Client::seeded();
    let p = layout::places(&app.app, SCREEN, 6);
    assert_eq!(p.ribbon, area(0, 0, 100, 1));
    assert_eq!(p.rail, area(0, 1, 5, 29));
    assert_eq!(p.main, area(5, 1, 95, 28));
    assert_eq!(p.status, area(5, 29, 95, 1));
    assert_eq!(p.folders, area(5, 1, 21, 28));
    assert_eq!(p.list, area(26, 1, 36, 28));
    assert_eq!(p.reading, area(62, 1, 38, 28));

    app.reminder_queue.push_back("soon".into());
    app.ribbon_open = true;
    let p = layout::places(&app.app, SCREEN, 6);
    assert_eq!(p.banner, area(0, 0, 100, 1));
    assert_eq!(p.ribbon, area(0, 1, 100, 6));
    assert_eq!(p.rail, area(0, 7, 5, 23));
}

#[test]
fn popups_stand_in_the_middle() {
    assert_eq!(layout::centered_rect(50, 40, SCREEN), area(25, 9, 50, 12));
    assert_eq!(layout::columns(SCREEN, &vec![45, 55]), vec![area(0, 0, 45, 30), area(45, 0, 55, 30)]);
}

#[test]
fn everything_is_drawn_on_the_screen() {
    let mut app = Client::seeded();
    app.on_sync_event(SyncEvent::SignInRequired);
    app.help = true;
    for screen in [SCREEN, area(0, 0, 1, 1), area(3, 2, 40, 0)] {
        let drawn = layout::arrangement(&app.app, screen, 6);
        let widgets: Vec<Widget> = drawn.iter().map(|(w, _)| *w).collect();
        assert_eq!(widgets, screen::widgets(&app.app));
        for (w, a) in drawn {
            assert!(a.x >= screen.x && a.y >= screen.y, "{w:?}");
            assert!(a.x + a.width <= screen.x + screen.width, "{w:?}");
            assert!(a.y + a.height <= screen.y + screen.height, "{w:?}");
        }
    }
}

/// A share of `length` cells, to the nearest cell.
fn nearest(length: u16, percent: u16) -> u16 {
    ((length as u32 * percent as u32 + 50) / 100) as u16
}

#[test]
fn shares_meet_at_the_nearest_cell() {
    let lists: [&[u16]; 6] =
        [&[22, 38, 40], &[45, 55], &[0, 100, 0], &[33, 33, 33], &[25, 49, 25], &[7]];
    for x in [0u16, 7, 1000] {
        for width in (0u16..140).chain([999, 12_345, 64_535]) {
            let whole = area(x, 2, width, 3);
            for percents in lists {
                let mut before = 0;
                for (i, part) in layout::columns(whole, &percents.to_vec()).iter().enumerate() {
                    let from = nearest(width, before);
                    before += percents[i];
                    let to = nearest(width, before);
                    assert_eq!(*part, area(x + from, 2, to - from, 3), "{percents:?} of {width}");
                }
            }
        }
    }
}

#[test]
fn popups_of_every_size_stand_in_the_middle() {
    for height in (0u16..120).chain([9_999, 65_535]) {
        for (px, py) in [(50, 40), (70, 20), (80, 70), (50, 60), (99, 1)] {
            let (rx, ry) = ((100 - px) / 2, (100 - py) / 2);
            let (top, bottom) = (nearest(height, ry), nearest(height, ry + py));
            let (left, right) = (nearest(81, rx), nearest(81, rx + px));
            assert_eq!(
                layout::centered_rect(px, py, area(0, 0, 81, height)),
                area(left, top, right - left, bottom - top),
            );
        }
    }
}

#[test]
fn lengths_are_met_as_far_as_the_area_goes() {
    for y in [0u16, 9] {
        for height in (0u16..70).chain([5_000, 65_526]) {
            let whole = area(4, y, 11, height);
            for n in [0u16, 1, 5, 22, 300, 65_535] {
                let at = n.min(height);
                let (first, rest) = layout::split_first(whole, true, n);
                assert_eq!(first, area(4, y, 11, at));
                assert_eq!(rest, area(4, y + at, 11, height - at));
            }
            let at = height.saturating_sub(1);
            let (rest, last) = layout::split_last_row(whole);
            assert_eq!(rest, area(4, y, 11, at));
            assert_eq!(last, area(4, y + at, 11, height - at));
        }
    }
}

#[test]
fn an_unknown_availability_is_neither_free_nor_busy() {
    let entry = |a: &str| ScheduleEntry { email: "a".into(), availability: a.into() };
    assert_eq!(combined_glyph(&vec![entry("5"), entry("0")], 0), '░');
    assert_eq!(combined_glyph(&vec![entry("1"), entry("0")], 0), '░');
    assert_eq!(combined_glyph(&vec![entry("5"), entry("3")], 0), '█');
    assert_eq!(combined_glyph(&Vec::new(), 0), '✓');
}

#[test]
fn availability_is_titled_with_the_date_of_its_start_in_utc() {
    let mut app = Client::seeded();
    app.event_form = Some(event_form("Sync", "2026-07-21 14:00", "2026-07-21 15:00"));
    let clock = Clock { now: agenda::local_time(app.now, 540), offset: 540 };
    app.run(|a| a.open_free_busy(clock));
    assert_eq!(app.free_busy.as_ref().unwrap().day_label, "Mon Jul 20");
    match app.sent.pop_front() {
        Some(SyncCommand::FetchSchedule { start_utc, end_utc, .. }) => {
            assert_eq!(start_utc, "2026-07-20T23:00:00Z");
            assert_eq!(end_utc, "2026-07-21T09:00:00Z");
        }
        other => panic!("expected FetchSchedule, got {other:?}"),
    }
}

#[test]
fn left_steps_out_of_a_folder_whose_parent_is_not_shown() {
    let mut store = Mailbox::default();
    store.upsert_folder("inbox", "Inbox", Some("msgfolderroot"), Some("inbox"));
    store.upsert_folder("epam", "EPAM", Some("inbox"), None);
    let mut app = Client::over(store);
    app.focus = Pane::Folders;
    app.key(KeyCode::Right); // expands the Inbox, onto its child
    assert_eq!(app.selected_folder.as_deref(), Some("epam"));
    app.key(KeyCode::Left);
    assert_eq!(app.selected_folder.as_deref(), Some("inbox"));
    assert_eq!(app.focus, Pane::Folders);
    app.key(KeyCode::Left); // collapses it
    assert_eq!(app.focus, Pane::Folders);
    app.key(KeyCode::Left);
    assert_eq!(app.focus, Pane::Rail);
}

#[test]
fn an_open_popup_keeps_esc_from_the_reminder_and_the_filter() {
    let mut app = Client::seeded();
    app.focus = Pane::List;
    app.reminder_queue.push_back("soon".into());
    app.run(|a| a.open_move_picker());
    app.category_filter = Some("Work".into());
    app.key(KeyCode::Esc);
    assert!(app.move_picker.is_none());
    assert_eq!(app.reminder_queue.len(), 1);
    assert!(app.category_filter.is_some());
    app.key(KeyCode::Esc);
    assert!(app.reminder_queue.is_empty());
    assert!(app.category_filter.is_some());
    app.key(KeyCode::Esc);
    assert!(app.category_filter.is_none());
}

#[test]
fn the_file_picker_is_drawn_over_the_composer() {
    let (mut app, _) = seeded_compose_session();
    app.file_picker = Some(FilePicker { dir: "/home".into(), entries: Vec::new(), index: 0 });
    assert_eq!(screen::widgets(&app.app), vec![Widget::Compose, Widget::FilePicker]);
}

#[test]
fn the_sign_in_is_drawn_over_the_mail_panes_alone() {
    let mut app = Client::seeded();
    app.help = true;
    app.on_sync_event(SyncEvent::SignInRequired);
    assert_eq!(screen::widgets(&app.app).last(), Some(&Widget::SignIn));
    app.mode = Mode::Calendar;
    assert!(!app.draws(Widget::SignIn));
    let (mut app, _) = seeded_compose_session();
    app.on_sync_event(SyncEvent::SignInRequired);
    assert_eq!(screen::widgets(&app.app), vec![Widget::Compose]);
}

#[test]
fn what_is_filtered_is_shown_flat() {
    let mut app = Client::seeded();
    app.threaded = true;
    app.master_categories = vec![master("Work", "preset0")];
    let mut w = message("w", "Work item", "B", "b@x", "2026-07-19T11:00:00Z");
    w.categories = vec!["Work".into()];
    app.store.upsert_message("inbox", "c2", w);
    app.reload_messages();
    assert!(app.threaded_active());
    app.run(|a| a.open_category_picker(PickerMode::Filter));
    app.run(|a| a.apply_category_picker());
    assert!(!app.threaded_active());
    assert_eq!(app.messages.len(), 1);
    app.focus = Pane::List;
    app.chr('f');
    assert!(app.sent.iter().any(|c| matches!(c, SyncCommand::SetFlag { id, .. } if id == "w")));
    app.run(|a| a.clear_category_filter());
    assert!(app.threaded_active());
}

#[test]
fn the_scope_of_a_move_is_that_of_the_messages_moved() {
    let mut app = Client::seeded();
    app.threaded = true;
    app.store.upsert_folder("sent", "Sent", None, Some("sentitems"));
    seed_second_in_c1(&mut app);
    app.store.message("m2").unwrap().folder_id = "sent".into();
    app.reload_messages();
    let folders = app.store.folders.clone();
    let ids = vec!["m1".to_string(), "m2".to_string()];
    assert_eq!(app.describe_thread_scope(&ids, &folders), "2 messages (incl. 1 in Sent)");
    app.row_index = 99;
    assert_eq!(app.describe_thread_scope(&ids, &folders), "2 messages (incl. 1 in Sent)");
    let others = vec!["m1".to_string(), "x".to_string()];
    assert_eq!(app.describe_thread_scope(&others, &folders), "2 messages");
}

#[test]
fn another_folder_is_read_from_its_top() {
    let mut app = Client::seeded();
    app.threaded = true;
    seed_singleton_c2(&mut app);
    app.store.upsert_folder("archive", "Archive", None, Some("archive"));
    for (i, c) in ["x1", "x2"].iter().enumerate() {
        let m = message(c, "Old", "Dan", "dan@x", &format!("2026-07-1{i}T10:00:00Z"));
        app.store.upsert_message("archive", c, m);
    }
    app.run(|a| a.reload_folders());
    app.row_index = 1;
    app.focus = Pane::Folders;
    app.key(KeyCode::Down);
    assert_eq!(app.selected_folder.as_deref(), Some("archive"));
    assert_eq!(app.row_index, 0);
}

#[test]
fn selecting_a_folder_moves_the_cursor_onto_it() {
    let mut app = Client::with_folder_tree();
    let folders = app.store.folders.clone();
    let sent = app.visible_folders.iter().position(|v| v.row.id == "sent").unwrap();
    assert_ne!(app.folder_index, sent);
    control::select(&mut app.app, Some("sent".into()), &folders, None).unwrap();
    assert_eq!(app.folder_index, sent);
    // A folder that the tree does not show is opened all the same.
    control::select(&mut app.app, Some("epam".into()), &folders, None).unwrap();
    assert_eq!(app.folder_index, sent);
    assert_eq!(app.selected_folder.as_deref(), Some("epam"));
}
