//! The mail client's state, and the rules by which keys and sync events change
//! it.
//!
//! What the client does outside its own memory (reading and writing the local
//! store, talking to the sync engine, opening files) it asks for: each method
//! appends to `App::actions`, and whoever runs the client carries the actions
//! out in order, handing what a read came back with to the method that the
//! action names, and carrying out what that asks for before going on.

use crate::datetime;
use crate::datetime::LocalDateTime;
use crate::model::{
    AttachmentMeta, Body, EventFields, EventRow, FolderRow, MasterCategory, MessageRow,
    SyncCommand, SyncState, Thread,
};
use crate::text;
use crate::ui::backstage::Backstage;
use crate::ui::categorypicker::CategoryPicker;
use crate::ui::compose::{Compose, ComposeAction, RichText};
use crate::ui::eventform::EventForm;
use crate::ui::filepicker::FilePicker;
use crate::ui::foldertree::VisibleFolder;
use crate::ui::freebusy::FreeBusyView;
use crate::ui::linkprompt::LinkPrompt;
use crate::ui::oofform::OofForm;
use crate::ui::reading::BodyLink;
use crate::ui::ribbon::{Dir, Focus};
use std::collections::VecDeque;
use vstd::prelude::*;

pub mod attachments;
pub mod attendees;
pub mod calendar;
pub mod categories;
pub mod drafts;
pub mod events;
pub mod folders;
pub mod forms;
pub mod keys;
pub mod names;
pub mod navigate;
pub mod overlays;
pub mod reading;
pub mod reminders;
pub mod search;
pub mod sync;
pub mod triage;

verus! {

/// Which pane currently has keyboard focus.
#[derive(Debug, Clone, Copy, PartialEq, Eq, Structural)]
pub enum Pane {
    /// Level 0: the Mail/Calendar rail, left of the folder pane.
    Rail,
    Folders,
    List,
    Reading,
}

/// The top-level view: the mail panes, or the calendar's agenda and detail.
#[derive(Debug, Clone, Copy, PartialEq, Eq, Structural)]
pub enum Mode {
    Mail,
    Calendar,
}

/// Which sign-in modal is showing: `Required` until Enter asks for it,
/// `Started` once the browser has been opened, with the URL to open by hand.
#[derive(Debug, PartialEq, Eq)]
pub enum SignInModal {
    Required,
    Started { authorize_url: String },
}

/// The move-folder popup: the candidate folders, which one is highlighted, and
/// the message being moved, captured when the popup opened. `thread_ids` is the
/// whole conversation where one of several messages is moved.
#[derive(Debug, PartialEq, Eq)]
pub struct MovePicker {
    pub folders: Vec<FolderRow>,
    pub index: usize,
    pub message_id: String,
    pub thread_ids: Option<Vec<String>>,
}

/// The search prompt: the query as typed, and the results of the last search.
#[derive(Debug, PartialEq, Eq)]
pub struct SearchState {
    pub query: String,
    pub results: Option<Vec<MessageRow>>,
}

/// The attachments popup: the message it lists attachments for, what they are,
/// and which one is highlighted. `loading` is set while they are fetched.
#[derive(Debug, PartialEq, Eq)]
pub struct AttachmentsPopup {
    pub message_id: String,
    pub items: Vec<AttachmentMeta>,
    pub index: usize,
    pub loading: bool,
}

/// Which RSVP surface a prompt is for: a calendar event, or a meeting invite in
/// the mail reader.
#[derive(Debug, PartialEq, Eq)]
pub enum RsvpTarget {
    Event(String),
    Message(String),
}

/// The focused field in the RSVP prompt. The proposed-time fields only apply to
/// declining and accepting tentatively.
#[derive(Debug, Clone, Copy, PartialEq, Eq, Structural)]
pub enum RsvpField {
    ProposedStart,
    ProposedEnd,
    Comment,
}

/// The open RSVP prompt. `kind` is `accepted`, `declined` or
/// `tentativelyAccepted`; the proposed times hold local-time text, empty where
/// nothing is proposed.
#[derive(Debug, PartialEq, Eq)]
pub struct RsvpPrompt {
    pub target: RsvpTarget,
    pub kind: String,
    pub comment: String,
    pub proposed_start: String,
    pub proposed_end: String,
    pub focus: RsvpField,
}

/// Whether a response of this kind can carry a proposed new time.
pub open spec fn kind_proposes(kind: Seq<char>) -> bool {
    kind == "declined"@ || kind == "tentativelyAccepted"@
}

pub fn proposing(kind: &str) -> (r: bool)
    ensures
        r == kind_proposes(kind@),
{
    text::same(kind, "declined") || text::same(kind, "tentativelyAccepted")
}

impl RsvpPrompt {
    pub open spec fn may_propose(self) -> bool {
        kind_proposes(self.kind@)
    }

    /// True when this RSVP kind can carry a proposed new time (decline or
    /// tentative, never accept).
    pub fn proposes(&self) -> (r: bool)
        ensures
            r == self.may_propose(),
    {
        proposing(self.kind.as_str())
    }
}

/// A conversation in the threaded folder view, and whether it is expanded.
#[derive(Debug, PartialEq, Eq)]
pub struct ThreadView {
    pub thread: Thread,
    pub expanded: bool,
}

/// A pending destructive confirmation.
#[derive(Debug, PartialEq, Eq)]
pub struct ConfirmModal {
    pub prompt: String,
    pub action: ConfirmAction,
}

/// What is done once it is confirmed.
#[derive(Debug, PartialEq, Eq)]
pub enum ConfirmAction {
    DeleteThread(Vec<String>),
    /// The message ids, and the destination folder's id.
    MoveThread(Vec<String>, String),
    DeleteEvent(String),
}

/// One visible line of the threaded list: a conversation's header, or one of
/// its messages. A conversation of one message has no header.
#[derive(Debug, Clone, Copy, PartialEq, Eq, Structural)]
pub enum Row {
    /// Index into `App::threads`.
    Header(usize),
    /// Thread index, and message index within the thread.
    Message(usize, usize),
}

/// An operation on the body being composed.
#[derive(Debug, Clone, Copy, PartialEq, Eq, Structural)]
pub enum EditorOp {
    ToggleBold,
    ToggleItalic,
    ToggleUnderline,
    ToggleList,
    Insert(char),
    DeleteBackward,
    SplitParagraph,
    Left { extend: bool },
    Right { extend: bool },
    Up { extend: bool },
    Down { extend: bool },
    Home { extend: bool },
    End { extend: bool },
}

/// What is asked for outside the client's own memory.
#[derive(Debug, PartialEq, Eq)]
#[allow(inconsistent_fields)]
pub enum Action {
    /// Hand a command to the sync engine.
    Send(SyncCommand),
    /// Read the account's name: `account_loaded`.
    ReadAccount,
    /// Read the master category list: `master_categories_loaded`.
    ReadMasterCategories,
    /// Read the folders: `folders_loaded`.
    ReadFolders,
    /// Expand the Inbox the first time there is one:
    /// `ensure_folder_tree_initialized`.
    InitFolderTree,
    /// Read a folder's newest messages: `messages_loaded`.
    ReadMessages { folder: String, limit: i64 },
    /// Read a folder's newest conversations: `conversations_loaded`.
    ReadConversations { folder: String, limit: i64 },
    /// Read a message's body: `body_loaded`.
    ReadBody { id: String },
    /// Find the images of an HTML body, and read the message's attachments:
    /// `inline_images_found`.
    ReadInlineImages { id: String, html: String },
    /// Read the events of the agenda's window: `agenda_loaded`.
    ReadAgenda,
    /// Read an event to edit it: `event_loaded`.
    ReadEvent { id: String },
    /// Read the folders a message can be moved to: `move_targets_loaded`.
    ReadMoveTargets { message_id: String, thread_ids: Option<Vec<String>> },
    /// Read the folders, to ask whether to delete: `ask_delete_thread`.
    ReadDeleteScope { ids: Vec<String> },
    /// Read the folders, to ask whether to move: `ask_move_thread`.
    ReadMoveScope { ids: Vec<String>, dest: String },
    /// Read a draft: `draft_loaded`.
    ReadDraft { id: String },
    /// Read a message's attachments to list them: `attachments_found`.
    ReadAttachments { id: String, has_attachments: bool },
    /// Read the attachments of the popup's message again:
    /// `attachments_reloaded`.
    ReloadAttachments { message_id: String },
    /// Read what is attached to a draft: `outbound_loaded`.
    ReadOutbound { draft_id: String },
    /// Search the store: `search_loaded`.
    Search { query: String, limit: i64 },
    SetFolderExpanded { id: String, expanded: bool },
    SetRead { id: String, read: bool },
    SetFlag { id: String, flagged: bool },
    DeleteMessage { id: String },
    /// Move a message; where that works, `message_moved`.
    MoveMessage { id: String, dest: String, reload: bool },
    DeleteEvent { id: String },
    SetEventResponse { id: String, kind: String },
    SetCategories { id: String, categories: Vec<String> },
    /// Create an event, organized by the account: `event_created`.
    CreateEvent { fields: EventFields, account: String },
    /// Change an event: `event_updated`.
    UpdateEvent { id: String, fields: EventFields },
    /// Create an empty draft, with these lines as its signature; where that
    /// works, `open_draft`.
    CreateDraft { signature: Vec<String> },
    UpdateDraft {
        draft_id: String,
        subject: String,
        to: String,
        cc: String,
        bcc: String,
        body: RichText,
    },
    AddOutbound { draft_id: String, path: String, name: String, size: i64 },
    RemoveOutbound { draft_id: String, path: String },
    PersistThreaded { threaded: bool },
    PersistFolderTree,
    /// Open a file with the system's handler.
    OpenPath(String),
    /// Open a URL with the system's browser.
    OpenUrl(String),
    /// Raise a notification.
    Notify(String),
    /// Forget the images drawn so far.
    ClearImages,
    /// List a directory: `directory_listed`.
    ListDirectory(String),
    /// Find out a file's name and size: `attach_file`.
    Attach(String),
    /// Edit the body being composed: `body_edited`.
    Edit(EditorOp),
    /// Move the ribbon's focus: `ribbon_moved`.
    RibbonNav(Dir),
    /// Focus the first button of the active tab: `ribbon_moved`.
    RibbonEnterBody,
    /// Run the focused button.
    RibbonRun,
}

/// A key.
#[derive(Debug, Clone, Copy, PartialEq, Eq, Structural)]
pub enum KeyCode {
    Char(char),
    Enter,
    Esc,
    Up,
    Down,
    Left,
    Right,
    Home,
    End,
    PageUp,
    PageDown,
    Tab,
    BackTab,
    Delete,
    Backspace,
    F(u8),
    Other,
}

/// A key press.
#[derive(Debug, Clone, Copy, PartialEq, Eq, Structural)]
pub struct Key {
    pub code: KeyCode,
    pub ctrl: bool,
    pub shift: bool,
}

/// Local time, and how many minutes it lies east of UTC.
#[derive(Debug, Clone, Copy, PartialEq, Eq, Structural)]
pub struct Clock {
    pub now: LocalDateTime,
    pub offset: i64,
}

impl Clock {
    pub open spec fn wf(self) -> bool {
        datetime::is_countable(self.now)
    }
}

/// All state in memory.
pub struct App {
    pub focus: Pane,
    pub folders: Vec<FolderRow>,
    /// `folders` flattened depth-first, with only the rows reachable through
    /// expanded ancestors.
    pub visible_folders: Vec<VisibleFolder>,
    /// Index into `visible_folders`.
    pub folder_index: usize,
    pub messages: Vec<MessageRow>,
    /// Index into `messages`, or into the search results.
    pub msg_index: usize,
    /// Whether the folder view groups messages into conversations.
    pub threaded: bool,
    /// Where settings are kept, if anywhere.
    pub config_path: Option<String>,
    pub signature: String,
    pub threads: Vec<ThreadView>,
    /// The headers and messages of `threads` that are shown.
    pub visible_rows: Vec<Row>,
    /// Index into `visible_rows`.
    pub row_index: usize,
    pub selected_folder: Option<String>,
    pub selected_msg: Option<String>,
    /// The opened message's body, once it is in the store.
    pub body: Option<Body>,
    /// Whether the opened message's body is being fetched.
    pub body_loading: bool,
    pub status: SyncState,
    pub quit: bool,
    pub move_picker: Option<MovePicker>,
    pub search: Option<SearchState>,
    pub attachments: Option<AttachmentsPopup>,
    pub attachment_notice: Option<String>,
    pub error_notice: Option<String>,
    /// Saves under way: where each goes, and whether it is opened once it is
    /// there. No path occurs twice.
    pub pending_saves: Vec<(String, bool)>,
    /// The directory that attachments are saved in.
    pub downloads: String,
    /// What the system parts directories with.
    pub separator: char,
    /// The signed-in account, once known.
    pub account: Option<String>,
    pub signin_modal: Option<SignInModal>,
    pub compose: Option<Compose>,
    /// What the composer's keys last asked for.
    pub compose_action: Option<ComposeAction>,
    pub mode: Mode,
    pub agenda: Vec<EventRow>,
    /// Index into `agenda`.
    pub agenda_index: usize,
    /// The event opened in the detail pane.
    pub selected_event: Option<String>,
    pub rsvp_prompt: Option<RsvpPrompt>,
    pub confirm: Option<ConfirmModal>,
    pub file_picker: Option<FilePicker>,
    pub event_form: Option<EventForm>,
    pub oof_form: Option<OofForm>,
    pub master_categories: Vec<MasterCategory>,
    pub category_picker: Option<CategoryPicker>,
    pub category_filter: Option<String>,
    /// Whether a reminder that fires also raises a notification.
    pub reminders_notify: bool,
    /// Whether the Inbox has been expanded for the first time.
    pub folder_tree_initialized: bool,
    /// The events whose reminder has fired.
    pub alerted_reminders: Vec<String>,
    /// The reminders to show, the current one in front.
    pub reminder_queue: VecDeque<String>,
    pub free_busy: Option<FreeBusyView>,
    pub help: bool,
    /// The first row of the body that is shown.
    pub reading_scroll: usize,
    /// How many rows of the body fit.
    pub reading_viewport: usize,
    /// How many rows the body has.
    pub reading_content_rows: usize,
    /// The images fetched for the opened body, by content id. No id occurs
    /// twice.
    pub inline_images: Vec<(String, Vec<u8>)>,
    /// The content ids whose image has been asked for.
    pub requested_inline: Vec<String>,
    /// Whether the opened message's attachments have been asked for.
    pub inline_attachments_requested: bool,
    pub ribbon_open: bool,
    pub ribbon_focus: Focus,
    /// The tab whose buttons the ribbon shows.
    pub ribbon_tab: usize,
    pub backstage: Option<Backstage>,
    pub link_prompt: Option<LinkPrompt>,
    /// Index into `body_links`.
    pub focused_link: Option<usize>,
    pub body_links: Vec<BodyLink>,
    /// What is asked for, in order.
    pub actions: Vec<Action>,
}

/// How many messages of a folder are read.
pub const MESSAGE_PAGE_SIZE: i64 = 200;

/// How many results a search reads.
pub const SEARCH_PAGE_SIZE: i64 = 200;

/// `post` is `pre` with `acts` asked for.
pub open spec fn emitted(pre: App, post: App, acts: Seq<Action>) -> bool {
    &&& post == (App { actions: post.actions, ..pre })
    &&& post.actions@ =~= pre.actions@ + acts
}

/// Nothing is open, selected or loaded.
pub open spec fn is_blank(a: App) -> bool {
    &&& a.focus == Pane::Folders
    &&& a.folders@.len() == 0
    &&& a.visible_folders@.len() == 0
    &&& a.folder_index == 0
    &&& a.messages@.len() == 0
    &&& a.msg_index == 0
    &&& !a.threaded
    &&& a.config_path is None
    &&& a.signature@.len() == 0
    &&& a.threads@.len() == 0
    &&& a.visible_rows@.len() == 0
    &&& a.row_index == 0
    &&& a.selected_folder is None
    &&& a.selected_msg is None
    &&& a.body is None
    &&& !a.body_loading
    &&& a.status == SyncState::Idle
    &&& !a.quit
    &&& a.move_picker is None
    &&& a.search is None
    &&& a.attachments is None
    &&& a.attachment_notice is None
    &&& a.error_notice is None
    &&& a.pending_saves@.len() == 0
    &&& a.downloads@.len() == 0
    &&& a.separator == '/'
    &&& a.account is None
    &&& a.signin_modal is None
    &&& a.compose is None
    &&& a.compose_action is None
    &&& a.mode == Mode::Mail
    &&& a.agenda@.len() == 0
    &&& a.agenda_index == 0
    &&& a.selected_event is None
    &&& a.rsvp_prompt is None
    &&& a.confirm is None
    &&& a.file_picker is None
    &&& a.event_form is None
    &&& a.oof_form is None
    &&& a.master_categories@.len() == 0
    &&& a.category_picker is None
    &&& a.category_filter is None
    &&& !a.reminders_notify
    &&& !a.folder_tree_initialized
    &&& a.alerted_reminders@.len() == 0
    &&& a.reminder_queue@.len() == 0
    &&& a.free_busy is None
    &&& !a.help
    &&& a.reading_scroll == 0
    &&& a.reading_viewport == 0
    &&& a.reading_content_rows == 0
    &&& a.inline_images@.len() == 0
    &&& a.requested_inline@.len() == 0
    &&& !a.inline_attachments_requested
    &&& !a.ribbon_open
    &&& a.ribbon_focus == Focus::Off
    &&& a.ribbon_tab == 1
    &&& a.backstage is None
    &&& a.link_prompt is None
    &&& a.focused_link is None
    &&& a.body_links@.len() == 0
}

impl App {
    /// The state at the start: nothing open, and the folders, the account and
    /// the categories asked for.
    pub fn new() -> (r: App)
        ensures
            is_blank(r),
            r.actions@ == seq![
                Action::ReadFolders,
                Action::ReadAccount,
                Action::ReadMasterCategories,
            ],
            r.rows_in_step(),
    {
        let mut actions: Vec<Action> = Vec::new();
        actions.push(Action::ReadFolders);
        actions.push(Action::ReadAccount);
        actions.push(Action::ReadMasterCategories);
        App {
            focus: Pane::Folders,
            folders: Vec::new(),
            visible_folders: Vec::new(),
            folder_index: 0,
            messages: Vec::new(),
            msg_index: 0,
            threaded: false,
            config_path: None,
            signature: String::new(),
            threads: Vec::new(),
            visible_rows: Vec::new(),
            row_index: 0,
            selected_folder: None,
            selected_msg: None,
            body: None,
            body_loading: false,
            status: SyncState::Idle,
            quit: false,
            move_picker: None,
            search: None,
            attachments: None,
            attachment_notice: None,
            error_notice: None,
            pending_saves: Vec::new(),
            downloads: String::new(),
            separator: '/',
            account: None,
            signin_modal: None,
            compose: None,
            compose_action: None,
            mode: Mode::Mail,
            agenda: Vec::new(),
            agenda_index: 0,
            selected_event: None,
            rsvp_prompt: None,
            confirm: None,
            file_picker: None,
            event_form: None,
            oof_form: None,
            master_categories: Vec::new(),
            category_picker: None,
            category_filter: None,
            reminders_notify: false,
            folder_tree_initialized: false,
            alerted_reminders: Vec::new(),
            reminder_queue: VecDeque::new(),
            free_busy: None,
            help: false,
            reading_scroll: 0,
            reading_viewport: 0,
            reading_content_rows: 0,
            inline_images: Vec::new(),
            requested_inline: Vec::new(),
            inline_attachments_requested: false,
            ribbon_open: false,
            ribbon_focus: Focus::Off,
            ribbon_tab: 1,
            backstage: None,
            link_prompt: None,
            focused_link: None,
            body_links: Vec::new(),
            actions,
        }
    }

    /// Asks for one thing.
    pub fn emit(&mut self, a: Action)
        ensures
            emitted(*old(self), *final(self), seq![a]),
    {
        self.actions.push(a);
    }

    /// Hands a command to the sync engine.
    pub fn send(&mut self, c: SyncCommand)
        ensures
            emitted(*old(self), *final(self), seq![Action::Send(c)]),
    {
        self.actions.push(Action::Send(c));
    }
}

}
