//! The values the mailbox is made of: what the local store hands over, what
//! the sync engine reports, and what is asked of both.

use vstd::prelude::*;

verus! {

// ---------------------------------------------------------------------------
// Mail
// ---------------------------------------------------------------------------

/// A mail folder.
#[derive(Debug, PartialEq, Eq)]
pub struct FolderRow {
    pub id: String,
    pub parent_id: Option<String>,
    pub display_name: String,
    pub total_count: i64,
    pub unread_count: i64,
    pub well_known_name: Option<String>,
    pub is_expanded: bool,
}

impl Clone for FolderRow {
    fn clone(&self) -> (r: Self)
        ensures
            r == *self,
    {
        FolderRow {
            id: self.id.clone(),
            parent_id: self.parent_id.clone(),
            display_name: self.display_name.clone(),
            total_count: self.total_count,
            unread_count: self.unread_count,
            well_known_name: self.well_known_name.clone(),
            is_expanded: self.is_expanded,
        }
    }
}

/// A message, as the list shows it.
#[derive(Debug, Clone, PartialEq, Eq)]
pub struct MessageRow {
    pub id: String,
    pub folder_id: String,
    pub subject: String,
    pub from_name: String,
    pub from_addr: String,
    pub to_recipients: String,
    pub cc_recipients: String,
    pub bcc_recipients: String,
    pub received_at: String,
    pub is_read: bool,
    pub is_flagged: bool,
    pub has_attachments: bool,
    pub preview: String,
    pub is_draft: bool,
    pub is_meeting_request: bool,
    pub categories: Vec<String>,
}

/// A conversation: its messages, oldest first, and what they have in common.
#[derive(Debug, Clone, PartialEq, Eq)]
pub struct Thread {
    pub key: String,
    pub subject: String,
    pub participants: Vec<String>,
    pub messages: Vec<MessageRow>,
    pub latest_received: String,
    pub unread_count: usize,
    pub any_flagged: bool,
    pub any_attachments: bool,
}

/// A message's body: `html`, or plain text.
#[derive(Debug, Clone, PartialEq, Eq)]
pub struct Body {
    pub content_type: String,
    pub content: String,
}

#[derive(Debug, Clone, Copy, PartialEq, Eq, Structural)]
pub enum AttachmentKind {
    /// Bytes with a name.
    File,
    /// An attached message or event.
    Item,
    /// A link.
    Reference,
}

#[derive(Debug, Clone, PartialEq, Eq)]
pub struct AttachmentMeta {
    pub id: String,
    pub name: String,
    pub content_type: String,
    pub size: i64,
    pub is_inline: bool,
    pub content_id: Option<String>,
    pub kind: AttachmentKind,
    pub source_url: Option<String>,
}

/// A file that goes out with a draft.
#[derive(Debug, Clone, PartialEq, Eq)]
pub struct OutboundAttachment {
    pub path: String,
    pub name: String,
    pub size: i64,
}

/// Where an image in an HTML body comes from.
#[derive(Debug, Clone, PartialEq, Eq)]
pub enum ImageSource {
    /// The attachment with this content id.
    Cid(String),
    /// Bytes in the body itself.
    Data(Vec<u8>),
    Remote(String),
    Unsupported,
}

#[derive(Debug, Clone, PartialEq, Eq)]
pub struct MasterCategory {
    pub display_name: String,
    pub color: String,
}

// ---------------------------------------------------------------------------
// Calendar
// ---------------------------------------------------------------------------

#[derive(Debug, Clone, PartialEq, Eq)]
pub struct EventRow {
    pub id: String,
    pub subject: String,
    pub start_utc: String,
    pub end_utc: String,
    pub is_all_day: bool,
    pub location: String,
    pub organizer_name: String,
    pub organizer_addr: String,
    pub response_status: String,
    pub series_master_id: Option<String>,
    pub reminder_minutes: i64,
    pub is_reminder_on: bool,
}

#[derive(Debug, Clone, PartialEq, Eq)]
pub struct Attendee {
    pub name: String,
    pub addr: String,
    pub response: String,
}

/// A stored event, as it is opened for editing. `body_text` is the plain text
/// of its body.
#[derive(Debug, Clone, PartialEq, Eq)]
pub struct StoredEvent {
    pub subject: String,
    pub start_utc: String,
    pub end_utc: String,
    pub is_all_day: bool,
    pub location: String,
    pub body_text: String,
    pub attendees: Vec<Attendee>,
}

#[derive(Debug, Clone, Copy, PartialEq, Eq, Structural)]
pub enum RecurrenceKind {
    Daily,
    Weekly,
    Monthly,
    Yearly,
}

#[derive(Debug, Clone, PartialEq, Eq)]
pub struct Recurrence {
    pub kind: RecurrenceKind,
    pub interval: u32,
    pub days_of_week: Vec<String>,
    pub day_of_month: u32,
    pub start_date: String,
    pub until: Option<String>,
}

/// What the event form writes to the store.
#[derive(Debug, Clone, PartialEq, Eq)]
pub struct EventFields {
    pub subject: String,
    pub start_utc: String,
    pub end_utc: String,
    pub is_all_day: bool,
    pub location: String,
    pub body_text: String,
    pub attendees: Vec<(String, String)>,
    pub recurrence: Option<Recurrence>,
}

#[derive(Debug, Clone, Copy, PartialEq, Eq, Structural)]
pub enum RsvpKind {
    Accept,
    Decline,
    Tentative,
}

/// One mailbox's availability: a digit for each slot.
#[derive(Debug, Clone, PartialEq, Eq)]
pub struct ScheduleEntry {
    pub email: String,
    pub availability: String,
}

// ---------------------------------------------------------------------------
// Automatic replies
// ---------------------------------------------------------------------------

#[derive(Debug, Clone, Copy, PartialEq, Eq, Structural)]
pub enum OofStatus {
    Disabled,
    AlwaysEnabled,
    Scheduled,
}

#[derive(Debug, Clone, Copy, PartialEq, Eq, Structural)]
pub enum ExternalAudience {
    Nobody,
    ContactsOnly,
    All,
}

#[derive(Debug, Clone, PartialEq, Eq)]
pub struct AutomaticReplies {
    pub status: OofStatus,
    pub external_audience: ExternalAudience,
    pub internal_message: String,
    pub external_message: String,
    pub scheduled_start_utc: String,
    pub scheduled_end_utc: String,
}

// ---------------------------------------------------------------------------
// The sync engine
// ---------------------------------------------------------------------------

#[derive(Debug, Clone, Copy, PartialEq, Eq, Structural)]
pub enum SyncState {
    Idle,
    Syncing,
    Offline,
    PendingOps(usize),
    SignInRequired,
}

/// What the sync engine reports.
#[derive(Debug, Clone, PartialEq, Eq)]
pub enum SyncEvent {
    State(SyncState),
    FoldersUpdated,
    MessagesUpdated { folder_id: String },
    BodyReady { id: String },
    AttachmentsUpdated { message_id: String },
    AttachmentSaved { path: String },
    MeetingResponded { message_id: String, kind: RsvpKind },
    DraftReady { id: String },
    SignInRequired,
    SignInStarted { authorize_url: String },
    AutomaticRepliesFetched { replies: AutomaticReplies },
    AutomaticRepliesUpdated,
    CategoriesUpdated,
    ScheduleFetched { entries: Vec<ScheduleEntry> },
    Error(String),
    CalendarUpdated,
    InlineImageReady { message_id: String, content_id: String, bytes: Vec<u8> },
    Sent { id: String },
}

/// What is asked of the sync engine.
#[derive(Debug, Clone, PartialEq, Eq)]
#[allow(inconsistent_fields)]
pub enum SyncCommand {
    SignIn,
    Refresh,
    MarkRead { id: String, read: bool },
    SetFlag { id: String, flagged: bool },
    Delete { id: String },
    Move { id: String, dest: String },
    FetchBody { id: String },
    FetchAttachments { message_id: String },
    FetchInlineImage { message_id: String, attachment_id: String, content_id: String },
    SaveAttachment { message_id: String, attachment_id: String, dest: String },
    SaveItemAttachment { message_id: String, attachment_id: String, dest_base: String },
    ComposeReply { id: String, all: bool },
    ComposeForward { id: String },
    SendDraft { id: String },
    SaveDraft { id: String },
    RefreshCalendar,
    RespondEvent {
        id: String,
        kind: String,
        comment: Option<String>,
        proposed_start_utc: Option<String>,
        proposed_end_utc: Option<String>,
    },
    RespondMeeting {
        message_id: String,
        kind: RsvpKind,
        comment: Option<String>,
        proposed_start_utc: Option<String>,
        proposed_end_utc: Option<String>,
    },
    CreateEvent { id: String },
    UpdateEvent { id: String },
    DeleteEvent { id: String },
    FetchAutomaticReplies,
    SetAutomaticReplies { replies: AutomaticReplies },
    RefreshCategories,
    SetCategories { id: String, categories: Vec<String> },
    FetchSchedule {
        schedules: Vec<String>,
        start_utc: String,
        end_utc: String,
        interval_minutes: u32,
    },
}

/// The views of a list of strings.
pub open spec fn texts(v: Seq<String>) -> Seq<Seq<char>> {
    v.map_values(|s: String| s@)
}

/// Filtering a longer list filters its last element too.
pub proof fn lemma_filter_push<A>(s: Seq<A>, x: A, p: spec_fn(A) -> bool)
    ensures
        s.push(x).filter(p) == (if p(x) {
            s.filter(p).push(x)
        } else {
            s.filter(p)
        }),
{
    reveal(Seq::filter);
    assert(s.push(x).drop_last() =~= s);
}

pub proof fn lemma_texts_push(v: Seq<String>, s: String)
    ensures
        texts(v.push(s)) == texts(v).push(s@),
{
    assert(texts(v.push(s)) =~= texts(v).push(s@));
}

/// The view of a string that may be absent.
pub open spec fn text_of(o: Option<String>) -> Option<Seq<char>> {
    match o {
        Some(s) => Some(s@),
        None => None,
    }
}

/// The position of the first string with this text, or the length where there
/// is none.
pub open spec fn find_text(v: Seq<Seq<char>>, t: Seq<char>) -> int
    decreases v.len(),
{
    if v.len() == 0 || v[0] == t {
        0
    } else {
        1 + find_text(v.skip(1), t)
    }
}

/// A copy of a list of strings.
pub fn copy_texts(v: &Vec<String>) -> (r: Vec<String>)
    ensures
        r@ == v@,
{
    v.clone()
}

/// Whether `v` holds a string with the text of `t`.
pub fn contains_text(v: &Vec<String>, t: &String) -> (r: bool)
    ensures
        r == texts(v@).contains(t@),
{
    let mut i: usize = 0;
    while i < v.len()
        invariant
            i <= v@.len(),
            forall|j: int| 0 <= j < i ==> (#[trigger] v@[j])@ != t@,
        decreases v@.len() - i,
    {
        if v[i] == *t {
            assert(texts(v@)[i as int] == t@);
            return true;
        }
        i += 1;
    }
    assert forall|j: int| 0 <= j < texts(v@).len() implies texts(v@)[j] != t@ by {
        assert(v@[j]@ != t@);
    }
    false
}

}
