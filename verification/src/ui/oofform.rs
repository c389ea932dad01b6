//! The automatic-replies (out-of-office) editor: its fields, the status and
//! audience it cycles through, and what it shows.

use crate::datetime;
use crate::model::{AutomaticReplies, ExternalAudience, OofStatus};
use crate::ui::style;
use crate::ui::style::{Color, Style};
use vstd::prelude::*;

verus! {

#[derive(Debug, Clone, Copy, PartialEq, Eq, Structural)]
pub enum OofField {
    Status,
    Start,
    End,
    Audience,
    Internal,
    External,
}

/// The open automatic-replies editor. `start`/`end` hold local-time display
/// text (parsed on save, only when `status == Scheduled`); `internal`/
/// `external` are plain-text reply messages. `loading` is true from open until
/// the fetched settings prefill the form. `error` is the inline footer
/// validation message.
#[derive(Debug, PartialEq, Eq)]
pub struct OofForm {
    pub loading: bool,
    pub status: OofStatus,
    pub start: String,
    pub end: String,
    pub audience: ExternalAudience,
    pub internal: String,
    pub external: String,
    pub focus: OofField,
    pub error: Option<String>,
}

pub open spec fn status_after(s: OofStatus) -> OofStatus {
    match s {
        OofStatus::Disabled => OofStatus::AlwaysEnabled,
        OofStatus::AlwaysEnabled => OofStatus::Scheduled,
        OofStatus::Scheduled => OofStatus::Disabled,
    }
}

pub open spec fn audience_after(a: ExternalAudience) -> ExternalAudience {
    match a {
        ExternalAudience::Nobody => ExternalAudience::ContactsOnly,
        ExternalAudience::ContactsOnly => ExternalAudience::All,
        ExternalAudience::All => ExternalAudience::Nobody,
    }
}

pub open spec fn field_after(f: OofField) -> OofField {
    match f {
        OofField::Status => OofField::Start,
        OofField::Start => OofField::End,
        OofField::End => OofField::Audience,
        OofField::Audience => OofField::Internal,
        OofField::Internal => OofField::External,
        OofField::External => OofField::Status,
    }
}

pub open spec fn field_before(f: OofField) -> OofField {
    match f {
        OofField::Status => OofField::External,
        OofField::Start => OofField::Status,
        OofField::End => OofField::Start,
        OofField::Audience => OofField::End,
        OofField::Internal => OofField::Audience,
        OofField::External => OofField::Internal,
    }
}

/// A freshly opened form, still loading.
pub open spec fn is_loading_default(f: OofForm) -> bool {
    &&& f.loading
    &&& f.status == OofStatus::Disabled
    &&& f.start@.len() == 0
    &&& f.end@.len() == 0
    &&& f.audience == ExternalAudience::All
    &&& f.internal@.len() == 0
    &&& f.external@.len() == 0
    &&& f.focus == OofField::Status
    &&& f.error is None
}

/// `f` shows the settings `r`, with the focus and the loading state of `pre`.
pub open spec fn is_prefilled(pre: OofForm, f: OofForm, r: AutomaticReplies, off: int) -> bool {
    &&& f.loading == pre.loading
    &&& f.focus == pre.focus
    &&& f.status == r.status
    &&& f.audience == r.external_audience
    &&& f.internal == r.internal_message
    &&& f.external == r.external_message
    &&& f.start@ == datetime::display_of_utc(r.scheduled_start_utc@, off)
    &&& f.end@ == datetime::display_of_utc(r.scheduled_end_utc@, off)
    &&& f.error is None
}

impl OofForm {
    /// The freshly opened, still loading form (fields are placeholders until
    /// `prefill`). Status defaults to `Disabled`, audience to `All`.
    pub fn loading_default() -> (r: OofForm)
        ensures
            is_loading_default(r),
    {
        OofForm {
            loading: true,
            status: OofStatus::Disabled,
            start: String::new(),
            end: String::new(),
            audience: ExternalAudience::All,
            internal: String::new(),
            external: String::new(),
            focus: OofField::Status,
            error: None,
        }
    }

    /// Fills the fields from fetched settings. `off` is the local UTC offset in
    /// minutes; the scheduled UTC bounds are rendered to the form's local
    /// display text (empty when the bound is empty).
    pub fn prefill(&mut self, r: &AutomaticReplies, off: i64)
        ensures
            is_prefilled(*old(self), *final(self), *r, off as int),
    {
        self.status = r.status;
        self.audience = r.external_audience;
        self.internal = r.internal_message.clone();
        self.external = r.external_message.clone();
        self.start = datetime::utc_to_display(r.scheduled_start_utc.as_str(), off);
        self.end = datetime::utc_to_display(r.scheduled_end_utc.as_str(), off);
        self.error = None;
    }

    pub fn cycle_status(&mut self)
        ensures
            *final(self) == (OofForm { status: status_after(old(self).status), ..*old(self) }),
    {
        self.status = match self.status {
            OofStatus::Disabled => OofStatus::AlwaysEnabled,
            OofStatus::AlwaysEnabled => OofStatus::Scheduled,
            OofStatus::Scheduled => OofStatus::Disabled,
        };
    }

    pub fn cycle_audience(&mut self)
        ensures
            *final(self) == (OofForm { audience: audience_after(old(self).audience), ..*old(self) }),
    {
        self.audience = match self.audience {
            ExternalAudience::Nobody => ExternalAudience::ContactsOnly,
            ExternalAudience::ContactsOnly => ExternalAudience::All,
            ExternalAudience::All => ExternalAudience::Nobody,
        };
    }

    pub fn next_field(&mut self)
        ensures
            *final(self) == (OofForm { focus: field_after(old(self).focus), ..*old(self) }),
    {
        self.focus = match self.focus {
            OofField::Status => OofField::Start,
            OofField::Start => OofField::End,
            OofField::End => OofField::Audience,
            OofField::Audience => OofField::Internal,
            OofField::Internal => OofField::External,
            OofField::External => OofField::Status,
        };
    }

    pub fn prev_field(&mut self)
        ensures
            *final(self) == (OofForm { focus: field_before(old(self).focus), ..*old(self) }),
    {
        self.focus = match self.focus {
            OofField::Status => OofField::External,
            OofField::Start => OofField::Status,
            OofField::End => OofField::Start,
            OofField::Audience => OofField::End,
            OofField::Internal => OofField::Audience,
            OofField::External => OofField::Internal,
        };
    }
}

/// Going to the next field and back, or back and forth, changes nothing.
pub proof fn fields_cycle(f: OofField)
    ensures
        field_before(field_after(f)) == f,
        field_after(field_before(f)) == f,
        field_after(field_after(field_after(field_after(field_after(field_after(f)))))) == f,
{
}

/// Three steps lead a status or an audience back to itself, and fewer do not.
pub proof fn radios_cycle(s: OofStatus, a: ExternalAudience)
    ensures
        status_after(status_after(status_after(s))) == s,
        status_after(s) != s && status_after(status_after(s)) != s,
        audience_after(audience_after(audience_after(a))) == a,
        audience_after(a) != a && audience_after(audience_after(a)) != a,
{
}

// ---------------------------------------------------------------------------
// What the editor shows
// ---------------------------------------------------------------------------

pub open spec fn mark(on: bool) -> Seq<char> {
    if on {
        "(x) "@
    } else {
        "( ) "@
    }
}

/// `Label: (x) A  ( ) B  ( ) C  `.
pub open spec fn radio(
    label: Seq<char>,
    a: Seq<char>,
    on_a: bool,
    b: Seq<char>,
    on_b: bool,
    c: Seq<char>,
    on_c: bool,
) -> Seq<char> {
    label + ": "@ + mark(on_a) + a + "  "@ + mark(on_b) + b + "  "@ + mark(on_c) + c + "  "@
}

fn push_option(s: &mut String, name: &str, on: bool)
    ensures
        final(s)@ == old(s)@ + mark(on) + name@ + "  "@,
{
    if on {
        s.append("(x) ");
    } else {
        s.append("( ) ");
    }
    s.append(name);
    s.append("  ");
}

pub open spec fn status_row(s: OofStatus) -> Seq<char> {
    radio(
        "Status"@,
        "Off"@,
        s == OofStatus::Disabled,
        "On"@,
        s == OofStatus::AlwaysEnabled,
        "Scheduled"@,
        s == OofStatus::Scheduled,
    )
}

pub open spec fn audience_row(a: ExternalAudience) -> Seq<char> {
    radio(
        "External audience"@,
        "None"@,
        a == ExternalAudience::Nobody,
        "Contacts"@,
        a == ExternalAudience::ContactsOnly,
        "All"@,
        a == ExternalAudience::All,
    )
}

/// The status row.
pub fn status_text(s: OofStatus) -> (r: String)
    ensures
        r@ == status_row(s),
{
    let mut out: String = "Status".to_string();
    out.append(": ");
    push_option(&mut out, "Off", s == OofStatus::Disabled);
    push_option(&mut out, "On", s == OofStatus::AlwaysEnabled);
    push_option(&mut out, "Scheduled", s == OofStatus::Scheduled);
    out
}

/// The audience row.
pub fn audience_text(a: ExternalAudience) -> (r: String)
    ensures
        r@ == audience_row(a),
{
    let mut out: String = "External audience".to_string();
    out.append(": ");
    push_option(&mut out, "None", a == ExternalAudience::Nobody);
    push_option(&mut out, "Contacts", a == ExternalAudience::ContactsOnly);
    push_option(&mut out, "All", a == ExternalAudience::All);
    out
}

/// The footer: the validation error, or the keys.
pub fn footer(form: &OofForm) -> (r: String)
    ensures
        match form.error {
            Some(e) => r == e,
            None => r@ == "Tab: next  Space: toggle  Ctrl-S: save  Esc: cancel"@,
        },
{
    match &form.error {
        Some(e) => e.clone(),
        None => "Tab: next  Space: toggle  Ctrl-S: save  Esc: cancel".to_string(),
    }
}

/// Whether the start and end fields can be edited: only under a schedule.
pub fn schedule_enabled(form: &OofForm) -> (r: bool)
    ensures
        r == (form.status == OofStatus::Scheduled),
{
    form.status == OofStatus::Scheduled
}

/// How a field is drawn: gray while it cannot be edited, bold while it has the
/// focus.
pub open spec fn style_of_field(focused: bool, enabled: bool) -> Style {
    if !enabled {
        Style { fg: Some(Color::DarkGray), ..style::plain_style() }
    } else {
        Style { bold: focused, ..style::plain_style() }
    }
}

/// The style of a field.
pub fn field_style(focused: bool, enabled: bool) -> (r: Style)
    ensures
        r == style_of_field(focused, enabled),
{
    let mut s = Style::plain();
    if !enabled {
        s.fg = Some(Color::DarkGray);
    } else {
        s.bold = focused;
    }
    s
}

}
