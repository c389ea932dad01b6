//! The create/edit event form: its fields, and what each row shows.

use crate::model::RecurrenceKind;
use crate::text;
use crate::ui::compose::Autocomplete;
use vstd::prelude::*;

verus! {

/// Which field the event form's keyboard focus is on. Tab cycles
/// Title, Start, End, AllDay, Location, Attendees, Body, Title.
#[derive(Debug, Clone, Copy, PartialEq, Eq, Structural)]
pub enum EventField {
    Title,
    Start,
    End,
    AllDay,
    Location,
    Attendees,
    Body,
}

/// The open create/edit event form. `editing_id` is the event's id when
/// editing an existing event, `None` for a new one. `start`/`end` hold the
/// raw local-time text the datetime parser consumes; `attendees` is the flat
/// `Name <addr>; ...` text. `repeat` and the three fields after it describe a
/// recurrence; `days` are Monday to Sunday. `error` is the inline validation
/// message shown in the footer.
#[derive(Debug, PartialEq, Eq)]
pub struct EventForm {
    pub editing_id: Option<String>,
    pub title: String,
    pub start: String,
    pub end: String,
    pub all_day: bool,
    pub repeat: Option<RecurrenceKind>,
    pub interval: String,
    pub days: [bool; 7],
    pub until: String,
    pub location: String,
    pub attendees: String,
    pub body: String,
    pub focus: EventField,
    pub autocomplete: Option<Autocomplete>,
    pub error: Option<String>,
}

pub open spec fn field_after(f: EventField) -> EventField {
    match f {
        EventField::Title => EventField::Start,
        EventField::Start => EventField::End,
        EventField::End => EventField::AllDay,
        EventField::AllDay => EventField::Location,
        EventField::Location => EventField::Attendees,
        EventField::Attendees => EventField::Body,
        EventField::Body => EventField::Title,
    }
}

pub fn next_field(f: EventField) -> (r: EventField)
    ensures
        r == field_after(f),
{
    match f {
        EventField::Title => EventField::Start,
        EventField::Start => EventField::End,
        EventField::End => EventField::AllDay,
        EventField::AllDay => EventField::Location,
        EventField::Location => EventField::Attendees,
        EventField::Attendees => EventField::Body,
        EventField::Body => EventField::Title,
    }
}

/// Seven steps lead back to the field they began at.
pub proof fn fields_cycle(f: EventField)
    ensures
        field_after(
            field_after(
                field_after(field_after(field_after(field_after(field_after(f))))),
            ),
        ) == f,
{
}

/// A form of which nothing is known but its times.
pub open spec fn is_blank(f: EventForm) -> bool {
    &&& f.editing_id is None
    &&& f.title@.len() == 0
    &&& !f.all_day
    &&& f.repeat is None
    &&& f.interval@ == "1"@
    &&& no_days(f.days)
    &&& f.until@.len() == 0
    &&& f.location@.len() == 0
    &&& f.attendees@.len() == 0
    &&& f.body@.len() == 0
    &&& f.focus == EventField::Title
    &&& f.autocomplete is None
    &&& f.error is None
}

pub open spec fn no_days(days: [bool; 7]) -> bool {
    forall|i: int| 0 <= i < 7 ==> !#[trigger] days@[i]
}

/// The text of a field, with a trailing caret where it has the focus.
pub open spec fn field_row(value: Seq<char>, focused: bool) -> Seq<char> {
    if focused {
        value + "_"@
    } else {
        value
    }
}

/// The text of a field, with a trailing caret where it has the focus.
pub fn field_text(value: &str, focused: bool) -> (r: String)
    ensures
        r@ == field_row(value@, focused),
{
    let mut s: String = value.to_string();
    if focused {
        s.append("_");
    }
    s
}

/// The all-day row's mark.
pub fn all_day_text(all_day: bool) -> (r: &'static str)
    ensures
        r@ == (if all_day {
            "[x]"@
        } else {
            "[ ]"@
        }),
{
    if all_day {
        "[x]"
    } else {
        "[ ]"
    }
}

/// The footer: the validation error, or the keys.
pub fn footer(form: &EventForm) -> (r: String)
    ensures
        match form.error {
            Some(e) => r == e,
            None => r@
                == "Save: Ctrl-Enter   Cancel: Esc   Tab: next field   Space: toggle all-day"@,
        },
{
    match &form.error {
        Some(e) => e.clone(),
        None => "Save: Ctrl-Enter   Cancel: Esc   Tab: next field   Space: toggle all-day".to_string(),
    }
}

/// `Name <address>`, or the address alone where there is no name.
pub open spec fn contact_row(name: Seq<char>, address: Seq<char>) -> Seq<char> {
    if text::trim(name).len() == 0 {
        address
    } else {
        text::trim(name) + " <"@ + address + ">"@
    }
}

/// One row of the autocomplete dropdown.
pub fn contact_text(name: &str, address: &str) -> (r: String)
    ensures
        r@ == contact_row(name@, address@),
{
    let n = text::trim_str(name);
    if n.len() == 0 {
        return address.to_string();
    }
    let mut s = text::string_of(n.as_slice());
    s.append(" <");
    s.append(address);
    s.append(">");
    s
}

}
