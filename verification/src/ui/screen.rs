//! The screen: what is drawn, in which order, and the reminder banner.

use crate::app::{App, Mode};
use crate::text;
use vstd::prelude::*;

verus! {

/// What is drawn.
#[derive(Debug, Clone, Copy, PartialEq, Eq, Structural)]
pub enum Widget {
    ReminderBanner,
    OofForm,
    Compose,
    Backstage,
    Ribbon,
    Rail,
    Calendar,
    EventForm,
    FreeBusy,
    Confirm,
    Folders,
    Search,
    MessageList,
    Reading,
    StatusBar,
    MovePicker,
    Attachments,
    CategoryPicker,
    FilePicker,
    RsvpPrompt,
    LinkPrompt,
    Help,
    SignIn,
}

pub open spec fn shown_if(on: bool, w: Widget) -> Seq<Widget> {
    if on {
        seq![w]
    } else {
        Seq::empty()
    }
}

/// What lies over the calendar.
pub open spec fn over_calendar(a: App) -> Seq<Widget> {
    shown_if(a.rsvp_prompt is Some, Widget::RsvpPrompt) + shown_if(
        a.event_form is Some,
        Widget::EventForm,
    ) + shown_if(a.free_busy is Some, Widget::FreeBusy) + shown_if(
        a.confirm is Some,
        Widget::Confirm,
    ) + shown_if(a.help, Widget::Help)
}

/// The mail panes; while a search is open, it takes the list's place.
pub open spec fn panes(a: App) -> Seq<Widget> {
    seq![
        Widget::Folders,
        if a.search is Some {
            Widget::Search
        } else {
            Widget::MessageList
        },
        Widget::Reading,
        Widget::StatusBar,
    ]
}

/// What lies over the mail panes, the sign-in last of all.
pub open spec fn over_mail(a: App) -> Seq<Widget> {
    shown_if(a.move_picker is Some, Widget::MovePicker) + shown_if(
        a.confirm is Some,
        Widget::Confirm,
    ) + shown_if(a.attachments is Some, Widget::Attachments) + shown_if(
        a.category_picker is Some,
        Widget::CategoryPicker,
    ) + shown_if(a.file_picker is Some, Widget::FilePicker) + shown_if(
        a.rsvp_prompt is Some,
        Widget::RsvpPrompt,
    ) + shown_if(a.link_prompt is Some, Widget::LinkPrompt) + shown_if(a.help, Widget::Help)
        + shown_if(a.signin_modal is Some, Widget::SignIn)
}

/// A view that takes the whole screen.
pub open spec fn full_view(a: App) -> Option<Widget> {
    if a.oof_form is Some {
        Some(Widget::OofForm)
    } else if a.compose is Some {
        Some(Widget::Compose)
    } else if a.backstage is Some {
        Some(Widget::Backstage)
    } else {
        None
    }
}

/// What is drawn besides the banner: a view that takes the whole screen, with the
/// file picker over the composer; or else the panes and what lies over them.
pub open spec fn views(a: App) -> Seq<Widget> {
    match full_view(a) {
        Some(w) => seq![w] + shown_if(
            w == Widget::Compose && a.file_picker is Some,
            Widget::FilePicker,
        ),
        None => {
            let frame = seq![Widget::Ribbon, Widget::Rail];
            if a.mode == Mode::Calendar {
                frame + seq![Widget::Calendar, Widget::StatusBar] + over_calendar(a)
            } else {
                frame + panes(a) + over_mail(a)
            }
        },
    }
}

/// Everything that is drawn, in order: what comes later lies over what came
/// before.
pub open spec fn drawn(a: App) -> Seq<Widget> {
    shown_if(a.reminder_queue@.len() > 0, Widget::ReminderBanner) + views(a)
}

fn push_if(v: &mut Vec<Widget>, on: bool, w: Widget)
    ensures
        final(v)@ == old(v)@ + shown_if(on, w),
{
    if on {
        v.push(w);
    }
    assert(v@ =~= old(v)@ + shown_if(on, w));
}

fn over_calendar_widgets(app: &App) -> (r: Vec<Widget>)
    ensures
        r@ == over_calendar(*app),
{
    let mut v: Vec<Widget> = Vec::new();
    push_if(&mut v, app.rsvp_prompt.is_some(), Widget::RsvpPrompt);
    assert(v@ =~= shown_if(app.rsvp_prompt is Some, Widget::RsvpPrompt));
    push_if(&mut v, app.event_form.is_some(), Widget::EventForm);
    push_if(&mut v, app.free_busy.is_some(), Widget::FreeBusy);
    push_if(&mut v, app.confirm.is_some(), Widget::Confirm);
    push_if(&mut v, app.help, Widget::Help);
    v
}

fn push_panes(v: &mut Vec<Widget>, app: &App)
    ensures
        final(v)@ == old(v)@ + panes(*app),
{
    v.push(Widget::Folders);
    if app.search.is_some() {
        v.push(Widget::Search);
    } else {
        v.push(Widget::MessageList);
    }
    v.push(Widget::Reading);
    v.push(Widget::StatusBar);
    assert(v@ =~= old(v)@ + panes(*app));
}

fn over_mail_widgets(app: &App) -> (r: Vec<Widget>)
    ensures
        r@ == over_mail(*app),
{
    let mut v: Vec<Widget> = Vec::new();
    push_if(&mut v, app.move_picker.is_some(), Widget::MovePicker);
    assert(v@ =~= shown_if(app.move_picker is Some, Widget::MovePicker));
    push_if(&mut v, app.confirm.is_some(), Widget::Confirm);
    push_if(&mut v, app.attachments.is_some(), Widget::Attachments);
    push_if(&mut v, app.category_picker.is_some(), Widget::CategoryPicker);
    push_if(&mut v, app.file_picker.is_some(), Widget::FilePicker);
    push_if(&mut v, app.rsvp_prompt.is_some(), Widget::RsvpPrompt);
    push_if(&mut v, app.link_prompt.is_some(), Widget::LinkPrompt);
    push_if(&mut v, app.help, Widget::Help);
    push_if(&mut v, app.signin_modal.is_some(), Widget::SignIn);
    v
}

fn view_widgets(app: &App) -> (r: Vec<Widget>)
    ensures
        r@ == views(*app),
{
    let mut v: Vec<Widget> = Vec::new();
    if app.oof_form.is_some() {
        v.push(Widget::OofForm);
    } else if app.compose.is_some() {
        v.push(Widget::Compose);
        push_if(&mut v, app.file_picker.is_some(), Widget::FilePicker);
    } else if app.backstage.is_some() {
        v.push(Widget::Backstage);
    } else {
        v.push(Widget::Ribbon);
        v.push(Widget::Rail);
        if app.mode == Mode::Calendar {
            v.push(Widget::Calendar);
            v.push(Widget::StatusBar);
            let mut over = over_calendar_widgets(app);
            v.append(&mut over);
        } else {
            push_panes(&mut v, app);
            let mut over = over_mail_widgets(app);
            v.append(&mut over);
        }
    }
    assert(v@ =~= views(*app));
    v
}

/// What to draw, in order.
pub fn widgets(app: &App) -> (r: Vec<Widget>)
    ensures
        r@ == drawn(*app),
{
    let mut v: Vec<Widget> = Vec::new();
    push_if(&mut v, app.reminder_queue.len() > 0, Widget::ReminderBanner);
    let mut rest = view_widgets(app);
    v.append(&mut rest);
    assert(v@ =~= drawn(*app));
    v
}

/// The banner: the reminder in front, how many more there are, and how to be rid
/// of it.
pub open spec fn banner_of(queue: Seq<String>) -> Seq<char> {
    (if queue.len() > 0 {
        queue[0]@
    } else {
        Seq::empty()
    }) + (if queue.len() > 1 {
        "  (+"@ + text::integer(queue.len() - 1) + " more)"@
    } else {
        Seq::empty()
    }) + "   [Esc to dismiss]"@
}

/// The reminder banner's text.
pub fn reminder_banner(app: &App) -> (r: String)
    ensures
        r@ == banner_of(app.reminder_queue@),
{
    let n = app.reminder_queue.len();
    let mut s: String = String::new();
    if n > 0 {
        s.append(app.reminder_queue[0].as_str());
    }
    if n > 1 {
        s.append("  (+");
        text::push_integer(&mut s, (n - 1) as i128);
        s.append(" more)");
    }
    s.append("   [Esc to dismiss]");
    assert(s@ =~= banner_of(app.reminder_queue@));
    s
}

// ---------------------------------------------------------------------------
// Laws
// ---------------------------------------------------------------------------

/// A view that takes the whole screen leaves nothing of the panes.
pub proof fn full_views_stand_alone(a: App, i: int)
    requires
        full_view(a) is Some,
        0 <= i < drawn(a).len(),
    ensures
        ({
            let w = drawn(a)[i];
            ||| w == full_view(a).unwrap()
            ||| w == Widget::ReminderBanner
            ||| w == Widget::FilePicker
        }),
{
}

/// The file picker lies over the composer that it was opened from.
pub proof fn the_file_picker_lies_over_the_composer(a: App)
    requires
        full_view(a) == Some(Widget::Compose),
        a.file_picker is Some,
    ensures
        drawn(a).last() == Widget::FilePicker,
        drawn(a)[drawn(a).len() - 2] == Widget::Compose,
{
}

/// Over the mail panes, the sign-in lies over everything.
pub proof fn the_sign_in_lies_over_everything(a: App)
    requires
        a.signin_modal is Some,
        full_view(a) is None,
        a.mode == Mode::Mail,
    ensures
        drawn(a).last() == Widget::SignIn,
{
}

/// An open confirmation is drawn in either mode.
pub proof fn confirmations_are_drawn(a: App)
    requires
        a.confirm is Some,
        full_view(a) is None,
    ensures
        drawn(a).contains(Widget::Confirm),
{
    let k = shown_if(a.reminder_queue@.len() > 0, Widget::ReminderBanner).len();
    if a.mode == Mode::Calendar {
        let i = k + 4 + shown_if(a.rsvp_prompt is Some, Widget::RsvpPrompt).len() + shown_if(
            a.event_form is Some,
            Widget::EventForm,
        ).len() + shown_if(a.free_busy is Some, Widget::FreeBusy).len();
        assert(drawn(a)[i as int] == Widget::Confirm);
    } else {
        let i = k + 6 + shown_if(a.move_picker is Some, Widget::MovePicker).len();
        assert(drawn(a)[i as int] == Widget::Confirm);
    }
}

}
