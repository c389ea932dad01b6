//! Keys: what each one means where it is pressed, and what it then does.

use crate::app;
use crate::app::attachments;
use crate::app::calendar;
use crate::app::categories;
use crate::app::drafts;
use crate::app::events;
use crate::app::folders;
use crate::app::forms;
use crate::app::navigate;
use crate::app::overlays;
use crate::app::reading;
use crate::app::reminders;
use crate::app::search;
use crate::app::triage;
use crate::app::{Action, App, Clock, Key, KeyCode, Mode, Pane};
use crate::model::RsvpKind;
use crate::ui;
use crate::ui::categorypicker::PickerMode;
use crate::ui::filepicker::FilePicker;
use crate::ui::ribbon;
use crate::ui::ribbon::{Act, Dir, Focus};
use vstd::prelude::*;

verus! {

/// What a key means, by what it is for.
#[derive(Debug, Clone, Copy, PartialEq, Eq, Structural)]
pub enum Command {
    Nothing,
    Overlay(OverlayCommand),
    Popup(PopupCommand),
    Calendar(CalendarCommand),
    Mail(MailCommand),
    Pane(PaneCommand),
}

/// Keys of what lies over everything: the sign-in, the help, the backstage, the
/// link dialog and the ribbon.
#[derive(Debug, Clone, Copy, PartialEq, Eq, Structural)]
pub enum OverlayCommand {
    SignIn,
    OpenHelp,
    CloseHelp,
    Backstage,
    LinkPrompt,
    ToggleRibbon,
    MoveRibbon(Dir),
    OpenBackstage,
    EnterRibbon,
    RunRibbon,
    LeaveRibbon,
    DismissReminder,
}

/// Keys of the forms and popups.
#[derive(Debug, Clone, Copy, PartialEq, Eq, Structural)]
pub enum PopupCommand {
    OofForm,
    SubmitRsvp,
    CancelRsvp,
    CycleRsvp,
    BackspaceRsvp,
    TypeRsvp(char),
    CloseFreeBusy,
    CloseCategories,
    SelectCategory(isize),
    ToggleCategory,
    ApplyCategories,
    SelectFile(isize),
    EnterFile,
    CloseFiles,
    Compose,
    EventForm,
    Confirm,
    CancelConfirm,
    CancelMove,
    SelectMove(isize),
    ConfirmMove,
    CloseAttachments,
    SelectAttachment(isize),
    SaveAttachment,
    OpenAttachment,
    CancelSearch,
    SubmitSearch,
    BackspaceSearch,
    SelectResult(isize),
    TypeSearch(char),
}

/// Keys of the rail and the calendar.
#[derive(Debug, Clone, Copy, PartialEq, Eq, Structural)]
pub enum CalendarCommand {
    SetMode(Mode),
    EnterFolders,
    ToggleMode,
    Select(isize),
    OpenEvent,
    Rsvp(RsvpKind),
    NewEvent,
    EditEvent,
    DeleteEvent,
}

/// Keys for the message under the cursor.
#[derive(Debug, Clone, Copy, PartialEq, Eq, Structural)]
pub enum MailCommand {
    MarkRead(bool),
    ToggleFlag,
    Delete,
    PickFolder,
    ShowAttachments,
    StartSearch,
    ComposeNew,
    Reply(bool),
    Forward,
    ToggleThreaded,
    AcceptMeeting,
    AnswerMeeting(RsvpKind),
    OpenOof,
    PickCategories(PickerMode),
    ClearFilter,
}

/// Keys that move within and between the mail panes.
#[derive(Debug, Clone, Copy, PartialEq, Eq, Structural)]
pub enum PaneCommand {
    Left,
    Right,
    ToggleFolder,
    FocusLink(isize),
    Scroll(isize),
    ScrollHome,
    ScrollEnd,
    OpenSibling(isize),
    Select(isize),
    OpenLink,
    Activate,
}

// ---------------------------------------------------------------------------
// What a key means
// ---------------------------------------------------------------------------

/// Up or `k`, and Down or `j`.
pub open spec fn step_of(code: KeyCode) -> Option<isize> {
    match code {
        KeyCode::Up | KeyCode::Char('k') => Some(-1isize),
        KeyCode::Down | KeyCode::Char('j') => Some(1isize),
        _ => None,
    }
}

pub open spec fn arrow_of(code: KeyCode) -> Option<Dir> {
    match code {
        KeyCode::Left => Some(Dir::Left),
        KeyCode::Right => Some(Dir::Right),
        KeyCode::Up => Some(Dir::Up),
        KeyCode::Down => Some(Dir::Down),
        _ => None,
    }
}

/// A key while the ribbon has the focus.
pub open spec fn ribbon_command(focus: Focus, code: KeyCode) -> Command {
    match arrow_of(code) {
        Some(d) => Command::Overlay(OverlayCommand::MoveRibbon(d)),
        None => match code {
            KeyCode::Enter => match focus {
                Focus::Tab(t) => if ribbon::has_body(t as int) {
                    Command::Overlay(OverlayCommand::EnterRibbon)
                } else {
                    Command::Overlay(OverlayCommand::OpenBackstage)
                },
                _ => Command::Overlay(OverlayCommand::RunRibbon),
            },
            KeyCode::Esc => Command::Overlay(OverlayCommand::LeaveRibbon),
            _ => Command::Nothing,
        },
    }
}

pub open spec fn rsvp_command(code: KeyCode) -> Command {
    match code {
        KeyCode::Enter => Command::Popup(PopupCommand::SubmitRsvp),
        KeyCode::Esc => Command::Popup(PopupCommand::CancelRsvp),
        KeyCode::Tab => Command::Popup(PopupCommand::CycleRsvp),
        KeyCode::Backspace => Command::Popup(PopupCommand::BackspaceRsvp),
        KeyCode::Char(c) => Command::Popup(PopupCommand::TypeRsvp(c)),
        _ => Command::Nothing,
    }
}

pub open spec fn category_command(code: KeyCode) -> Command {
    match step_of(code) {
        Some(d) => Command::Popup(PopupCommand::SelectCategory(d)),
        None => match code {
            KeyCode::Esc => Command::Popup(PopupCommand::CloseCategories),
            KeyCode::Char(' ') => Command::Popup(PopupCommand::ToggleCategory),
            KeyCode::Enter => Command::Popup(PopupCommand::ApplyCategories),
            _ => Command::Nothing,
        },
    }
}

pub open spec fn file_command(code: KeyCode) -> Command {
    match step_of(code) {
        Some(d) => Command::Popup(PopupCommand::SelectFile(d)),
        None => match code {
            KeyCode::Enter => Command::Popup(PopupCommand::EnterFile),
            KeyCode::Esc => Command::Popup(PopupCommand::CloseFiles),
            _ => Command::Nothing,
        },
    }
}

pub open spec fn confirm_command(code: KeyCode) -> Command {
    match code {
        KeyCode::Enter => Command::Popup(PopupCommand::Confirm),
        KeyCode::Esc => Command::Popup(PopupCommand::CancelConfirm),
        _ => Command::Nothing,
    }
}

pub open spec fn rail_command(code: KeyCode) -> Command {
    match step_of(code) {
        Some(d) => Command::Calendar(
            CalendarCommand::SetMode(
                if d < 0 {
                    Mode::Mail
                } else {
                    Mode::Calendar
                },
            ),
        ),
        None => match code {
            KeyCode::Right | KeyCode::Char('l') | KeyCode::Enter => Command::Calendar(
                CalendarCommand::EnterFolders,
            ),
            _ => Command::Nothing,
        },
    }
}

pub open spec fn calendar_command(code: KeyCode) -> Command {
    match step_of(code) {
        Some(d) => Command::Calendar(CalendarCommand::Select(d)),
        None => match code {
            KeyCode::Esc | KeyCode::Char('g') => Command::Calendar(CalendarCommand::ToggleMode),
            KeyCode::Enter => Command::Calendar(CalendarCommand::OpenEvent),
            KeyCode::Char('a') => Command::Calendar(CalendarCommand::Rsvp(RsvpKind::Accept)),
            KeyCode::Char('d') => Command::Calendar(CalendarCommand::Rsvp(RsvpKind::Decline)),
            KeyCode::Char('t') => Command::Calendar(CalendarCommand::Rsvp(RsvpKind::Tentative)),
            KeyCode::Char('c') => Command::Calendar(CalendarCommand::NewEvent),
            KeyCode::Char('e') => Command::Calendar(CalendarCommand::EditEvent),
            KeyCode::Char('x') => Command::Calendar(CalendarCommand::DeleteEvent),
            KeyCode::Char('O') => Command::Mail(MailCommand::OpenOof),
            _ => Command::Nothing,
        },
    }
}

pub open spec fn move_command(code: KeyCode) -> Command {
    match step_of(code) {
        Some(d) => Command::Popup(PopupCommand::SelectMove(d)),
        None => match code {
            KeyCode::Esc => Command::Popup(PopupCommand::CancelMove),
            KeyCode::Enter => Command::Popup(PopupCommand::ConfirmMove),
            _ => Command::Nothing,
        },
    }
}

pub open spec fn attachments_command(code: KeyCode) -> Command {
    match step_of(code) {
        Some(d) => Command::Popup(PopupCommand::SelectAttachment(d)),
        None => match code {
            KeyCode::Esc => Command::Popup(PopupCommand::CloseAttachments),
            KeyCode::Enter => Command::Popup(PopupCommand::SaveAttachment),
            KeyCode::Char('o') => Command::Popup(PopupCommand::OpenAttachment),
            _ => Command::Nothing,
        },
    }
}

/// In the search prompt every character is typed.
pub open spec fn search_command(code: KeyCode) -> Command {
    match code {
        KeyCode::Esc => Command::Popup(PopupCommand::CancelSearch),
        KeyCode::Enter => Command::Popup(PopupCommand::SubmitSearch),
        KeyCode::Backspace => Command::Popup(PopupCommand::BackspaceSearch),
        KeyCode::Up => Command::Popup(PopupCommand::SelectResult(-1isize)),
        KeyCode::Down => Command::Popup(PopupCommand::SelectResult(1isize)),
        KeyCode::Char(c) => Command::Popup(PopupCommand::TypeSearch(c)),
        _ => Command::Nothing,
    }
}

/// A letter for the message under the cursor.
pub open spec fn char_command(c: char) -> Command {
    match c {
        'm' => Command::Mail(MailCommand::MarkRead(true)),
        'u' => Command::Mail(MailCommand::MarkRead(false)),
        'f' => Command::Mail(MailCommand::ToggleFlag),
        'd' => Command::Mail(MailCommand::Delete),
        'v' => Command::Mail(MailCommand::PickFolder),
        'a' => Command::Mail(MailCommand::ShowAttachments),
        '/' => Command::Mail(MailCommand::StartSearch),
        'c' => Command::Mail(MailCommand::ComposeNew),
        'r' => Command::Mail(MailCommand::Reply(false)),
        'R' => Command::Mail(MailCommand::Reply(true)),
        'F' => Command::Mail(MailCommand::Forward),
        't' => Command::Mail(MailCommand::ToggleThreaded),
        'A' => Command::Mail(MailCommand::AcceptMeeting),
        'D' => Command::Mail(MailCommand::AnswerMeeting(RsvpKind::Decline)),
        'T' => Command::Mail(MailCommand::AnswerMeeting(RsvpKind::Tentative)),
        'O' => Command::Mail(MailCommand::OpenOof),
        'l' => Command::Mail(MailCommand::PickCategories(PickerMode::Assign)),
        'L' => Command::Mail(MailCommand::PickCategories(PickerMode::Filter)),
        _ => Command::Nothing,
    }
}

/// A key that only the reader has.
pub open spec fn reader_command(a: App, code: KeyCode) -> Option<Command> {
    match step_of(code) {
        Some(d) => Some(Command::Pane(PaneCommand::Scroll(d))),
        None => match code {
            KeyCode::PageUp => Some(Command::Pane(PaneCommand::OpenSibling(-1isize))),
            KeyCode::PageDown => Some(Command::Pane(PaneCommand::OpenSibling(1isize))),
            KeyCode::Home => Some(Command::Pane(PaneCommand::ScrollHome)),
            KeyCode::End => Some(Command::Pane(PaneCommand::ScrollEnd)),
            KeyCode::Enter => if a.focused_link is Some {
                Some(Command::Pane(PaneCommand::OpenLink))
            } else {
                None
            },
            _ => None,
        },
    }
}

/// A key that only the folder tree has.
pub open spec fn tree_command(code: KeyCode) -> Option<Command> {
    match code {
        KeyCode::Char('h') => Some(Command::Pane(PaneCommand::Left)),
        KeyCode::Char('l') => Some(Command::Pane(PaneCommand::Right)),
        KeyCode::Char(' ') => Some(Command::Pane(PaneCommand::ToggleFolder)),
        _ => None,
    }
}

/// A key that every pane has.
pub open spec fn any_pane_command(focus: Pane, code: KeyCode) -> Command {
    match step_of(code) {
        Some(d) => Command::Pane(PaneCommand::Select(d)),
        None => match code {
            KeyCode::Left => Command::Pane(PaneCommand::Left),
            KeyCode::Right => Command::Pane(PaneCommand::Right),
            KeyCode::Esc => if focus == Pane::List || focus == Pane::Reading {
                Command::Pane(PaneCommand::Left)
            } else {
                Command::Nothing
            },
            KeyCode::Enter => Command::Pane(PaneCommand::Activate),
            KeyCode::Delete => Command::Mail(MailCommand::Delete),
            KeyCode::Char(c) => char_command(c),
            _ => Command::Nothing,
        },
    }
}

/// With Ctrl, Up and Down jump between the links of an open message.
pub open spec fn link_step(a: App, key: Key) -> Option<isize> {
    if key.ctrl && a.selected_msg is Some {
        match key.code {
            KeyCode::Up => Some(-1isize),
            KeyCode::Down => Some(1isize),
            _ => None,
        }
    } else {
        None
    }
}

/// A key in the mail panes: what the focused pane makes of it, or else what
/// every pane does.
pub open spec fn pane_command(a: App, key: Key) -> Command {
    match link_step(a, key) {
        Some(d) => Command::Pane(PaneCommand::FocusLink(d)),
        None => {
            let own = match a.focus {
                Pane::Folders => tree_command(key.code),
                Pane::Reading => reader_command(a, key.code),
                _ => None,
            };
            match own {
                Some(c) => c,
                None => any_pane_command(a.focus, key.code),
            }
        },
    }
}

/// A key where no form and no popup that lies over both modes is open.
pub open spec fn mode_command(a: App, key: Key) -> Command {
    if key.code == KeyCode::F(1) || (key.code == KeyCode::Char('?') && !a.captures_text()) {
        Command::Overlay(OverlayCommand::OpenHelp)
    } else if a.mode == Mode::Mail && a.move_picker is Some {
        move_command(key.code)
    } else if a.mode == Mode::Mail && a.attachments is Some {
        attachments_command(key.code)
    } else if key.code == KeyCode::Esc && a.reminder_queue@.len() > 0 && !a.captures_text() {
        Command::Overlay(OverlayCommand::DismissReminder)
    } else if key.code == KeyCode::Esc && a.mode == Mode::Mail && a.category_filter is Some
        && a.search is None {
        Command::Mail(MailCommand::ClearFilter)
    } else if a.focus == Pane::Rail {
        rail_command(key.code)
    } else if a.mode == Mode::Calendar {
        calendar_command(key.code)
    } else if a.search is Some {
        search_command(key.code)
    } else {
        pane_command(a, key)
    }
}

/// A key where nothing that lies over everything is open: it goes to the form or
/// popup in front.
pub open spec fn popup_command(a: App, key: Key) -> Command {
    if a.oof_form is Some {
        Command::Popup(PopupCommand::OofForm)
    } else if a.rsvp_prompt is Some {
        rsvp_command(key.code)
    } else if a.free_busy is Some {
        if key.code == KeyCode::Esc {
            Command::Popup(PopupCommand::CloseFreeBusy)
        } else {
            Command::Nothing
        }
    } else if a.category_picker is Some {
        category_command(key.code)
    } else if a.file_picker is Some {
        file_command(key.code)
    } else if a.compose is Some {
        Command::Popup(PopupCommand::Compose)
    } else if a.event_form is Some {
        Command::Popup(PopupCommand::EventForm)
    } else if a.confirm is Some {
        confirm_command(key.code)
    } else {
        mode_command(a, key)
    }
}

/// What a key means. The sign-in comes before everything, then the help, the
/// backstage, the link dialog and the ribbon.
pub open spec fn command_of(a: App, key: Key) -> Command {
    if a.signin_modal is Some {
        if key.code == KeyCode::Enter {
            Command::Overlay(OverlayCommand::SignIn)
        } else {
            Command::Nothing
        }
    } else if a.help {
        match key.code {
            KeyCode::Esc | KeyCode::F(1) | KeyCode::Char('?') | KeyCode::Char('q') =>
                Command::Overlay(OverlayCommand::CloseHelp),
            _ => Command::Nothing,
        }
    } else if a.backstage is Some {
        Command::Overlay(OverlayCommand::Backstage)
    } else if a.link_prompt is Some {
        Command::Overlay(OverlayCommand::LinkPrompt)
    } else if key.code == KeyCode::F(9) {
        Command::Overlay(OverlayCommand::ToggleRibbon)
    } else if a.ribbon_focus != Focus::Off {
        ribbon_command(a.ribbon_focus, key.code)
    } else {
        popup_command(a, key)
    }
}

fn step(code: KeyCode) -> (r: Option<isize>)
    ensures
        r == step_of(code),
{
    match code {
        KeyCode::Up | KeyCode::Char('k') => Some(-1),
        KeyCode::Down | KeyCode::Char('j') => Some(1),
        _ => None,
    }
}

fn ribbon_key(focus: Focus, code: KeyCode) -> (r: Command)
    ensures
        r == ribbon_command(focus, code),
{
    match code {
        KeyCode::Left => Command::Overlay(OverlayCommand::MoveRibbon(Dir::Left)),
        KeyCode::Right => Command::Overlay(OverlayCommand::MoveRibbon(Dir::Right)),
        KeyCode::Up => Command::Overlay(OverlayCommand::MoveRibbon(Dir::Up)),
        KeyCode::Down => Command::Overlay(OverlayCommand::MoveRibbon(Dir::Down)),
        KeyCode::Enter => match focus {
            Focus::Tab(t) => {
                if 1 <= t && t < 6 {
                    Command::Overlay(OverlayCommand::EnterRibbon)
                } else {
                    Command::Overlay(OverlayCommand::OpenBackstage)
                }
            },
            _ => Command::Overlay(OverlayCommand::RunRibbon),
        },
        KeyCode::Esc => Command::Overlay(OverlayCommand::LeaveRibbon),
        _ => Command::Nothing,
    }
}

fn rsvp_key(code: KeyCode) -> (r: Command)
    ensures
        r == rsvp_command(code),
{
    match code {
        KeyCode::Enter => Command::Popup(PopupCommand::SubmitRsvp),
        KeyCode::Esc => Command::Popup(PopupCommand::CancelRsvp),
        KeyCode::Tab => Command::Popup(PopupCommand::CycleRsvp),
        KeyCode::Backspace => Command::Popup(PopupCommand::BackspaceRsvp),
        KeyCode::Char(c) => Command::Popup(PopupCommand::TypeRsvp(c)),
        _ => Command::Nothing,
    }
}

fn category_key(code: KeyCode) -> (r: Command)
    ensures
        r == category_command(code),
{
    if let Some(d) = step(code) {
        return Command::Popup(PopupCommand::SelectCategory(d));
    }
    match code {
        KeyCode::Esc => Command::Popup(PopupCommand::CloseCategories),
        KeyCode::Char(' ') => Command::Popup(PopupCommand::ToggleCategory),
        KeyCode::Enter => Command::Popup(PopupCommand::ApplyCategories),
        _ => Command::Nothing,
    }
}

fn file_key(code: KeyCode) -> (r: Command)
    ensures
        r == file_command(code),
{
    if let Some(d) = step(code) {
        return Command::Popup(PopupCommand::SelectFile(d));
    }
    match code {
        KeyCode::Enter => Command::Popup(PopupCommand::EnterFile),
        KeyCode::Esc => Command::Popup(PopupCommand::CloseFiles),
        _ => Command::Nothing,
    }
}

fn confirm_key(code: KeyCode) -> (r: Command)
    ensures
        r == confirm_command(code),
{
    match code {
        KeyCode::Enter => Command::Popup(PopupCommand::Confirm),
        KeyCode::Esc => Command::Popup(PopupCommand::CancelConfirm),
        _ => Command::Nothing,
    }
}

fn rail_key(code: KeyCode) -> (r: Command)
    ensures
        r == rail_command(code),
{
    match code {
        KeyCode::Up | KeyCode::Char('k') => Command::Calendar(CalendarCommand::SetMode(Mode::Mail)),
        KeyCode::Down | KeyCode::Char('j') => Command::Calendar(
            CalendarCommand::SetMode(Mode::Calendar),
        ),
        KeyCode::Right | KeyCode::Char('l') | KeyCode::Enter => Command::Calendar(
            CalendarCommand::EnterFolders,
        ),
        _ => Command::Nothing,
    }
}

fn calendar_key(code: KeyCode) -> (r: Command)
    ensures
        r == calendar_command(code),
{
    if let Some(d) = step(code) {
        return Command::Calendar(CalendarCommand::Select(d));
    }
    match code {
        KeyCode::Esc | KeyCode::Char('g') => Command::Calendar(CalendarCommand::ToggleMode),
        KeyCode::Enter => Command::Calendar(CalendarCommand::OpenEvent),
        KeyCode::Char('a') => Command::Calendar(CalendarCommand::Rsvp(RsvpKind::Accept)),
        KeyCode::Char('d') => Command::Calendar(CalendarCommand::Rsvp(RsvpKind::Decline)),
        KeyCode::Char('t') => Command::Calendar(CalendarCommand::Rsvp(RsvpKind::Tentative)),
        KeyCode::Char('c') => Command::Calendar(CalendarCommand::NewEvent),
        KeyCode::Char('e') => Command::Calendar(CalendarCommand::EditEvent),
        KeyCode::Char('x') => Command::Calendar(CalendarCommand::DeleteEvent),
        KeyCode::Char('O') => Command::Mail(MailCommand::OpenOof),
        _ => Command::Nothing,
    }
}

fn move_key(code: KeyCode) -> (r: Command)
    ensures
        r == move_command(code),
{
    if let Some(d) = step(code) {
        return Command::Popup(PopupCommand::SelectMove(d));
    }
    match code {
        KeyCode::Esc => Command::Popup(PopupCommand::CancelMove),
        KeyCode::Enter => Command::Popup(PopupCommand::ConfirmMove),
        _ => Command::Nothing,
    }
}

fn attachments_key(code: KeyCode) -> (r: Command)
    ensures
        r == attachments_command(code),
{
    if let Some(d) = step(code) {
        return Command::Popup(PopupCommand::SelectAttachment(d));
    }
    match code {
        KeyCode::Esc => Command::Popup(PopupCommand::CloseAttachments),
        KeyCode::Enter => Command::Popup(PopupCommand::SaveAttachment),
        KeyCode::Char('o') => Command::Popup(PopupCommand::OpenAttachment),
        _ => Command::Nothing,
    }
}

fn search_key(code: KeyCode) -> (r: Command)
    ensures
        r == search_command(code),
{
    match code {
        KeyCode::Esc => Command::Popup(PopupCommand::CancelSearch),
        KeyCode::Enter => Command::Popup(PopupCommand::SubmitSearch),
        KeyCode::Backspace => Command::Popup(PopupCommand::BackspaceSearch),
        KeyCode::Up => Command::Popup(PopupCommand::SelectResult(-1)),
        KeyCode::Down => Command::Popup(PopupCommand::SelectResult(1)),
        KeyCode::Char(c) => Command::Popup(PopupCommand::TypeSearch(c)),
        _ => Command::Nothing,
    }
}

fn char_key(c: char) -> (r: Command)
    ensures
        r == char_command(c),
{
    match c {
        'm' => Command::Mail(MailCommand::MarkRead(true)),
        'u' => Command::Mail(MailCommand::MarkRead(false)),
        'f' => Command::Mail(MailCommand::ToggleFlag),
        'd' => Command::Mail(MailCommand::Delete),
        'v' => Command::Mail(MailCommand::PickFolder),
        'a' => Command::Mail(MailCommand::ShowAttachments),
        '/' => Command::Mail(MailCommand::StartSearch),
        'c' => Command::Mail(MailCommand::ComposeNew),
        'r' => Command::Mail(MailCommand::Reply(false)),
        'R' => Command::Mail(MailCommand::Reply(true)),
        'F' => Command::Mail(MailCommand::Forward),
        't' => Command::Mail(MailCommand::ToggleThreaded),
        'A' => Command::Mail(MailCommand::AcceptMeeting),
        'D' => Command::Mail(MailCommand::AnswerMeeting(RsvpKind::Decline)),
        'T' => Command::Mail(MailCommand::AnswerMeeting(RsvpKind::Tentative)),
        'O' => Command::Mail(MailCommand::OpenOof),
        'l' => Command::Mail(MailCommand::PickCategories(PickerMode::Assign)),
        'L' => Command::Mail(MailCommand::PickCategories(PickerMode::Filter)),
        _ => Command::Nothing,
    }
}

fn tree_key(code: KeyCode) -> (r: Option<Command>)
    ensures
        r == tree_command(code),
{
    match code {
        KeyCode::Char('h') => Some(Command::Pane(PaneCommand::Left)),
        KeyCode::Char('l') => Some(Command::Pane(PaneCommand::Right)),
        KeyCode::Char(' ') => Some(Command::Pane(PaneCommand::ToggleFolder)),
        _ => None,
    }
}

fn any_pane_key(focus: Pane, code: KeyCode) -> (r: Command)
    ensures
        r == any_pane_command(focus, code),
{
    if let Some(d) = step(code) {
        return Command::Pane(PaneCommand::Select(d));
    }
    match code {
        KeyCode::Left => Command::Pane(PaneCommand::Left),
        KeyCode::Right => Command::Pane(PaneCommand::Right),
        KeyCode::Esc => {
            if focus == Pane::List || focus == Pane::Reading {
                Command::Pane(PaneCommand::Left)
            } else {
                Command::Nothing
            }
        },
        KeyCode::Enter => Command::Pane(PaneCommand::Activate),
        KeyCode::Delete => Command::Mail(MailCommand::Delete),
        KeyCode::Char(c) => char_key(c),
        _ => Command::Nothing,
    }
}

impl App {
    fn reader_key(&self, code: KeyCode) -> (r: Option<Command>)
        ensures
            r == reader_command(*self, code),
    {
        if let Some(d) = step(code) {
            return Some(Command::Pane(PaneCommand::Scroll(d)));
        }
        match code {
            KeyCode::PageUp => Some(Command::Pane(PaneCommand::OpenSibling(-1))),
            KeyCode::PageDown => Some(Command::Pane(PaneCommand::OpenSibling(1))),
            KeyCode::Home => Some(Command::Pane(PaneCommand::ScrollHome)),
            KeyCode::End => Some(Command::Pane(PaneCommand::ScrollEnd)),
            KeyCode::Enter => {
                if self.focused_link.is_some() {
                    Some(Command::Pane(PaneCommand::OpenLink))
                } else {
                    None
                }
            },
            _ => None,
        }
    }

    fn pane_key(&self, key: Key) -> (r: Command)
        ensures
            r == pane_command(*self, key),
    {
        if key.ctrl && self.selected_msg.is_some() {
            match key.code {
                KeyCode::Up => {
                    return Command::Pane(PaneCommand::FocusLink(-1));
                },
                KeyCode::Down => {
                    return Command::Pane(PaneCommand::FocusLink(1));
                },
                _ => {},
            }
        }
        let own: Option<Command> = match self.focus {
            Pane::Folders => tree_key(key.code),
            Pane::Reading => self.reader_key(key.code),
            _ => None,
        };
        match own {
            Some(c) => c,
            None => any_pane_key(self.focus, key.code),
        }
    }

    fn mode_key(&self, key: Key) -> (r: Command)
        ensures
            r == mode_command(*self, key),
    {
        if key.code == KeyCode::F(1) || (key.code == KeyCode::Char('?')
            && !self.is_capturing_text()) {
            Command::Overlay(OverlayCommand::OpenHelp)
        } else if self.mode == Mode::Mail && self.move_picker.is_some() {
            move_key(key.code)
        } else if self.mode == Mode::Mail && self.attachments.is_some() {
            attachments_key(key.code)
        } else if key.code == KeyCode::Esc && self.reminder_queue.len() > 0
            && !self.is_capturing_text() {
            Command::Overlay(OverlayCommand::DismissReminder)
        } else if key.code == KeyCode::Esc && self.mode == Mode::Mail
            && self.category_filter.is_some() && self.search.is_none() {
            Command::Mail(MailCommand::ClearFilter)
        } else if self.focus == Pane::Rail {
            rail_key(key.code)
        } else if self.mode == Mode::Calendar {
            calendar_key(key.code)
        } else if self.search.is_some() {
            search_key(key.code)
        } else {
            self.pane_key(key)
        }
    }

    fn popup_key(&self, key: Key) -> (r: Command)
        ensures
            r == popup_command(*self, key),
    {
        if self.oof_form.is_some() {
            Command::Popup(PopupCommand::OofForm)
        } else if self.rsvp_prompt.is_some() {
            rsvp_key(key.code)
        } else if self.free_busy.is_some() {
            if key.code == KeyCode::Esc {
                Command::Popup(PopupCommand::CloseFreeBusy)
            } else {
                Command::Nothing
            }
        } else if self.category_picker.is_some() {
            category_key(key.code)
        } else if self.file_picker.is_some() {
            file_key(key.code)
        } else if self.compose.is_some() {
            Command::Popup(PopupCommand::Compose)
        } else if self.event_form.is_some() {
            Command::Popup(PopupCommand::EventForm)
        } else if self.confirm.is_some() {
            confirm_key(key.code)
        } else {
            self.mode_key(key)
        }
    }

    /// What a key means.
    pub fn command(&self, key: Key) -> (r: Command)
        ensures
            r == command_of(*self, key),
    {
        if self.signin_modal.is_some() {
            if key.code == KeyCode::Enter {
                Command::Overlay(OverlayCommand::SignIn)
            } else {
                Command::Nothing
            }
        } else if self.help {
            match key.code {
                KeyCode::Esc | KeyCode::F(1) | KeyCode::Char('?') | KeyCode::Char('q') =>
                    Command::Overlay(OverlayCommand::CloseHelp),
                _ => Command::Nothing,
            }
        } else if self.backstage.is_some() {
            Command::Overlay(OverlayCommand::Backstage)
        } else if self.link_prompt.is_some() {
            Command::Overlay(OverlayCommand::LinkPrompt)
        } else if key.code == KeyCode::F(9) {
            Command::Overlay(OverlayCommand::ToggleRibbon)
        } else if self.ribbon_focus != Focus::Off {
            ribbon_key(self.ribbon_focus, key.code)
        } else {
            self.popup_key(key)
        }
    }
}

// ---------------------------------------------------------------------------
// What a command does
// ---------------------------------------------------------------------------

pub open spec fn overlay_done(pre: App, post: App, c: OverlayCommand, code: KeyCode) -> bool {
    match c {
        OverlayCommand::SignIn => overlays::sign_in_asked(pre, post),
        OverlayCommand::OpenHelp => post == (App { help: true, ..pre }),
        OverlayCommand::CloseHelp => post == (App { help: false, ..pre }),
        OverlayCommand::Backstage => overlays::backstage_keyed(pre, post, code),
        OverlayCommand::LinkPrompt => overlays::link_keyed(pre, post, code),
        OverlayCommand::ToggleRibbon => post == overlays::ribbon_toggled(pre),
        OverlayCommand::MoveRibbon(d) => app::emitted(pre, post, seq![Action::RibbonNav(d)]),
        OverlayCommand::OpenBackstage => post == (App {
            backstage: Some(
                ui::backstage::Backstage { sel: 0, in_settings: false, settings_sel: 0 },
            ),
            ..pre
        }),
        OverlayCommand::EnterRibbon => app::emitted(pre, post, seq![Action::RibbonEnterBody]),
        OverlayCommand::RunRibbon => app::emitted(pre, post, seq![Action::RibbonRun]),
        OverlayCommand::LeaveRibbon => post == (App {
            ribbon_focus: Focus::Off,
            ribbon_open: false,
            ..pre
        }),
        OverlayCommand::DismissReminder => reminders::reminder_dismissed(pre, post),
    }
}

/// The file picker's cursor moves.
pub open spec fn file_selected(pre: App, post: App, delta: int) -> bool {
    post == match pre.file_picker {
        Some(p) => if p.entries@.len() == 0 {
            pre
        } else {
            App {
                file_picker: Some(
                    FilePicker {
                        index: ui::clamp_index(
                            p.index as int,
                            delta,
                            p.entries@.len() as int,
                        ) as usize,
                        ..p
                    },
                ),
                ..pre
            }
        },
        None => pre,
    }
}

/// A key is handed to the composer, and what it asked for is carried out.
pub open spec fn composed(pre: App, post: App, key: Key) -> bool {
    exists|mid: App|
        #[trigger] drafts::compose_keyed(pre, mid, key) && drafts::compose_applied(mid, post)
}

pub open spec fn popup_done(pre: App, post: App, c: PopupCommand, key: Key, clock: Clock) -> bool {
    match c {
        PopupCommand::OofForm => forms::oof_keyed(pre, post, key, clock),
        PopupCommand::SubmitRsvp => calendar::rsvp_submitted(pre, post, clock),
        PopupCommand::CancelRsvp => calendar::rsvp_sent_plain(pre, post),
        PopupCommand::CycleRsvp => calendar::rsvp_cycled(pre, post),
        PopupCommand::BackspaceRsvp => calendar::rsvp_backspaced(pre, post),
        PopupCommand::TypeRsvp(ch) => calendar::rsvp_typed(pre, post, seq![ch]),
        PopupCommand::CloseFreeBusy => post == (App { free_busy: None, ..pre }),
        PopupCommand::CloseCategories => post == (App { category_picker: None, ..pre }),
        PopupCommand::SelectCategory(d) => categories::category_picker_moved(pre, post, d as int),
        PopupCommand::ToggleCategory => categories::category_toggled(pre, post),
        PopupCommand::ApplyCategories => categories::category_picker_applied(pre, post),
        PopupCommand::SelectFile(d) => file_selected(pre, post, d as int),
        PopupCommand::EnterFile => drafts::picker_entered(pre, post),
        PopupCommand::CloseFiles => post == (App { file_picker: None, ..pre }),
        PopupCommand::Compose => composed(pre, post, key),
        PopupCommand::EventForm => forms::event_keyed(pre, post, key, clock),
        PopupCommand::Confirm => triage::confirmed(pre, post),
        PopupCommand::CancelConfirm => post == (App { confirm: None, ..pre }),
        PopupCommand::CancelMove => post == (App { move_picker: None, ..pre }),
        PopupCommand::SelectMove(d) => triage::picker_moved(pre, post, d as int),
        PopupCommand::ConfirmMove => triage::move_confirmed(pre, post),
        PopupCommand::CloseAttachments => post == (App { attachments: None, ..pre }),
        PopupCommand::SelectAttachment(d) => attachments::attachments_moved(pre, post, d as int),
        PopupCommand::SaveAttachment => attachments::save_begun(pre, post, false),
        PopupCommand::OpenAttachment => attachments::save_begun(pre, post, true),
        PopupCommand::CancelSearch => search::search_cancelled(pre, post),
        PopupCommand::SubmitSearch => search::search_asked(pre, post),
        PopupCommand::BackspaceSearch => search::query_backspaced(pre, post),
        PopupCommand::SelectResult(d) => search::search_moved(pre, post, d as int),
        PopupCommand::TypeSearch(ch) => search::query_typed(pre, post, seq![ch]),
    }
}

/// How an answer is written.
pub open spec fn answer_text(kind: RsvpKind) -> Seq<char> {
    match kind {
        RsvpKind::Accept => "accepted"@,
        RsvpKind::Decline => "declined"@,
        RsvpKind::Tentative => "tentativelyAccepted"@,
    }
}

pub open spec fn calendar_done(pre: App, post: App, c: CalendarCommand, clock: Clock) -> bool {
    match c {
        CalendarCommand::SetMode(m) => calendar::mode_set(pre, post, m),
        CalendarCommand::EnterFolders => post == (App { focus: Pane::Folders, ..pre }),
        CalendarCommand::ToggleMode => calendar::mode_set(
            pre,
            post,
            calendar::other_mode(pre.mode),
        ),
        CalendarCommand::Select(d) => calendar::agenda_selection_moved(pre, post, d as int),
        CalendarCommand::OpenEvent => calendar::event_opened(pre, post),
        CalendarCommand::Rsvp(kind) => calendar::rsvp_started(pre, post, answer_text(kind)),
        CalendarCommand::NewEvent => events::new_event_opened(pre, post, clock),
        CalendarCommand::EditEvent => events::edit_begun(pre, post),
        CalendarCommand::DeleteEvent => calendar::event_deletion_begun(pre, post),
    }
}

pub open spec fn mail_done(pre: App, post: App, c: MailCommand) -> bool {
    match c {
        MailCommand::MarkRead(read) => triage::marked_read(pre, post, read),
        MailCommand::ToggleFlag => triage::flag_toggled(pre, post),
        MailCommand::Delete => triage::deletion_begun(pre, post),
        MailCommand::PickFolder => triage::move_begun(pre, post),
        MailCommand::ShowAttachments => attachments::attachments_asked(pre, post),
        MailCommand::StartSearch => search::search_started(pre, post),
        MailCommand::ComposeNew => drafts::composing_begun(pre, post),
        MailCommand::Reply(all) => drafts::reply_begun(pre, post, all),
        MailCommand::Forward => drafts::forward_begun(pre, post),
        MailCommand::ToggleThreaded => triage::threading_toggled(pre, post),
        MailCommand::AcceptMeeting => calendar::meeting_answered(pre, post, RsvpKind::Accept),
        MailCommand::AnswerMeeting(kind) => calendar::meeting_rsvp_started(
            pre,
            post,
            answer_text(kind),
        ),
        MailCommand::OpenOof => forms::oof_opened(pre, post),
        MailCommand::PickCategories(mode) => categories::category_picker_opened(pre, post, mode),
        MailCommand::ClearFilter => categories::category_filter_cleared(pre, post),
    }
}

pub open spec fn pane_done(pre: App, post: App, c: PaneCommand) -> bool {
    match c {
        PaneCommand::Left => navigate::went_left(pre, post),
        PaneCommand::Right => navigate::went_right(pre, post),
        PaneCommand::ToggleFolder => folders::folder_toggled(pre, post),
        PaneCommand::FocusLink(d) => overlays::link_focused(pre, post, d as int),
        PaneCommand::Scroll(d) => reading::scrolled_by(pre, post, d as int),
        PaneCommand::ScrollHome => post == (App { reading_scroll: 0, ..pre }),
        PaneCommand::ScrollEnd => post == (App {
            reading_scroll: pre.max_scroll() as usize,
            ..pre
        }),
        PaneCommand::OpenSibling(d) => navigate::sibling_opened(pre, post, d as int),
        PaneCommand::Select(d) => navigate::selection_moved(pre, post, d as int),
        PaneCommand::OpenLink => overlays::link_asked(pre, post),
        PaneCommand::Activate => navigate::selection_activated(pre, post),
    }
}

/// What a command does.
pub open spec fn done(pre: App, post: App, c: Command, key: Key, clock: Clock) -> bool {
    match c {
        Command::Nothing => post == pre,
        Command::Overlay(o) => overlay_done(pre, post, o, key.code),
        Command::Popup(p) => popup_done(pre, post, p, key, clock),
        Command::Calendar(e) => calendar_done(pre, post, e, clock),
        Command::Mail(m) => mail_done(pre, post, m),
        Command::Pane(p) => pane_done(pre, post, p),
    }
}

/// Ctrl-C, or `q` where it is not typed somewhere.
pub open spec fn quits(a: App, key: Key) -> bool {
    (key.ctrl && key.code == KeyCode::Char('c')) || (key.code == KeyCode::Char('q')
        && !a.captures_text())
}

/// A key is pressed.
pub open spec fn pressed(pre: App, post: App, key: Key, clock: Clock) -> bool {
    let seen = App { error_notice: None, ..pre };
    if quits(pre, key) {
        post == (App { quit: true, ..seen })
    } else {
        done(seen, post, command_of(seen, key), key, clock)
    }
}

fn answer(kind: RsvpKind) -> (r: &'static str)
    ensures
        r@ == answer_text(kind),
{
    match kind {
        RsvpKind::Accept => "accepted",
        RsvpKind::Decline => "declined",
        RsvpKind::Tentative => "tentativelyAccepted",
    }
}

fn one_char(c: char) -> (r: String)
    ensures
        r@ == seq![c],
{
    let mut s: String = String::new();
    s.push(c);
    assert(s@ =~= seq![c]);
    s
}

impl App {
    fn do_overlay(&mut self, c: OverlayCommand, code: KeyCode)
        ensures
            overlay_done(*old(self), *final(self), c, code),
            old(self).rows_in_step() ==> final(self).rows_in_step(),
    {
        match c {
            OverlayCommand::SignIn => self.on_key_enter(),
            OverlayCommand::OpenHelp => self.open_help(),
            OverlayCommand::CloseHelp => self.close_help(),
            OverlayCommand::Backstage => self.backstage_key(code),
            OverlayCommand::LinkPrompt => self.link_prompt_key(code),
            OverlayCommand::ToggleRibbon => self.toggle_ribbon(),
            OverlayCommand::MoveRibbon(d) => self.emit(Action::RibbonNav(d)),
            OverlayCommand::OpenBackstage => self.open_backstage(),
            OverlayCommand::EnterRibbon => self.emit(Action::RibbonEnterBody),
            OverlayCommand::RunRibbon => self.emit(Action::RibbonRun),
            OverlayCommand::LeaveRibbon => self.leave_ribbon(),
            OverlayCommand::DismissReminder => self.dismiss_reminder(),
        }
    }

    fn select_file(&mut self, delta: isize)
        ensures
            file_selected(*old(self), *final(self), delta as int),
            old(self).rows_in_step() ==> final(self).rows_in_step(),
    {
        if let Some(p) = &mut self.file_picker {
            p.move_selection(delta);
        }
    }

    fn compose_key(&mut self, key: Key)
        ensures
            composed(*old(self), *final(self), key),
            old(self).rows_in_step() ==> final(self).rows_in_step(),
    {
        self.compose_handle_key(key);
        let ghost mid = *self;
        self.apply_compose_action();
        assert(drafts::compose_keyed(*old(self), mid, key));
    }

    fn do_popup(&mut self, c: PopupCommand, key: Key, clock: Clock)
        requires
            clock.wf(),
        ensures
            popup_done(*old(self), *final(self), c, key, clock),
            old(self).rows_in_step() ==> final(self).rows_in_step(),
    {
        match c {
            PopupCommand::OofForm => self.oof_handle_key(key, clock),
            PopupCommand::SubmitRsvp => self.submit_rsvp(clock),
            PopupCommand::CancelRsvp => self.cancel_rsvp_comment(),
            PopupCommand::CycleRsvp => self.cycle_rsvp_focus(),
            PopupCommand::BackspaceRsvp => self.backspace_rsvp_comment(),
            PopupCommand::TypeRsvp(ch) => self.type_rsvp_comment(one_char(ch).as_str()),
            PopupCommand::CloseFreeBusy => self.close_free_busy(),
            PopupCommand::CloseCategories => {
                self.category_picker = None;
            },
            PopupCommand::SelectCategory(d) => self.category_picker_select(d),
            PopupCommand::ToggleCategory => self.category_picker_toggle(),
            PopupCommand::ApplyCategories => self.apply_category_picker(),
            PopupCommand::SelectFile(d) => self.select_file(d),
            PopupCommand::EnterFile => self.file_picker_enter(),
            PopupCommand::CloseFiles => {
                self.file_picker = None;
            },
            PopupCommand::Compose => self.compose_key(key),
            PopupCommand::EventForm => self.event_form_handle_key(key, clock),
            PopupCommand::Confirm => self.confirm_yes(),
            PopupCommand::CancelConfirm => self.cancel_confirm(),
            PopupCommand::CancelMove => self.cancel_move_picker(),
            PopupCommand::SelectMove(d) => self.move_picker_select(d),
            PopupCommand::ConfirmMove => self.confirm_move(),
            PopupCommand::CloseAttachments => self.cancel_attachments_popup(),
            PopupCommand::SelectAttachment(d) => self.attachments_select(d),
            PopupCommand::SaveAttachment => self.save_attachment(),
            PopupCommand::OpenAttachment => self.save_and_open_attachment(),
            PopupCommand::CancelSearch => self.cancel_search(),
            PopupCommand::SubmitSearch => self.submit_search(),
            PopupCommand::BackspaceSearch => self.backspace_query(),
            PopupCommand::SelectResult(d) => self.move_search_selection(d),
            PopupCommand::TypeSearch(ch) => self.type_query(one_char(ch).as_str()),
        }
    }

    fn do_calendar(&mut self, c: CalendarCommand, clock: Clock)
        requires
            clock.wf(),
        ensures
            calendar_done(*old(self), *final(self), c, clock),
            old(self).rows_in_step() ==> final(self).rows_in_step(),
    {
        match c {
            CalendarCommand::SetMode(m) => self.set_mode(m),
            CalendarCommand::EnterFolders => {
                self.focus = Pane::Folders;
            },
            CalendarCommand::ToggleMode => self.toggle_mode(),
            CalendarCommand::Select(d) => self.move_agenda_selection(d),
            CalendarCommand::OpenEvent => self.open_selected_event(),
            CalendarCommand::Rsvp(kind) => self.start_rsvp(answer(kind)),
            CalendarCommand::NewEvent => self.open_new_event(clock),
            CalendarCommand::EditEvent => self.open_edit_event(),
            CalendarCommand::DeleteEvent => self.delete_selected_event(),
        }
    }

    fn do_mail(&mut self, c: MailCommand)
        requires
            old(self).rows_in_step(),
        ensures
            mail_done(*old(self), *final(self), c),
            final(self).rows_in_step(),
    {
        match c {
            MailCommand::MarkRead(read) => self.mark_read(read),
            MailCommand::ToggleFlag => self.toggle_flag(),
            MailCommand::Delete => self.delete_selected(),
            MailCommand::PickFolder => self.open_move_picker(),
            MailCommand::ShowAttachments => self.open_attachments_popup(),
            MailCommand::StartSearch => self.start_search(),
            MailCommand::ComposeNew => self.compose_new(),
            MailCommand::Reply(all) => self.compose_reply(all),
            MailCommand::Forward => self.compose_forward(),
            MailCommand::ToggleThreaded => self.toggle_threaded(),
            MailCommand::AcceptMeeting => self.respond_meeting(RsvpKind::Accept),
            MailCommand::AnswerMeeting(kind) => self.start_meeting_rsvp(answer(kind)),
            MailCommand::OpenOof => self.open_oof_form(),
            MailCommand::PickCategories(mode) => self.open_category_picker(mode),
            MailCommand::ClearFilter => self.clear_category_filter(),
        }
    }

    fn do_pane(&mut self, c: PaneCommand)
        requires
            old(self).rows_in_step(),
        ensures
            pane_done(*old(self), *final(self), c),
            final(self).rows_in_step(),
    {
        match c {
            PaneCommand::Left => self.nav_left(),
            PaneCommand::Right => self.nav_right(),
            PaneCommand::ToggleFolder => self.toggle_selected_folder(),
            PaneCommand::FocusLink(d) => self.focus_link(d),
            PaneCommand::Scroll(d) => self.reading_scroll_by(d),
            PaneCommand::ScrollHome => self.reading_scroll_home(),
            PaneCommand::ScrollEnd => self.reading_scroll_end(),
            PaneCommand::OpenSibling(d) => self.open_sibling_message(d),
            PaneCommand::Select(d) => self.move_selection(d),
            PaneCommand::OpenLink => self.open_focused_link(),
            PaneCommand::Activate => self.activate_selected(),
        }
    }

    /// Carries a command out.
    pub fn perform(&mut self, c: Command, key: Key, clock: Clock)
        requires
            old(self).rows_in_step(),
            clock.wf(),
        ensures
            done(*old(self), *final(self), c, key, clock),
            final(self).rows_in_step(),
    {
        match c {
            Command::Nothing => {},
            Command::Overlay(o) => self.do_overlay(o, key.code),
            Command::Popup(p) => self.do_popup(p, key, clock),
            Command::Calendar(e) => self.do_calendar(e, clock),
            Command::Mail(m) => self.do_mail(m),
            Command::Pane(p) => self.do_pane(p),
        }
    }

    /// A key press: it goes to what is in front, and does what it means there.
    pub fn handle_key(&mut self, key: Key, clock: Clock)
        requires
            old(self).rows_in_step(),
            clock.wf(),
        ensures
            done(*old(self), *final(self), command_of(*old(self), key), key, clock),
            final(self).rows_in_step(),
    {
        let c = self.command(key);
        self.perform(c, key, clock);
    }

    /// Whether a key quits: Ctrl-C always, `q` unless it is typed somewhere.
    pub fn is_global_quit(&self, key: Key) -> (r: bool)
        ensures
            r == quits(*self, key),
    {
        (key.ctrl && key.code == KeyCode::Char('c')) || (key.code == KeyCode::Char('q')
            && !self.is_capturing_text())
    }

    /// A key is pressed: that acknowledges a failure that is shown, and then
    /// quits or goes to what is in front.
    pub fn on_key(&mut self, key: Key, clock: Clock)
        requires
            old(self).rows_in_step(),
            clock.wf(),
        ensures
            pressed(*old(self), *final(self), key, clock),
            final(self).rows_in_step(),
    {
        self.error_notice = None;
        if self.is_global_quit(key) {
            self.quit = true;
        } else {
            self.handle_key(key, clock);
        }
    }

    /// A letter for the message under the cursor.
    pub fn on_key_char(&mut self, c: char)
        requires
            old(self).rows_in_step(),
        ensures
            match char_command(c) {
                Command::Mail(m) => mail_done(*old(self), *final(self), m),
                _ => *final(self) == *old(self),
            },
            final(self).rows_in_step(),
    {
        if let Command::Mail(m) = char_key(c) {
            self.do_mail(m);
        }
    }
}

// ---------------------------------------------------------------------------
// The ribbon's commands
// ---------------------------------------------------------------------------

/// What a ribbon button does: the same as the key in its hint. What has no key
/// is not a command of the keyboard.
pub open spec fn act_command(act: Act) -> Option<Command> {
    match act {
        Act::Compose => Some(char_command('c')),
        Act::Reply => Some(char_command('r')),
        Act::ReplyAll => Some(char_command('R')),
        Act::Forward => Some(char_command('F')),
        Act::Delete => Some(char_command('d')),
        Act::Flag => Some(char_command('f')),
        Act::MarkRead => Some(char_command('m')),
        Act::MarkUnread => Some(char_command('u')),
        Act::Move => Some(char_command('v')),
        Act::Categorize => Some(char_command('l')),
        Act::Find => Some(char_command('/')),
        Act::NewEvent => Some(calendar_command(KeyCode::Char('c'))),
        Act::EditEvent => Some(calendar_command(KeyCode::Char('e'))),
        Act::DeleteEvent => Some(calendar_command(KeyCode::Char('x'))),
        Act::RsvpAccept => Some(calendar_command(KeyCode::Char('a'))),
        Act::RsvpDecline => Some(calendar_command(KeyCode::Char('d'))),
        Act::RsvpTentative => Some(calendar_command(KeyCode::Char('t'))),
        Act::Threaded => Some(char_command('t')),
        Act::CategoryFilter => Some(char_command('L')),
        Act::Help => Some(Command::Overlay(OverlayCommand::OpenHelp)),
        Act::SendReceive | Act::ExpandAll | Act::CollapseAll | Act::Todo(_) => None,
    }
}

/// The command of a ribbon button that stands for a key.
pub fn command_for(act: Act) -> (r: Option<Command>)
    ensures
        r == act_command(act),
{
    match act {
        Act::Compose => Some(char_key('c')),
        Act::Reply => Some(char_key('r')),
        Act::ReplyAll => Some(char_key('R')),
        Act::Forward => Some(char_key('F')),
        Act::Delete => Some(char_key('d')),
        Act::Flag => Some(char_key('f')),
        Act::MarkRead => Some(char_key('m')),
        Act::MarkUnread => Some(char_key('u')),
        Act::Move => Some(char_key('v')),
        Act::Categorize => Some(char_key('l')),
        Act::Find => Some(char_key('/')),
        Act::NewEvent => Some(calendar_key(KeyCode::Char('c'))),
        Act::EditEvent => Some(calendar_key(KeyCode::Char('e'))),
        Act::DeleteEvent => Some(calendar_key(KeyCode::Char('x'))),
        Act::RsvpAccept => Some(calendar_key(KeyCode::Char('a'))),
        Act::RsvpDecline => Some(calendar_key(KeyCode::Char('d'))),
        Act::RsvpTentative => Some(calendar_key(KeyCode::Char('t'))),
        Act::Threaded => Some(char_key('t')),
        Act::CategoryFilter => Some(char_key('L')),
        Act::Help => Some(Command::Overlay(OverlayCommand::OpenHelp)),
        Act::SendReceive | Act::ExpandAll | Act::CollapseAll | Act::Todo(_) => None,
    }
}

// ---------------------------------------------------------------------------
// Laws
// ---------------------------------------------------------------------------

/// Ctrl-C always quits, whatever is open; and while something takes text, `q`
/// does not.
pub proof fn ctrl_c_always_quits(a: App, key: Key)
    requires
        key.code == KeyCode::Char('c') || key.code == KeyCode::Char('q'),
    ensures
        key.ctrl && key.code == KeyCode::Char('c') ==> quits(a, key),
        key.code == KeyCode::Char('q') && a.captures_text() ==> !quits(a, key),
{
}

/// While the sign-in is required or under way, no key does anything but ask for
/// it.
pub proof fn the_sign_in_blocks_every_key(pre: App, post: App, key: Key, clock: Clock)
    requires
        pre.signin_modal is Some,
        done(pre, post, command_of(pre, key), key, clock),
    ensures
        post == pre || (key.code == KeyCode::Enter && overlays::sign_in_asked(pre, post)),
{
}

/// The help takes every key, and a key does no more than close it.
pub proof fn the_help_captures_every_key(pre: App, post: App, key: Key, clock: Clock)
    requires
        pre.help,
        pre.signin_modal is None,
        done(pre, post, command_of(pre, key), key, clock),
    ensures
        post == pre || post == (App { help: false, ..pre }),
{
}

/// Nothing lies over the mail panes but the search prompt.
pub open spec fn search_in_front(a: App) -> bool {
    &&& a.search is Some
    &&& a.mode == Mode::Mail
    &&& a.focus != Pane::Rail
    &&& a.signin_modal is None
    &&& !a.help
    &&& a.backstage is None
    &&& a.link_prompt is None
    &&& a.ribbon_focus == Focus::Off
    &&& a.oof_form is None
    &&& a.rsvp_prompt is None
    &&& a.free_busy is None
    &&& a.category_picker is None
    &&& a.file_picker is None
    &&& a.compose is None
    &&& a.event_form is None
    &&& a.confirm is None
    &&& a.move_picker is None
    &&& a.attachments is None
}

/// While the search prompt is in front, every character is typed into the
/// query, whatever it would mean in a pane.
pub proof fn the_search_types_every_character(pre: App, post: App, c: char, key: Key, clock: Clock)
    requires
        search_in_front(pre),
        key.code == KeyCode::Char(c),
        done(pre, post, command_of(pre, key), key, clock),
    ensures
        search::query_typed(pre, post, seq![c]),
{
}

/// `Tab` and `Shift-Tab` do nothing in the panes, and neither does `g` over the
/// mail.
pub proof fn tab_does_not_navigate(a: App, key: Key)
    requires
        key.code == KeyCode::Tab || key.code == KeyCode::BackTab || key.code == KeyCode::Char('g'),
        a.move_picker is None,
        a.attachments is None,
        a.search is None,
        a.focus != Pane::Rail,
        a.mode == Mode::Mail,
    ensures
        mode_command(a, key) == Command::Nothing,
{
}

/// A popup over the mail panes takes every key but those of the help: Esc closes
/// it, whatever reminder is shown and whatever category is filtered by.
pub proof fn mail_popups_take_the_keys(a: App, key: Key)
    requires
        a.mode == Mode::Mail,
        key.code != KeyCode::F(1),
        key.code != KeyCode::Char('?'),
    ensures
        a.move_picker is Some ==> mode_command(a, key) == move_command(key.code),
        a.move_picker is None && a.attachments is Some ==> mode_command(a, key)
            == attachments_command(key.code),
{
}

/// An open confirmation takes every key in either mode: only Enter and Esc do
/// anything.
pub proof fn the_confirmation_comes_before_the_panes(a: App, key: Key)
    requires
        a.confirm is Some,
        a.oof_form is None,
        a.rsvp_prompt is None,
        a.free_busy is None,
        a.category_picker is None,
        a.file_picker is None,
        a.compose is None,
        a.event_form is None,
    ensures
        popup_command(a, key) == confirm_command(key.code),
{
}

}
