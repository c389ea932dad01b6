//! What is shown over the panes: the help, the sign-in, the ribbon's focus, the
//! backstage and the link dialog.

use crate::app;
use crate::app::forms;
use crate::app::triage;
use crate::app::{Action, App, KeyCode, SignInModal};
use crate::model::SyncCommand;
use crate::ui;
use crate::ui::backstage;
use crate::ui::backstage::{Backstage, Item};
use crate::ui::linkprompt;
use crate::ui::linkprompt::LinkPrompt;
use crate::ui::ribbon;
use crate::ui::ribbon::Focus;
use vstd::prelude::*;

verus! {

impl App {
    /// Something takes every key: a text field, or an overlay.
    pub open spec fn captures_text(self) -> bool {
        ||| self.search is Some
        ||| self.compose is Some
        ||| self.rsvp_prompt is Some
        ||| self.oof_form is Some
        ||| self.event_form is Some
        ||| self.free_busy is Some
        ||| self.help
    }
}

/// Enter asks for the sign-in, where it is required and has not begun.
pub open spec fn sign_in_asked(pre: App, post: App) -> bool {
    if pre.signin_modal matches Some(SignInModal::Required) {
        app::emitted(pre, post, seq![Action::Send(SyncCommand::SignIn)])
    } else {
        post == pre
    }
}

impl App {
    /// Whether a text field or an overlay takes the keys, so that a global key
    /// must not.
    pub fn is_capturing_text(&self) -> (r: bool)
        ensures
            r == self.captures_text(),
    {
        self.search.is_some() || self.compose.is_some() || self.rsvp_prompt.is_some()
            || self.oof_form.is_some() || self.event_form.is_some() || self.free_busy.is_some()
            || self.help
    }

    pub fn open_help(&mut self)
        ensures
            *final(self) == (App { help: true, ..*old(self) }),
            old(self).rows_in_step() ==> final(self).rows_in_step(),
    {
        self.help = true;
    }

    pub fn close_help(&mut self)
        ensures
            *final(self) == (App { help: false, ..*old(self) }),
            old(self).rows_in_step() ==> final(self).rows_in_step(),
    {
        self.help = false;
    }

    /// Enter, while the sign-in modal is showing. Once the browser is open there
    /// is nothing left to ask for.
    pub fn on_key_enter(&mut self)
        ensures
            sign_in_asked(*old(self), *final(self)),
            old(self).rows_in_step() ==> final(self).rows_in_step(),
    {
        let required = match &self.signin_modal {
            Some(SignInModal::Required) => true,
            _ => false,
        };
        if required {
            self.send(SyncCommand::SignIn);
        }
    }
}

// ---------------------------------------------------------------------------
// The ribbon's focus
// ---------------------------------------------------------------------------

/// F9: the ribbon opens on its active tab, or closes.
pub open spec fn ribbon_toggled(a: App) -> App {
    if a.ribbon_focus == Focus::Off {
        App { ribbon_open: true, ribbon_focus: Focus::Tab(a.ribbon_tab), ..a }
    } else {
        App { ribbon_open: false, ribbon_focus: Focus::Off, ..a }
    }
}

/// The focus moves, and a tab that has buttons is shown as soon as it is on it.
pub open spec fn ribbon_focused(a: App, next: Focus) -> App {
    App {
        ribbon_focus: next,
        ribbon_tab: match next {
            Focus::Tab(t) => if ribbon::has_body(t as int) {
                t
            } else {
                a.ribbon_tab
            },
            _ => a.ribbon_tab,
        },
        ..a
    }
}

impl App {
    /// Opens the ribbon and focuses it, or closes it.
    pub fn toggle_ribbon(&mut self)
        ensures
            *final(self) == ribbon_toggled(*old(self)),
            old(self).rows_in_step() ==> final(self).rows_in_step(),
    {
        if self.ribbon_focus == Focus::Off {
            self.ribbon_open = true;
            self.ribbon_focus = Focus::Tab(self.ribbon_tab);
        } else {
            self.ribbon_focus = Focus::Off;
            self.ribbon_open = false;
        }
    }

    /// The ribbon's focus has moved.
    pub fn ribbon_moved(&mut self, next: Focus)
        ensures
            *final(self) == ribbon_focused(*old(self), next),
            old(self).rows_in_step() ==> final(self).rows_in_step(),
    {
        if let Focus::Tab(t) = next {
            if 1 <= t && t < 6 {
                self.ribbon_tab = t;
            }
        }
        self.ribbon_focus = next;
    }

    /// Hands the focus back to the panes.
    pub fn leave_ribbon(&mut self)
        ensures
            *final(self) == (App { ribbon_focus: Focus::Off, ribbon_open: false, ..*old(self) }),
            old(self).rows_in_step() ==> final(self).rows_in_step(),
    {
        self.ribbon_focus = Focus::Off;
        self.ribbon_open = false;
    }
}

// ---------------------------------------------------------------------------
// The backstage
// ---------------------------------------------------------------------------

/// A key of the backstage's menu: Up and Down move, Enter chooses, Right enters
/// the settings, Esc closes.
pub open spec fn menu_keyed(pre: App, post: App, bs: Backstage, code: KeyCode) -> bool {
    match code {
        KeyCode::Esc => post == (App { backstage: None, ..pre }),
        KeyCode::Up => post == (App {
            backstage: Some(
                Backstage { sel: ui::clamp_index(bs.sel as int, -1, 3) as usize, ..bs },
            ),
            ..pre
        }),
        KeyCode::Down => post == (App {
            backstage: Some(Backstage { sel: ui::clamp_index(bs.sel as int, 1, 3) as usize, ..bs }),
            ..pre
        }),
        KeyCode::Enter => match backstage::item_at(bs.sel as int) {
            Item::AutoReplies => forms::oof_opened(App { backstage: None, ..pre }, post),
            Item::Settings => post == (App {
                backstage: Some(Backstage { in_settings: true, ..bs }),
                ..pre
            }),
            Item::Exit => post == (App { quit: true, ..pre }),
        },
        KeyCode::Right => post == if backstage::item_at(bs.sel as int) == Item::Settings {
            App { backstage: Some(Backstage { in_settings: true, ..bs }), ..pre }
        } else {
            pre
        },
        _ => post == pre,
    }
}

/// A key of the backstage's settings: Up and Down move, Space and Enter toggle,
/// Left and Esc go back to the menu.
pub open spec fn settings_keyed(pre: App, post: App, bs: Backstage, code: KeyCode) -> bool {
    match code {
        KeyCode::Esc | KeyCode::Left => post == (App {
            backstage: Some(Backstage { in_settings: false, ..bs }),
            ..pre
        }),
        KeyCode::Up => post == (App {
            backstage: Some(
                Backstage {
                    settings_sel: ui::clamp_index(bs.settings_sel as int, -1, 2) as usize,
                    ..bs
                },
            ),
            ..pre
        }),
        KeyCode::Down => post == (App {
            backstage: Some(
                Backstage {
                    settings_sel: ui::clamp_index(bs.settings_sel as int, 1, 2) as usize,
                    ..bs
                },
            ),
            ..pre
        }),
        KeyCode::Enter | KeyCode::Char(' ') => if bs.settings_sel == 0 {
            triage::threading_toggled(pre, post)
        } else {
            post == (App { reminders_notify: !pre.reminders_notify, ..pre })
        },
        _ => post == pre,
    }
}

pub open spec fn backstage_keyed(pre: App, post: App, code: KeyCode) -> bool {
    match pre.backstage {
        Some(bs) => if bs.in_settings {
            settings_keyed(pre, post, bs, code)
        } else {
            menu_keyed(pre, post, bs, code)
        },
        None => post == pre,
    }
}

impl App {
    /// Opens the File backstage.
    pub fn open_backstage(&mut self)
        ensures
            *final(self) == (App {
                backstage: Some(Backstage { sel: 0, in_settings: false, settings_sel: 0 }),
                ..*old(self)
            }),
            old(self).rows_in_step() ==> final(self).rows_in_step(),
    {
        self.backstage = Some(Backstage::new());
    }

    fn menu_key(&mut self, bs: Backstage, code: KeyCode)
        requires
            old(self).backstage == Some(bs),
        ensures
            menu_keyed(*old(self), *final(self), bs, code),
            old(self).rows_in_step() ==> final(self).rows_in_step(),
    {
        match code {
            KeyCode::Esc => {
                self.backstage = None;
            },
            KeyCode::Up => {
                let sel: usize = ui::clamped(bs.sel, -1, backstage::ITEMS);
                self.backstage = Some(Backstage { sel, ..bs });
            },
            KeyCode::Down => {
                let sel: usize = ui::clamped(bs.sel, 1, backstage::ITEMS);
                self.backstage = Some(Backstage { sel, ..bs });
            },
            KeyCode::Enter => match bs.selected_item() {
                Item::AutoReplies => {
                    self.backstage = None;
                    self.open_oof_form();
                },
                Item::Settings => {
                    self.backstage = Some(Backstage { in_settings: true, ..bs });
                },
                Item::Exit => {
                    self.quit = true;
                },
            },
            KeyCode::Right => {
                if bs.selected_item() == Item::Settings {
                    self.backstage = Some(Backstage { in_settings: true, ..bs });
                }
            },
            _ => {},
        }
    }

    fn settings_key(&mut self, bs: Backstage, code: KeyCode)
        requires
            old(self).backstage == Some(bs),
        ensures
            settings_keyed(*old(self), *final(self), bs, code),
            old(self).rows_in_step() ==> final(self).rows_in_step(),
    {
        match code {
            KeyCode::Esc | KeyCode::Left => {
                self.backstage = Some(Backstage { in_settings: false, ..bs });
            },
            KeyCode::Up => {
                let row: usize = ui::clamped(bs.settings_sel, -1, backstage::SETTINGS_ROWS);
                self.backstage = Some(Backstage { settings_sel: row, ..bs });
            },
            KeyCode::Down => {
                let row: usize = ui::clamped(bs.settings_sel, 1, backstage::SETTINGS_ROWS);
                self.backstage = Some(Backstage { settings_sel: row, ..bs });
            },
            KeyCode::Enter | KeyCode::Char(' ') => {
                if bs.settings_sel == 0 {
                    self.toggle_threaded();
                } else {
                    self.reminders_notify = !self.reminders_notify;
                }
            },
            _ => {},
        }
    }

    /// A key, while the backstage is open.
    pub fn backstage_key(&mut self, code: KeyCode)
        ensures
            backstage_keyed(*old(self), *final(self), code),
            old(self).rows_in_step() ==> final(self).rows_in_step(),
    {
        if let Some(bs) = self.backstage {
            if bs.in_settings {
                self.settings_key(bs, code);
            } else {
                self.menu_key(bs, code);
            }
        }
    }
}

// ---------------------------------------------------------------------------
// Links
// ---------------------------------------------------------------------------

/// The next link of the body, or the previous one, wrapping; the first, or the
/// last, where none is focused.
pub open spec fn link_after(focused: Option<usize>, delta: int, n: int) -> int {
    match focused {
        Some(i) => ui::wrap_index(i as int, delta, n),
        None => if delta < 0 {
            n - 1
        } else {
            0
        },
    }
}

pub open spec fn link_focused(pre: App, post: App, delta: int) -> bool {
    let n = pre.body_links@.len() as int;
    post == if n == 0 {
        pre
    } else {
        App { focused_link: Some(link_after(pre.focused_link, delta, n) as usize), ..pre }
    }
}

/// The dialog asks whether to follow the focused link.
pub open spec fn link_asked(pre: App, post: App) -> bool {
    match pre.focused_link {
        Some(i) => if i < pre.body_links@.len() {
            post == (App {
                link_prompt: Some(
                    LinkPrompt { url: pre.body_links@[i as int].url, parsed: false },
                ),
                ..pre
            })
        } else {
            post == pre
        },
        None => post == pre,
    }
}

/// A key of the link dialog: Enter opens the link if it is safe to, `p` shows
/// its parts, Esc closes.
pub open spec fn link_keyed(pre: App, post: App, code: KeyCode) -> bool {
    match pre.link_prompt {
        None => post == pre,
        Some(p) => match code {
            KeyCode::Esc => post == (App { link_prompt: None, ..pre }),
            KeyCode::Char('p') => post == (App {
                link_prompt: Some(LinkPrompt { parsed: !p.parsed, ..p }),
                ..pre
            }),
            KeyCode::Enter => if linkprompt::is_safe(p.url@) {
                app::emitted(
                    App { link_prompt: None, ..pre },
                    post,
                    seq![Action::OpenUrl(p.url)],
                )
            } else {
                post == (App { link_prompt: None, ..pre })
            },
            _ => post == pre,
        },
    }
}

impl App {
    /// Focuses the next link of the body, or the previous one.
    pub fn focus_link(&mut self, delta: isize)
        ensures
            link_focused(*old(self), *final(self), delta as int),
            old(self).rows_in_step() ==> final(self).rows_in_step(),
    {
        let n = self.body_links.len();
        if n == 0 {
            return;
        }
        let i: usize = match self.focused_link {
            Some(i) => ui::wrapped(i, delta, n),
            None => {
                if delta < 0 {
                    n - 1
                } else {
                    0
                }
            },
        };
        self.focused_link = Some(i);
    }

    /// Asks whether to follow the focused link.
    pub fn open_focused_link(&mut self)
        ensures
            link_asked(*old(self), *final(self)),
            old(self).rows_in_step() ==> final(self).rows_in_step(),
    {
        if let Some(i) = self.focused_link {
            if i < self.body_links.len() {
                let url = self.body_links[i].url.clone();
                self.link_prompt = Some(LinkPrompt { url, parsed: false });
            }
        }
    }

    /// A key, while the link dialog is open.
    pub fn link_prompt_key(&mut self, code: KeyCode)
        ensures
            link_keyed(*old(self), *final(self), code),
            old(self).rows_in_step() ==> final(self).rows_in_step(),
    {
        match code {
            KeyCode::Esc => {
                self.link_prompt = None;
            },
            KeyCode::Char('p') => {
                if let Some(p) = &mut self.link_prompt {
                    p.parsed = !p.parsed;
                }
            },
            KeyCode::Enter => {
                if let Some(p) = self.link_prompt.take() {
                    if linkprompt::safe_url(p.url.as_str()) {
                        self.emit(Action::OpenUrl(p.url));
                    }
                }
            },
            _ => {},
        }
    }
}

/// The dialog opens no link but one that is safe to, and none without Enter.
pub proof fn links_open_only_when_asked(pre: App, post: App, code: KeyCode)
    requires
        link_keyed(pre, post, code),
        post.actions@ != pre.actions@,
    ensures
        code == KeyCode::Enter,
        pre.link_prompt matches Some(p) && linkprompt::is_safe(p.url@) && post.actions@
            == pre.actions@.push(Action::OpenUrl(p.url)),
{
    if let Some(p) = pre.link_prompt {
        assert(pre.actions@ + seq![Action::OpenUrl(p.url)] =~= pre.actions@.push(
            Action::OpenUrl(p.url),
        ));
    }
}

/// Opening the ribbon and closing it changes nothing.
pub proof fn the_ribbon_closes_as_it_opened(a: App)
    requires
        a.ribbon_focus == Focus::Off,
        !a.ribbon_open,
    ensures
        ribbon_toggled(ribbon_toggled(a)) == a,
{
}

}
