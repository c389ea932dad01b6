//! The File "backstage": a full-screen menu (Automatic Replies / Settings /
//! Exit) and a content pane that shows the Settings toggles when Settings is
//! selected.

use crate::model;
use vstd::prelude::*;

verus! {

/// The vertical menu items, in display order.
#[derive(Debug, Clone, Copy, PartialEq, Eq, Structural)]
pub enum Item {
    AutoReplies,
    Settings,
    Exit,
}

/// How many menu items there are.
pub const ITEMS: usize = 3;

/// The two toggle rows shown under Settings.
pub const SETTINGS_ROWS: usize = 2;

pub open spec fn item_at(i: int) -> Item {
    if i == 0 {
        Item::AutoReplies
    } else if i == 1 {
        Item::Settings
    } else {
        Item::Exit
    }
}

pub open spec fn item_label(it: Item) -> Seq<char> {
    match it {
        Item::AutoReplies => "Automatic Replies"@,
        Item::Settings => "Settings"@,
        Item::Exit => "Exit"@,
    }
}

impl Item {
    pub fn label(self) -> (r: &'static str)
        ensures
            r@ == item_label(self),
    {
        match self {
            Item::AutoReplies => "Automatic Replies",
            Item::Settings => "Settings",
            Item::Exit => "Exit",
        }
    }
}

/// Backstage state: which menu item is highlighted, whether focus has moved
/// into the Settings toggles, and which toggle row.
#[derive(Debug, Clone, Copy, PartialEq, Eq, Structural)]
pub struct Backstage {
    pub sel: usize,
    pub in_settings: bool,
    pub settings_sel: usize,
}

impl Backstage {
    pub fn new() -> (r: Self)
        ensures
            r == (Backstage { sel: 0, in_settings: false, settings_sel: 0 }),
    {
        Backstage { sel: 0, in_settings: false, settings_sel: 0 }
    }

    /// The highlighted item; the last one where the cursor lies past the end.
    pub fn selected_item(&self) -> (r: Item)
        ensures
            r == item_at(self.sel as int),
    {
        match self.sel {
            0 => Item::AutoReplies,
            1 => Item::Settings,
            _ => Item::Exit,
        }
    }
}

impl Default for Backstage {
    fn default() -> (r: Self)
        ensures
            r == (Backstage { sel: 0, in_settings: false, settings_sel: 0 }),
    {
        Self::new()
    }
}

pub open spec fn toggle_row(on: bool, label: Seq<char>) -> Seq<char> {
    "  "@ + (if on {
        "[x]"@
    } else {
        "[ ]"@
    }) + " "@ + label
}

/// What the content pane shows for the highlighted item.
pub open spec fn content_of(bs: Backstage, threaded: bool, notify: bool) -> Seq<Seq<char>> {
    match item_at(bs.sel as int) {
        Item::AutoReplies => seq![
            "Automatic Replies (Out-of-Office)"@,
            ""@,
            "Enter to open the editor."@,
        ],
        Item::Settings => seq![
            "Settings"@,
            ""@,
            toggle_row(threaded, "Threaded conversation view"@),
            toggle_row(notify, "Reminder desktop notifications"@),
            ""@,
            "Enter/\u{2192} to edit, Space/Enter to toggle, \u{2190}/Esc to go back."@,
        ],
        Item::Exit => seq!["Exit lookxy"@, ""@, "Enter to quit."@],
    }
}

fn toggle_text(on: bool, label: &str) -> (r: String)
    ensures
        r@ == toggle_row(on, label@),
{
    let mut s: String = "  ".to_string();
    if on {
        s.append("[x]");
    } else {
        s.append("[ ]");
    }
    s.append(" ");
    s.append(label);
    s
}

/// What the content pane shows for the highlighted item.
pub fn content(bs: &Backstage, threaded: bool, notify: bool) -> (r: Vec<String>)
    ensures
        model::texts(r@) == content_of(*bs, threaded, notify),
{
    let mut out: Vec<String> = Vec::new();
    match bs.selected_item() {
        Item::AutoReplies => {
            out.push("Automatic Replies (Out-of-Office)".to_string());
            out.push("".to_string());
            out.push("Enter to open the editor.".to_string());
        },
        Item::Settings => {
            out.push("Settings".to_string());
            out.push("".to_string());
            out.push(toggle_text(threaded, "Threaded conversation view"));
            out.push(toggle_text(notify, "Reminder desktop notifications"));
            out.push("".to_string());
            out.push(
                "Enter/\u{2192} to edit, Space/Enter to toggle, \u{2190}/Esc to go back.".to_string(),
            );
        },
        Item::Exit => {
            out.push("Exit lookxy".to_string());
            out.push("".to_string());
            out.push("Enter to quit.".to_string());
        },
    }
    assert(model::texts(out@) =~= content_of(*bs, threaded, notify));
    out
}

}
