//! The category picker overlay: one popup, two modes. Assign mode toggles
//! categories on the highlighted message and applies them; Filter mode picks
//! one category to filter the folder view by.

use crate::ui;
use crate::ui::style;
use crate::ui::style::{Color, Line, Shown, Style};
use vstd::prelude::*;

verus! {

#[derive(Debug, Clone, Copy, PartialEq, Eq, Structural)]
pub enum PickerMode {
    Assign,
    Filter,
}

#[derive(Debug, PartialEq, Eq)]
pub struct CategoryItem {
    pub name: String,
    pub color: Color,
    pub selected: bool,
}

#[derive(Debug, PartialEq, Eq)]
pub struct CategoryPicker {
    pub mode: PickerMode,
    /// The message being edited, in Assign mode; `None` in Filter mode.
    pub message_id: Option<String>,
    pub items: Vec<CategoryItem>,
    pub index: usize,
}

pub open spec fn title_of(mode: PickerMode) -> Seq<char> {
    match mode {
        PickerMode::Assign => "Categories (Space: toggle, Enter: apply, Esc: cancel)"@,
        PickerMode::Filter => "Filter by category (Enter: apply, Esc: cancel)"@,
    }
}

/// The popup's title.
pub fn title(mode: PickerMode) -> (r: &'static str)
    ensures
        r@ == title_of(mode),
{
    match mode {
        PickerMode::Assign => "Categories (Space: toggle, Enter: apply, Esc: cancel)",
        PickerMode::Filter => "Filter by category (Enter: apply, Esc: cancel)",
    }
}

/// Whether a category is chosen, where one can choose several.
pub open spec fn mark_of(mode: PickerMode, selected: bool) -> Seq<char> {
    match mode {
        PickerMode::Assign => if selected {
            "[x] "@
        } else {
            "[ ] "@
        },
        PickerMode::Filter => ""@,
    }
}

/// A category's row: its mark, a dot in its color, its name.
pub open spec fn item_row(mode: PickerMode, it: CategoryItem) -> Seq<Shown> {
    seq![
        style::shown(mark_of(mode, it.selected), style::plain_style()),
        style::shown("\u{25cf} "@, Style { fg: Some(it.color), ..style::plain_style() }),
        style::shown(it.name@, style::plain_style()),
    ]
}

/// What the popup lists.
pub open spec fn picker_rows(p: CategoryPicker) -> Seq<Seq<Shown>> {
    if p.items@.len() == 0 {
        seq![
            seq![
                style::shown(
                    "(no categories \u{2014} define them in Outlook)"@,
                    style::plain_style(),
                ),
            ],
        ]
    } else {
        p.items@.map_values(|it: CategoryItem| item_row(p.mode, it))
    }
}

fn item_line(mode: PickerMode, it: &CategoryItem) -> (r: Line)
    ensures
        r@ == item_row(mode, *it),
{
    let mark: &'static str = match mode {
        PickerMode::Assign => {
            if it.selected {
                "[x] "
            } else {
                "[ ] "
            }
        },
        PickerMode::Filter => "",
    };
    let mut line = Line::plain(mark.to_string());
    let mut dot = Style::plain();
    dot.fg = Some(it.color);
    line.push("\u{25cf} ".to_string(), dot);
    line.push(it.name.clone(), Style::plain());
    assert(line@ =~= item_row(mode, *it));
    line
}

/// The rows of the popup.
pub fn picker_lines(p: &CategoryPicker) -> (r: Vec<Line>)
    ensures
        style::shown_lines(r@) == picker_rows(*p),
{
    let mut out: Vec<Line> = Vec::new();
    if p.items.len() == 0 {
        out.push(
            Line::plain("(no categories \u{2014} define them in Outlook)".to_string()),
        );
        assert(style::shown_lines(out@) =~= picker_rows(*p));
        return out;
    }
    let mut i: usize = 0;
    while i < p.items.len()
        invariant
            i <= p.items@.len(),
            p.items@.len() > 0,
            style::shown_lines(out@) =~= picker_rows(*p).take(i as int),
        decreases p.items@.len() - i,
    {
        let ghost before = out@;
        out.push(item_line(p.mode, &p.items[i]));
        i += 1;
        assert(style::shown_lines(out@) =~= style::shown_lines(before).push(out@.last()@));
        assert(style::shown_lines(out@) =~= picker_rows(*p).take(i as int));
    }
    assert(picker_rows(*p).take(i as int) =~= picker_rows(*p));
    out
}

/// Which row is highlighted.
pub fn highlighted(p: &CategoryPicker) -> (r: Option<usize>)
    ensures
        r == (if p.items@.len() > 0 {
            Some(ui::into_range(p.index as int, p.items@.len() as int) as usize)
        } else {
            None
        }),
{
    if p.items.len() > 0 {
        Some(ui::in_range(p.index, p.items.len()))
    } else {
        None
    }
}

}
