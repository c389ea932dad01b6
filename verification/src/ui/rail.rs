//! The level-0 rail: a narrow column with two labels, Mail and Calendar, the
//! active section highlighted.

use crate::app::Mode;
use crate::text;
use crate::ui::style;
use crate::ui::style::{Color, Line, Style};
use vstd::prelude::*;

verus! {

/// Width of the rail column (2 border cells and a 3-wide label cell).
pub const WIDTH: u16 = 5;

/// `label`, `w` columns wide, in the middle of `inner` columns; where the room
/// is odd, one column closer to the left. A label that is too wide stands alone.
pub open spec fn in_the_middle(label: Seq<char>, w: int, inner: int) -> Seq<char> {
    let pad = if inner > w {
        inner - w
    } else {
        0
    };
    text::spaces(pad / 2) + label + text::spaces(pad - pad / 2)
}

/// Centers `label`, of display width `w`, within the `inner` columns.
pub fn centered(label: &str, w: usize, inner: usize) -> (r: String)
    ensures
        r@ == in_the_middle(label@, w as int, inner as int),
{
    let pad: usize = if inner > w {
        inner - w
    } else {
        0
    };
    let mut s: String = String::new();
    text::push_spaces(&mut s, pad / 2);
    s.append(label);
    text::push_spaces(&mut s, pad - pad / 2);
    assert(s@ =~= in_the_middle(label@, w as int, inner as int));
    s
}

/// The style of a section: bold, reversed and blue where it is active.
pub open spec fn section_style(active: bool) -> Style {
    if active {
        Style { fg: Some(Color::Blue), bold: true, reversed: true, ..style::plain_style() }
    } else {
        Style { dim: true, ..style::plain_style() }
    }
}

fn style_of(active: bool) -> (r: Style)
    ensures
        r == section_style(active),
{
    let mut s = Style::plain();
    if active {
        s.fg = Some(Color::Blue);
        s.bold = true;
        s.reversed = true;
    } else {
        s.dim = true;
    }
    s
}

/// The rail's two rows, within `inner` columns.
pub fn rail_lines(mode: Mode, inner: usize) -> (r: (Line, Line))
    ensures
        r.0@ == seq![
            style::shown(in_the_middle("M"@, 1, inner as int), section_style(mode == Mode::Mail)),
        ],
        r.1@ == seq![
            style::shown(
                in_the_middle("\u{1f4c5}"@, 2, inner as int),
                section_style(mode == Mode::Calendar),
            ),
        ],
{
    (
        Line::single(centered("M", 1, inner), style_of(mode == Mode::Mail)),
        Line::single(centered("\u{1f4c5}", 2, inner), style_of(mode == Mode::Calendar)),
    )
}

/// What is centered fills the column, where it fits.
pub proof fn centered_labels_fill_the_column(label: Seq<char>, w: int, inner: int)
    requires
        0 <= w <= inner,
    ensures
        in_the_middle(label, w, inner).len() == label.len() + (inner - w),
{
}

}
