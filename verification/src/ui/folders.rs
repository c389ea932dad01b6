//! The folder-tree pane: one row per visible folder, with its unread count.

use crate::text;
use crate::ui::foldertree::VisibleFolder;
use crate::ui::style;
use crate::ui::style::{Color, Line, Shown, Style};
use crate::ui::width;
use vstd::prelude::*;

verus! {

/// Expanded, collapsed, or blank for a leaf, so that names stay aligned.
pub open spec fn chevron(has_children: bool, expanded: bool) -> char {
    if !has_children {
        ' '
    } else if expanded {
        '\u{25be}'
    } else {
        '\u{25b8}'
    }
}

/// The folder's name, two columns further in per level, behind its chevron.
pub open spec fn label(v: VisibleFolder) -> Seq<char> {
    text::spaces(2 * v.depth) + seq![chevron(v.has_children, v.expanded)] + " "@
        + v.row.display_name@
}

/// `a` less `b`, or nothing.
pub open spec fn less(a: int, b: int) -> int {
    if a > b {
        a - b
    } else {
        0
    }
}

/// The style of an unread count.
pub open spec fn count_style() -> Style {
    Style { fg: Some(Color::Blue), bold: true, ..style::plain_style() }
}

/// The columns that a text takes; none where there is none.
pub open spec fn columns(s: Seq<char>) -> int {
    if s.len() == 0 {
        0
    } else {
        width::text_width(s) as int
    }
}

/// `s`, without as many characters at its end as it takes to fit into `room`
/// columns.
pub open spec fn shortened(s: Seq<char>, room: int) -> Seq<char>
    decreases s.len(),
{
    if s.len() == 0 || columns(s) <= room {
        s
    } else {
        shortened(s.drop_last(), room)
    }
}

/// As much of `s` as fits into `room` columns.
pub open spec fn cut(s: Seq<char>, room: int) -> Seq<char> {
    shortened(width::truncated(s, room), room)
}

/// The label, cut to leave room for the count and a column before it.
pub open spec fn cut_label(v: VisibleFolder, width: int) -> Seq<char> {
    let count = text::integer(v.row.unread_count as int);
    cut(label(v), less(width, columns(count) + 1))
}

/// What a folder's row shows within `width` columns: its label, cut to leave a
/// column free, and the unread count at the right edge; the label alone where
/// nothing is unread.
pub open spec fn row_of(v: VisibleFolder, width: int) -> Seq<Shown> {
    if v.row.unread_count == 0 {
        seq![style::shown(label(v), style::plain_style())]
    } else {
        let count = text::integer(v.row.unread_count as int);
        let left = cut_label(v, width);
        let pad = less(width, columns(left) + columns(count));
        seq![
            style::shown(left + text::spaces(pad), style::plain_style()),
            style::shown(count, count_style()),
        ]
    }
}

fn columns_of(s: &str) -> (r: usize)
    ensures
        r == columns(s@),
{
    if text::chars_of(s).len() == 0 {
        0
    } else {
        width::measure(s)
    }
}

fn cut_to(s: &str, room: usize) -> (r: String)
    ensures
        r@ == cut(s@, room as int),
{
    let mut t = width::truncate_width(s, room);
    let ghost whole = t@;
    let mut n: usize = text::chars_of(t.as_str()).len();
    while n > 0
        invariant
            n == t@.len(),
            shortened(whole, room as int) == shortened(t@, room as int),
        ensures
            t@ == shortened(whole, room as int),
        decreases n,
    {
        if columns_of(t.as_str()) <= room {
            break;
        }
        t = text::without_last(t.as_str());
        n -= 1;
    }
    t
}

fn label_of(v: &VisibleFolder) -> (r: String)
    ensures
        r@ == label(*v),
{
    let mut s: String = String::new();
    let mut i: usize = 0;
    assert(s@ =~= text::spaces(0));
    while i < v.depth
        invariant
            i <= v.depth,
            s@ == text::spaces(2 * i),
        decreases v.depth - i,
    {
        s.push(' ');
        s.push(' ');
        i += 1;
        assert(s@ =~= text::spaces(2 * i));
    }
    s.push(
        if !v.has_children {
            ' '
        } else if v.expanded {
            '\u{25be}'
        } else {
            '\u{25b8}'
        },
    );
    s.append(" ");
    s.append(v.row.display_name.as_str());
    assert(s@ =~= label(*v));
    s
}

/// A folder's row within `inner_width` columns.
pub fn folder_line(v: &VisibleFolder, inner_width: usize) -> (r: Line)
    ensures
        r@ == row_of(*v, inner_width as int),
{
    let full = label_of(v);
    if v.row.unread_count == 0 {
        return Line::plain(full);
    }
    let mut count: String = String::new();
    text::push_integer(&mut count, v.row.unread_count as i128);
    assert(count@ =~= text::integer(v.row.unread_count as int));
    let n = columns_of(count.as_str());
    let budget: usize = if inner_width > n {
        inner_width - n - 1
    } else {
        0
    };
    let mut left = cut_to(full.as_str(), budget);
    let taken = columns_of(left.as_str());
    let pad: usize = if inner_width > taken && inner_width - taken > n {
        inner_width - taken - n
    } else {
        0
    };
    text::push_spaces(&mut left, pad);
    let mut bold = Style::plain();
    bold.fg = Some(Color::Blue);
    bold.bold = true;
    let mut line = Line::plain(left);
    line.push(count, bold);
    assert(line@ =~= row_of(*v, inner_width as int));
    line
}

proof fn lemma_shortened(s: Seq<char>, room: int)
    requires
        room >= 0,
    ensures
        columns(shortened(s, room)) <= room,
    decreases s.len(),
{
    if s.len() > 0 && columns(s) > room {
        lemma_shortened(s.drop_last(), room);
    }
}

/// Where something is unread, the label, the blank columns behind it and the count
/// together take every column of the pane, with the count at its right edge and a
/// blank before it; at least where the pane has room for the count and a column
/// more.
pub proof fn counts_stand_at_the_right_edge(v: VisibleFolder, width: int)
    requires
        v.row.unread_count != 0,
        width > columns(text::integer(v.row.unread_count as int)),
    ensures
        ({
            let row = row_of(v, width);
            let left = cut_label(v, width);
            let blank = row[0].text.len() - left.len();
            &&& row.len() == 2
            &&& row[0].text == left + text::spaces(blank)
            &&& row[1].text == text::integer(v.row.unread_count as int)
            &&& columns(left) + blank + columns(row[1].text) == width
            &&& blank >= 1
        }),
{
    let count = text::integer(v.row.unread_count as int);
    let room = less(width, columns(count) + 1);
    lemma_shortened(width::truncated(label(v), room), room);
}

}
