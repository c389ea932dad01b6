//! The help overlay: a cheat-sheet of every key, grouped by where it is pressed.

use crate::text;
use crate::ui::style;
use crate::ui::style::{Line, Shown, Style};
use vstd::prelude::*;

verus! {

/// Keys, and what they do.
pub type Entry = (&'static str, &'static str);

/// How many groups there are.
pub const GROUPS: usize = 7;

pub open spec fn title_of(group: int) -> &'static str {
    if group == 0 {
        "Global"
    } else if group == 1 {
        "Folders"
    } else if group == 2 {
        "Message list"
    } else if group == 3 {
        "Reading"
    } else if group == 4 {
        "Calendar"
    } else if group == 5 {
        "Event form"
    } else {
        "Compose"
    }
}

/// The entries of a group.
pub open spec fn entries_of(group: int) -> Seq<Entry> {
    if group == 0 {
        seq![
            ("Tab / Shift-Tab", "cycle panes forward / back"),
            ("\u{2190} / h / Esc", "back toward the folder list"),
            ("g", "toggle Mail / Calendar"),
            ("/", "search"),
            ("F1 / ?", "this help"),
            ("q", "quit"),
        ]
    } else if group == 1 {
        seq![
            ("j / k", "move"),
            ("\u{2192} / l", "expand"),
            ("\u{2190} / h", "collapse / parent"),
            ("Space", "toggle"),
            ("Enter", "open folder"),
        ]
    } else if group == 2 {
        seq![
            ("j / k", "move"),
            ("Enter", "open"),
            ("m / u", "mark read / unread"),
            ("f", "flag"),
            ("d / Del", "delete"),
            ("v", "move to folder"),
            ("a", "attachments"),
            ("l / L", "categorize / filter"),
            ("t", "threaded view"),
            ("c", "compose"),
            ("r / R", "reply / reply-all"),
            ("F", "forward"),
            ("A / D / T", "RSVP accept / decline / tentative"),
            ("O", "out-of-office"),
        ]
    } else if group == 3 {
        seq![
            ("j / k", "scroll"),
            ("PgUp / PgDn", "page"),
            ("Home / End", "top / bottom"),
            ("Esc / \u{2190}", "back to list"),
        ]
    } else if group == 4 {
        seq![
            ("j / k", "move"),
            ("c / e / x", "new / edit / delete"),
            ("a / d / t", "RSVP"),
            ("O", "out-of-office"),
            ("g / Esc", "back to Mail"),
        ]
    } else if group == 5 {
        seq![
            ("Tab", "next field"),
            ("Space", "all-day"),
            ("Ctrl-B", "free/busy"),
            ("Ctrl-Enter", "save"),
            ("Esc", "cancel"),
        ]
    } else {
        seq![
            ("Ctrl-Enter", "send"),
            ("Esc", "cancel"),
        ]
    }
}

fn title(group: usize) -> (r: &'static str)
    ensures
        r == title_of(group as int),
{
    match group {
        0 => "Global",
        1 => "Folders",
        2 => "Message list",
        3 => "Reading",
        4 => "Calendar",
        5 => "Event form",
        _ => "Compose",
    }
}

fn entries(group: usize) -> (r: Vec<Entry>)
    ensures
        r@ == entries_of(group as int),
{
    let r: Vec<Entry> = match group {
        0 => vec![
            ("Tab / Shift-Tab", "cycle panes forward / back"),
            ("\u{2190} / h / Esc", "back toward the folder list"),
            ("g", "toggle Mail / Calendar"),
            ("/", "search"),
            ("F1 / ?", "this help"),
            ("q", "quit"),
        ],
        1 => vec![
            ("j / k", "move"),
            ("\u{2192} / l", "expand"),
            ("\u{2190} / h", "collapse / parent"),
            ("Space", "toggle"),
            ("Enter", "open folder"),
        ],
        2 => vec![
            ("j / k", "move"),
            ("Enter", "open"),
            ("m / u", "mark read / unread"),
            ("f", "flag"),
            ("d / Del", "delete"),
            ("v", "move to folder"),
            ("a", "attachments"),
            ("l / L", "categorize / filter"),
            ("t", "threaded view"),
            ("c", "compose"),
            ("r / R", "reply / reply-all"),
            ("F", "forward"),
            ("A / D / T", "RSVP accept / decline / tentative"),
            ("O", "out-of-office"),
        ],
        3 => vec![
            ("j / k", "scroll"),
            ("PgUp / PgDn", "page"),
            ("Home / End", "top / bottom"),
            ("Esc / \u{2190}", "back to list"),
        ],
        4 => vec![
            ("j / k", "move"),
            ("c / e / x", "new / edit / delete"),
            ("a / d / t", "RSVP"),
            ("O", "out-of-office"),
            ("g / Esc", "back to Mail"),
        ],
        5 => vec![
            ("Tab", "next field"),
            ("Space", "all-day"),
            ("Ctrl-B", "free/busy"),
            ("Ctrl-Enter", "save"),
            ("Esc", "cancel"),
        ],
        _ => vec![
            ("Ctrl-Enter", "send"),
            ("Esc", "cancel"),
        ],
    };
    assert(r@ =~= entries_of(group as int));
    r
}

/// The keys, in a column of at least 16, and what they do.
pub open spec fn entry_text(e: Entry) -> Seq<char> {
    "  "@ + e.0@ + text::spaces(16 - e.0@.len()) + " "@ + e.1@
}

fn entry_line(e: Entry) -> (r: Line)
    ensures
        r@ == seq![style::shown(entry_text(e), style::plain_style())],
{
    let n: usize = text::chars_of(e.0).len();
    let mut s: String = "  ".to_string();
    s.append(e.0);
    let pad: usize = if n < 16 {
        16 - n
    } else {
        0
    };
    text::push_spaces(&mut s, pad);
    s.append(" ");
    s.append(e.1);
    assert(s@ =~= entry_text(e));
    Line::plain(s)
}

/// A title is bold and underlined.
pub open spec fn title_style() -> Style {
    Style { bold: true, underlined: true, ..style::plain_style() }
}

/// The first `n` entries of a group.
pub open spec fn entry_rows(v: Seq<Entry>, n: int) -> Seq<Seq<Shown>>
    decreases n,
{
    if n <= 0 {
        Seq::empty()
    } else {
        entry_rows(v, n - 1).push(seq![style::shown(entry_text(v[n - 1]), style::plain_style())])
    }
}

/// A group: its title, and below it its entries.
pub open spec fn group_rows(group: int) -> Seq<Seq<Shown>> {
    seq![seq![style::shown(title_of(group)@, title_style())]] + entry_rows(
        entries_of(group),
        entries_of(group).len() as int,
    )
}

/// The first `n` groups, with an empty row between them.
pub open spec fn help_rows(n: int) -> Seq<Seq<Shown>>
    decreases n,
{
    if n <= 0 {
        Seq::empty()
    } else if n == 1 {
        group_rows(0)
    } else {
        help_rows(n - 1).push(seq![style::shown(""@, style::plain_style())]) + group_rows(n - 1)
    }
}

fn push_entries(out: &mut Vec<Line>, v: &Vec<Entry>)
    ensures
        style::shown_lines(final(out)@) == style::shown_lines(old(out)@) + entry_rows(
            v@,
            v@.len() as int,
        ),
{
    let ghost before = style::shown_lines(out@);
    let mut i: usize = 0;
    assert(before =~= before + entry_rows(v@, 0));
    while i < v.len()
        invariant
            i <= v@.len(),
            style::shown_lines(out@) == before + entry_rows(v@, i as int),
        decreases v@.len() - i,
    {
        let ghost so_far = out@;
        out.push(entry_line(v[i]));
        i += 1;
        assert(style::shown_lines(out@) =~= style::shown_lines(so_far).push(out@.last()@));
        assert(style::shown_lines(out@) =~= before + entry_rows(v@, i as int));
    }
}

/// The rows of the help.
pub fn help_lines() -> (r: Vec<Line>)
    ensures
        style::shown_lines(r@) == help_rows(7),
{
    let mut out: Vec<Line> = Vec::new();
    let mut g: usize = 0;
    assert(style::shown_lines(out@) =~= help_rows(0));
    while g < GROUPS
        invariant
            g <= 7,
            style::shown_lines(out@) == help_rows(g as int),
            g > 0 ==> out@.len() > 0,
        decreases 7 - g,
    {
        let ghost before = style::shown_lines(out@);
        if g > 0 {
            let ghost so_far = out@;
            out.push(Line::plain("".to_string()));
            assert(style::shown_lines(out@) =~= style::shown_lines(so_far).push(out@.last()@));
        }
        let ghost spaced = out@;
        let mut st = Style::plain();
        st.bold = true;
        st.underlined = true;
        out.push(Line::single(title(g).to_string(), st));
        assert(style::shown_lines(out@) =~= style::shown_lines(spaced).push(out@.last()@));
        let ghost titled = style::shown_lines(out@);
        push_entries(&mut out, &entries(g));
        let ghost es = entry_rows(entries_of(g as int), entries_of(g as int).len() as int);
        assert(style::shown_lines(out@) == titled + es);
        assert(titled + es =~= style::shown_lines(spaced) + group_rows(g as int));
        g += 1;
        assert(style::shown_lines(out@) =~= help_rows(g as int));
        assert(out@.len() == style::shown_lines(out@).len());
        assert(group_rows(g - 1).len() > 0);
    }
    out
}

}
