//! The message-list pane: the rows of the flat list, and the headers and
//! messages of the conversations.

use crate::app::folders;
use crate::app::{App, Row, ThreadView};
use crate::model;
use crate::model::{MessageRow, Thread};
use crate::text;
use crate::ui::style;
use crate::ui::style::{Line, Shown, Style};
use crate::ui::width;
use vstd::prelude::*;

verus! {

/// A time stamp as `MM-DD HH:MM`, or as it stands where it has no such parts.
pub open spec fn brief(received_at: Seq<char>) -> Seq<char> {
    match (text::get(received_at, 5, 10), text::get(received_at, 11, 16)) {
        (Some(date), Some(time)) => date + " "@ + time,
        _ => received_at,
    }
}

/// Shortens a time stamp for the list.
pub fn short_time(received_at: &str) -> (r: String)
    ensures
        r@ == brief(received_at@),
{
    match (text::get_bytes(received_at, 5, 10), text::get_bytes(received_at, 11, 16)) {
        (Some(date), Some(time)) => {
            let mut s = date;
            s.append(" ");
            s.append(time.as_str());
            s
        },
        _ => received_at.to_string(),
    }
}

pub open spec fn flag_mark(on: bool) -> Seq<char> {
    if on {
        "!"@
    } else {
        " "@
    }
}

pub open spec fn attachment_mark(on: bool) -> Seq<char> {
    if on {
        "@"@
    } else {
        " "@
    }
}

/// Unread is bold.
pub open spec fn row_style(unread: bool) -> Style {
    Style { bold: unread, ..style::plain_style() }
}

/// A row of text, cut to `w` columns.
pub open spec fn fitted(s: Seq<char>, w: int, unread: bool) -> Seq<Shown> {
    seq![style::shown(width::truncated(s, w), row_style(unread))]
}

fn fit(s: &str, w: usize, unread: bool) -> (r: Line)
    ensures
        r@ == fitted(s@, w as int, unread),
{
    let mut st = Style::plain();
    st.bold = unread;
    Line::single(width::truncate_width(s, w), st)
}

fn push_marks(s: &mut String, flagged: bool, attached: bool)
    ensures
        final(s)@ == old(s)@ + flag_mark(flagged) + attachment_mark(attached),
{
    if flagged {
        s.append("!");
    } else {
        s.append(" ");
    }
    if attached {
        s.append("@");
    } else {
        s.append(" ");
    }
}

/// Markers, time, sender and subject.
pub open spec fn message_text(m: MessageRow) -> Seq<char> {
    flag_mark(m.is_flagged) + attachment_mark(m.has_attachments) + " "@ + brief(m.received_at@)
        + "  "@ + m.from_name@ + " \u{2014} "@ + m.subject@
}

/// One row of the flat list; unread messages are bold.
pub fn line(m: &MessageRow, w: usize) -> (r: Line)
    ensures
        r@ == fitted(message_text(*m), w as int, !m.is_read),
{
    let mut s: String = String::new();
    push_marks(&mut s, m.is_flagged, m.has_attachments);
    s.append(" ");
    s.append(short_time(m.received_at.as_str()).as_str());
    s.append("  ");
    s.append(m.from_name.as_str());
    s.append(" \u{2014} ");
    s.append(m.subject.as_str());
    assert(s@ =~= message_text(*m));
    fit(s.as_str(), w, !m.is_read)
}

/// A message of a conversation, further in under a header; where it has no
/// subject, its preview stands for it.
pub open spec fn child_text(m: MessageRow, indent: bool) -> Seq<char> {
    (if indent {
        "    "@
    } else {
        ""@
    }) + flag_mark(m.is_flagged) + attachment_mark(m.has_attachments) + " "@ + brief(m.received_at@)
        + "  "@ + m.from_name@ + " \u{2014} "@ + if m.subject@.len() == 0 {
        m.preview@
    } else {
        m.subject@
    }
}

/// A message's row in the conversation list.
pub fn child_line(m: &MessageRow, indent: bool, w: usize) -> (r: Line)
    ensures
        r@ == fitted(child_text(*m, indent), w as int, !m.is_read),
{
    let mut s: String = if indent {
        "    ".to_string()
    } else {
        "".to_string()
    };
    push_marks(&mut s, m.is_flagged, m.has_attachments);
    s.append(" ");
    s.append(short_time(m.received_at.as_str()).as_str());
    s.append("  ");
    s.append(m.from_name.as_str());
    s.append(" \u{2014} ");
    if text::chars_of(m.subject.as_str()).len() == 0 {
        s.append(m.preview.as_str());
    } else {
        s.append(m.subject.as_str());
    }
    assert(s@ =~= child_text(*m, indent));
    fit(s.as_str(), w, !m.is_read)
}

/// The first `n` texts, with `, ` between them.
pub open spec fn joined(v: Seq<Seq<char>>, n: int) -> Seq<char>
    decreases n,
{
    if n <= 0 {
        Seq::empty()
    } else if n == 1 {
        v[0]
    } else {
        joined(v, n - 1) + ", "@ + v[n - 1]
    }
}

fn join(v: &Vec<String>) -> (r: String)
    ensures
        r@ == joined(model::texts(v@), v@.len() as int),
{
    let ghost all = model::texts(v@);
    let mut s: String = String::new();
    let mut i: usize = 0;
    assert(s@ =~= joined(all, 0));
    while i < v.len()
        invariant
            i <= v@.len(),
            all == model::texts(v@),
            s@ == joined(all, i as int),
        decreases v@.len() - i,
    {
        let ghost before = s@;
        if i > 0 {
            s.append(", ");
        }
        s.append(v[i].as_str());
        assert(all[i as int] == v@[i as int]@);
        i += 1;
        assert(s@ =~= joined(all, i as int));
    }
    s
}

/// A conversation's header: chevron, markers, time, how many messages, who took
/// part, and the subject.
pub open spec fn header_text(t: Thread, expanded: bool) -> Seq<char> {
    (if expanded {
        "\u{25be}"@
    } else {
        "\u{25b8}"@
    }) + flag_mark(t.any_flagged) + attachment_mark(t.any_attachments) + " "@ + brief(
        t.latest_received@,
    ) + "  ("@ + text::integer(t.messages@.len() as int) + ") "@ + joined(
        model::texts(t.participants@),
        t.participants@.len() as int,
    ) + " \u{2014} "@ + t.subject@
}

/// A conversation's header row; bold while any of its messages is unread.
pub fn header_line(t: &Thread, expanded: bool, w: usize) -> (r: Line)
    ensures
        r@ == fitted(header_text(*t, expanded), w as int, t.unread_count > 0),
{
    let mut s: String = if expanded {
        "\u{25be}".to_string()
    } else {
        "\u{25b8}".to_string()
    };
    push_marks(&mut s, t.any_flagged, t.any_attachments);
    s.append(" ");
    s.append(short_time(t.latest_received.as_str()).as_str());
    s.append("  (");
    text::push_integer(&mut s, t.messages.len() as i128);
    s.append(") ");
    s.append(join(&t.participants).as_str());
    s.append(" \u{2014} ");
    s.append(t.subject.as_str());
    assert(s@ =~= header_text(*t, expanded));
    fit(s.as_str(), w, t.unread_count > 0)
}

/// What a row of the conversation list shows.
pub open spec fn thread_row(threads: Seq<ThreadView>, row: Row, w: int) -> Seq<Shown> {
    match row {
        Row::Header(t) => {
            let tv = threads[t as int];
            fitted(header_text(tv.thread, tv.expanded), w, tv.thread.unread_count > 0)
        },
        Row::Message(t, m) => {
            let tv = threads[t as int];
            let msg = tv.thread.messages@[m as int];
            fitted(child_text(msg, tv.thread.messages@.len() > 1), w, !msg.is_read)
        },
    }
}

/// The rows of the conversation list.
pub fn threaded_lines(app: &App, w: usize) -> (r: Vec<Line>)
    requires
        app.rows_in_step(),
    ensures
        r@.len() == app.visible_rows@.len(),
        forall|i: int|
            0 <= i < r@.len() ==> (#[trigger] r@[i])@ == thread_row(
                app.threads@,
                app.visible_rows@[i],
                w as int,
            ),
{
    let mut out: Vec<Line> = Vec::new();
    let mut i: usize = 0;
    while i < app.visible_rows.len()
        invariant
            i <= app.visible_rows@.len(),
            app.rows_in_step(),
            out@.len() == i,
            forall|k: int|
                0 <= k < i ==> (#[trigger] out@[k])@ == thread_row(
                    app.threads@,
                    app.visible_rows@[k],
                    w as int,
                ),
        decreases app.visible_rows@.len() - i,
    {
        proof {
            assert(app.threads.len() == app.threads@.len());
            folders::listed_rows_exist(app.threads@, app.threads@.len() as int, i as int);
        }
        let l: Line = match app.visible_rows[i] {
            Row::Header(t) => header_line(
                &app.threads[t].thread,
                app.threads[t].expanded,
                w,
            ),
            Row::Message(t, m) => {
                let tv = &app.threads[t];
                child_line(&tv.thread.messages[m], tv.thread.messages.len() > 1, w)
            },
        };
        out.push(l);
        i += 1;
    }
    out
}

/// The rows of the flat list, or of the search results.
pub fn list_lines(messages: &Vec<MessageRow>, w: usize) -> (r: Vec<Line>)
    ensures
        r@.len() == messages@.len(),
        forall|i: int|
            0 <= i < r@.len() ==> (#[trigger] r@[i])@ == fitted(
                message_text(messages@[i]),
                w as int,
                !messages@[i].is_read,
            ),
{
    let mut out: Vec<Line> = Vec::new();
    let mut i: usize = 0;
    while i < messages.len()
        invariant
            i <= messages@.len(),
            out@.len() == i,
            forall|k: int|
                0 <= k < i ==> (#[trigger] out@[k])@ == fitted(
                    message_text(messages@[k]),
                    w as int,
                    !messages@[k].is_read,
                ),
        decreases messages@.len() - i,
    {
        out.push(line(&messages[i], w));
        i += 1;
    }
    out
}

}
