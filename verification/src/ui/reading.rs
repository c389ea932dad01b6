//! The reading pane: the headers of the open message, its body laid out row by
//! row, the links in it, and the bands that its images take.

use crate::app::reading;
use crate::app::App;
use crate::model;
use crate::model::{ImageSource, MasterCategory, MessageRow};
use crate::text;
use crate::ui::categories;
use crate::ui::style;
use crate::ui::style::{Color, Line, Shown, Style};
use crate::ui::width;
use std::collections::hash_map::DefaultHasher;
use std::hash::Hasher;
use vstd::bytes;
use vstd::prelude::*;
use vstd::std_specs::hash::DefaultHasherAdditionalSpecFns;

verus! {

/// Rows reserved for one image.
pub const IMAGE_BOX_ROWS: usize = 10;

/// A link in the rendered body: its row, the column it starts at and its width,
/// and where it leads.
#[derive(Debug, PartialEq, Eq)]
pub struct BodyLink {
    pub line: usize,
    pub col: u16,
    pub width: u16,
    pub url: String,
}

/// A stretch of body text, in one style and with one link.
#[derive(Debug, PartialEq, Eq)]
pub struct StyledSpan {
    pub text: String,
    pub bold: bool,
    pub italic: bool,
    pub underline: bool,
    pub link: Option<String>,
}

/// An image in the body, and the text that stands for it.
#[derive(Debug, PartialEq, Eq)]
pub struct ImageRef {
    pub src: ImageSource,
    pub alt: String,
}

/// A row of the body, `indent` levels in; or an image.
#[derive(Debug, PartialEq, Eq)]
pub struct StyledLine {
    pub spans: Vec<StyledSpan>,
    pub indent: u16,
    pub image: Option<ImageRef>,
}

// ---------------------------------------------------------------------------
// Rows of text
// ---------------------------------------------------------------------------

/// A link is blue, and the focused one reversed.
pub open spec fn span_style(s: StyledSpan, focused: Option<Seq<char>>) -> Style {
    Style {
        fg: if s.link is Some {
            Some(Color::Blue)
        } else {
            None
        },
        bg: None,
        bold: s.bold,
        italic: s.italic,
        underlined: s.underline,
        reversed: focused is Some && model::text_of(s.link) == focused,
        dim: false,
    }
}

/// The style of a span; `focused` is the URL of the focused link.
pub fn style_of(s: &StyledSpan, focused: &Option<String>) -> (r: Style)
    ensures
        r == span_style(*s, model::text_of(*focused)),
{
    let reversed = match (&s.link, focused) {
        (Some(a), Some(b)) => *a == *b,
        _ => false,
    };
    Style {
        fg: if s.link.is_some() {
            Some(Color::Blue)
        } else {
            None
        },
        bg: None,
        bold: s.bold,
        italic: s.italic,
        underlined: s.underline,
        reversed,
        dim: false,
    }
}

/// What a row of the body shows: `unit` columns per level of indent, then its
/// spans.
pub open spec fn row_of(l: StyledLine, focused: Option<Seq<char>>, unit: int) -> Seq<Shown> {
    (if l.indent * unit > 0 {
        seq![style::shown(text::spaces(l.indent * unit), style::plain_style())]
    } else {
        Seq::empty()
    }) + l.spans@.map_values(|s: StyledSpan| style::shown(s.text@, span_style(s, focused)))
}

/// Lays out one row of the body.
pub fn to_line(l: &StyledLine, focused: &Option<String>, unit: u16) -> (r: Line)
    ensures
        r@ == row_of(*l, model::text_of(*focused), unit as int),
{
    let ghost f = model::text_of(*focused);
    let ghost spans = l.spans@.map_values(
        |s: StyledSpan| style::shown(s.text@, span_style(s, f)),
    );
    assert(l.indent * unit <= 0xffff * 0xffff) by (nonlinear_arith)
        requires
            l.indent <= 0xffff,
            unit <= 0xffff,
    ;
    let n: u32 = l.indent as u32 * unit as u32;
    let mut line = Line::empty();
    if n > 0 {
        let mut s: String = String::new();
        text::push_spaces(&mut s, n as usize);
        assert(s@ =~= text::spaces(n as int));
        line.push(s, Style::plain());
    }
    let ghost start = line@;
    let mut i: usize = 0;
    while i < l.spans.len()
        invariant
            i <= l.spans@.len(),
            f == model::text_of(*focused),
            spans == l.spans@.map_values(
                |s: StyledSpan| style::shown(s.text@, span_style(s, f)),
            ),
            line@ =~= start + spans.take(i as int),
        decreases l.spans@.len() - i,
    {
        let ghost before = line@;
        line.push(l.spans[i].text.clone(), style_of(&l.spans[i], focused));
        assert(spans.take(i + 1) =~= spans.take(i as int).push(spans[i as int]));
        i += 1;
    }
    assert(spans.take(i as int) =~= spans);
    assert(line@ =~= row_of(*l, f, unit as int));
    line
}

// ---------------------------------------------------------------------------
// Links
// ---------------------------------------------------------------------------

/// Where a link stands, and where it leads.
pub struct LinkAt {
    pub line: int,
    pub col: int,
    pub width: int,
    pub url: Seq<char>,
}

impl View for BodyLink {
    type V = LinkAt;

    open spec fn view(&self) -> LinkAt {
        LinkAt {
            line: self.line as int,
            col: self.col as int,
            width: self.width as int,
            url: self.url@,
        }
    }
}

pub open spec fn link_views(v: Seq<BodyLink>) -> Seq<LinkAt> {
    v.map_values(|l: BodyLink| l@)
}

/// No screen has a column beyond this one.
pub open spec fn held(n: int) -> int {
    if n < u16::MAX {
        n
    } else {
        u16::MAX as int
    }
}

/// The column behind the first `n` spans.
pub open spec fn column_after(spans: Seq<StyledSpan>, n: int, start: int) -> int
    decreases n,
{
    if n <= 0 {
        held(start)
    } else {
        held(column_after(spans, n - 1, start) + width::text_width(spans[n - 1].text@))
    }
}

pub open spec fn closed(done: Seq<LinkAt>, run: Option<LinkAt>) -> Seq<LinkAt> {
    match run {
        Some(r) => done.push(r),
        None => done,
    }
}

/// The links among the first `n` spans: those that have ended, and the one that
/// the last span belongs to. Spans side by side with one URL are one link.
pub open spec fn runs(spans: Seq<StyledSpan>, n: int, row: int, start: int) -> (
    Seq<LinkAt>,
    Option<LinkAt>,
)
    decreases n,
{
    if n <= 0 {
        (Seq::empty(), None)
    } else {
        let (done, run) = runs(spans, n - 1, row, start);
        let s = spans[n - 1];
        let len = width::text_width(s.text@) as int;
        match s.link {
            None => (closed(done, run), None),
            Some(url) => if run is Some && run.unwrap().url == url@ {
                (done, Some(LinkAt { width: held(run.unwrap().width + len), ..run.unwrap() }))
            } else {
                (
                    closed(done, run),
                    Some(
                        LinkAt {
                            line: row,
                            col: column_after(spans, n - 1, start),
                            width: held(len),
                            url: url@,
                        },
                    ),
                )
            },
        }
    }
}

/// The links of a row.
pub open spec fn links_of(l: StyledLine, row: int, unit: int) -> Seq<LinkAt> {
    let (done, run) = runs(l.spans@, l.spans@.len() as int, row, l.indent * unit);
    closed(done, run)
}

fn further(n: u16, more: usize) -> (r: u16)
    ensures
        r == held(n + more),
{
    if more < (u16::MAX - n) as usize {
        n + more as u16
    } else {
        u16::MAX
    }
}

fn indent_columns(indent: u16, unit: u16) -> (r: u16)
    ensures
        r == held(indent * unit),
{
    proof {
        assert(0 <= indent * unit <= 65535 * 65535) by (nonlinear_arith)
            requires
                0 <= indent <= 65535,
                0 <= unit <= 65535,
        ;
    }
    let n: u64 = indent as u64 * unit as u64;
    if n < u16::MAX as u64 {
        n as u16
    } else {
        u16::MAX
    }
}

/// Appends the links of one row of the body, which is row `row` of the layout.
pub fn collect_line_links(l: &StyledLine, row: usize, unit: u16, out: &mut Vec<BodyLink>)
    ensures
        link_views(final(out)@) == link_views(old(out)@) + links_of(*l, row as int, unit as int),
{
    let ghost start = l.indent * unit;
    let ghost before = link_views(out@);
    let mut col: u16 = indent_columns(l.indent, unit);
    let mut run: Option<BodyLink> = None;
    let mut i: usize = 0;
    assert(before =~= before + runs(l.spans@, 0, row as int, start).0);
    while i < l.spans.len()
        invariant
            i <= l.spans@.len(),
            col == column_after(l.spans@, i as int, start),
            link_views(out@) == before + runs(l.spans@, i as int, row as int, start).0,
            match run {
                Some(r) => runs(l.spans@, i as int, row as int, start).1 == Some(r@),
                None => runs(l.spans@, i as int, row as int, start).1 is None,
            },
        decreases l.spans@.len() - i,
    {
        let ghost (done, open) = runs(l.spans@, i as int, row as int, start);
        let len: usize = width::measure(l.spans[i].text.as_str());
        let same = match (&l.spans[i].link, &run) {
            (Some(url), Some(r)) => r.url == *url,
            _ => false,
        };
        if same {
            if let Some(r) = &mut run {
                r.width = further(r.width, len);
            }
        } else {
            let ended = run.take();
            if let Some(r) = ended {
                let ghost so_far = out@;
                out.push(r);
                assert(link_views(out@) =~= link_views(so_far).push(r@));
                assert(link_views(out@) =~= before + closed(done, open));
            }
            if let Some(url) = &l.spans[i].link {
                run = Some(BodyLink { line: row, col, width: further(0, len), url: url.clone() });
            }
        }
        col = further(col, len);
        i += 1;
    }
    let ghost (done, open) = runs(l.spans@, i as int, row as int, start);
    if let Some(r) = run {
        let ghost so_far = out@;
        out.push(r);
        assert(link_views(out@) =~= link_views(so_far).push(r@));
    }
    assert(link_views(out@) =~= before + closed(done, open));
}

/// The links of the first `n`, where a link that goes on in the next row is one
/// with the row before; and the row that the last of them goes on to.
pub open spec fn merged(v: Seq<LinkAt>, n: int) -> (Seq<LinkAt>, int)
    decreases n,
{
    if n <= 0 {
        (Seq::empty(), 0)
    } else {
        let (kept, reached) = merged(v, n - 1);
        let l = v[n - 1];
        if kept.len() > 0 && kept.last().url == l.url && kept.last().line < l.line <= reached + 1 {
            (kept, l.line)
        } else {
            (kept.push(l), l.line)
        }
    }
}

/// Makes a link that is wrapped over several rows one target, at its first row.
pub fn dedup_continuations(raw: Vec<BodyLink>) -> (r: Vec<BodyLink>)
    ensures
        link_views(r@) == merged(link_views(raw@), raw@.len() as int).0,
{
    let ghost all = link_views(raw@);
    let ghost total = raw@.len() as int;
    let mut rest = raw;
    let mut out: Vec<BodyLink> = Vec::new();
    let mut reached: usize = 0;
    let ghost mut k: int = 0;
    assert(rest@ =~= raw@.skip(0));
    assert(link_views(out@) =~= merged(all, 0).0);
    while rest.len() > 0
        invariant
            0 <= k <= total,
            total == raw@.len(),
            all == link_views(raw@),
            rest@ == raw@.skip(k),
            link_views(out@) == merged(all, k).0,
            reached == merged(all, k).1,
        decreases rest@.len(),
    {
        let ghost before = rest@;
        let link = rest.remove(0);
        proof {
            assert(link == raw@[k]);
            assert(all[k] == link@);
            assert(rest@ =~= raw@.skip(k + 1));
            assert(link_views(out@).len() == out@.len());
        }
        let goes_on = if out.len() > 0 {
            let last = &out[out.len() - 1];
            assert(link_views(out@).last() == last@);
            last.url == link.url && last.line < link.line && link.line - 1 <= reached
        } else {
            false
        };
        reached = link.line;
        if !goes_on {
            let ghost so_far = out@;
            out.push(link);
            assert(link_views(out@) =~= link_views(so_far).push(link@));
        }
        proof {
            k = k + 1;
        }
    }
    out
}

// ---------------------------------------------------------------------------
// The body's layout
// ---------------------------------------------------------------------------

/// How many rows the first `n` lines take.
pub open spec fn rows_before(v: Seq<StyledLine>, n: int) -> int
    decreases n,
{
    if n <= 0 {
        0
    } else {
        rows_before(v, n - 1) + if v[n - 1].image is Some {
            10
        } else {
            1int
        }
    }
}

/// `n` empty rows.
pub open spec fn blank_rows(n: int) -> Seq<Seq<Shown>> {
    Seq::new(n as nat, |i: int| Seq::<Shown>::empty())
}

/// The rows of the first `n` lines.
pub open spec fn body_rows(
    v: Seq<StyledLine>,
    n: int,
    focused: Option<Seq<char>>,
    unit: int,
) -> Seq<Seq<Shown>>
    decreases n,
{
    if n <= 0 {
        Seq::empty()
    } else if v[n - 1].image is Some {
        body_rows(v, n - 1, focused, unit) + blank_rows(10)
    } else {
        body_rows(v, n - 1, focused, unit).push(row_of(v[n - 1], focused, unit))
    }
}

/// The images among the first `n` lines: the row each begins at, and its line.
pub open spec fn image_boxes(v: Seq<StyledLine>, n: int) -> Seq<(int, int)>
    decreases n,
{
    if n <= 0 {
        Seq::empty()
    } else if v[n - 1].image is Some {
        image_boxes(v, n - 1).push((rows_before(v, n - 1), n - 1))
    } else {
        image_boxes(v, n - 1)
    }
}

/// The links in the first `n` lines, row by row.
pub open spec fn raw_links(v: Seq<StyledLine>, n: int, unit: int) -> Seq<LinkAt>
    decreases n,
{
    if n <= 0 {
        Seq::empty()
    } else if v[n - 1].image is Some {
        raw_links(v, n - 1, unit)
    } else {
        raw_links(v, n - 1, unit) + links_of(v[n - 1], rows_before(v, n - 1), unit)
    }
}

/// A body, row by row: its text, where its images go, and its links.
#[derive(Debug, PartialEq, Eq)]
pub struct Layout {
    pub lines: Vec<Line>,
    /// The first row of each image, and which of the body's lines it is.
    pub images: Vec<(usize, usize)>,
    pub links: Vec<BodyLink>,
}

pub open spec fn boxes(v: Seq<(usize, usize)>) -> Seq<(int, int)> {
    v.map_values(|p: (usize, usize)| (p.0 as int, p.1 as int))
}

/// `out` is the layout of `v`.
pub open spec fn is_layout(
    out: Layout,
    v: Seq<StyledLine>,
    focused: Option<Seq<char>>,
    unit: int,
) -> bool {
    let n = v.len() as int;
    &&& style::shown_lines(out.lines@) == body_rows(v, n, focused, unit)
    &&& boxes(out.images@) == image_boxes(v, n)
    &&& link_views(out.links@) == merged(
        raw_links(v, n, unit),
        raw_links(v, n, unit).len() as int,
    ).0
}

fn push_blank_rows(out: &mut Vec<Line>)
    ensures
        style::shown_lines(final(out)@) == style::shown_lines(old(out)@) + blank_rows(10),
{
    let ghost before = style::shown_lines(out@);
    let mut i: usize = 0;
    assert(before + blank_rows(0) =~= before);
    while i < IMAGE_BOX_ROWS
        invariant
            i <= 10,
            style::shown_lines(out@) == before + blank_rows(i as int),
        decreases 10 - i,
    {
        let ghost so_far = out@;
        out.push(Line::empty());
        i += 1;
        assert(style::shown_lines(out@) =~= style::shown_lines(so_far).push(out@.last()@));
        assert(style::shown_lines(out@) =~= before + blank_rows(i as int));
    }
}

proof fn lemma_rows(v: Seq<StyledLine>, n: int, focused: Option<Seq<char>>, unit: int)
    ensures
        body_rows(v, n, focused, unit).len() == rows_before(v, n),
        rows_before(v, n) >= 0,
    decreases n,
{
    if n > 0 {
        lemma_rows(v, n - 1, focused, unit);
    }
}

/// Lays the body out, `unit` columns per level of indent. An image takes a band
/// of empty rows.
pub fn body_layout(styled: &Vec<StyledLine>, focused: &Option<String>, unit: u16) -> (r: Layout)
    ensures
        is_layout(r, styled@, model::text_of(*focused), unit as int),
{
    let ghost f = model::text_of(*focused);
    let ghost v = styled@;
    let mut lines: Vec<Line> = Vec::new();
    let mut images: Vec<(usize, usize)> = Vec::new();
    let mut raw: Vec<BodyLink> = Vec::new();
    let mut i: usize = 0;
    assert(style::shown_lines(lines@) =~= body_rows(v, 0, f, unit as int));
    assert(boxes(images@) =~= image_boxes(v, 0));
    assert(link_views(raw@) =~= raw_links(v, 0, unit as int));
    while i < styled.len()
        invariant
            i <= styled@.len(),
            v == styled@,
            f == model::text_of(*focused),
            style::shown_lines(lines@) == body_rows(v, i as int, f, unit as int),
            boxes(images@) == image_boxes(v, i as int),
            link_views(raw@) == raw_links(v, i as int, unit as int),
        decreases styled@.len() - i,
    {
        proof {
            lemma_rows(v, i as int, f, unit as int);
            assert(style::shown_lines(lines@).len() == lines@.len());
        }
        let row: usize = lines.len();
        if styled[i].image.is_some() {
            let ghost so_far = images@;
            images.push((row, i));
            assert(boxes(images@) =~= boxes(so_far).push((row as int, i as int)));
            push_blank_rows(&mut lines);
        } else {
            collect_line_links(&styled[i], row, unit, &mut raw);
            let ghost so_far = lines@;
            lines.push(to_line(&styled[i], focused, unit));
            assert(style::shown_lines(lines@) =~= style::shown_lines(so_far).push(
                lines@.last()@,
            ));
        }
        i += 1;
    }
    assert(link_views(raw@).len() == raw@.len());
    let links = dedup_continuations(raw);
    Layout { lines, images, links }
}

/// The part of an image's band, which begins at `row`, that shows in `height`
/// rows from row `scroll` on: which of the rows on screen it begins at, and how
/// many it takes.
pub open spec fn band(row: int, scroll: int, height: int) -> Option<(int, int)> {
    let top = if scroll > row {
        scroll - row
    } else {
        0
    };
    let end = if scroll + height <= row {
        0
    } else if scroll + height - row > 10 {
        10
    } else {
        scroll + height - row
    };
    if end <= top {
        None
    } else {
        Some((row + top - scroll, end - top))
    }
}

/// Where an image shows, if it does.
pub fn visible_band(row: usize, scroll: usize, height: usize) -> (r: Option<(usize, usize)>)
    requires
        scroll + height <= usize::MAX,
        row + IMAGE_BOX_ROWS <= usize::MAX,
    ensures
        match r {
            Some((at, n)) => band(row as int, scroll as int, height as int) == Some(
                (at as int, n as int),
            ),
            None => band(row as int, scroll as int, height as int) is None,
        },
{
    let top: usize = if scroll > row {
        scroll - row
    } else {
        0
    };
    let below: usize = if scroll + height > row {
        scroll + height - row
    } else {
        0
    };
    let end: usize = if below > IMAGE_BOX_ROWS {
        IMAGE_BOX_ROWS
    } else {
        below
    };
    if end <= top {
        None
    } else {
        Some((row + top - scroll, end - top))
    }
}

/// What stands in an image's place.
pub open spec fn caption(alt: Seq<char>) -> Seq<char> {
    if alt.len() == 0 {
        "[image]"@
    } else {
        "[image: "@ + alt + "]"@
    }
}

/// The caption of an image that is not drawn.
pub fn image_caption(img: &ImageRef) -> (r: String)
    ensures
        r@ == caption(img.alt@),
{
    if text::chars_of(img.alt.as_str()).len() == 0 {
        "[image]".to_string()
    } else {
        let mut s: String = "[image: ".to_string();
        s.append(img.alt.as_str());
        s.append("]");
        s
    }
}

// ---------------------------------------------------------------------------
// Headers and placeholders
// ---------------------------------------------------------------------------

/// The chips of the first `n` categories, each in its color.
pub open spec fn are_chips(
    row: Seq<Shown>,
    names: Seq<String>,
    master: Seq<MasterCategory>,
) -> bool {
    &&& row.len() == names.len() + 1
    &&& row[0] == style::shown("Categories: "@, style::plain_style())
    &&& forall|i: int|
        0 <= i < names.len() ==> is_chip(#[trigger] row[i + 1], names[i]@, master)
}

/// A category in brackets, in its color.
pub open spec fn is_chip(s: Shown, name: Seq<char>, master: Seq<MasterCategory>) -> bool {
    &&& s.text == "["@ + name + "] "@
    &&& s.style.fg is Some
    &&& categories::is_color_of(master, name, s.style.fg.unwrap())
    &&& s.style == (Style { fg: s.style.fg, ..style::plain_style() })
}

pub open spec fn text_row(t: Seq<char>) -> Seq<Shown> {
    seq![style::shown(t, style::plain_style())]
}

/// What stands over a body: sender, subject, time, the categories if there are
/// any, and for an invite how to answer it.
pub open spec fn is_header(
    rows: Seq<Seq<Shown>>,
    m: MessageRow,
    master: Seq<MasterCategory>,
) -> bool {
    let cats = if m.categories@.len() > 0 {
        1int
    } else {
        0
    };
    let invite = if m.is_meeting_request {
        1int
    } else {
        0
    };
    &&& rows.len() == 3 + cats + invite
    &&& rows[0] == text_row("From: "@ + m.from_name@ + " <"@ + m.from_addr@ + ">"@)
    &&& rows[1] == text_row("Subject: "@ + m.subject@)
    &&& rows[2] == text_row("Received: "@ + m.received_at@)
    &&& m.categories@.len() > 0 ==> are_chips(rows[3], m.categories@, master)
    &&& m.is_meeting_request ==> rows.last() == text_row(
        "\u{1f4c5} Meeting invite \u{2014} [A]ccept  [D]ecline  [T]entative"@,
    )
}

fn chips(names: &Vec<String>, master: &Vec<MasterCategory>) -> (r: Line)
    ensures
        are_chips(r@, names@, master@),
{
    let mut line = Line::plain("Categories: ".to_string());
    let mut i: usize = 0;
    while i < names.len()
        invariant
            i <= names@.len(),
            line@.len() == i + 1,
            line@[0] == style::shown("Categories: "@, style::plain_style()),
            forall|k: int| 0 <= k < i ==> is_chip(#[trigger] line@[k + 1], names@[k]@, master@),
        decreases names@.len() - i,
    {
        let ghost before = line@;
        let mut chip: String = "[".to_string();
        chip.append(names[i].as_str());
        chip.append("] ");
        let mut st = Style::plain();
        st.fg = Some(categories::color_for(master, names[i].as_str()));
        line.push(chip, st);
        assert(is_chip(line@[i + 1], names@[i as int]@, master@));
        assert forall|k: int| 0 <= k < i implies is_chip(
            #[trigger] line@[k + 1],
            names@[k]@,
            master@,
        ) by {
            assert(line@[k + 1] == before[k + 1]);
        }
        i += 1;
    }
    line
}

/// The rows over the body of a message.
pub fn header_lines(m: &MessageRow, master: &Vec<MasterCategory>) -> (r: Vec<Line>)
    ensures
        is_header(style::shown_lines(r@), *m, master@),
{
    let mut out: Vec<Line> = Vec::new();
    let mut from: String = "From: ".to_string();
    from.append(m.from_name.as_str());
    from.append(" <");
    from.append(m.from_addr.as_str());
    from.append(">");
    out.push(Line::plain(from));
    let mut subject: String = "Subject: ".to_string();
    subject.append(m.subject.as_str());
    out.push(Line::plain(subject));
    let mut received: String = "Received: ".to_string();
    received.append(m.received_at.as_str());
    out.push(Line::plain(received));
    if m.categories.len() > 0 {
        out.push(chips(&m.categories, master));
    }
    if m.is_meeting_request {
        out.push(
            Line::plain(
                "\u{1f4c5} Meeting invite \u{2014} [A]ccept  [D]ecline  [T]entative".to_string(),
            ),
        );
    }
    out
}

/// What the pane shows of the open message's body.
#[derive(Debug, Clone, Copy, PartialEq, Eq, Structural)]
pub enum BodyShown {
    /// It is being fetched.
    Loading,
    Html,
    Text,
    /// There is none.
    Missing,
}

pub open spec fn body_shown(a: App) -> BodyShown {
    if a.body_loading {
        BodyShown::Loading
    } else {
        match a.body {
            Some(b) => if reading::is_html(b) {
                BodyShown::Html
            } else {
                BodyShown::Text
            },
            None => BodyShown::Missing,
        }
    }
}

/// What to show of the body.
pub fn shows(app: &App) -> (r: BodyShown)
    ensures
        r == body_shown(*app),
{
    if app.body_loading {
        return BodyShown::Loading;
    }
    match &app.body {
        Some(b) => {
            if reading::html(b) {
                BodyShown::Html
            } else {
                BodyShown::Text
            }
        },
        None => BodyShown::Missing,
    }
}

/// What stands in the place of a body that is not there.
pub fn placeholder(shown: BodyShown) -> (r: Option<&'static str>)
    ensures
        match shown {
            BodyShown::Loading => r is Some && r.unwrap()@ == "loading\u{2026}"@,
            BodyShown::Missing => r is Some && r.unwrap()@ == "(no body)"@,
            _ => r is None,
        },
{
    match shown {
        BodyShown::Loading => Some("loading\u{2026}"),
        BodyShown::Missing => Some("(no body)"),
        _ => None,
    }
}

// ---------------------------------------------------------------------------
// The focused link's URL
// ---------------------------------------------------------------------------

/// How many characters of `s` go on a row of `width` columns: as many as fit, and
/// at least one.
pub open spec fn row_length(s: Seq<char>, width: int) -> int {
    let n = width::truncated(s, width).len() as int;
    if n > 0 {
        n
    } else {
        1
    }
}

/// `s` in rows of `width` columns, at most `rows` of them; the last ends in an
/// ellipsis where more would follow.
pub open spec fn url_rows(s: Seq<char>, width: int, rows: int) -> Seq<Seq<char>>
    decreases rows,
{
    if rows <= 0 || s.len() == 0 {
        Seq::empty()
    } else if row_length(s, width) >= s.len() {
        seq![s]
    } else if rows == 1 {
        seq![width::truncated(s, width - 1).push('\u{2026}')]
    } else {
        let n = row_length(s, width);
        seq![s.take(n)] + url_rows(s.skip(n), width, rows - 1)
    }
}

pub open spec fn wrap_width(width: int) -> int {
    if width > 1 {
        width
    } else {
        1
    }
}

/// How much of a text goes on a row.
pub fn fitting_row(s: &[char], width: usize) -> (r: usize)
    requires
        s@.len() > 0,
    ensures
        r == row_length(s@, width as int),
        0 < r <= s@.len(),
{
    proof {
        width::truncated_text_fits(s@, width as int);
    }
    let n: usize = text::chars_of(
        width::truncate_width(text::string_of(s).as_str(), width).as_str(),
    ).len();
    if n > 0 {
        n
    } else {
        1
    }
}

/// Wraps a URL, behind a link glyph, into at most `max_rows` rows of `width`
/// columns.
pub fn wrap_url(url: &str, width: usize, max_rows: usize) -> (r: Vec<String>)
    requires
        max_rows >= 1,
    ensures
        model::texts(r@) == url_rows(
            "\u{1f517} "@ + url@,
            wrap_width(width as int),
            max_rows as int,
        ),
{
    let w: usize = if width > 1 {
        width
    } else {
        1
    };
    let mut full: String = "\u{1f517} ".to_string();
    full.append(url);
    let chars = text::chars_of(full.as_str());
    let ghost goal = url_rows(chars@, w as int, max_rows as int);
    let mut out: Vec<String> = Vec::new();
    let mut at: usize = 0;
    let mut left: usize = max_rows;
    assert(chars@.skip(0) =~= chars@);
    assert(model::texts(out@) + goal =~= goal);
    while left > 0 && at < chars.len()
        invariant
            at <= chars@.len(),
            w >= 1,
            goal == url_rows(
                "\u{1f517} "@ + url@,
                wrap_width(width as int),
                max_rows as int,
            ),
            goal == model::texts(out@) + url_rows(chars@.skip(at as int), w as int, left as int),
        decreases left,
    {
        let ghost before = out@;
        let ghost tail = chars@.skip(at as int);
        let slice = vstd::slice::slice_subrange(chars.as_slice(), at, chars.len());
        assert(slice@ =~= tail);
        let n: usize = fitting_row(slice, w);
        if n >= slice.len() {
            out.push(text::string_of(slice));
            proof {
                model::lemma_texts_push(before, out@.last());
            }
            assert(model::texts(out@) =~= goal);
            return out;
        }
        if left == 1 {
            let mut s = width::truncate_width(text::string_of(slice).as_str(), w - 1);
            s.push('\u{2026}');
            out.push(s);
            proof {
                model::lemma_texts_push(before, out@.last());
            }
            assert(model::texts(out@) =~= goal);
            return out;
        }
        let row = vstd::slice::slice_subrange(slice, 0, n);
        assert(row@ =~= tail.take(n as int));
        out.push(text::string_of(row));
        proof {
            model::lemma_texts_push(before, out@.last());
            assert(tail.skip(n as int) =~= chars@.skip(at + n));
        }
        at = at + n;
        left = left - 1;
        assert(goal =~= model::texts(out@) + url_rows(
            chars@.skip(at as int),
            w as int,
            left as int,
        ));
    }
    assert(model::texts(out@) =~= goal);
    out
}

// ---------------------------------------------------------------------------
// Keys of drawn images
// ---------------------------------------------------------------------------

pub open spec fn hex_digit(d: int) -> char {
    if d < 10 {
        (48 + d) as char
    } else {
        (87 + d) as char
    }
}

/// The last `digits` hexadecimal digits of `n`.
pub open spec fn hex(n: int, digits: int) -> Seq<char>
    decreases digits,
{
    if digits <= 0 {
        Seq::empty()
    } else {
        hex(n / 16, digits - 1).push(hex_digit(n % 16))
    }
}

/// What is hashed of an image: how long it is, and its bytes.
pub open spec fn image_hash(b: Seq<u8>) -> u64 {
    DefaultHasher::spec_finish(seq![bytes::spec_u64_to_le_bytes(b.len() as u64), b])
}

/// The key of an image that stands in the body itself.
pub open spec fn key_of(b: Seq<u8>) -> Seq<char> {
    "data:"@ + hex(image_hash(b) as int, 16)
}

fn hex_char(d: u8) -> (r: char)
    requires
        d < 16,
    ensures
        r == hex_digit(d as int),
{
    if d < 10 {
        (48u8 + d) as char
    } else {
        (87u8 + d) as char
    }
}

fn push_hex(s: &mut String, n: u64, digits: usize)
    ensures
        final(s)@ == old(s)@ + hex(n as int, digits as int),
    decreases digits,
{
    if digits > 0 {
        push_hex(s, n / 16, digits - 1);
        s.push(hex_char((n % 16) as u8));
    }
    assert(s@ =~= old(s)@ + hex(n as int, digits as int));
}

/// A key for an image that stands in the body itself, made from its content: its
/// hash in sixteen hexadecimal digits.
pub fn data_image_key(b: &[u8]) -> (r: String)
    ensures
        r@ == key_of(b@),
{
    let mut h = DefaultHasher::new();
    let len = bytes::u64_to_le_bytes(b.len() as u64);
    h.write(len.as_slice());
    h.write(b);
    assert(h@ =~= seq![bytes::spec_u64_to_le_bytes(b@.len() as u64), b@]);
    let mut s: String = "data:".to_string();
    push_hex(&mut s, h.finish(), 16);
    s
}

// ---------------------------------------------------------------------------
// Laws
// ---------------------------------------------------------------------------

/// A link that is wrapped over any number of rows is one target, at its first
/// row.
pub proof fn wrapped_links_are_one_target(v: Seq<LinkAt>, n: int)
    requires
        0 < n <= v.len(),
        forall|i: int| 0 <= i < v.len() ==> (#[trigger] v[i]).url == v[0].url,
        forall|i: int| 0 <= i < v.len() ==> (#[trigger] v[i]).line == v[0].line + i,
    ensures
        merged(v, n).0 == seq![v[0]],
        merged(v, n).1 == v[0].line + n - 1,
    decreases n,
{
    if n == 1 {
        assert(merged(v, 0).0.push(v[0]) =~= seq![v[0]]);
    } else {
        wrapped_links_are_one_target(v, n - 1);
    }
}

/// No row of the focused link's URL is wider than the pane, unless a single
/// character is; where the URL is cut, a column is left for the ellipsis.
pub proof fn url_rows_fit(s: Seq<char>, width: int, rows: int, i: int)
    requires
        width >= 1,
        0 <= i < url_rows(s, width, rows).len(),
    ensures
        ({
            let row = url_rows(s, width, rows)[i];
            ||| width::total_columns(row) <= width
            ||| row.len() == 1
            ||| i == rows - 1 && row.last() == '\u{2026}' && width::total_columns(row.drop_last())
                <= width - 1
        }),
    decreases rows,
{
    let n = row_length(s, width);
    width::truncated_text_fits(s, width);
    assert(width::truncated(s, width).len() > 0 ==> s.take(n) =~= width::truncated(s, width));
    if n >= s.len() {
        assert(s.take(n) =~= s || s.len() == 1 || n > s.len());
    } else if rows == 1 {
        width::truncated_text_fits(s, width - 1);
        let cut = width::truncated(s, width - 1);
        assert(cut.push('\u{2026}').drop_last() =~= cut);
    } else if i > 0 {
        url_rows_fit(s.skip(n), width, rows - 1, i - 1);
    }
}

/// An image shows only within the rows on screen, and only within its band.
pub proof fn images_stay_on_screen(row: int, scroll: int, height: int)
    requires
        row >= 0,
        scroll >= 0,
        height >= 0,
    ensures
        band(row, scroll, height) matches Some((at, n)) ==> 0 <= at && at + n <= height && 0 < n
            <= 10 && row <= scroll + at && scroll + at + n <= row + 10,
{
}

/// The bands of two images do not overlap, and lie within the body.
pub proof fn images_do_not_overlap(v: Seq<StyledLine>, i: int, j: int)
    requires
        0 <= i < j <= v.len(),
        v[i].image is Some,
    ensures
        rows_before(v, i) + 10 <= rows_before(v, j),
    decreases j - i,
{
    lemma_rows(v, i, None, 0);
    if j == i + 1 {
    } else {
        images_do_not_overlap(v, i, j - 1);
    }
}

}
