//! The full-screen compose view: To/Cc/Subject fields and a rich-text body,
//! laid out as styled lines with the caret drawn in.

use crate::text;
use crate::ui::style;
use crate::ui::style::{Color, Line, Shown, Style};
use crate::ui::width;
use crate::model::OutboundAttachment;
use vstd::prelude::*;

verus! {

/// Which field currently has keyboard focus in the composer. Tab cycles
/// `To`, `Cc`, `Subject`, `Body`, `To`.
#[derive(Debug, Clone, Copy, PartialEq, Eq, Structural)]
pub enum ComposeField {
    To,
    Cc,
    Subject,
    Body,
}

/// What the last Ctrl-Enter/Esc/Ctrl-D asked for.
#[derive(Debug, Clone, Copy, PartialEq, Eq, Structural)]
pub enum ComposeAction {
    Send,
    Save,
    Discard,
}

/// Text in one style.
#[derive(Debug, PartialEq, Eq)]
pub struct Run {
    pub text: String,
    pub bold: bool,
    pub italic: bool,
    pub underline: bool,
    pub link: Option<String>,
}

#[derive(Debug, PartialEq, Eq)]
pub enum Block {
    Paragraph(Vec<Run>),
    ListItem { ordered: bool, level: u8, runs: Vec<Run> },
}

#[derive(Debug, PartialEq, Eq)]
pub struct RichText {
    pub blocks: Vec<Block>,
}

/// A place in the body: a block, a run of it, and how many bytes of the run lie
/// before it.
#[derive(Debug, Clone, Copy, PartialEq, Eq, Structural)]
pub struct Pos {
    pub block: usize,
    pub run: usize,
    pub offset: usize,
}

/// The body being edited, and where its caret is.
#[derive(Debug, PartialEq, Eq)]
pub struct Editor {
    pub text: RichText,
    pub caret: Pos,
}

#[derive(Debug, PartialEq, Eq)]
pub struct Contact {
    pub name: String,
    pub address: String,
}

/// The contacts offered for a field, and which one is highlighted.
#[derive(Debug, PartialEq, Eq)]
pub struct Autocomplete {
    pub field: ComposeField,
    pub matches: Vec<Contact>,
    pub index: usize,
}

/// The compose view's state: the header fields, the rich-text body, which field
/// has focus, the id of the draft being edited, and what is attached to it.
#[derive(Debug, PartialEq, Eq)]
pub struct Compose {
    pub to: String,
    pub cc: String,
    pub bcc: String,
    pub subject: String,
    pub editor: Editor,
    pub focus: ComposeField,
    pub draft_id: String,
    pub autocomplete: Option<Autocomplete>,
    pub attachments: Vec<OutboundAttachment>,
}

impl Compose {
    /// A blank composer over an empty body: the "new message" starting point.
    pub fn new(draft_id: String) -> (r: Compose)
        ensures
            r.to@.len() == 0,
            r.cc@.len() == 0,
            r.bcc@.len() == 0,
            r.subject@.len() == 0,
            r.editor.text.blocks@.len() == 0,
            r.editor.caret == (Pos { block: 0, run: 0, offset: 0 }),
            r.focus == ComposeField::To,
            r.draft_id == draft_id,
            r.autocomplete is None,
            r.attachments@.len() == 0,
    {
        Compose {
            to: String::new(),
            cc: String::new(),
            bcc: String::new(),
            subject: String::new(),
            editor: Editor {
                text: RichText { blocks: Vec::new() },
                caret: Pos { block: 0, run: 0, offset: 0 },
            },
            focus: ComposeField::To,
            draft_id,
            autocomplete: None,
            attachments: Vec::new(),
        }
    }
}

pub open spec fn field_after(f: ComposeField) -> ComposeField {
    match f {
        ComposeField::To => ComposeField::Cc,
        ComposeField::Cc => ComposeField::Subject,
        ComposeField::Subject => ComposeField::Body,
        ComposeField::Body => ComposeField::To,
    }
}

/// `To`, `Cc`, `Subject`, `Body`, `To`.
pub fn cycle_focus(compose: &mut Compose)
    ensures
        *final(compose) == (Compose { focus: field_after(old(compose).focus), ..*old(compose) }),
{
    compose.focus = match compose.focus {
        ComposeField::To => ComposeField::Cc,
        ComposeField::Cc => ComposeField::Subject,
        ComposeField::Subject => ComposeField::Body,
        ComposeField::Body => ComposeField::To,
    };
}

/// Four steps lead back to the field they began at.
pub proof fn fields_cycle(f: ComposeField)
    ensures
        field_after(field_after(field_after(field_after(f)))) == f,
{
}

// ---------------------------------------------------------------------------
// Blocks
// ---------------------------------------------------------------------------

pub open spec fn runs_of(b: Block) -> Seq<Run> {
    match b {
        Block::Paragraph(runs) => runs@,
        Block::ListItem { ordered, level, runs } => runs@,
    }
}

pub open spec fn is_ordered_at(b: Block, at: u8) -> bool {
    b matches Block::ListItem { ordered, level, .. } && ordered && level == at
}

/// The 1-based position of block `idx` among the ordered items of its level
/// that stand right before it.
pub open spec fn ordinal_of(blocks: Seq<Block>, idx: int, level: u8) -> nat
    decreases idx,
{
    if idx > 0 && is_ordered_at(blocks[idx - 1], level) {
        ordinal_of(blocks, idx - 1, level) + 1
    } else {
        1
    }
}

/// The list marker before block `idx`: nothing for a paragraph, two spaces for
/// each level and a bullet or a number for an item.
pub open spec fn prefix_of(blocks: Seq<Block>, idx: int) -> Seq<char> {
    match blocks[idx] {
        Block::Paragraph(_) => Seq::empty(),
        Block::ListItem { ordered, level, .. } => if ordered {
            text::spaces(2 * level) + text::integer(ordinal_of(blocks, idx, level) as int) + ". "@
        } else {
            text::spaces(2 * level) + "\u{2022} "@
        },
    }
}

fn block_runs(text: &RichText, idx: usize) -> (r: &Vec<Run>)
    requires
        idx < text.blocks@.len(),
    ensures
        r@ == runs_of(text.blocks@[idx as int]),
{
    match &text.blocks[idx] {
        Block::Paragraph(runs) => runs,
        Block::ListItem { ordered, level, runs } => runs,
    }
}

/// How many contiguous ordered items of this level, counting backwards from
/// and including `idx`, there are.
pub fn ordinal(text: &RichText, idx: usize, level: u8) -> (r: usize)
    requires
        idx < text.blocks@.len(),
    ensures
        r == ordinal_of(text.blocks@, idx as int, level),
        r <= idx + 1,
{
    let mut n: usize = 1;
    let mut i: usize = idx;
    let total: usize = text.blocks.len();
    while i > 0
        invariant
            i <= idx < text.blocks@.len(),
            total == text.blocks@.len(),
            n + i == idx + 1,
            ordinal_of(text.blocks@, idx as int, level) == n - 1 + ordinal_of(
                text.blocks@,
                i as int,
                level,
            ),
        decreases i,
    {
        let counts = match &text.blocks[i - 1] {
            Block::ListItem { ordered, level: l, runs: _ } => *ordered && *l == level,
            Block::Paragraph(_) => false,
        };
        if !counts {
            return n;
        }
        n += 1;
        i -= 1;
    }
    n
}

/// The list marker before block `idx`.
pub fn block_prefix(text: &RichText, idx: usize) -> (r: String)
    requires
        idx < text.blocks@.len(),
    ensures
        r@ == prefix_of(text.blocks@, idx as int),
{
    let mut s: String = String::new();
    match &text.blocks[idx] {
        Block::Paragraph(_) => {},
        Block::ListItem { ordered, level, runs: _ } => {
            crate::text::push_spaces(&mut s, 2 * (*level as usize));
            assert(s@ =~= text::spaces(2 * *level));
            if *ordered {
                let n = ordinal(text, idx, *level);
                crate::text::push_integer(&mut s, n as i128);
                s.append(". ");
            } else {
                s.append("\u{2022} ");
            }
        },
    }
    assert(s@ =~= prefix_of(text.blocks@, idx as int));
    s
}

pub open spec fn style_of(r: Run) -> Style {
    Style {
        fg: (if r.link is Some {
            Some(Color::Cyan)
        } else {
            None
        }),
        bold: r.bold,
        italic: r.italic,
        underlined: r.underline,
        ..style::plain_style()
    }
}

/// A run's flags as a style; a link is cyan.
pub fn run_style(run: &Run) -> (r: Style)
    ensures
        r == style_of(*run),
{
    let mut s = Style::plain();
    s.bold = run.bold;
    s.italic = run.italic;
    s.underlined = run.underline;
    if run.link.is_some() {
        s.fg = Some(Color::Cyan);
    }
    s
}

// ---------------------------------------------------------------------------
// The caret
// ---------------------------------------------------------------------------

/// The bytes a character takes in UTF-8.
pub open spec fn byte_len(c: char) -> usize {
    let n = c as int;
    if n < 0x80 {
        1
    } else if n < 0x800 {
        2
    } else if n < 0x10000 {
        3
    } else {
        4
    }
}

pub open spec fn byte_lens(s: Seq<char>) -> Seq<usize> {
    s.map_values(|c: char| byte_len(c))
}

/// How many characters lie whole within the first `offset` bytes.
pub open spec fn char_at(s: Seq<char>, offset: int) -> int {
    width::fitting(byte_lens(s), offset) as int
}

/// The run a place lies in, and the characters of it before the place: within
/// the runs there are, on a character boundary, and at the start of the next
/// run rather than at the end of one.
pub open spec fn caret_in(runs: Seq<Run>, pos: Pos) -> (int, int) {
    let run = if pos.run < runs.len() {
        pos.run as int
    } else {
        runs.len() - 1
    };
    let off = char_at(runs[run].text@, pos.offset as int);
    if off == runs[run].text@.len() && run + 1 < runs.len() {
        (run + 1, 0)
    } else {
        (run, off)
    }
}

fn bytes_of(c: char) -> (r: usize)
    ensures
        r == byte_len(c),
{
    let n: u32 = text::code(c);
    if n < 0x80 {
        1
    } else if n < 0x800 {
        2
    } else if n < 0x10000 {
        3
    } else {
        4
    }
}

fn char_index(s: &str, offset: usize) -> (r: usize)
    ensures
        r == char_at(s@, offset as int),
        r <= s@.len(),
{
    let v = text::chars_of(s);
    let mut lens: Vec<usize> = Vec::new();
    let mut i: usize = 0;
    while i < v.len()
        invariant
            i <= v@.len(),
            lens@ == byte_lens(v@.take(i as int)),
        decreases v@.len() - i,
    {
        lens.push(bytes_of(v[i]));
        i += 1;
        assert(lens@ =~= byte_lens(v@.take(i as int)));
    }
    assert(v@.take(i as int) =~= v@);
    width::count_fitting(&lens, offset)
}

/// Clamps a place into the runs there are; the offset is in characters.
pub fn caret_run_offset(runs: &Vec<Run>, pos: Pos) -> (r: (usize, usize))
    requires
        runs@.len() > 0,
    ensures
        (r.0 as int, r.1 as int) == caret_in(runs@, pos),
        r.0 < runs@.len(),
        r.1 <= runs@[r.0 as int].text@.len(),
{
    let run: usize = if pos.run < runs.len() {
        pos.run
    } else {
        runs.len() - 1
    };
    let off = char_index(runs[run].text.as_str(), pos.offset);
    let len = text::chars_of(runs[run].text.as_str()).len();
    if off == len && run + 1 < runs.len() {
        (run + 1, 0)
    } else {
        (run, off)
    }
}

pub open spec fn widths_before(runs: Seq<Run>, n: int) -> int
    decreases n,
{
    if n <= 0 {
        0
    } else {
        widths_before(runs, n - 1) + width::text_width(runs[n - 1].text@)
    }
}

/// The display column of a place within its block's line.
pub open spec fn column_of(blocks: Seq<Block>, block: int, pos: Pos) -> int {
    let runs = runs_of(blocks[block]);
    let lead = width::text_width(prefix_of(blocks, block)) as int;
    if runs.len() == 0 {
        lead
    } else {
        let (run, off) = caret_in(runs, pos);
        lead + widths_before(runs, run) + width::text_width(runs[run].text@.take(off))
    }
}

pub open spec fn saturated(n: int) -> int {
    if n > usize::MAX {
        usize::MAX as int
    } else {
        n
    }
}

/// The 0-based display column of `caret` within block `block`'s rendered line.
pub fn caret_col(text: &RichText, block: usize, caret: Pos) -> (r: usize)
    requires
        block < text.blocks@.len(),
    ensures
        r == saturated(column_of(text.blocks@, block as int, caret)),
{
    let prefix = block_prefix(text, block);
    let mut col: usize = width::measure(prefix.as_str());
    let runs = block_runs(text, block);
    if runs.len() == 0 {
        return col;
    }
    let (run, off) = caret_run_offset(runs, caret);
    let ghost lead = col as int;
    let mut i: usize = 0;
    while i < run
        invariant
            i <= run < runs@.len(),
            lead >= 0,
            widths_before(runs@, i as int) >= 0,
            col == saturated(lead + widths_before(runs@, i as int)),
        decreases run - i,
    {
        col = col.saturating_add(width::measure(runs[i].text.as_str()));
        i += 1;
    }
    let v = text::chars_of(runs[run].text.as_str());
    let head = vstd::slice::slice_subrange(v.as_slice(), 0, off);
    assert(head@ =~= runs@[run as int].text@.take(off as int));
    let before = text::string_of(head);
    col.saturating_add(width::measure(before.as_str()))
}

// ---------------------------------------------------------------------------
// Lines
// ---------------------------------------------------------------------------

pub open spec fn reversed(s: Style) -> Style {
    Style { reversed: true, ..s }
}

pub open spec fn span_if(text: Seq<char>, style: Style) -> Seq<Shown> {
    if text.len() > 0 {
        seq![style::shown(text, style)]
    } else {
        Seq::empty()
    }
}

/// A run with the caret `off` characters into it: what stands before, the
/// character under the caret reversed (a space at the end), and what stands
/// after.
pub open spec fn run_with_caret(text: Seq<char>, s: Style, off: int) -> Seq<Shown> {
    span_if(text.take(off), s) + if off < text.len() {
        seq![style::shown(seq![text[off]], reversed(s))] + span_if(text.skip(off + 1), s)
    } else {
        seq![style::shown(" "@, reversed(s))]
    }
}

/// The first `n` runs of a line.
pub open spec fn runs_shown(runs: Seq<Run>, caret: Option<(int, int)>, n: int) -> Seq<Shown>
    decreases n,
{
    if n <= 0 {
        Seq::empty()
    } else {
        let r = runs[n - 1];
        runs_shown(runs, caret, n - 1) + (match caret {
            Some((run, off)) if run == n - 1 => run_with_caret(r.text@, style_of(r), off),
            _ => seq![style::shown(r.text@, style_of(r))],
        })
    }
}

/// One rendered line: the list marker in dark gray, then the runs, with the
/// caret drawn in where there is one.
pub open spec fn line_of(blocks: Seq<Block>, idx: int, caret: Option<Pos>) -> Seq<Shown> {
    let runs = runs_of(blocks[idx]);
    span_if(
        prefix_of(blocks, idx),
        Style { fg: Some(Color::DarkGray), ..style::plain_style() },
    ) + if runs.len() == 0 {
        if caret is Some {
            seq![style::shown(" "@, reversed(style::plain_style()))]
        } else {
            Seq::empty()
        }
    } else {
        runs_shown(
            runs,
            match caret {
                Some(pos) => Some(caret_in(runs, pos)),
                None => None,
            },
            runs.len() as int,
        )
    }
}

fn push_if(line: &mut Line, text: &[char], style: Style)
    ensures
        final(line)@ == old(line)@ + span_if(text@, style),
{
    if text.len() > 0 {
        line.push(text::string_of(text), style);
    }
    assert(line@ =~= old(line)@ + span_if(text@, style));
}

fn push_run_with_caret(line: &mut Line, run: &Run, off: usize)
    requires
        off <= run.text@.len(),
    ensures
        final(line)@ == old(line)@ + run_with_caret(run.text@, style_of(*run), off as int),
{
    let s = run_style(run);
    let mut rev = s;
    rev.reversed = true;
    let v = text::chars_of(run.text.as_str());
    let before = vstd::slice::slice_subrange(v.as_slice(), 0, off);
    assert(before@ =~= run.text@.take(off as int));
    push_if(line, before, s);
    if off < v.len() {
        let under = vstd::slice::slice_subrange(v.as_slice(), off, off + 1);
        assert(under@ =~= seq![run.text@[off as int]]);
        line.push(text::string_of(under), rev);
        let after = vstd::slice::slice_subrange(v.as_slice(), off + 1, v.len());
        assert(after@ =~= run.text@.skip(off as int + 1));
        push_if(line, after, s);
    } else {
        line.push(" ".to_string(), rev);
    }
    assert(line@ =~= old(line)@ + run_with_caret(run.text@, style_of(*run), off as int));
}

/// One rendered line for block `idx`, with the caret drawn in where there is
/// one.
pub fn block_line(text: &RichText, idx: usize, caret: Option<Pos>) -> (r: Line)
    requires
        idx < text.blocks@.len(),
    ensures
        r@ == line_of(text.blocks@, idx as int, caret),
{
    let runs = block_runs(text, idx);
    let mut line = Line::empty();
    let prefix = block_prefix(text, idx);
    let mut gray = Style::plain();
    gray.fg = Some(Color::DarkGray);
    let marker = crate::text::chars_of(prefix.as_str());
    push_if(&mut line, marker.as_slice(), gray);
    let ghost start = line@;
    assert(start =~= span_if(prefix_of(text.blocks@, idx as int), gray));
    if runs.len() == 0 {
        if caret.is_some() {
            let mut rev = Style::plain();
            rev.reversed = true;
            line.push(" ".to_string(), rev);
        }
        assert(line@ =~= line_of(text.blocks@, idx as int, caret));
        return line;
    }
    let at: Option<(usize, usize)> = match caret {
        Some(pos) => Some(caret_run_offset(runs, pos)),
        None => None,
    };
    let ghost spot: Option<(int, int)> = match caret {
        Some(pos) => Some(caret_in(runs@, pos)),
        None => None,
    };
    let mut i: usize = 0;
    assert(line@ =~= start + runs_shown(runs@, spot, 0));
    while i < runs.len()
        invariant
            i <= runs@.len(),
            match at {
                Some((a, b)) => spot == Some((a as int, b as int)) && a < runs@.len() && b
                    <= runs@[a as int].text@.len(),
                None => spot is None,
            },
            line@ == start + runs_shown(runs@, spot, i as int),
        decreases runs@.len() - i,
    {
        let ghost before = line@;
        match at {
            Some((run, off)) if run == i => {
                push_run_with_caret(&mut line, &runs[i], off);
            },
            _ => {
                line.push(runs[i].text.clone(), run_style(&runs[i]));
            },
        }
        i += 1;
        assert(line@ =~= start + runs_shown(runs@, spot, i as int));
    }
    line
}

/// The body's lines, the first line to show, and the row the caret is in:
/// scrolled just far enough that the caret's block is the last visible row.
pub struct BodyView {
    pub lines: Vec<Line>,
    pub scroll_top: usize,
    pub caret_block: usize,
}

pub open spec fn first_row(caret_block: int, height: int) -> int {
    let h = if height > 1 {
        height
    } else {
        1
    };
    if caret_block > h - 1 {
        caret_block - (h - 1)
    } else {
        0
    }
}

/// What the body editor shows in `height` rows; nothing for an empty body.
pub fn body_view(compose: &Compose, height: u16) -> (r: Option<BodyView>)
    ensures
        ({
            let blocks = compose.editor.text.blocks@;
            let caret = compose.editor.caret;
            let at = if caret.block < blocks.len() {
                caret.block as int
            } else {
                blocks.len() - 1
            };
            if blocks.len() == 0 {
                r is None
            } else {
                r matches Some(v) && v.caret_block == at && v.scroll_top == first_row(
                    at,
                    height as int,
                ) && v.lines@.len() == blocks.len() && (forall|i: int|
                    0 <= i < blocks.len() ==> (#[trigger] v.lines@[i])@ == line_of(
                        blocks,
                        i,
                        if compose.focus == ComposeField::Body && i == at {
                            Some(caret)
                        } else {
                            None
                        },
                    ))
            }
        }),
{
    let text = &compose.editor.text;
    let n = text.blocks.len();
    if n == 0 {
        return None;
    }
    let caret = compose.editor.caret;
    let at: usize = if caret.block < n {
        caret.block
    } else {
        n - 1
    };
    let focused = compose.focus == ComposeField::Body;
    let mut lines: Vec<Line> = Vec::new();
    let mut i: usize = 0;
    while i < n
        invariant
            i <= n,
            n == text.blocks@.len(),
            text.blocks@ == compose.editor.text.blocks@,
            focused == (compose.focus == ComposeField::Body),
            lines@.len() == i,
            forall|k: int|
                0 <= k < i ==> (#[trigger] lines@[k])@ == line_of(
                    text.blocks@,
                    k,
                    if compose.focus == ComposeField::Body && k == at {
                        Some(caret)
                    } else {
                        None
                    },
                ),
        decreases n - i,
    {
        let here = if focused && i == at {
            Some(caret)
        } else {
            None
        };
        lines.push(block_line(text, i, here));
        i += 1;
    }
    let h: usize = if height > 1 {
        height as usize
    } else {
        1
    };
    let scroll_top: usize = if at > h - 1 {
        at - (h - 1)
    } else {
        0
    };
    Some(BodyView { lines, scroll_top, caret_block: at })
}

/// The caret drawn into a run covers one character, or stands as a space at
/// its end: without it the run's text is unchanged.
pub proof fn caret_keeps_the_text(text: Seq<char>, s: Style, off: int)
    requires
        0 <= off < text.len(),
    ensures
        joined(run_with_caret(text, s, off)) == text,
{
    let v = run_with_caret(text, s, off);
    let a = span_if(text.take(off), s);
    let b = seq![style::shown(seq![text[off]], reversed(s))];
    let c = span_if(text.skip(off + 1), s);
    reveal_with_fuel(joined, 4);
    assert(v =~= a + b + c);
    assert(text.take(off) + seq![text[off]] + text.skip(off + 1) =~= text);
    if a.len() == 0 {
        if c.len() == 0 {
            assert(v =~= b);
            assert(v.skip(1) =~= Seq::empty());
        } else {
            assert(v =~= b + c);
            assert(v.skip(1) =~= c);
            assert(c.skip(1) =~= Seq::empty());
        }
    } else {
        assert(v.skip(1) =~= b + c);
        if c.len() == 0 {
            assert((b + c).skip(1) =~= Seq::empty());
        } else {
            assert((b + c).skip(1) =~= c);
            assert(c.skip(1) =~= Seq::empty());
        }
    }
    assert(joined(v) =~= text);
}

/// The texts of spans, one after another.
pub open spec fn joined(v: Seq<Shown>) -> Seq<char>
    decreases v.len(),
{
    if v.len() == 0 {
        Seq::empty()
    } else {
        v[0].text + joined(v.skip(1))
    }
}

}
