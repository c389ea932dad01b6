//! Styled text: what a pane shows, before a terminal draws it.

use vstd::prelude::*;

verus! {

/// A terminal color.
#[derive(Debug, Clone, Copy, PartialEq, Eq, Structural)]
pub enum Color {
    Black,
    Red,
    Green,
    Yellow,
    Blue,
    Magenta,
    Cyan,
    Gray,
    DarkGray,
    LightRed,
    LightGreen,
    LightYellow,
    LightBlue,
    LightMagenta,
    LightCyan,
    White,
}

#[derive(Debug, Clone, Copy, PartialEq, Eq, Structural)]
pub struct Style {
    pub fg: Option<Color>,
    pub bg: Option<Color>,
    pub bold: bool,
    pub italic: bool,
    pub underlined: bool,
    pub reversed: bool,
    pub dim: bool,
}

/// No color and no attribute.
pub open spec fn plain_style() -> Style {
    Style {
        fg: None,
        bg: None,
        bold: false,
        italic: false,
        underlined: false,
        reversed: false,
        dim: false,
    }
}

/// Text on one row, in one style.
#[derive(Debug, PartialEq, Eq)]
pub struct Span {
    pub text: String,
    pub style: Style,
}

/// What a span shows.
pub struct Shown {
    pub text: Seq<char>,
    pub style: Style,
}

impl View for Span {
    type V = Shown;

    open spec fn view(&self) -> Shown {
        Shown { text: self.text@, style: self.style }
    }
}

/// A row of spans.
#[derive(Debug, PartialEq, Eq)]
pub struct Line {
    pub spans: Vec<Span>,
}

impl View for Line {
    type V = Seq<Shown>;

    open spec fn view(&self) -> Seq<Shown> {
        self.spans@.map_values(|s: Span| s@)
    }
}

pub open spec fn shown_lines(v: Seq<Line>) -> Seq<Seq<Shown>> {
    v.map_values(|l: Line| l@)
}

pub open spec fn shown(text: Seq<char>, style: Style) -> Shown {
    Shown { text, style }
}

impl Style {
    pub fn plain() -> (r: Style)
        ensures
            r == plain_style(),
    {
        Style {
            fg: None,
            bg: None,
            bold: false,
            italic: false,
            underlined: false,
            reversed: false,
            dim: false,
        }
    }
}

impl Line {
    /// A row that holds one span.
    pub fn single(text: String, style: Style) -> (r: Line)
        ensures
            r@ == seq![shown(text@, style)],
    {
        let mut spans: Vec<Span> = Vec::new();
        spans.push(Span { text, style });
        let r = Line { spans };
        assert(r@ =~= seq![shown(text@, style)]);
        r
    }

    /// A row of plain text.
    pub fn plain(text: String) -> (r: Line)
        ensures
            r@ == seq![shown(text@, plain_style())],
    {
        Line::single(text, Style::plain())
    }

    pub fn empty() -> (r: Line)
        ensures
            r@ == Seq::<Shown>::empty(),
    {
        let r = Line { spans: Vec::new() };
        assert(r@ =~= Seq::<Shown>::empty());
        r
    }

    pub fn push(&mut self, text: String, style: Style)
        ensures
            final(self)@ == old(self)@.push(shown(text@, style)),
    {
        self.spans.push(Span { text, style });
        assert(self@ =~= old(self)@.push(shown(text@, style)));
    }
}

/// The border of a pane, bright when it holds focus.
pub open spec fn border_of(focused: bool) -> Style {
    Style {
        fg: Some(
            if focused {
                Color::Cyan
            } else {
                Color::DarkGray
            },
        ),
        ..plain_style()
    }
}

/// The border color for a pane, bright when it holds focus.
pub fn border_style(focused: bool) -> (r: Style)
    ensures
        r == border_of(focused),
{
    let mut s = Style::plain();
    s.fg = Some(
        if focused {
            Color::Cyan
        } else {
            Color::DarkGray
        },
    );
    s
}

}
