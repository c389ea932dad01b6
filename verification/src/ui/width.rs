//! Display columns: how wide characters and text are on a terminal.

use crate::text;
use unicode_width::{UnicodeWidthChar, UnicodeWidthStr};
use vstd::prelude::*;

verus! {

/// The columns a character takes; none for a control character.
pub uninterp spec fn char_width(c: char) -> Option<usize>;

/// The columns a text takes.
pub uninterp spec fn text_width(s: Seq<char>) -> usize;

/// `UnicodeWidthChar::width`: the displayed width of a character, which is
/// determined by the character, is one column for the printable ASCII
/// characters, and is absent exactly for the control characters.
#[verifier::external_body]
fn width_of_char(c: char) -> (r: Option<usize>)
    ensures
        r == char_width(c),
        r is None <==> c as int <= 0x1f || 0x7f <= c as int <= 0x9f,
        0x20 <= c as int <= 0x7e ==> r == Some(1usize),
{
    UnicodeWidthChar::width(c)
}

/// `UnicodeWidthStr::width`: the displayed width of a text, which is
/// determined by its characters.
#[verifier::external_body]
fn width_of_text(s: &str) -> (r: usize)
    ensures
        r == text_width(s@),
{
    UnicodeWidthStr::width(s)
}

/// The columns a character takes when it is cut to fit: none for a control
/// character.
pub open spec fn columns(c: char) -> usize {
    match char_width(c) {
        Some(w) => w,
        None => 0,
    }
}

/// How many of the columns in `w`, from the first on, fit into `room` together.
pub open spec fn fitting(w: Seq<usize>, room: int) -> nat
    decreases w.len(),
{
    if w.len() == 0 || w[0] > room {
        0
    } else {
        1 + fitting(w.skip(1), room - w[0])
    }
}

/// How many columns, from the first on, fit into `room` together.
pub fn count_fitting(w: &Vec<usize>, room: usize) -> (r: usize)
    ensures
        r == fitting(w@, room as int),
        r <= w@.len(),
{
    let mut i: usize = 0;
    let mut left: usize = room;
    assert(w@.skip(0) =~= w@);
    while i < w.len() && w[i] <= left
        invariant
            i <= w@.len(),
            fitting(w@, room as int) == i + fitting(w@.skip(i as int), left as int),
        decreases w@.len() - i,
    {
        assert(w@.skip(i as int).skip(1) =~= w@.skip(i as int + 1));
        left = left - w[i];
        i += 1;
    }
    i
}

/// The columns of each character.
pub open spec fn columns_of(s: Seq<char>) -> Seq<usize> {
    s.map_values(|c: char| columns(c))
}

/// As much of `s`, from the start, as fits into `w` columns.
pub open spec fn truncated(s: Seq<char>, w: int) -> Seq<char> {
    s.take(fitting(columns_of(s), w) as int)
}

/// Truncates `s` to at most `w` display columns (wide glyphs count as 2), so
/// columns never overrun their pane.
pub fn truncate_width(s: &str, w: usize) -> (r: String)
    ensures
        r@ == truncated(s@, w as int),
{
    let v = text::chars_of(s);
    let mut cols: Vec<usize> = Vec::new();
    let mut i: usize = 0;
    while i < v.len()
        invariant
            i <= v@.len(),
            cols@ == columns_of(v@.take(i as int)),
        decreases v@.len() - i,
    {
        let c = match width_of_char(v[i]) {
            Some(n) => n,
            None => 0,
        };
        cols.push(c);
        i += 1;
        assert(cols@ =~= columns_of(v@.take(i as int)));
    }
    assert(v@.take(i as int) =~= v@);
    let n = count_fitting(&cols, w);
    let head = vstd::slice::slice_subrange(v.as_slice(), 0, n);
    assert(head@ =~= v@.take(n as int));
    text::string_of(head)
}

/// How many columns `s` takes.
pub fn measure(s: &str) -> (r: usize)
    ensures
        r == text_width(s@),
{
    width_of_text(s)
}

spec fn sum(w: Seq<usize>) -> int
    decreases w.len(),
{
    if w.len() == 0 {
        0
    } else {
        w[0] + sum(w.skip(1))
    }
}

proof fn lemma_fitting_sum(w: Seq<usize>, room: int)
    requires
        room >= 0,
    ensures
        fitting(w, room) <= w.len(),
        sum(w.take(fitting(w, room) as int)) <= room,
        sum(w) <= room ==> fitting(w, room) == w.len(),
    decreases w.len(),
{
    if w.len() > 0 && w[0] <= room {
        let rest = w.skip(1);
        let n = fitting(rest, room - w[0]);
        lemma_fitting_sum(rest, room - w[0]);
        assert(w.take(n as int + 1).skip(1) =~= rest.take(n as int));
    } else {
        assert(w.take(0).len() == 0);
        if w.len() > 0 {
            lemma_sum_nonnegative(w.skip(1));
        }
    }
}

proof fn lemma_sum_nonnegative(w: Seq<usize>)
    ensures
        sum(w) >= 0,
    decreases w.len(),
{
    if w.len() > 0 {
        lemma_sum_nonnegative(w.skip(1));
    }
}

/// The columns of the characters of `s`, added up.
pub closed spec fn total_columns(s: Seq<char>) -> int {
    sum(columns_of(s))
}

/// What is left after truncating is a prefix that fits, and text that fits is
/// left whole.
pub proof fn truncated_text_fits(s: Seq<char>, w: int)
    requires
        w >= 0,
    ensures
        truncated(s, w).is_prefix_of(s),
        total_columns(truncated(s, w)) <= w,
        total_columns(s) <= w ==> truncated(s, w) == s,
{
    lemma_fitting_sum(columns_of(s), w);
    let n = fitting(columns_of(s), w) as int;
    assert(columns_of(s.take(n)) =~= columns_of(s).take(n));
    if total_columns(s) <= w {
        assert(s.take(n) =~= s);
    }
}

}
