//! The free/busy availability grid: each attendee's availability as a strip of
//! glyphs, plus a combined "everyone free" row.

use crate::model::ScheduleEntry;
use crate::text;
use vstd::prelude::*;

verus! {

#[derive(Debug, PartialEq, Eq)]
pub struct FreeBusyView {
    pub day_label: String,
    pub slot_count: usize,
    pub entries: Vec<ScheduleEntry>,
    pub loading: bool,
}

pub open spec fn glyph_of(c: char) -> char {
    if c == '0' {
        '·'
    } else if c == '1' {
        '▓'
    } else if c == '2' || c == '3' || c == '4' {
        '█'
    } else {
        ' '
    }
}

/// One availability digit as its grid glyph. `'0'` free, `'1'` tentative,
/// `'2'`/`'3'`/`'4'` busy/out/elsewhere, anything else blank.
pub fn slot_glyph(c: char) -> (r: char)
    ensures
        r == glyph_of(c),
{
    match c {
        '0' => '·',
        '1' => '▓',
        '2' | '3' | '4' => '█',
        _ => ' ',
    }
}

/// The availability digit of a slot; past the end everyone is free.
pub open spec fn digit_at(e: ScheduleEntry, slot: int) -> char {
    if slot < e.availability@.len() {
        e.availability@[slot]
    } else {
        '0'
    }
}

pub open spec fn is_busy(e: ScheduleEntry, slot: int) -> bool {
    let c = digit_at(e, slot);
    c == '2' || c == '3' || c == '4'
}

pub open spec fn is_free(e: ScheduleEntry, slot: int) -> bool {
    digit_at(e, slot) == '0'
}

/// `'✓'` when everyone is free in the slot, `'█'` when anyone is busy, else
/// `'░'`.
pub open spec fn combined_of(entries: Seq<ScheduleEntry>, slot: int) -> char {
    if forall|i: int| 0 <= i < entries.len() ==> is_free(#[trigger] entries[i], slot) {
        '✓'
    } else if exists|i: int| 0 <= i < entries.len() && is_busy(#[trigger] entries[i], slot) {
        '█'
    } else {
        '░'
    }
}

fn digit(e: &ScheduleEntry, slot: usize) -> (r: char)
    ensures
        r == digit_at(*e, slot as int),
{
    let v = text::chars_of(e.availability.as_str());
    if slot < v.len() {
        v[slot]
    } else {
        '0'
    }
}

/// The combined row's glyph for one slot across all entries.
pub fn combined_glyph(entries: &Vec<ScheduleEntry>, slot: usize) -> (r: char)
    ensures
        r == combined_of(entries@, slot as int),
{
    let mut all_free = true;
    let mut i: usize = 0;
    while i < entries.len()
        invariant
            i <= entries@.len(),
            forall|k: int| 0 <= k < i ==> !is_busy(#[trigger] entries@[k], slot as int),
            all_free == forall|k: int|
                0 <= k < i ==> is_free(#[trigger] entries@[k], slot as int),
        decreases entries@.len() - i,
    {
        let c = digit(&entries[i], slot);
        if c == '2' || c == '3' || c == '4' {
            assert(is_busy(entries@[i as int], slot as int));
            assert(!is_free(entries@[i as int], slot as int));
            return '█';
        }
        if c != '0' {
            assert(!is_free(entries@[i as int], slot as int));
            all_free = false;
        }
        i += 1;
    }
    if all_free {
        '✓'
    } else {
        '░'
    }
}

/// `s` cut or filled with spaces to twelve characters.
pub open spec fn label(s: Seq<char>) -> Seq<char> {
    if s.len() >= 12 {
        s.take(12)
    } else {
        s + text::spaces(12 - s.len())
    }
}

fn push_label(s: &str) -> (r: String)
    ensures
        r@ == label(s@),
{
    let v = text::chars_of(s);
    let mut out: String = String::new();
    let mut i: usize = 0;
    while i < 12
        invariant
            i <= 12,
            v@ == s@,
            out@ == (if i <= v@.len() {
                v@.take(i as int)
            } else {
                v@ + text::spaces(i - v@.len())
            }),
        decreases 12 - i,
    {
        if i < v.len() {
            out.push(v[i]);
            assert(out@ =~= v@.take(i + 1));
        } else {
            out.push(' ');
            assert(out@ =~= v@ + text::spaces(i + 1 - v@.len()));
        }
        i += 1;
    }
    assert(out@ =~= label(s@));
    out
}

/// The hour that begins with a slot, as its last digit; blank in between.
pub open spec fn hour_mark(slot: int) -> char {
    if slot % 2 == 0 {
        text::digit_char((8 + slot / 2) % 10)
    } else {
        ' '
    }
}

pub open spec fn header_row(slots: nat) -> Seq<char> {
    label(""@) + Seq::new(slots, |i: int| hour_mark(i))
}

pub open spec fn entry_row(e: ScheduleEntry, slots: nat) -> Seq<char> {
    label(e.email@) + Seq::new(slots, |i: int| glyph_of(digit_at(e, i)))
}

pub open spec fn free_row(entries: Seq<ScheduleEntry>, slots: nat) -> Seq<char> {
    label("free?"@) + Seq::new(slots, |i: int| combined_of(entries, i))
}

/// The rows of the grid: an hour header, one row for each entry, and the
/// combined row; a note where there is nobody.
pub open spec fn grid(v: FreeBusyView) -> Seq<Seq<char>> {
    if v.loading {
        seq!["loading\u{2026}"@]
    } else {
        let n = v.slot_count as nat;
        let rows = seq![header_row(n)] + v.entries@.map_values(|e: ScheduleEntry| entry_row(e, n))
            + seq![free_row(v.entries@, n)];
        if v.entries@.len() == 0 {
            rows.push("(no attendees)"@)
        } else {
            rows
        }
    }
}

fn header_text(slots: usize) -> (r: String)
    ensures
        r@ == header_row(slots as nat),
{
    let mut s = push_label("");
    let ghost start = s@;
    let mut i: usize = 0;
    while i < slots
        invariant
            i <= slots,
            start == label(""@),
            s@ == start + Seq::new(i as nat, |k: int| hour_mark(k)),
        decreases slots - i,
    {
        let c: char = if i % 2 == 0 {
            let h: u8 = ((i / 2) % 10) as u8;
            let d: u8 = (8 + h) % 10;
            proof {
                lemma_last_digit((i / 2) as int);
            }
            (d + 48u8) as char
        } else {
            ' '
        };
        s.push(c);
        i += 1;
        assert(s@ =~= start + Seq::new(i as nat, |k: int| hour_mark(k)));
    }
    s
}

proof fn lemma_last_digit(n: int)
    requires
        n >= 0,
    ensures
        (8 + n % 10) % 10 == (8 + n) % 10,
{
}

fn entry_text(e: &ScheduleEntry, slots: usize) -> (r: String)
    ensures
        r@ == entry_row(*e, slots as nat),
{
    let mut s = push_label(e.email.as_str());
    let ghost start = s@;
    let mut i: usize = 0;
    while i < slots
        invariant
            i <= slots,
            start == label(e.email@),
            s@ == start + Seq::new(i as nat, |k: int| glyph_of(digit_at(*e, k))),
        decreases slots - i,
    {
        s.push(slot_glyph(digit(e, i)));
        i += 1;
        assert(s@ =~= start + Seq::new(i as nat, |k: int| glyph_of(digit_at(*e, k))));
    }
    s
}

fn free_text(entries: &Vec<ScheduleEntry>, slots: usize) -> (r: String)
    ensures
        r@ == free_row(entries@, slots as nat),
{
    let mut s = push_label("free?");
    let ghost start = s@;
    let mut i: usize = 0;
    while i < slots
        invariant
            i <= slots,
            start == label("free?"@),
            s@ == start + Seq::new(i as nat, |k: int| combined_of(entries@, k)),
        decreases slots - i,
    {
        s.push(combined_glyph(entries, i));
        i += 1;
        assert(s@ =~= start + Seq::new(i as nat, |k: int| combined_of(entries@, k)));
    }
    s
}

/// The rows of the grid.
pub fn grid_lines(v: &FreeBusyView) -> (r: Vec<String>)
    ensures
        crate::model::texts(r@) == grid(*v),
{
    let mut out: Vec<String> = Vec::new();
    if v.loading {
        out.push("loading\u{2026}".to_string());
        assert(crate::model::texts(out@) =~= grid(*v));
        return out;
    }
    let ghost n = v.slot_count as nat;
    let ghost f = |e: ScheduleEntry| entry_row(e, n);
    out.push(header_text(v.slot_count));
    let mut i: usize = 0;
    assert(crate::model::texts(out@) =~= seq![header_row(n)] + v.entries@.take(0).map_values(f));
    while i < v.entries.len()
        invariant
            i <= v.entries@.len(),
            n == v.slot_count as nat,
            f == (|e: ScheduleEntry| entry_row(e, n)),
            crate::model::texts(out@) == seq![header_row(n)] + v.entries@.take(i as int).map_values(
                f,
            ),
        decreases v.entries@.len() - i,
    {
        let row = entry_text(&v.entries[i], v.slot_count);
        proof {
            crate::model::lemma_texts_push(out@, row);
            assert(v.entries@.take(i + 1).map_values(f) =~= v.entries@.take(i as int).map_values(
                f,
            ).push(row@));
        }
        out.push(row);
        i += 1;
        assert(crate::model::texts(out@) =~= seq![header_row(n)] + v.entries@.take(
            i as int,
        ).map_values(f));
    }
    assert(v.entries@.take(i as int) =~= v.entries@);
    out.push(free_text(&v.entries, v.slot_count));
    if v.entries.len() == 0 {
        out.push("(no attendees)".to_string());
    }
    assert(crate::model::texts(out@) =~= grid(*v));
    out
}

/// A slot is marked free for all exactly when everyone is free, and busy exactly
/// when anyone is busy.
pub proof fn free_for_all(entries: Seq<ScheduleEntry>, slot: int)
    ensures
        combined_of(entries, slot) == '✓' <==> forall|i: int|
            0 <= i < entries.len() ==> is_free(#[trigger] entries[i], slot),
        combined_of(entries, slot) == '█' <==> exists|i: int|
            0 <= i < entries.len() && is_busy(#[trigger] entries[i], slot),
{
}

}
