//! The event form's attendee list, as text and as pairs of a name and an
//! address.

use crate::model::Attendee;
use crate::text;
use vstd::prelude::*;

verus! {

/// A name and an address.
pub type Pair = (Seq<char>, Seq<char>);

pub open spec fn pair_of(p: (String, String)) -> Pair {
    (p.0@, p.1@)
}

pub open spec fn pairs_of(v: Seq<(String, String)>) -> Seq<Pair> {
    v.map_values(|p: (String, String)| pair_of(p))
}

/// Addresses without names, one for each piece that is not blank.
pub open spec fn bare(pieces: Seq<Seq<char>>, n: int) -> Seq<Pair>
    decreases n,
{
    if n <= 0 {
        Seq::empty()
    } else {
        let t = text::trim(pieces[n - 1]);
        let before = bare(pieces, n - 1);
        if t.len() == 0 {
            before
        } else {
            before.push((Seq::empty(), t))
        }
    }
}

/// What one part of the list says: `Name <address>`, or addresses alone, with
/// commas between them.
pub open spec fn part_pairs(part: Seq<char>) -> Seq<Pair> {
    let open = text::position_of(part, '<') as int;
    let close = text::last_position_of(part, '>');
    if open < close {
        seq![(text::trim(part.take(open)), text::trim(part.subrange(open + 1, close)))]
    } else {
        let pieces = text::split(part, ',');
        bare(pieces, pieces.len() as int)
    }
}

/// What the first `n` parts say.
pub open spec fn parts_pairs(parts: Seq<Seq<char>>, n: int) -> Seq<Pair>
    decreases n,
{
    if n <= 0 {
        Seq::empty()
    } else {
        let t = text::trim(parts[n - 1]);
        let before = parts_pairs(parts, n - 1);
        if t.len() == 0 {
            before
        } else {
            before + part_pairs(t)
        }
    }
}

/// The pairs that a list with semicolons between its parts denotes.
pub open spec fn attendees_in(field: Seq<char>) -> Seq<Pair> {
    let parts = text::split(field, ';');
    parts_pairs(parts, parts.len() as int)
}

fn push_pair(out: &mut Vec<(String, String)>, name: String, addr: String)
    ensures
        pairs_of(final(out)@) == pairs_of(old(out)@).push((name@, addr@)),
{
    out.push((name, addr));
    assert(pairs_of(out@) =~= pairs_of(old(out)@).push((name@, addr@)));
}

/// One part of the list.
fn parse_attendee_part(out: &mut Vec<(String, String)>, part: &[char])
    ensures
        pairs_of(final(out)@) == pairs_of(old(out)@) + part_pairs(part@),
{
    let ghost start = pairs_of(out@);
    let open = text::find(part, '<');
    if let Some(close) = text::find_last(part, '>') {
        if open < close {
            let a = vstd::slice::slice_subrange(part, 0, open);
            let b = vstd::slice::slice_subrange(part, open + 1, close);
            assert(a@ =~= part@.take(open as int));
            let name = text::string_of(text::trimmed(a));
            let addr = text::string_of(text::trimmed(b));
            push_pair(out, name, addr);
            assert(pairs_of(out@) =~= start + part_pairs(part@));
            return;
        }
    }
    let pieces = text::split_all(part, ',');
    let ghost all = text::split(part@, ',');
    let mut i: usize = 0;
    assert(pairs_of(out@) =~= start + bare(all, 0));
    while i < pieces.len()
        invariant
            i <= pieces@.len(),
            pieces@.len() == all.len(),
            forall|k: int| 0 <= k < pieces@.len() ==> (#[trigger] pieces@[k])@ == all[k],
            pairs_of(out@) == start + bare(all, i as int),
        decreases pieces@.len() - i,
    {
        let t = text::trimmed(pieces[i].as_slice());
        if t.len() > 0 {
            push_pair(out, String::new(), text::string_of(t));
            let ghost before = bare(all, i as int);
            assert(pairs_of(out@).last().0 =~= Seq::empty());
            assert(pairs_of(out@) =~= start + before.push((Seq::empty(), t@)));
        }
        i += 1;
    }
    assert(pairs_of(out@) =~= start + part_pairs(part@));
}

/// Parses the form's attendee text (`Name <addr>; Name2 <addr2>; bare@addr`)
/// into pairs of a name and an address.
pub fn parse_attendee_pairs(field: &str) -> (r: Vec<(String, String)>)
    ensures
        pairs_of(r@) == attendees_in(field@),
{
    let v = text::chars_of(field);
    let parts = text::split_all(v.as_slice(), ';');
    let ghost all = text::split(field@, ';');
    let mut out: Vec<(String, String)> = Vec::new();
    let mut i: usize = 0;
    assert(pairs_of(out@) =~= parts_pairs(all, 0));
    while i < parts.len()
        invariant
            i <= parts@.len(),
            parts@.len() == all.len(),
            forall|k: int| 0 <= k < parts@.len() ==> (#[trigger] parts@[k])@ == all[k],
            pairs_of(out@) == parts_pairs(all, i as int),
        decreases parts@.len() - i,
    {
        let t = text::trimmed(parts[i].as_slice());
        if t.len() > 0 {
            parse_attendee_part(&mut out, t);
        }
        i += 1;
    }
    out
}

/// `Name <address>`.
pub open spec fn shown(p: Pair) -> Seq<char> {
    p.0 + " <"@ + p.1 + ">"@
}

/// The first `n` attendees, with semicolons between them.
pub open spec fn list_of(v: Seq<Pair>, n: int) -> Seq<char>
    decreases n,
{
    if n <= 0 {
        Seq::empty()
    } else if n == 1 {
        shown(v[0])
    } else {
        list_of(v, n - 1) + "; "@ + shown(v[n - 1])
    }
}

pub open spec fn attendee_pairs(v: Seq<Attendee>) -> Seq<Pair> {
    v.map_values(|a: Attendee| (a.name@, a.addr@))
}

/// The attendees as the form shows them.
pub fn attendees_text(v: &Vec<Attendee>) -> (r: String)
    ensures
        r@ == list_of(attendee_pairs(v@), v@.len() as int),
{
    let ghost all = attendee_pairs(v@);
    let mut s: String = String::new();
    let mut i: usize = 0;
    assert(s@ =~= list_of(all, 0));
    while i < v.len()
        invariant
            i <= v@.len(),
            all == attendee_pairs(v@),
            s@ == list_of(all, i as int),
        decreases v@.len() - i,
    {
        let ghost before = s@;
        if i > 0 {
            s.append("; ");
        }
        let ghost lead = s@;
        s.append(v[i].name.as_str());
        s.append(" <");
        s.append(v[i].addr.as_str());
        s.append(">");
        assert(s@ =~= lead + shown(all[i as int]));
        i += 1;
        assert(s@ =~= list_of(all, i as int));
    }
    s
}

// ---------------------------------------------------------------------------
// Laws
// ---------------------------------------------------------------------------

pub open spec fn lacks(s: Seq<char>, c: char) -> bool {
    forall|i: int| 0 <= i < s.len() ==> #[trigger] s[i] != c
}

/// Neither begins nor ends with white space.
pub open spec fn is_trim(s: Seq<char>) -> bool {
    s.len() > 0 ==> !text::is_white_space(s[0]) && !text::is_white_space(s.last())
}

/// A name and an address that the list can hold: without white space at their
/// ends, without the semicolon between parts, and without the bracket that
/// begins an address in the name.
pub open spec fn is_plain(p: Pair) -> bool {
    &&& is_trim(p.0)
    &&& is_trim(p.1)
    &&& lacks(p.0, ';')
    &&& lacks(p.1, ';')
    &&& lacks(p.0, '<')
}

proof fn lemma_split_first(a: Seq<char>, b: Seq<char>, c: char)
    requires
        lacks(a, c),
    ensures
        text::split(a + seq![c] + b, c) == seq![a] + text::split(b, c),
{
    let s = a + seq![c] + b;
    text::lemma_position(s, c, a.len() as int);
    assert(s.take(a.len() as int) =~= a);
    assert(s.skip(a.len() as int + 1) =~= b);
}

proof fn lemma_split_last(a: Seq<char>, b: Seq<char>, c: char)
    requires
        lacks(b, c),
    ensures
        text::split(a + seq![c] + b, c) == text::split(a, c).push(b),
    decreases a.len(),
{
    let s = a + seq![c] + b;
    let i = text::position_of(a, c) as int;
    lemma_position_bounds(a, c);
    if i < a.len() {
        text::lemma_position(s, c, i);
        let rest = a.skip(i + 1);
        lemma_split_last(rest, b, c);
        assert(s.take(i) =~= a.take(i));
        assert(s.skip(i + 1) =~= rest + seq![c] + b);
        assert(text::split(a, c) == seq![a.take(i)] + text::split(rest, c));
        assert(seq![a.take(i)] + text::split(rest, c).push(b) =~= (seq![a.take(i)] + text::split(
            rest,
            c,
        )).push(b));
    } else {
        lemma_split_first(a, b, c);
        text::lemma_no_position(b, c);
        assert(text::split(b, c) =~= seq![b]);
        assert(text::split(a, c) =~= seq![a]);
        assert(seq![a] + seq![b] =~= seq![a].push(b));
    }
}

proof fn lemma_position_bounds(s: Seq<char>, c: char)
    ensures
        text::position_of(s, c) <= s.len(),
        text::position_of(s, c) < s.len() ==> s[text::position_of(s, c) as int] == c,
        forall|j: int| 0 <= j < text::position_of(s, c) ==> #[trigger] s[j] != c,
    decreases s.len(),
{
    if s.len() > 0 && s[0] != c {
        let r = s.skip(1);
        lemma_position_bounds(r, c);
        assert forall|j: int| 0 <= j < text::position_of(s, c) implies #[trigger] s[j] != c by {
            if j > 0 {
                assert(r[j - 1] == s[j]);
            }
        }
    }
}

/// A space in front of a part is trimmed away.
proof fn lemma_trim_lead(s: Seq<char>)
    requires
        is_trim(s),
    ensures
        text::trim(seq![' '] + s) == s,
{
    reveal_with_fuel(text::trim_start, 2);
    let t = seq![' '] + s;
    assert(t.skip(1) =~= s);
    assert(text::trim_start(t) == s);
}

proof fn lemma_trim_tail(s: Seq<char>)
    requires
        is_trim(s),
    ensures
        text::trim(s + seq![' ']) == s,
{
    reveal_with_fuel(text::trim_start, 2);
    reveal_with_fuel(text::trim_end, 2);
    let t = s + seq![' '];
    assert(t.drop_last() =~= s);
    if s.len() == 0 {
        assert(s =~= Seq::empty());
        assert(t =~= seq![' ']);
        assert(t.skip(1) =~= Seq::empty());
    }
}

/// How a part reads once it is trimmed.
spec fn trimmed_part(p: Pair) -> Seq<char> {
    if p.0.len() == 0 {
        "<"@ + p.1 + ">"@
    } else {
        shown(p)
    }
}

proof fn lemma_part(p: Pair)
    requires
        is_plain(p),
    ensures
        text::trim(shown(p)) == trimmed_part(p),
        text::trim(seq![' '] + shown(p)) == trimmed_part(p),
        trimmed_part(p).len() > 0,
        part_pairs(trimmed_part(p)) == seq![p],
        lacks(shown(p), ';'),
{
    reveal_strlit(" <");
    reveal_strlit("<");
    reveal_strlit(">");
    let s = shown(p);
    let t = trimmed_part(p);
    assert(t.last() == '>');
    assert(is_trim(t));
    if p.0.len() == 0 {
        assert(s =~= seq![' '] + t);
        lemma_trim_lead(t);
        let s2 = seq![' '] + s;
        assert(s2.skip(1) =~= s);
        assert(s.skip(1) =~= t);
        assert(text::trim_start(s2) == text::trim_start(s));
        assert(text::trim_start(s) == text::trim_start(t));
    } else {
        text::lemma_trim_none(t);
        lemma_trim_lead(t);
    }
    let open: int = if p.0.len() == 0 {
        0
    } else {
        p.0.len() as int + 1
    };
    text::lemma_position(t, '<', open);
    assert(text::last_position_of(t, '>') == t.len() - 1);
    let addr = t.subrange(open + 1, t.len() - 1);
    assert(addr =~= p.1);
    text::lemma_trim_none(p.1);
    if p.0.len() == 0 {
        assert(t.take(0) =~= Seq::empty());
        text::lemma_trim_none(t.take(0));
        assert(p.0 =~= Seq::empty());
    } else {
        assert(t.take(open) =~= p.0 + seq![' ']);
        lemma_trim_tail(p.0);
    }
    assert(part_pairs(t) =~= seq![p]);
}

/// An attendee list that the form shows is read back as the same attendees.
pub proof fn attendees_round_trip(v: Seq<Pair>)
    requires
        forall|i: int| 0 <= i < v.len() ==> is_plain(#[trigger] v[i]),
    ensures
        attendees_in(list_of(v, v.len() as int)) == v,
{
    lemma_list(v, v.len() as int);
    assert(v.take(v.len() as int) =~= v);
}

proof fn lemma_list(v: Seq<Pair>, n: int)
    requires
        0 <= n <= v.len(),
        forall|i: int| 0 <= i < v.len() ==> is_plain(#[trigger] v[i]),
    ensures
        attendees_in(list_of(v, n)) == v.take(n),
    decreases n,
{
    let s = list_of(v, n);
    let parts = text::split(s, ';');
    if n == 0 {
        assert(parts =~= seq![s]);
        text::lemma_trim_none(s);
        reveal_with_fuel(parts_pairs, 2);
        assert(attendees_in(s) =~= v.take(0));
    } else if n == 1 {
        let p = v[0];
        lemma_part(p);
        text::lemma_no_position(s, ';');
        assert(parts =~= seq![s]);
        reveal_with_fuel(parts_pairs, 2);
        assert(attendees_in(s) =~= v.take(1));
    } else {
        let p = v[n - 1];
        lemma_part(p);
        lemma_list(v, n - 1);
        let before = list_of(v, n - 1);
        let tail = seq![' '] + shown(p);
        reveal_strlit("; ");
        assert(s =~= before + seq![';'] + tail);
        lemma_split_last(before, tail, ';');
        let old_parts = text::split(before, ';');
        assert(parts == old_parts.push(tail));
        lemma_parts_prefix(old_parts, tail, old_parts.len() as int);
        assert(parts_pairs(parts, parts.len() as int) == parts_pairs(
            old_parts,
            old_parts.len() as int,
        ) + part_pairs(trimmed_part(p)));
        assert(v.take(n) =~= v.take(n - 1) + seq![p]);
    }
}

proof fn lemma_parts_prefix(parts: Seq<Seq<char>>, last: Seq<char>, n: int)
    requires
        0 <= n <= parts.len(),
    ensures
        parts_pairs(parts.push(last), n) == parts_pairs(parts, n),
    decreases n,
{
    if n > 0 {
        lemma_parts_prefix(parts, last, n - 1);
    }
}

}
