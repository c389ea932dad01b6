//! The "open link?" warning dialog. Opening a link from an email is a trust
//! boundary: the dialog shows the full URL, toggleable to a parsed breakdown,
//! and a link is only opened for `http`/`https`.

use crate::model;
use crate::text;
use crate::ui::{reading, width};
use vstd::prelude::*;

verus! {

/// The dialog state: the target URL and whether the parsed breakdown is shown.
#[derive(Debug, PartialEq, Eq)]
pub struct LinkPrompt {
    pub url: String,
    pub parsed: bool,
}

/// Begins with `http://` or `https://`, in any case.
pub open spec fn has_web_scheme(s: Seq<char>) -> bool {
    let lower = text::ascii_lowercase(s);
    text::has_prefix(lower, "http://"@) || text::has_prefix(lower, "https://"@)
}

pub open spec fn is_control(c: char) -> bool {
    (c as int) < 0x20 || c as int == 0x7f
}

/// Not empty, at most 2048 bytes, without control characters, and of a web
/// scheme.
pub open spec fn is_safe(s: Seq<char>) -> bool {
    &&& s.len() > 0
    &&& vstd::utf8::encode_utf8(s).len() <= 2048
    &&& forall|i: int| 0 <= i < s.len() ==> !is_control(#[trigger] s[i])
    &&& has_web_scheme(s)
}

pub fn web_scheme(v: &[char]) -> (r: bool)
    ensures
        r == has_web_scheme(v@),
{
    let lower = text::lowercase(v);
    text::starts_with(lower.as_slice(), "http://") || text::starts_with(
        lower.as_slice(),
        "https://",
    )
}

/// Whether `url` is safe to hand to the OS's browser opener: non-empty, not
/// absurdly long, no control characters, and a web scheme.
pub fn safe_url(url: &str) -> (r: bool)
    ensures
        r == is_safe(url@),
{
    let v = text::chars_of(url);
    if v.len() == 0 || url.as_bytes().len() > 2048 {
        return false;
    }
    let mut i: usize = 0;
    while i < v.len()
        invariant
            i <= v@.len(),
            v@ == url@,
            forall|j: int| 0 <= j < i ==> !is_control(#[trigger] v@[j]),
        decreases v@.len() - i,
    {
        let n: u32 = text::code(v[i]);
        if n < 0x20 || n == 0x7f {
            assert(is_control(url@[i as int]));
            return false;
        }
        i += 1;
    }
    web_scheme(v.as_slice())
}

/// Where `://` first stands, or the length where it does not.
pub open spec fn scheme_end(s: Seq<char>) -> nat
    decreases s.len(),
{
    if s.len() == 0 || text::has_prefix(s, "://"@) {
        0
    } else {
        1 + scheme_end(s.skip(1))
    }
}

/// Where the host ends: at the first `/` or `?`.
pub open spec fn host_end(s: Seq<char>) -> nat
    decreases s.len(),
{
    if s.len() == 0 || s[0] == '/' || s[0] == '?' {
        0
    } else {
        1 + host_end(s.skip(1))
    }
}

pub open spec fn part(label: Seq<char>, value: Seq<char>) -> Seq<(Seq<char>, Seq<char>)> {
    if value.len() > 0 {
        seq![(label, value)]
    } else {
        Seq::empty()
    }
}

/// The parts that follow the scheme: host, path and query, blank ones left
/// out.
pub open spec fn rest_parts(rest: Seq<char>) -> Seq<(Seq<char>, Seq<char>)> {
    let h = host_end(rest) as int;
    let after = rest.skip(h);
    let (path, query) = match text::split_once(after, '?') {
        Some((p, q)) => (p, q),
        None => (after, Seq::empty()),
    };
    part("host"@, rest.take(h)) + part("path"@, path) + part("query"@, query)
}

/// The parts of a URL, in display order, blank ones left out.
pub open spec fn url_parts(s: Seq<char>) -> Seq<(Seq<char>, Seq<char>)> {
    let e = scheme_end(s) as int;
    if e < s.len() {
        part("protocol"@, s.take(e)) + rest_parts(s.skip(e + 3))
    } else {
        rest_parts(s)
    }
}

pub open spec fn pairs(v: Seq<(&'static str, String)>) -> Seq<(Seq<char>, Seq<char>)> {
    v.map_values(|p: (&'static str, String)| (p.0@, p.1@))
}

fn find_scheme_end(v: &[char]) -> (r: usize)
    ensures
        r == scheme_end(v@),
        r <= v@.len(),
        r < v@.len() ==> r + 3 <= v@.len(),
{
    proof {
        reveal_strlit("://");
    }
    let mut i: usize = 0;
    assert(v@.skip(0) =~= v@);
    while i < v.len()
        invariant
            i <= v@.len(),
            scheme_end(v@) == i + scheme_end(v@.skip(i as int)),
            "://"@.len() == 3,
        decreases v@.len() - i,
    {
        let rest = vstd::slice::slice_subrange(v, i, v.len());
        assert(rest@ =~= v@.skip(i as int));
        if text::starts_with(rest, "://") {
            return i;
        }
        assert(v@.skip(i as int).skip(1) =~= v@.skip(i as int + 1));
        i += 1;
    }
    i
}

fn find_host_end(v: &[char]) -> (r: usize)
    ensures
        r == host_end(v@),
        r <= v@.len(),
{
    let mut i: usize = 0;
    assert(v@.skip(0) =~= v@);
    while i < v.len() && v[i] != '/' && v[i] != '?'
        invariant
            i <= v@.len(),
            host_end(v@) == i + host_end(v@.skip(i as int)),
        decreases v@.len() - i,
    {
        assert(v@.skip(i as int).skip(1) =~= v@.skip(i as int + 1));
        i += 1;
    }
    i
}

fn push_part(out: &mut Vec<(&'static str, String)>, label: &'static str, value: &[char])
    ensures
        pairs(final(out)@) == pairs(old(out)@) + part(label@, value@),
{
    if value.len() > 0 {
        out.push((label, text::string_of(value)));
    }
    assert(pairs(out@) =~= pairs(old(out)@) + part(label@, value@));
}

/// Splits a URL into its present components, in display order:
/// `protocol`/`host`/`path`/`query`; blank parts are omitted.
pub fn parse_url_parts(url: &str) -> (r: Vec<(&'static str, String)>)
    ensures
        pairs(r@) == url_parts(url@),
{
    let v = text::chars_of(url);
    let s = v.as_slice();
    let mut out: Vec<(&'static str, String)> = Vec::new();
    let e = find_scheme_end(s);
    let rest = if e < s.len() {
        let scheme = vstd::slice::slice_subrange(s, 0, e);
        assert(scheme@ =~= s@.take(e as int));
        push_part(&mut out, "protocol", scheme);
        vstd::slice::slice_subrange(s, e + 3, s.len())
    } else {
        s
    };
    assert(e < s@.len() ==> rest@ =~= s@.skip(e as int + 3));
    let ghost start = pairs(out@);
    assert(start =~= (if e < s@.len() {
        part("protocol"@, s@.take(e as int))
    } else {
        Seq::empty()
    }));
    let h = find_host_end(rest);
    let host = vstd::slice::slice_subrange(rest, 0, h);
    assert(host@ =~= rest@.take(h as int));
    push_part(&mut out, "host", host);
    let after = vstd::slice::slice_subrange(rest, h, rest.len());
    assert(after@ =~= rest@.skip(h as int));
    match text::split_at_first(after, '?') {
        Some((p, q)) => {
            push_part(&mut out, "path", p);
            push_part(&mut out, "query", q);
        },
        None => {
            push_part(&mut out, "path", after);
            assert(part("query"@, Seq::<char>::empty()) =~= Seq::empty());
        },
    }
    assert(pairs(out@) =~= start + rest_parts(rest@));
    assert(pairs(out@) =~= url_parts(url@));
    out
}

// ---------------------------------------------------------------------------
// What the dialog shows
// ---------------------------------------------------------------------------

/// `s` in rows of `width` columns.
pub open spec fn rows_of(s: Seq<char>, width: int) -> Seq<Seq<char>>
    decreases s.len(),
{
    let n = reading::row_length(s, width);
    if s.len() == 0 {
        Seq::empty()
    } else if n >= s.len() {
        seq![s]
    } else {
        seq![s.take(n)] + rows_of(s.skip(n), width)
    }
}

/// The rows of a breakdown: `  label: value`.
pub open spec fn part_rows(parts: Seq<(Seq<char>, Seq<char>)>) -> Seq<Seq<char>> {
    parts.map_values(|p: (Seq<char>, Seq<char>)| "  "@ + p.0 + ": "@ + p.1)
}

/// The breakdown of the URL, or the URL itself, wrapped.
pub open spec fn shown_rows(p: LinkPrompt, width: int) -> Seq<Seq<char>> {
    if p.parsed {
        part_rows(url_parts(p.url@))
    } else {
        rows_of(
            p.url@,
            if width > 1 {
                width
            } else {
                1
            },
        )
    }
}

fn wrap(url: &str, w: usize) -> (r: Vec<String>)
    requires
        w >= 1,
    ensures
        model::texts(r@) == rows_of(url@, w as int),
{
    let chars = text::chars_of(url);
    let mut out: Vec<String> = Vec::new();
    let mut at: usize = 0;
    assert(chars@.skip(0) =~= chars@);
    assert(model::texts(out@) + rows_of(url@, w as int) =~= rows_of(url@, w as int));
    while at < chars.len()
        invariant
            at <= chars@.len(),
            w >= 1,
            rows_of(url@, w as int) == model::texts(out@) + rows_of(
                chars@.skip(at as int),
                w as int,
            ),
        decreases chars@.len() - at,
    {
        let ghost before = out@;
        let ghost tail = chars@.skip(at as int);
        let rest = vstd::slice::slice_subrange(chars.as_slice(), at, chars.len());
        assert(rest@ =~= tail);
        let n: usize = reading::fitting_row(rest, w);
        let row = vstd::slice::slice_subrange(rest, 0, n);
        let to: usize = at + n;
        out.push(text::string_of(row));
        proof {
            model::lemma_texts_push(before, out@.last());
            assert(row@ =~= tail.take(n as int));
            assert(tail.skip(n as int) =~= chars@.skip(to as int));
            if n == tail.len() {
                assert(row@ =~= tail);
                assert(rows_of(chars@.skip(to as int), w as int) =~= Seq::empty());
            }
            assert(rows_of(url@, w as int) =~= model::texts(out@) + rows_of(
                chars@.skip(to as int),
                w as int,
            ));
        }
        at = to;
    }
    assert(model::texts(out@) =~= rows_of(url@, w as int));
    out
}

/// The rows of the dialog, `width` columns wide.
pub fn prompt_rows(p: &LinkPrompt, width: usize) -> (r: Vec<String>)
    ensures
        model::texts(r@) == shown_rows(*p, width as int),
{
    if !p.parsed {
        return wrap(
            p.url.as_str(),
            if width > 1 {
                width
            } else {
                1
            },
        );
    }
    let parts = parse_url_parts(p.url.as_str());
    let mut out: Vec<String> = Vec::new();
    let mut i: usize = 0;
    while i < parts.len()
        invariant
            i <= parts@.len(),
            model::texts(out@) == part_rows(pairs(parts@)).take(i as int),
        decreases parts@.len() - i,
    {
        let ghost before = out@;
        let mut row: String = "  ".to_string();
        row.append(parts[i].0);
        row.append(": ");
        row.append(parts[i].1.as_str());
        out.push(row);
        proof {
            model::lemma_texts_push(before, row);
            assert(row@ == part_rows(pairs(parts@))[i as int]);
            assert(part_rows(pairs(parts@)).take(i as int + 1) =~= part_rows(pairs(parts@)).take(
                i as int,
            ).push(row@));
        }
        i += 1;
    }
    assert(part_rows(pairs(parts@)).take(i as int) =~= part_rows(pairs(parts@)));
    out
}

// ---------------------------------------------------------------------------
// Laws
// ---------------------------------------------------------------------------

/// The rows put together.
pub open spec fn joined(rows: Seq<Seq<char>>) -> Seq<char>
    decreases rows.len(),
{
    if rows.len() == 0 {
        Seq::empty()
    } else {
        rows[0] + joined(rows.skip(1))
    }
}

/// The dialog shows the whole URL: its rows put together are the URL, whatever
/// the width.
pub proof fn the_whole_url_is_shown(url: Seq<char>, width: int)
    requires
        width >= 1,
    ensures
        joined(rows_of(url, width)) == url,
    decreases url.len(),
{
    let rows = rows_of(url, width);
    let n = reading::row_length(url, width);
    if url.len() == 0 {
        assert(joined(rows) =~= url);
    } else if n >= url.len() {
        assert(joined(rows.skip(1)) =~= Seq::empty());
        assert(joined(rows) =~= url);
    } else {
        let rest = rows_of(url.skip(n), width);
        the_whole_url_is_shown(url.skip(n), width);
        assert(rows.skip(1) =~= rest);
        assert(url =~= url.take(n) + url.skip(n));
    }
}

/// No row of it is wider than the dialog, unless a single character is.
pub proof fn the_url_fits_the_dialog(url: Seq<char>, width: int, i: int)
    requires
        width >= 1,
        0 <= i < rows_of(url, width).len(),
    ensures
        width::total_columns(rows_of(url, width)[i]) <= width || rows_of(url, width)[i].len() == 1,
    decreases url.len(),
{
    let n = reading::row_length(url, width);
    width::truncated_text_fits(url, width);
    assert(width::truncated(url, width).len() > 0 ==> url.take(n) =~= width::truncated(url, width));
    if n >= url.len() {
        assert(url.take(n) =~= url || url.len() == 1);
    } else if i > 0 {
        the_url_fits_the_dialog(url.skip(n), width, i - 1);
    }
}

/// A URL that may be opened begins with a web scheme.
pub proof fn safe_urls_are_web_urls(s: Seq<char>)
    requires
        is_safe(s),
    ensures
        has_web_scheme(s),
        s.len() >= 7,
{
    reveal_strlit("http://");
    reveal_strlit("https://");
    assert(text::ascii_lowercase(s).len() == s.len());
}

}
