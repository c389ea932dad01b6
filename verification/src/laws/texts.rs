//! How text is taken apart and put together.

use crate::app::attendees;
use crate::app::names;
use crate::paths;
use crate::text;
use crate::ui::linkprompt;
use vstd::prelude::*;

verus! {

/// `s` is white space throughout.
pub open spec fn is_blank(s: Seq<char>) -> bool {
    forall|i: int| 0 <= i < s.len() ==> text::is_white_space(#[trigger] s[i])
}

/// Blanks, tabs and line ends are white space; letters, digits and what else can
/// be seen in ASCII are not.
pub proof fn white_space_cannot_be_seen(c: char)
    ensures
        text::is_white_space(' '),
        text::is_white_space('\t'),
        text::is_white_space('\n'),
        text::is_white_space('\r'),
        text::is_white_space('\u{a0}'),
        text::is_white_space('\u{3000}'),
        '!' <= c <= '~' ==> !text::is_white_space(c),
        c < '\t' ==> !text::is_white_space(c),
{
}

/// Trimming takes away white space at both ends, all of it and nothing else.
pub proof fn trimming_takes_the_white_space(s: Seq<char>) -> (r: (Seq<char>, Seq<char>))
    ensures
        s == r.0 + text::trim(s) + r.1,
        is_blank(r.0),
        is_blank(r.1),
        text::trim(s).len() > 0 ==> !text::is_white_space(text::trim(s)[0])
            && !text::is_white_space(text::trim(s).last()),
{
    let a = lemma_trim_front(s);
    let t = text::trim_start(s);
    let b = lemma_trim_back(t);
    let u = text::trim_end(t);
    assert(s =~= a + u + b);
    if u.len() > 0 {
        assert(u[0] == t[0]);
    }
    (a, b)
}

proof fn lemma_trim_front(s: Seq<char>) -> (r: Seq<char>)
    ensures
        s == r + text::trim_start(s),
        is_blank(r),
        text::trim_start(s).len() > 0 ==> !text::is_white_space(text::trim_start(s)[0]),
    decreases s.len(),
{
    if s.len() > 0 && text::is_white_space(s[0]) {
        let r = lemma_trim_front(s.skip(1));
        let q = seq![s[0]] + r;
        let t = text::trim_start(s.skip(1));
        assert(text::trim_start(s) == t);
        assert(s.skip(1) == r + t);
        assert(s =~= seq![s[0]] + s.skip(1));
        assert(s =~= q + t);
        assert forall|i: int| 0 <= i < q.len() implies text::is_white_space(#[trigger] q[i]) by {
            if i > 0 {
                assert(q[i] == r[i - 1]);
            }
        }
        q
    } else {
        assert(s =~= Seq::empty() + s);
        Seq::empty()
    }
}

proof fn lemma_trim_back(s: Seq<char>) -> (r: Seq<char>)
    ensures
        s == text::trim_end(s) + r,
        is_blank(r),
        text::trim_end(s).len() > 0 ==> !text::is_white_space(text::trim_end(s).last()),
    decreases s.len(),
{
    if s.len() > 0 && text::is_white_space(s.last()) {
        let r = lemma_trim_back(s.drop_last());
        let q = r.push(s.last());
        let t = text::trim_end(s.drop_last());
        assert(text::trim_end(s) == t);
        assert(s.drop_last() == t + r);
        assert(s =~= s.drop_last().push(s.last()));
        assert(s =~= t + q);
        assert forall|i: int| 0 <= i < q.len() implies text::is_white_space(#[trigger] q[i]) by {
            if i < r.len() {
                assert(q[i] == r[i]);
            }
        }
        q
    } else {
        assert(s =~= s + Seq::empty());
        Seq::empty()
    }
}

/// The pieces, with `c` between one and the next.
pub open spec fn joined(pieces: Seq<Seq<char>>, c: char) -> Seq<char>
    decreases pieces.len(),
{
    if pieces.len() == 0 {
        Seq::empty()
    } else if pieces.len() == 1 {
        pieces[0]
    } else {
        pieces[0] + seq![c] + joined(pieces.skip(1), c)
    }
}

/// Text is split at every separator: no piece holds one, and the pieces with
/// separators between them are the text.
pub proof fn splitting_is_undone_by_joining(s: Seq<char>, c: char)
    ensures
        text::split(s, c).len() > 0,
        joined(text::split(s, c), c) == s,
        forall|i: int|
            0 <= i < text::split(s, c).len() ==> !(#[trigger] text::split(s, c)[i]).contains(c),
    decreases s.len(),
{
    let i = text::position_of(s, c) as int;
    lemma_first(s, c);
    let v = text::split(s, c);
    if i < s.len() {
        let rest = s.skip(i + 1);
        splitting_is_undone_by_joining(rest, c);
        let w = text::split(rest, c);
        assert(v.skip(1) =~= w);
        assert(v.len() >= 2);
        assert(s =~= s.take(i) + seq![c] + rest);
        assert forall|k: int| 0 <= k < v.len() implies !(#[trigger] v[k]).contains(c) by {
            if k > 0 {
                assert(v[k] == w[k - 1]);
            } else if v[0].contains(c) {
                let j = choose|j: int| 0 <= j < s.take(i).len() && s.take(i)[j] == c;
                assert(s[j] == c);
            }
        }
    } else {
        assert(v =~= seq![s]);
        if s.contains(c) {
            let j = choose|j: int| 0 <= j < s.len() && s[j] == c;
            assert(s[j] == c);
        }
    }
}

/// The first place of a character.
proof fn lemma_first(s: Seq<char>, c: char)
    ensures
        text::position_of(s, c) <= s.len(),
        text::position_of(s, c) < s.len() ==> s[text::position_of(s, c) as int] == c,
        forall|j: int| 0 <= j < text::position_of(s, c) ==> s[j] != c,
    decreases s.len(),
{
    if s.len() > 0 && s[0] != c {
        lemma_first(s.skip(1), c);
        assert forall|j: int| 0 <= j < text::position_of(s, c) implies s[j] != c by {
            if j > 0 {
                assert(s.skip(1)[j - 1] == s[j]);
            }
        }
    }
}

/// The last place of a character.
pub proof fn the_last_place_is_the_last(s: Seq<char>, c: char)
    ensures
        -1 <= text::last_position_of(s, c) < s.len(),
        text::last_position_of(s, c) >= 0 ==> s[text::last_position_of(s, c)] == c,
        forall|j: int| text::last_position_of(s, c) < j < s.len() ==> s[j] != c,
    decreases s.len(),
{
    if s.len() > 0 && s.last() != c {
        let t = s.drop_last();
        the_last_place_is_the_last(t, c);
        assert forall|j: int| text::last_position_of(s, c) < j < s.len() implies s[j] != c by {
            if j < t.len() {
                assert(t[j] == s[j]);
            }
        }
    }
}

/// Text without line ends is one line; a line end parts the line before it from
/// the rest, and a carriage return in front of it goes with it.
pub proof fn lines_end_at_line_ends(a: Seq<char>, b: Seq<char>)
    requires
        !a.contains('\n'),
    ensures
        a.len() > 0 ==> text::lines(a) == seq![a],
        a.len() == 0 || a.last() != '\r' ==> text::lines(a + seq!['\n'] + b) == seq![a]
            + text::lines(b),
        text::lines(a + seq!['\r', '\n'] + b) == seq![a] + text::lines(b),
{
    assert forall|i: int| 0 <= i < a.len() implies a[i] != '\n' by {
        assert(a.contains(a[i]));
    }
    text::lemma_no_position(a, '\n');
    let n = a.len() as int;
    let s = a + seq!['\n'] + b;
    assert(s[n] == '\n');
    text::lemma_position(s, '\n', n);
    assert(s.take(n) =~= a);
    assert(s.skip(n + 1) =~= b);
    let t = a + seq!['\r', '\n'] + b;
    assert(t[n + 1] == '\n');
    text::lemma_position(t, '\n', n + 1);
    assert(t.take(n + 1) =~= a.push('\r'));
    assert(a.push('\r').drop_last() =~= a);
    assert(t.skip(n + 2) =~= b);
}

/// A number is read back from how it is written, with a sign or without.
pub proof fn written_numbers_are_read(n: nat, max: int)
    ensures
        n <= max ==> text::parse_unsigned(text::decimal(n), max) == Some(n as int),
        n <= max ==> text::parse_unsigned(seq!['+'] + text::decimal(n), max) == Some(n as int),
        n > max ==> text::parse_unsigned(text::decimal(n), max) is None,
        n <= i64::MAX ==> text::parse_signed(text::decimal(n)) == Some(n as int),
        n <= i64::MAX ==> text::parse_signed(seq!['-'] + text::decimal(n)) == Some(-(n as int)),
        n > i64::MAX ==> text::parse_signed(text::decimal(n)) is None,
{
    text::lemma_decimal_len(n);
    text::lemma_decimal_value(n);
    let d = text::decimal(n);
    assert(text::is_digit(d[0]));
    assert((seq!['+'] + d).skip(1) =~= d);
    assert((seq!['-'] + d).skip(1) =~= d);
}

/// Digits count by their places.
pub proof fn digits_count_by_their_places(s: Seq<char>, c: char)
    requires
        text::is_digit(c),
    ensures
        text::value(s.push(c)) == 10 * text::value(s) + (c as int - 48),
        text::value(Seq::empty()) == 0,
{
    assert(s.push(c).drop_last() =~= s);
}

/// Text is ordered by the first character in which two differ; the beginning of a
/// text comes before the whole.
pub proof fn text_is_ordered_by_the_first_difference(
    p: Seq<char>,
    a: char,
    x: Seq<char>,
    b: char,
    y: Seq<char>,
)
    requires
        a < b,
    ensures
        text::text_le(p + seq![a] + x, p + seq![b] + y),
        !text::text_le(p + seq![b] + y, p + seq![a] + x),
        text::text_le(p, p + seq![a] + x),
        !text::text_le(p + seq![a] + x, p),
    decreases p.len(),
{
    let s = p + seq![a] + x;
    let t = p + seq![b] + y;
    if p.len() > 0 {
        let q = p.skip(1);
        text_is_ordered_by_the_first_difference(q, a, x, b, y);
        assert(s.skip(1) =~= q + seq![a] + x);
        assert(t.skip(1) =~= q + seq![b] + y);
    } else {
        assert(s[0] == a && t[0] == b);
    }
}

/// Capitals become small letters; nothing else changes.
pub proof fn only_capitals_are_lowered(c: char)
    ensures
        text::ascii_lower('A') == 'a',
        text::ascii_lower('M') == 'm',
        text::ascii_lower('Z') == 'z',
        'A' <= c <= 'Z' ==> text::ascii_lower(c) as int == c as int + 32,
        !('A' <= c <= 'Z') ==> text::ascii_lower(c) == c,
        text::ascii_lower(text::ascii_lower(c)) == text::ascii_lower(c),
{
    assert((c as int + 32) as char as int == c as int + 32 || !('A' <= c <= 'Z'));
}

// ---------------------------------------------------------------------------
// Names of files
// ---------------------------------------------------------------------------

/// A name that can do no harm is kept as it is.
pub proof fn harmless_names_are_kept(name: Seq<char>)
    requires
        names::is_component(name),
        !text::is_white_space(name[0]),
        !text::is_white_space(name.last()),
    ensures
        names::safe_name(name) == name,
{
    let clean = name.map_values(|c: char| names::cleaned(c));
    assert(clean =~= name);
    lemma_no_double_dots(name);
    text::lemma_trim_none(name);
}

proof fn lemma_no_double_dots(s: Seq<char>)
    requires
        forall|i: int| #![trigger s[i]] 0 <= i < s.len() - 1 ==> !(s[i] == '.' && s[i + 1] == '.'),
    ensures
        names::without_dots(s) == s,
    decreases s.len(),
{
    if s.len() > 0 {
        let t = s.skip(1);
        assert(!(s.len() >= 2 && s[0] == '.' && s[1] == '.')) by {
            if s.len() >= 2 {
                let c = s[0];
            }
        }
        assert forall|i: int| #![trigger t[i]] 0 <= i < t.len() - 1 implies !(t[i] == '.' && t[i
            + 1] == '.') by {
            assert(t[i] == s[i + 1]);
            assert(t[i + 1] == s[i + 2]);
        }
        lemma_no_double_dots(t);
        assert(s =~= seq![s[0]] + t);
    }
}

/// What parts directories, drives and escapes, and what controls a terminal, is
/// replaced in a name; every other character may stay.
pub proof fn harmful_characters_are_replaced(c: char)
    ensures
        names::is_unsafe('/'),
        names::is_unsafe('\\'),
        names::is_unsafe(':'),
        names::is_unsafe('%'),
        names::is_unsafe('\n'),
        names::is_unsafe('\0'),
        names::is_unsafe('\u{7f}'),
        names::is_unsafe(c) ==> names::cleaned(c) == '_',
        !names::is_unsafe(c) ==> names::cleaned(c) == c,
        ('a' <= c <= 'z') || ('A' <= c <= 'Z') || ('0' <= c <= '9') || c == '.' || c == '-' || c
            == '_' || c == ' ' || c >= '\u{a0}' ==> !names::is_unsafe(c),
{
}

/// `.eml` and `.ics` at the end of a name are taken off, in capitals or not; other
/// names stay as they are.
pub proof fn item_names_lose_their_ending(base: Seq<char>, ext: Seq<char>)
    requires
        base.len() > 0,
    ensures
        text::ascii_lowercase(ext) == ".eml"@ || text::ascii_lowercase(ext) == ".ics"@
            ==> names::item_base(base + ext) == base,
        ext.len() == 4 && text::ascii_lowercase(ext) != ".eml"@ && text::ascii_lowercase(ext)
            != ".ics"@ ==> names::item_base(base + ext) == base + ext,
{
    reveal_strlit(".eml");
    reveal_strlit(".ics");
    let s = base + ext;
    if text::ascii_lowercase(ext) == ".eml"@ || text::ascii_lowercase(ext) == ".ics"@ {
        assert(ext.len() == 4) by {
            assert(text::ascii_lowercase(ext).len() == ext.len());
        }
    }
    if ext.len() == 4 {
        assert(s.skip(s.len() - 4) =~= ext);
        assert(s.take(s.len() - 4) =~= base);
    }
}

/// The last name of a path is what stands behind its last separator.
pub proof fn the_last_name_follows_the_last_separator(dir: Seq<char>, name: Seq<char>)
    requires
        name.len() > 0,
        !name.contains('/'),
        name != "."@,
        name != ".."@,
    ensures
        paths::last_name(dir + seq!['/'] + name) == Some(name),
        paths::last_name(dir + seq!['/'] + name + seq!['/']) == Some(name),
        paths::last_name(name) == Some(name),
{
    reveal_strlit(".");
    reveal_strlit("..");
    let n = name.len() as int;
    assert forall|i: int| 0 <= i < n implies name[i] != '/' by {
        assert(name.contains(name[i]));
    }
    let s = dir + seq!['/'] + name;
    assert(s.last() == name.last());
    assert(name[n - 1] != '/');
    assert(paths::tidied(s) == s) by {
        if s.last() == '.' && s[s.len() - 2] == '/' {
            if n == 1 {
                assert(name =~= "."@);
            } else {
                assert(s[s.len() - 2] == name[n - 2]);
            }
        }
    }
    lemma_after_slash(dir + seq!['/'], name);
    let t = s + seq!['/'];
    assert(t.drop_last() =~= s);
    assert(paths::tidied(t) == paths::tidied(s));
    assert(paths::tidied(name) == name) by {
        if n > 1 && name.last() == '.' && name[n - 2] == '/' {
            assert(name[n - 2] != '/');
        }
    }
    lemma_after_slash(Seq::empty(), name);
    assert(Seq::<char>::empty() + name =~= name);
}

proof fn lemma_after_slash(dir: Seq<char>, name: Seq<char>)
    requires
        dir.len() == 0 || dir.last() == '/',
        forall|i: int| 0 <= i < name.len() ==> name[i] != '/',
    ensures
        paths::after_slash(dir + name) == name,
    decreases name.len(),
{
    let s = dir + name;
    if name.len() > 0 {
        let m = name.drop_last();
        assert forall|i: int| 0 <= i < m.len() implies m[i] != '/' by {
            assert(m[i] == name[i]);
        }
        lemma_after_slash(dir, m);
        assert(s.drop_last() =~= dir + m);
        assert(name =~= m.push(name.last()));
        assert(name[name.len() - 1] != '/');
    } else {
        assert(s =~= dir);
    }
}

// ---------------------------------------------------------------------------
// Addresses
// ---------------------------------------------------------------------------

/// Addresses without names are taken one by one, parted by commas or semicolons;
/// blanks round them go, and an empty place is nobody.
pub proof fn bare_addresses_are_taken(a: Seq<char>, b: Seq<char>, sep: char)
    requires
        sep == ',' || sep == ';',
        attendees::is_trim(a),
        attendees::is_trim(b),
        a.len() > 0,
        b.len() > 0,
        forall|i: int|
            0 <= i < a.len() ==> #[trigger] a[i] != ',' && a[i] != ';' && a[i] != '<' && a[i] != '>',
        forall|i: int|
            0 <= i < b.len() ==> #[trigger] b[i] != ',' && b[i] != ';' && b[i] != '<' && b[i] != '>',
    ensures
        attendees::attendees_in(a) == seq![(Seq::<char>::empty(), a)],
        attendees::attendees_in(a + seq![sep] + b) == seq![
            (Seq::<char>::empty(), a),
            (Seq::<char>::empty(), b),
        ],
{
    lemma_one_address(a);
    lemma_one_address(b);
    let s = a + seq![sep] + b;
    let n = a.len() as int;
    if sep == ';' {
        assert(s[n] == ';');
        text::lemma_position(s, ';', n);
        assert(s.take(n) =~= a);
        assert(s.skip(n + 1) =~= b);
        lemma_unsplit(b, ';');
        let parts = text::split(s, ';');
        assert(parts =~= seq![a, b]);
        text::lemma_trim_none(a);
        text::lemma_trim_none(b);
        assert(attendees::parts_pairs(parts, 0) =~= Seq::empty());
        assert(attendees::parts_pairs(parts, 1) =~= attendees::part_pairs(a));
        assert(attendees::parts_pairs(parts, 2) =~= attendees::part_pairs(a)
            + attendees::part_pairs(b));
    } else {
        assert forall|i: int| 0 <= i < s.len() implies s[i] != ';' && s[i] != '<' && s[i]
            != '>' by {
            if i < n {
                assert(s[i] == a[i]);
            } else if i > n {
                assert(s[i] == b[i - n - 1]);
            }
        }
        assert(s[0] == a[0]);
        assert(s.last() == b.last());
        text::lemma_trim_none(s);
        lemma_unsplit(s, ';');
        let parts = text::split(s, ';');
        assert(parts =~= seq![s]);
        text::lemma_no_position(s, '<');
        the_last_place_is_the_last(s, '>');
        assert(s[n] == ',');
        text::lemma_position(s, ',', n);
        assert(s.take(n) =~= a);
        assert(s.skip(n + 1) =~= b);
        lemma_unsplit(b, ',');
        let pieces = text::split(s, ',');
        assert(pieces =~= seq![a, b]);
        text::lemma_trim_none(a);
        text::lemma_trim_none(b);
        assert(attendees::bare(pieces, 0) =~= Seq::empty());
        assert(attendees::bare(pieces, 1) =~= seq![(Seq::<char>::empty(), a)]);
        assert(attendees::bare(pieces, 2) =~= seq![
            (Seq::<char>::empty(), a),
            (Seq::<char>::empty(), b),
        ]);
        assert(attendees::parts_pairs(parts, 0) =~= Seq::empty());
        assert(attendees::parts_pairs(parts, 1) =~= attendees::part_pairs(s));
    }
}

proof fn lemma_unsplit(s: Seq<char>, c: char)
    requires
        forall|i: int| 0 <= i < s.len() ==> s[i] != c,
    ensures
        text::split(s, c) == seq![s],
{
    text::lemma_no_position(s, c);
}

proof fn lemma_one_address(a: Seq<char>)
    requires
        attendees::is_trim(a),
        a.len() > 0,
        forall|i: int|
            0 <= i < a.len() ==> #[trigger] a[i] != ',' && a[i] != ';' && a[i] != '<' && a[i] != '>',
    ensures
        attendees::part_pairs(a) == seq![(Seq::<char>::empty(), a)],
        attendees::attendees_in(a) == seq![(Seq::<char>::empty(), a)],
{
    text::lemma_trim_none(a);
    text::lemma_no_position(a, '<');
    the_last_place_is_the_last(a, '>');
    if text::last_position_of(a, '>') >= 0 {
        assert(a[text::last_position_of(a, '>')] != '>');
    }
    lemma_unsplit(a, ',');
    lemma_unsplit(a, ';');
    let pieces = text::split(a, ',');
    assert(attendees::bare(pieces, 0) =~= Seq::empty());
    assert(attendees::bare(pieces, 1) =~= seq![(Seq::<char>::empty(), a)]);
    let parts = text::split(a, ';');
    assert(attendees::parts_pairs(parts, 0) =~= Seq::empty());
    assert(attendees::parts_pairs(parts, 1) =~= attendees::part_pairs(a));
}

// ---------------------------------------------------------------------------
// Links
// ---------------------------------------------------------------------------

/// A link is taken apart into its protocol, its host, its path and its query; what
/// it lacks is left out.
pub proof fn links_are_taken_apart(
    scheme: Seq<char>,
    host: Seq<char>,
    path: Seq<char>,
    query: Seq<char>,
)
    requires
        scheme.len() > 0,
        host.len() > 0,
        path.len() > 0,
        path[0] == '/',
        query.len() > 0,
        forall|i: int| 0 <= i < scheme.len() ==> #[trigger] scheme[i] != ':',
        forall|i: int| 0 <= i < host.len() ==> #[trigger] host[i] != '/' && host[i] != '?',
        forall|i: int| 0 <= i < path.len() ==> #[trigger] path[i] != '?',
    ensures
        linkprompt::url_parts(scheme + "://"@ + host) == seq![
            ("protocol"@, scheme),
            ("host"@, host),
        ],
        linkprompt::url_parts(scheme + "://"@ + (host + path)) == seq![
            ("protocol"@, scheme),
            ("host"@, host),
            ("path"@, path),
        ],
        linkprompt::url_parts(scheme + "://"@ + (host + path + seq!['?'] + query)) == seq![
            ("protocol"@, scheme),
            ("host"@, host),
            ("path"@, path),
            ("query"@, query),
        ],
{
    let e = scheme.len() as int;
    lemma_rest(host, Seq::empty(), Seq::empty());
    lemma_rest(host, path, Seq::empty());
    lemma_rest(host, path, query);
    assert(host + Seq::<char>::empty() =~= host);
    lemma_scheme(scheme, host);
    lemma_scheme(scheme, host + path);
    lemma_scheme(scheme, host + path + seq!['?'] + query);
}

proof fn lemma_scheme(scheme: Seq<char>, rest: Seq<char>)
    requires
        scheme.len() > 0,
        forall|i: int| 0 <= i < scheme.len() ==> #[trigger] scheme[i] != ':',
    ensures
        linkprompt::url_parts(scheme + "://"@ + rest) == seq![("protocol"@, scheme)]
            + linkprompt::rest_parts(rest),
{
    reveal_strlit("://");
    let s = scheme + "://"@ + rest;
    let e = scheme.len() as int;
    lemma_scheme_end(scheme, rest);
    assert(s.take(e) =~= scheme);
    assert(s.skip(e + 3) =~= rest);
}

proof fn lemma_scheme_end(scheme: Seq<char>, rest: Seq<char>)
    requires
        forall|i: int| 0 <= i < scheme.len() ==> #[trigger] scheme[i] != ':',
    ensures
        linkprompt::scheme_end(scheme + "://"@ + rest) == scheme.len(),
    decreases scheme.len(),
{
    reveal_strlit("://");
    let s = scheme + "://"@ + rest;
    if scheme.len() > 0 {
        let t = scheme.skip(1);
        assert forall|i: int| 0 <= i < t.len() implies #[trigger] t[i] != ':' by {
            assert(t[i] == scheme[i + 1]);
        }
        lemma_scheme_end(t, rest);
        assert(s.skip(1) =~= t + "://"@ + rest);
        assert(s[0] == scheme[0]);
        assert(s.take(3)[0] == s[0]);
        assert("://"@[0] == ':');
    } else {
        assert(s.take(3) =~= "://"@);
    }
}

proof fn lemma_host_end(host: Seq<char>, after: Seq<char>)
    requires
        forall|i: int| 0 <= i < host.len() ==> #[trigger] host[i] != '/' && host[i] != '?',
        after.len() == 0 || after[0] == '/' || after[0] == '?',
    ensures
        linkprompt::host_end(host + after) == host.len(),
    decreases host.len(),
{
    let s = host + after;
    if host.len() > 0 {
        let t = host.skip(1);
        assert forall|i: int| 0 <= i < t.len() implies #[trigger] t[i] != '/' && t[i] != '?' by {
            assert(t[i] == host[i + 1]);
        }
        lemma_host_end(t, after);
        assert(s.skip(1) =~= t + after);
        assert(s[0] == host[0]);
    } else {
        assert(s =~= after);
    }
}

proof fn lemma_rest(host: Seq<char>, path: Seq<char>, query: Seq<char>)
    requires
        host.len() > 0,
        path.len() > 0 ==> path[0] == '/',
        query.len() > 0 ==> path.len() > 0,
        forall|i: int| 0 <= i < host.len() ==> #[trigger] host[i] != '/' && host[i] != '?',
        forall|i: int| 0 <= i < path.len() ==> #[trigger] path[i] != '?',
    ensures
        ({
            let rest = if query.len() > 0 {
                host + path + seq!['?'] + query
            } else {
                host + path
            };
            linkprompt::rest_parts(rest) == seq![("host"@, host)] + (if path.len() > 0 {
                seq![("path"@, path)]
            } else {
                Seq::empty()
            }) + (if query.len() > 0 {
                seq![("query"@, query)]
            } else {
                Seq::empty()
            })
        }),
{
    let h = host.len() as int;
    if query.len() > 0 {
        let after = path + seq!['?'] + query;
        let rest = host + path + seq!['?'] + query;
        assert(rest =~= host + after);
        assert(after[0] == path[0]);
        lemma_host_end(host, after);
        assert(rest.take(h) =~= host);
        assert(rest.skip(h) =~= after);
        let n = path.len() as int;
        assert(after[n] == '?');
        text::lemma_position(after, '?', n);
        assert(after.take(n) =~= path);
        assert(after.skip(n + 1) =~= query);
    } else {
        let rest = host + path;
        lemma_host_end(host, path);
        assert(rest.take(h) =~= host);
        assert(rest.skip(h) =~= path);
        text::lemma_no_position(path, '?');
    }
}

/// Only `http` and `https` lead to the web, in capitals or not.
pub proof fn the_web_has_two_schemes(s: Seq<char>, rest: Seq<char>)
    ensures
        linkprompt::has_web_scheme("http://"@ + rest),
        linkprompt::has_web_scheme("https://"@ + rest),
        !linkprompt::has_web_scheme("file://"@ + rest),
        !linkprompt::has_web_scheme("javascript:"@ + rest),
        s.len() < 7 ==> !linkprompt::has_web_scheme(s),
        linkprompt::has_web_scheme(s) ==> text::ascii_lower(s[0]) == 'h' && text::ascii_lower(s[1])
            == 't' && text::ascii_lower(s[2]) == 't' && text::ascii_lower(s[3]) == 'p',
{
    reveal_strlit("http://");
    reveal_strlit("https://");
    reveal_strlit("file://");
    reveal_strlit("javascript:");
    let a = text::ascii_lowercase("http://"@ + rest);
    assert(a.take(7) =~= "http://"@);
    let b = text::ascii_lowercase("https://"@ + rest);
    assert(b.take(8) =~= "https://"@);
    let f = text::ascii_lowercase("file://"@ + rest);
    assert(f[0] == 'f');
    assert(f.take(7)[0] == f[0]);
    assert(f.len() >= 8 ==> f.take(8)[0] == f[0]);
    let j = text::ascii_lowercase("javascript:"@ + rest);
    assert(j[0] == 'j');
    assert(j.take(7)[0] == j[0]);
    assert(j.take(8)[0] == j[0]);
    assert("http://"@[0] == 'h' && "https://"@[0] == 'h');
    let l = text::ascii_lowercase(s);
    if l.len() >= 8 {
        assert(l.take(8)[0] == l[0] && l.take(8)[1] == l[1] && l.take(8)[2] == l[2] && l.take(8)[3]
            == l[3]);
    }
    if l.len() >= 7 {
        assert(l.take(7)[0] == l[0] && l.take(7)[1] == l[1] && l.take(7)[2] == l[2] && l.take(7)[3]
            == l[3]);
    }
    assert("http://"@[1] == 't' && "http://"@[2] == 't' && "http://"@[3] == 'p');
    assert("https://"@[1] == 't' && "https://"@[2] == 't' && "https://"@[3] == 'p');
}

}
