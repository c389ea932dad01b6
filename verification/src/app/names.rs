//! Names that come with mail, made fit for use here: attachments' file names,
//! links, and the lines of a signature.

use crate::model;
use crate::text;
use crate::ui::linkprompt;
use vstd::prelude::*;

verus! {

// ---------------------------------------------------------------------------
// File names
// ---------------------------------------------------------------------------

/// Unicode's control characters.
pub open spec fn is_control(c: char) -> bool {
    let n = c as int;
    n < 0x20 || 0x7f <= n <= 0x9f
}

/// A path separator, a drive's colon, a percent sign, or a control character.
pub open spec fn is_unsafe(c: char) -> bool {
    c == '/' || c == '\\' || c == ':' || c == '%' || is_control(c)
}

pub open spec fn cleaned(c: char) -> char {
    if is_unsafe(c) {
        '_'
    } else {
        c
    }
}

/// Every pair of dots, from the left, becomes a pair of underscores.
pub open spec fn without_dots(s: Seq<char>) -> Seq<char>
    decreases s.len(),
{
    if s.len() >= 2 && s[0] == '.' && s[1] == '.' {
        seq!['_', '_'] + without_dots(s.skip(2))
    } else if s.len() > 0 {
        seq![s[0]] + without_dots(s.skip(1))
    } else {
        s
    }
}

/// What a name is saved as.
pub open spec fn safe_name(name: Seq<char>) -> Seq<char> {
    let t = text::trim(without_dots(name.map_values(|c: char| cleaned(c))));
    if t.len() == 0 || t == "."@ {
        "attachment"@
    } else {
        t
    }
}

/// Fit to be a single path component: nothing in it separates paths, names a
/// drive, is expanded, or is a control character; it neither leads up nor names
/// the directory that it is in; and it is not empty.
pub open spec fn is_component(s: Seq<char>) -> bool {
    &&& s.len() > 0
    &&& s != "."@
    &&& forall|i: int| 0 <= i < s.len() ==> !is_unsafe(#[trigger] s[i])
    &&& forall|i: int| #![trigger s[i]] 0 <= i < s.len() - 1 ==> !(s[i] == '.' && s[i + 1] == '.')
}

fn control(c: char) -> (r: bool)
    ensures
        r == is_control(c),
{
    let n: u32 = text::code(c);
    n < 0x20 || (0x7f <= n && n <= 0x9f)
}

fn clean(c: char) -> (r: char)
    ensures
        r == cleaned(c),
{
    if c == '/' || c == '\\' || c == ':' || c == '%' || control(c) {
        '_'
    } else {
        c
    }
}

/// Makes an attachment's name safe to use as a single path component: path
/// separators, colons, percent signs and control characters become `_`, pairs
/// of dots become `__`, and a name of which nothing usable is left becomes
/// `attachment`.
pub fn sanitize_filename(name: &str) -> (r: String)
    ensures
        r@ == safe_name(name@),
        is_component(r@),
{
    let v = text::chars_of(name);
    let ghost mapped = name@.map_values(|c: char| cleaned(c));
    let mut out: Vec<char> = Vec::new();
    let mut i: usize = 0;
    assert(mapped.skip(0) =~= mapped);
    assert(without_dots(mapped) =~= out@ + without_dots(mapped.skip(0)));
    while i < v.len()
        invariant
            i <= v@.len(),
            v@ == name@,
            mapped == name@.map_values(|c: char| cleaned(c)),
            without_dots(mapped) == out@ + without_dots(mapped.skip(i as int)),
        decreases v@.len() - i,
    {
        let ghost before = out@;
        let ghost rest = mapped.skip(i as int);
        let c = clean(v[i]);
        assert(rest[0] == c);
        if c == '.' && i + 1 < v.len() && clean(v[i + 1]) == '.' {
            assert(rest[1] == '.');
            out.push('_');
            out.push('_');
            i += 2;
            assert(rest.skip(2) =~= mapped.skip(i as int));
            assert(before + (seq!['_', '_'] + without_dots(mapped.skip(i as int))) =~= out@
                + without_dots(mapped.skip(i as int)));
        } else {
            assert(!(rest.len() >= 2 && rest[0] == '.' && rest[1] == '.')) by {
                if rest.len() >= 2 {
                    assert(rest[1] == cleaned(v@[i + 1]));
                }
            }
            out.push(c);
            i += 1;
            assert(rest.skip(1) =~= mapped.skip(i as int));
            assert(before + (seq![c] + without_dots(mapped.skip(i as int))) =~= out@ + without_dots(
                mapped.skip(i as int),
            ));
        }
    }
    assert(mapped.skip(i as int) =~= Seq::empty());
    assert(out@ =~= without_dots(mapped));
    let t = text::trimmed(out.as_slice());
    proof {
        saved_names_are_components(name@);
    }
    proof {
        reveal_strlit(".");
        assert(t@.len() == 1 && t@[0] == '.' ==> t@ =~= "."@);
    }
    if t.len() == 0 || (t.len() == 1 && t[0] == '.') {
        "attachment".to_string()
    } else {
        text::string_of(t)
    }
}

proof fn lemma_without_dots(s: Seq<char>)
    requires
        forall|i: int| 0 <= i < s.len() ==> !is_unsafe(#[trigger] s[i]),
    ensures
        forall|i: int|
            0 <= i < without_dots(s).len() ==> !is_unsafe(#[trigger] without_dots(s)[i]),
        forall|i: int|
            #![trigger without_dots(s)[i]]
            0 <= i < without_dots(s).len() - 1 ==> !(without_dots(s)[i] == '.' && without_dots(
                s,
            )[i + 1] == '.'),
        s.len() > 0 ==> without_dots(s).len() > 0,
        s.len() > 0 && without_dots(s)[0] == '.' ==> s[0] == '.' && !(s.len() >= 2 && s[1] == '.'),
    decreases s.len(),
{
    let w = without_dots(s);
    if s.len() >= 2 && s[0] == '.' && s[1] == '.' {
        let r = s.skip(2);
        lemma_without_dots(r);
        assert(w =~= seq!['_', '_'] + without_dots(r));
        assert forall|i: int| 0 <= i < w.len() implies !is_unsafe(#[trigger] w[i]) by {
            if i >= 2 {
                assert(w[i] == without_dots(r)[i - 2]);
            }
        }
        assert forall|i: int| #![trigger w[i]] 0 <= i < w.len() - 1 implies !(w[i] == '.' && w[i
            + 1] == '.') by {
            if i >= 2 {
                assert(w[i] == without_dots(r)[i - 2]);
                assert(w[i + 1] == without_dots(r)[i - 1]);
            }
        }
    } else if s.len() > 0 {
        let r = s.skip(1);
        lemma_without_dots(r);
        assert(w =~= seq![s[0]] + without_dots(r));
        assert forall|i: int| 0 <= i < w.len() implies !is_unsafe(#[trigger] w[i]) by {
            if i >= 1 {
                assert(w[i] == without_dots(r)[i - 1]);
            }
        }
        assert forall|i: int| #![trigger w[i]] 0 <= i < w.len() - 1 implies !(w[i] == '.' && w[i
            + 1] == '.') by {
            if i >= 1 {
                assert(w[i] == without_dots(r)[i - 1]);
                assert(w[i + 1] == without_dots(r)[i]);
            } else {
                assert(w[1] == without_dots(r)[0]);
            }
        }
    }
}

/// Trimming takes away from the ends alone.
pub proof fn lemma_trim_is_subrange(s: Seq<char>)
    ensures
        exists|a: int, b: int|
            0 <= a <= b <= s.len() && text::trim(s) == #[trigger] s.subrange(a, b),
{
    lemma_trim_start(s);
    let t = text::trim_start(s);
    lemma_trim_end(t);
    let a = choose|a: int| 0 <= a <= s.len() && t == #[trigger] s.skip(a);
    let n = choose|n: int| 0 <= n <= t.len() && text::trim_end(t) == #[trigger] t.take(n);
    assert(t.take(n) =~= s.subrange(a, a + n));
}

proof fn lemma_trim_start(s: Seq<char>)
    ensures
        exists|a: int| 0 <= a <= s.len() && text::trim_start(s) == #[trigger] s.skip(a),
    decreases s.len(),
{
    if s.len() > 0 && text::is_white_space(s[0]) {
        let r = s.skip(1);
        lemma_trim_start(r);
        let a = choose|a: int| 0 <= a <= r.len() && text::trim_start(r) == #[trigger] r.skip(a);
        assert(r.skip(a) =~= s.skip(a + 1));
    } else {
        assert(s.skip(0) =~= s);
    }
}

proof fn lemma_trim_end(s: Seq<char>)
    ensures
        exists|n: int| 0 <= n <= s.len() && text::trim_end(s) == #[trigger] s.take(n),
    decreases s.len(),
{
    if s.len() > 0 && text::is_white_space(s.last()) {
        let r = s.drop_last();
        lemma_trim_end(r);
        let n = choose|n: int| 0 <= n <= r.len() && text::trim_end(r) == #[trigger] r.take(n);
        assert(r.take(n) =~= s.take(n));
    } else {
        assert(s.take(s.len() as int) =~= s);
    }
}

/// Ends in `.eml` or `.ics`, in any case, and is longer than that.
pub open spec fn has_item_ext(s: Seq<char>) -> bool {
    s.len() > 4 && {
        let tail = text::ascii_lowercase(s.skip(s.len() - 4));
        tail == ".eml"@ || tail == ".ics"@
    }
}

pub open spec fn item_base(s: Seq<char>) -> Seq<char> {
    if has_item_ext(s) {
        s.take(s.len() - 4)
    } else {
        s
    }
}

/// Whatever an attachment is called, it is saved as a single path component; and
/// so is an attached item, whose extension is left off.
pub proof fn saved_names_are_components(name: Seq<char>)
    ensures
        is_component(safe_name(name)),
        is_component(item_base(safe_name(name))),
{
    let mapped = name.map_values(|c: char| cleaned(c));
    let w = without_dots(mapped);
    assert forall|i: int| 0 <= i < mapped.len() implies !is_unsafe(#[trigger] mapped[i]) by {
        assert(mapped[i] == cleaned(name[i]));
    }
    lemma_without_dots(mapped);
    lemma_trim_is_subrange(w);
    let t = text::trim(w);
    reveal_strlit(".");
    reveal_strlit("attachment");
    assert("attachment"@.len() == 10 && "."@.len() == 1);
    if t.len() > 0 && t != "."@ {
        let (a, b) = choose|a: int, b: int|
            0 <= a <= b <= w.len() && t == #[trigger] w.subrange(a, b);
        assert forall|i: int| 0 <= i < t.len() implies !is_unsafe(#[trigger] t[i]) by {
            assert(t[i] == w[a + i]);
        }
        assert forall|i: int| #![trigger t[i]] 0 <= i < t.len() - 1 implies !(t[i] == '.' && t[i
            + 1] == '.') by {
            assert(t[i] == w[a + i]);
            assert(t[i + 1] == w[a + i + 1]);
        }
    }
    lemma_base_is_component(safe_name(name));
}

proof fn lemma_base_is_component(s: Seq<char>)
    requires
        is_component(s),
    ensures
        is_component(item_base(s)),
{
    if has_item_ext(s) {
        let n = s.len() - 4;
        let base = s.take(n);
        let tail = s.skip(n);
        reveal_strlit(".eml");
        reveal_strlit(".ics");
        reveal_strlit(".");
        assert(text::ascii_lowercase(tail)[0] == '.');
        assert(s[n] == '.');
        assert forall|i: int| 0 <= i < base.len() implies !is_unsafe(#[trigger] base[i]) by {
            assert(base[i] == s[i]);
        }
        assert forall|i: int|
            #![trigger base[i]]
            0 <= i < base.len() - 1 implies !(base[i] == '.' && base[i + 1] == '.') by {
            assert(base[i] == s[i]);
            assert(base[i + 1] == s[i + 1]);
        }
        if base == "."@ {
            assert(base[0] == s[0]);
            assert(!(s[0] == '.' && s[1int] == '.'));
        }
    }
}

/// Strips a trailing `.eml` or `.ics` from an attached item's name, so that the
/// extension it is saved with is not doubled.
pub fn strip_item_ext(name: &str) -> (r: String)
    ensures
        r@ == item_base(name@),
{
    let v = text::chars_of(name);
    if v.len() > 4 {
        let tail = vstd::slice::slice_subrange(v.as_slice(), v.len() - 4, v.len());
        assert(tail@ =~= name@.skip(name@.len() - 4));
        let lower = text::string_of(text::lowercase(tail).as_slice());
        if text::same(lower.as_str(), ".eml") || text::same(lower.as_str(), ".ics") {
            let head = vstd::slice::slice_subrange(v.as_slice(), 0, v.len() - 4);
            assert(head@ =~= name@.take(name@.len() - 4));
            return text::string_of(head);
        }
    }
    name.to_string()
}

/// Whether a link leads to the web: the only kind that an attachment is opened
/// with.
pub fn is_web_url(url: &str) -> (r: bool)
    ensures
        r == linkprompt::has_web_scheme(text::trim_start(url@)),
{
    let v = text::chars_of(url);
    linkprompt::web_scheme(text::trimmed_start(v.as_slice()))
}

// ---------------------------------------------------------------------------
// The signature
// ---------------------------------------------------------------------------

/// The lines a new message ends with: none for a blank signature.
pub open spec fn signature_of(sig: Seq<char>) -> Seq<Seq<char>> {
    if text::trim(sig).len() == 0 {
        Seq::empty()
    } else {
        text::lines(sig)
    }
}

/// The lines a new message ends with: none for a blank signature.
pub fn signature_lines(sig: &str) -> (r: Vec<String>)
    ensures
        model::texts(r@) == signature_of(sig@),
{
    if text::is_blank(sig) {
        let r: Vec<String> = Vec::new();
        assert(model::texts(r@) =~= Seq::empty());
        r
    } else {
        text::lines_of(sig)
    }
}

/// The first `n` lines, a paragraph each, after an empty paragraph and a
/// separator.
pub open spec fn paragraphs(lines: Seq<Seq<char>>, n: int) -> Seq<char>
    decreases n,
{
    if n <= 0 {
        "<p></p><p>--</p>"@
    } else {
        paragraphs(lines, n - 1) + "<p>"@ + lines[n - 1] + "</p>"@
    }
}

/// The body a new message starts with, from the signature's lines as HTML
/// text: nothing without a signature; else an empty paragraph to write in, a
/// separator, and a paragraph for each line.
pub fn signature_body_html(lines: &Vec<String>) -> (r: String)
    ensures
        r@ == (if lines@.len() == 0 {
            Seq::empty()
        } else {
            paragraphs(model::texts(lines@), lines@.len() as int)
        }),
{
    if lines.len() == 0 {
        return String::new();
    }
    let mut s: String = "<p></p><p>--</p>".to_string();
    let mut i: usize = 0;
    while i < lines.len()
        invariant
            i <= lines@.len(),
            s@ == paragraphs(model::texts(lines@), i as int),
        decreases lines@.len() - i,
    {
        s.append("<p>");
        s.append(lines[i].as_str());
        s.append("</p>");
        i += 1;
    }
    s
}

}
