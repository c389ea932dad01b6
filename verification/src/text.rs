//! Text as sequences of characters: trimming, searching, splitting, reading
//! and writing decimal numbers. Everything else in the crate states its
//! contracts over these functions.

use vstd::prelude::*;

verus! {

/// `String::push` appends one character and changes nothing before it.
pub assume_specification[ String::push ](s: &mut String, c: char)
    ensures
        final(s)@ == old(s)@.push(c),
;

// ---------------------------------------------------------------------------
// Model
// ---------------------------------------------------------------------------

/// Unicode's `White_Space` property.
pub open spec fn is_white_space(c: char) -> bool {
    let n = c as int;
    ||| 0x9 <= n <= 0xd
    ||| n == 0x20
    ||| n == 0x85
    ||| n == 0xa0
    ||| n == 0x1680
    ||| 0x2000 <= n <= 0x200a
    ||| n == 0x2028
    ||| n == 0x2029
    ||| n == 0x202f
    ||| n == 0x205f
    ||| n == 0x3000
}

pub open spec fn trim_start(s: Seq<char>) -> Seq<char>
    decreases s.len(),
{
    if s.len() > 0 && is_white_space(s[0]) {
        trim_start(s.skip(1))
    } else {
        s
    }
}

pub open spec fn trim_end(s: Seq<char>) -> Seq<char>
    decreases s.len(),
{
    if s.len() > 0 && is_white_space(s.last()) {
        trim_end(s.drop_last())
    } else {
        s
    }
}

/// `s` without the white space at either end.
pub open spec fn trim(s: Seq<char>) -> Seq<char> {
    trim_end(trim_start(s))
}

pub open spec fn has_prefix(s: Seq<char>, p: Seq<char>) -> bool {
    p.len() <= s.len() && s.take(p.len() as int) == p
}

pub open spec fn has_suffix(s: Seq<char>, p: Seq<char>) -> bool {
    p.len() <= s.len() && s.skip(s.len() - p.len()) == p
}

/// The position of the first `c` in `s`, or `s.len()` where there is none.
pub open spec fn position_of(s: Seq<char>, c: char) -> nat
    decreases s.len(),
{
    if s.len() == 0 || s[0] == c {
        0
    } else {
        1 + position_of(s.skip(1), c)
    }
}

/// What stands before and after the first `c`.
pub open spec fn split_once(s: Seq<char>, c: char) -> Option<(Seq<char>, Seq<char>)> {
    let i = position_of(s, c) as int;
    if i < s.len() {
        Some((s.take(i), s.skip(i + 1)))
    } else {
        None
    }
}

/// The pieces of `s` between the `c`s: always one more than there are `c`s.
pub open spec fn split(s: Seq<char>, c: char) -> Seq<Seq<char>>
    decreases s.len(),
{
    let i = position_of(s, c) as int;
    if i < s.len() {
        seq![s.take(i)] + split(s.skip(i + 1), c)
    } else {
        seq![s]
    }
}

pub open spec fn is_digit(c: char) -> bool {
    '0' <= c <= '9'
}

pub open spec fn all_digits(s: Seq<char>) -> bool {
    forall|i: int| 0 <= i < s.len() ==> is_digit(#[trigger] s[i])
}

/// The number that a sequence of decimal digits denotes.
pub open spec fn value(s: Seq<char>) -> int
    decreases s.len(),
{
    if s.len() == 0 {
        0
    } else {
        10 * value(s.drop_last()) + (s.last() as int - '0' as int)
    }
}

/// An optional `+` and one digit or more, denoting at most `max`.
pub open spec fn parse_unsigned(s: Seq<char>, max: int) -> Option<int> {
    let body = if s.len() > 0 && s[0] == '+' {
        s.skip(1)
    } else {
        s
    };
    if body.len() > 0 && all_digits(body) && value(body) <= max {
        Some(value(body))
    } else {
        None
    }
}

/// An optional sign and one digit or more, denoting an `i64`.
pub open spec fn parse_signed(s: Seq<char>) -> Option<int> {
    if s.len() > 0 && s[0] == '-' {
        let body = s.skip(1);
        if body.len() > 0 && all_digits(body) && -value(body) >= i64::MIN {
            Some(-value(body))
        } else {
            None
        }
    } else {
        parse_unsigned(s, i64::MAX as int)
    }
}

pub open spec fn digit_char(d: int) -> char {
    (d + 48) as char
}

/// The decimal digits of `n`, without leading zeros.
pub open spec fn decimal(n: nat) -> Seq<char>
    decreases n,
{
    if n < 10 {
        seq![digit_char(n as int)]
    } else {
        decimal(n / 10).push(digit_char((n % 10) as int))
    }
}

pub open spec fn zeros(n: int) -> Seq<char> {
    Seq::new((if n > 0 { n } else { 0 }) as nat, |i: int| '0')
}

pub open spec fn spaces(n: int) -> Seq<char> {
    Seq::new((if n > 0 { n } else { 0 }) as nat, |i: int| ' ')
}

/// `n` in decimal, filled with zeros after the sign to at least `width`
/// characters.
pub open spec fn padded(n: int, width: int) -> Seq<char> {
    if n < 0 {
        let d = decimal((-n) as nat);
        seq!['-'] + zeros(width - 1 - d.len()) + d
    } else {
        let d = decimal(n as nat);
        zeros(width - d.len()) + d
    }
}

/// `n` in decimal, with a sign where it is negative.
pub open spec fn integer(n: int) -> Seq<char> {
    padded(n, 0)
}

pub open spec fn ascii_lower(c: char) -> char {
    if 'A' <= c <= 'Z' {
        (c as int + 32) as char
    } else {
        c
    }
}

pub open spec fn ascii_lowercase(s: Seq<char>) -> Seq<char> {
    s.map_values(|c: char| ascii_lower(c))
}

/// Each byte read as the character with that number.
pub open spec fn latin(b: Seq<u8>) -> Seq<char> {
    Seq::new(b.len(), |i: int| b[i] as char)
}

// ---------------------------------------------------------------------------
// Between strings and characters
// ---------------------------------------------------------------------------

/// The characters of `s`.
pub fn chars_of(s: &str) -> (r: Vec<char>)
    ensures
        r@ == s@,
{
    let mut v: Vec<char> = Vec::new();
    for c in it: s.chars()
        invariant
            v@ == it.seq().take(it.index() as int),
    {
        v.push(c);
    }
    v
}

/// The string that holds the characters of `v`.
pub fn string_of(v: &[char]) -> (r: String)
    ensures
        r@ == v@,
{
    let mut s: String = String::new();
    let mut i: usize = 0;
    while i < v.len()
        invariant
            i <= v.len(),
            s@ == v@.take(i as int),
        decreases v.len() - i,
    {
        s.push(v[i]);
        i += 1;
    }
    s
}

/// `bytes[from..to]`, each byte read as a character.
pub fn latin_of(bytes: &[u8], from: usize, to: usize) -> (r: Vec<char>)
    requires
        from <= to <= bytes@.len(),
    ensures
        r@ == latin(bytes@.subrange(from as int, to as int)),
{
    let mut v: Vec<char> = Vec::new();
    let mut i: usize = from;
    while i < to
        invariant
            from <= i <= to <= bytes@.len(),
            v@ == latin(bytes@.subrange(from as int, i as int)),
        decreases to - i,
    {
        v.push(bytes[i] as char);
        i += 1;
        assert(v@ =~= latin(bytes@.subrange(from as int, i as int)));
    }
    v
}

/// Whether two strings hold the same characters.
pub fn same(a: &str, b: &str) -> (r: bool)
    ensures
        r == (a@ == b@),
{
    let x = chars_of(a);
    let y = chars_of(b);
    same_chars(x.as_slice(), y.as_slice())
}

pub fn same_chars(x: &[char], y: &[char]) -> (r: bool)
    ensures
        r == (x@ == y@),
{
    if x.len() != y.len() {
        return false;
    }
    let mut i: usize = 0;
    while i < x.len()
        invariant
            i <= x.len(),
            x.len() == y.len(),
            x@.take(i as int) == y@.take(i as int),
        decreases x.len() - i,
    {
        if x[i] != y[i] {
            assert(x@[i as int] != y@[i as int]);
            return false;
        }
        i += 1;
        assert(x@.take(i as int) =~= x@.take(i - 1).push(x@[i - 1]));
        assert(y@.take(i as int) =~= y@.take(i - 1).push(y@[i - 1]));
    }
    assert(x@.take(i as int) =~= x@);
    assert(y@.take(i as int) =~= y@);
    true
}

// ---------------------------------------------------------------------------
// Trimming and searching
// ---------------------------------------------------------------------------

/// The code point of a character.
pub fn code(c: char) -> (r: u32)
    ensures
        r as int == c as int,
{
    c as u32
}

pub fn is_space(c: char) -> (r: bool)
    ensures
        r == is_white_space(c),
{
    let n: u32 = c as u32;
    (0x9 <= n && n <= 0xd) || n == 0x20 || n == 0x85 || n == 0xa0 || n == 0x1680 || (0x2000 <= n
        && n <= 0x200a) || n == 0x2028 || n == 0x2029 || n == 0x202f || n == 0x205f || n == 0x3000
}

/// The bounds of what is left of `v` once both ends are trimmed.
fn trim_bounds(v: &[char]) -> (r: (usize, usize))
    ensures
        r.0 <= r.1 <= v@.len(),
        v@.subrange(r.0 as int, r.1 as int) == trim(v@),
{
    let mut a: usize = 0;
    assert(v@.skip(0) =~= v@);
    while a < v.len() && is_space(v[a])
        invariant
            a <= v@.len(),
            trim_start(v@.skip(a as int)) == trim_start(v@),
        decreases v@.len() - a,
    {
        assert(v@.skip(a as int).skip(1) =~= v@.skip(a as int + 1));
        a += 1;
    }
    let ghost t = trim_start(v@);
    assert(t == v@.skip(a as int));
    let mut b: usize = v.len();
    assert(v@.subrange(a as int, b as int) =~= t);
    while b > a && is_space(v[b - 1])
        invariant
            a <= b <= v@.len(),
            trim_end(v@.subrange(a as int, b as int)) == trim_end(t),
        decreases b,
    {
        assert(v@.subrange(a as int, b as int).drop_last() =~= v@.subrange(
            a as int,
            b as int - 1,
        ));
        b -= 1;
    }
    (a, b)
}

/// `v` without the white space at either end.
pub fn trimmed(v: &[char]) -> (r: &[char])
    ensures
        r@ == trim(v@),
{
    let (a, b) = trim_bounds(v);
    vstd::slice::slice_subrange(v, a, b)
}

/// `s` without the white space at either end.
pub fn trim_str(s: &str) -> (r: Vec<char>)
    ensures
        r@ == trim(s@),
{
    let v = chars_of(s);
    let t = trimmed(v.as_slice());
    vstd::slice::slice_to_vec(t)
}

/// Whether nothing is left of `s` once it is trimmed.
pub fn is_blank(s: &str) -> (r: bool)
    ensures
        r == (trim(s@).len() == 0),
{
    trim_str(s).len() == 0
}

pub fn starts_with(v: &[char], p: &str) -> (r: bool)
    ensures
        r == has_prefix(v@, p@),
{
    let q = chars_of(p);
    if q.len() > v.len() {
        return false;
    }
    let head = vstd::slice::slice_subrange(v, 0, q.len());
    assert(head@ =~= v@.take(q@.len() as int));
    same_chars(head, q.as_slice())
}

pub fn ends_with(v: &[char], p: &str) -> (r: bool)
    ensures
        r == has_suffix(v@, p@),
{
    let q = chars_of(p);
    if q.len() > v.len() {
        return false;
    }
    let tail = vstd::slice::slice_subrange(v, v.len() - q.len(), v.len());
    assert(tail@ =~= v@.skip(v@.len() - q@.len()));
    same_chars(tail, q.as_slice())
}

/// The position of the first `c`, or the length where there is none.
pub fn find(v: &[char], c: char) -> (r: usize)
    ensures
        r == position_of(v@, c),
        r <= v@.len(),
        r < v@.len() ==> v@[r as int] == c,
        forall|j: int| 0 <= j < r ==> v@[j] != c,
{
    let mut i: usize = 0;
    assert(v@.skip(0) =~= v@);
    while i < v.len() && v[i] != c
        invariant
            i <= v@.len(),
            position_of(v@, c) == i + position_of(v@.skip(i as int), c),
            forall|j: int| 0 <= j < i ==> v@[j] != c,
        decreases v@.len() - i,
    {
        assert(v@.skip(i as int).skip(1) =~= v@.skip(i as int + 1));
        i += 1;
    }
    i
}

/// What stands before and after the first `c`.
pub fn split_at_first(v: &[char], c: char) -> (r: Option<(&[char], &[char])>)
    ensures
        match r {
            Some((a, b)) => split_once(v@, c) == Some((a@, b@)),
            None => split_once(v@, c) is None,
        },
{
    let i = find(v, c);
    if i < v.len() {
        let a = vstd::slice::slice_subrange(v, 0, i);
        let b = vstd::slice::slice_subrange(v, i + 1, v.len());
        assert(a@ =~= v@.take(i as int));
        assert(b@ =~= v@.skip(i as int + 1));
        Some((a, b))
    } else {
        None
    }
}

/// `s` without its last character, if it has one.
pub open spec fn shortened(s: Seq<char>) -> Seq<char> {
    if s.len() > 0 {
        s.drop_last()
    } else {
        s
    }
}

/// `s` without its last character, if it has one.
pub fn without_last(s: &str) -> (r: String)
    ensures
        r@ == shortened(s@),
{
    let v = chars_of(s);
    if v.len() == 0 {
        return s.to_string();
    }
    let head = vstd::slice::slice_subrange(v.as_slice(), 0, v.len() - 1);
    assert(head@ =~= s@.drop_last());
    string_of(head)
}

/// The position of the last `c` in `s`, or -1 where there is none.
pub open spec fn last_position_of(s: Seq<char>, c: char) -> int
    decreases s.len(),
{
    if s.len() == 0 {
        -1
    } else if s.last() == c {
        s.len() - 1
    } else {
        last_position_of(s.drop_last(), c)
    }
}

/// The position of the last `c`.
pub fn find_last(v: &[char], c: char) -> (r: Option<usize>)
    ensures
        match r {
            Some(i) => i == last_position_of(v@, c) && i < v@.len(),
            None => last_position_of(v@, c) == -1,
        },
{
    let mut n: usize = v.len();
    assert(v@.take(n as int) =~= v@);
    while n > 0
        invariant
            n <= v@.len(),
            last_position_of(v@, c) == last_position_of(v@.take(n as int), c),
        decreases n,
    {
        if v[n - 1] == c {
            return Some(n - 1);
        }
        assert(v@.take(n as int).drop_last() =~= v@.take(n - 1));
        n -= 1;
    }
    None
}

/// `v` without the white space in front.
pub fn trimmed_start(v: &[char]) -> (r: &[char])
    ensures
        r@ == trim_start(v@),
{
    let mut a: usize = 0;
    assert(v@.skip(0) =~= v@);
    while a < v.len() && is_space(v[a])
        invariant
            a <= v@.len(),
            trim_start(v@.skip(a as int)) == trim_start(v@),
        decreases v@.len() - a,
    {
        assert(v@.skip(a as int).skip(1) =~= v@.skip(a as int + 1));
        a += 1;
    }
    let r = vstd::slice::slice_subrange(v, a, v.len());
    assert(r@ =~= v@.skip(a as int));
    r
}

/// The pieces of `v` between the `c`s.
pub fn split_all(v: &[char], c: char) -> (r: Vec<Vec<char>>)
    ensures
        r@.len() == split(v@, c).len(),
        forall|i: int| 0 <= i < r@.len() ==> (#[trigger] r@[i])@ == split(v@, c)[i],
{
    let mut out: Vec<Vec<char>> = Vec::new();
    let mut from: usize = 0;
    let ghost all = split(v@, c);
    assert(v@.skip(0) =~= v@);
    assert(all =~= Seq::<Seq<char>>::empty() + split(v@.skip(0), c));
    loop
        invariant
            from <= v@.len(),
            all == split(v@, c),
            out@.len() <= all.len(),
            forall|i: int| 0 <= i < out@.len() ==> (#[trigger] out@[i])@ == all[i],
            all.skip(out@.len() as int) == split(v@.skip(from as int), c),
        decreases v@.len() - from,
    {
        let rest = vstd::slice::slice_subrange(v, from, v.len());
        assert(rest@ =~= v@.skip(from as int));
        let ghost n = out@.len() as int;
        assert(split(rest@, c).len() > 0);
        assert(all.skip(n).len() == all.len() - n);
        let k = find(rest, c);
        if k >= rest.len() {
            out.push(vstd::slice::slice_to_vec(rest));
            assert(all.skip(n)[0] == rest@);
            assert(all[n] == rest@);
            assert(all.skip(n).len() == 1);
            return out;
        }
        let piece = vstd::slice::slice_subrange(rest, 0, k);
        assert(piece@ =~= rest@.take(k as int));
        out.push(vstd::slice::slice_to_vec(piece));
        from = from + k + 1;
        assert(rest@.skip(k as int + 1) =~= v@.skip(from as int));
        assert(all.skip(n)[0] == piece@);
        assert(all[n] == piece@);
        assert(all.skip(n + 1) =~= all.skip(n).skip(1));
        assert(all.skip(n).skip(1) =~= split(v@.skip(from as int), c));
    }
}

/// The lines of a text: what stands between the line feeds, without a carriage
/// return in front of one; nothing after the last.
pub open spec fn lines(s: Seq<char>) -> Seq<Seq<char>>
    decreases s.len(),
{
    if s.len() == 0 {
        Seq::empty()
    } else {
        let i = position_of(s, '\n') as int;
        if i < s.len() {
            seq![without_return(s.take(i))] + lines(s.skip(i + 1))
        } else {
            seq![s]
        }
    }
}

pub open spec fn without_return(s: Seq<char>) -> Seq<char> {
    if s.len() > 0 && s.last() == '\r' {
        s.drop_last()
    } else {
        s
    }
}

/// The lines of a text.
pub fn lines_of(s: &str) -> (r: Vec<String>)
    ensures
        crate::model::texts(r@) == lines(s@),
{
    let v = chars_of(s);
    let mut out: Vec<String> = Vec::new();
    let mut from: usize = 0;
    assert(v@.skip(0) =~= v@);
    assert(lines(s@) =~= crate::model::texts(out@) + lines(v@.skip(0)));
    while from < v.len()
        invariant
            from <= v@.len(),
            lines(s@) == crate::model::texts(out@) + lines(v@.skip(from as int)),
        decreases v@.len() - from,
    {
        let rest = vstd::slice::slice_subrange(v.as_slice(), from, v.len());
        assert(rest@ =~= v@.skip(from as int));
        let ghost before = out@;
        let k = find(rest, '\n');
        if k >= rest.len() {
            out.push(string_of(rest));
            proof {
                crate::model::lemma_texts_push(before, out@.last());
                assert(crate::model::texts(out@) =~= crate::model::texts(before) + seq![rest@]);
            }
            return out;
        }
        let end: usize = if k > 0 && rest[k - 1] == '\r' {
            k - 1
        } else {
            k
        };
        let line = vstd::slice::slice_subrange(rest, 0, end);
        assert(line@ =~= without_return(rest@.take(k as int)));
        out.push(string_of(line));
        from = from + k + 1;
        proof {
            crate::model::lemma_texts_push(before, out@.last());
            assert(rest@.skip(k as int + 1) =~= v@.skip(from as int));
            assert(crate::model::texts(before) + (seq![line@] + lines(v@.skip(from as int)))
                =~= crate::model::texts(out@) + lines(v@.skip(from as int)));
        }
    }
    assert(v@.skip(from as int) =~= Seq::empty());
    assert(lines(s@) =~= crate::model::texts(out@));
    out
}

/// The text of the bytes from `from` to `to`, where there are that many and both
/// lie between characters.
pub open spec fn get(s: Seq<char>, from: int, to: int) -> Option<Seq<char>> {
    let b = vstd::utf8::encode_utf8(s);
    if 0 <= from <= to <= b.len() && vstd::utf8::is_char_boundary(b, to)
        && vstd::utf8::is_char_boundary(b.subrange(0, to), from) {
        Some(vstd::utf8::decode_utf8(b.subrange(from, to)))
    } else {
        None
    }
}

/// The text of the bytes from `from` to `to`, where there are that many and both
/// lie between characters.
pub fn get_bytes(s: &str, from: usize, to: usize) -> (r: Option<String>)
    requires
        from <= to,
    ensures
        match r {
            Some(t) => get(s@, from as int, to as int) == Some(t@),
            None => get(s@, from as int, to as int) is None,
        },
{
    let ghost b = vstd::utf8::encode_utf8(s@);
    let n = s.as_bytes().len();
    if to > n || !s.is_char_boundary(to) {
        return None;
    }
    let (head, _) = s.split_at(to);
    assert(vstd::utf8::encode_utf8(head@) =~= b.subrange(0, to as int));
    if !head.is_char_boundary(from) {
        return None;
    }
    let (_, mid) = head.split_at(from);
    proof {
        assert(vstd::utf8::encode_utf8(mid@) =~= b.subrange(from as int, to as int));
        vstd::utf8::encode_utf8_decode_utf8(mid@);
    }
    Some(mid.to_string())
}

// ---------------------------------------------------------------------------
// Order
// ---------------------------------------------------------------------------

/// `a` comes before `b`, or is the same, in the order of the characters.
pub open spec fn text_le(a: Seq<char>, b: Seq<char>) -> bool
    decreases a.len(),
{
    if a.len() == 0 {
        true
    } else if b.len() == 0 {
        false
    } else if a[0] == b[0] {
        text_le(a.skip(1), b.skip(1))
    } else {
        a[0] < b[0]
    }
}

pub proof fn text_le_is_total(a: Seq<char>, b: Seq<char>)
    ensures
        text_le(a, b) || text_le(b, a),
    decreases a.len(),
{
    if a.len() > 0 && b.len() > 0 && a[0] == b[0] {
        text_le_is_total(a.skip(1), b.skip(1));
    }
}

pub proof fn text_le_is_transitive(a: Seq<char>, b: Seq<char>, c: Seq<char>)
    requires
        text_le(a, b),
        text_le(b, c),
    ensures
        text_le(a, c),
    decreases a.len(),
{
    if a.len() > 0 && b.len() > 0 && c.len() > 0 && a[0] == b[0] && b[0] == c[0] {
        text_le_is_transitive(a.skip(1), b.skip(1), c.skip(1));
    }
}

pub proof fn text_le_is_antisymmetric(a: Seq<char>, b: Seq<char>)
    requires
        text_le(a, b),
        text_le(b, a),
    ensures
        a == b,
    decreases a.len(),
{
    if a.len() > 0 && b.len() > 0 {
        text_le_is_antisymmetric(a.skip(1), b.skip(1));
        assert(a =~= seq![a[0]] + a.skip(1));
        assert(b =~= seq![b[0]] + b.skip(1));
    } else {
        assert(a =~= b);
    }
}

/// Whether `a` comes before `b`, or is the same.
pub fn le_text(a: &str, b: &str) -> (r: bool)
    ensures
        r == text_le(a@, b@),
{
    let x = chars_of(a);
    let y = chars_of(b);
    let mut i: usize = 0;
    assert(x@.skip(0) =~= x@);
    assert(y@.skip(0) =~= y@);
    while i < x.len() && i < y.len() && x[i] == y[i]
        invariant
            i <= x@.len(),
            i <= y@.len(),
            text_le(x@, y@) == text_le(x@.skip(i as int), y@.skip(i as int)),
        decreases x@.len() - i,
    {
        assert(x@.skip(i as int).skip(1) =~= x@.skip(i as int + 1));
        assert(y@.skip(i as int).skip(1) =~= y@.skip(i as int + 1));
        i += 1;
    }
    if i >= x.len() {
        return true;
    }
    if i >= y.len() {
        return false;
    }
    assert(x@.skip(i as int)[0] == x@[i as int]);
    assert(y@.skip(i as int)[0] == y@[i as int]);
    x[i] < y[i]
}

// ---------------------------------------------------------------------------
// Numbers
// ---------------------------------------------------------------------------

pub proof fn lemma_value_bounds(s: Seq<char>)
    requires
        all_digits(s),
    ensures
        0 <= value(s),
    decreases s.len(),
{
    if s.len() > 0 {
        assert(all_digits(s.drop_last()));
        lemma_value_bounds(s.drop_last());
        assert(is_digit(s.last()));
    }
}

/// A prefix of digits denotes no more than the whole.
proof fn lemma_value_prefix(s: Seq<char>, i: int)
    requires
        all_digits(s),
        0 <= i <= s.len(),
    ensures
        0 <= value(s.take(i)) <= value(s),
    decreases s.len() - i,
{
    assert(all_digits(s.take(i)));
    lemma_value_bounds(s.take(i));
    if i < s.len() {
        lemma_value_prefix(s, i + 1);
        assert(s.take(i + 1).drop_last() =~= s.take(i));
        assert(is_digit(s[i]));
        assert(s.take(i + 1).last() == s[i]);
    } else {
        assert(s.take(i) =~= s);
    }
}

/// The value of `v` where it is digits and at most `max`.
fn read_digits(v: &[char], max: u64) -> (r: Option<u64>)
    ensures
        match r {
            Some(n) => v@.len() > 0 && all_digits(v@) && value(v@) == n && n <= max,
            None => !(v@.len() > 0 && all_digits(v@) && value(v@) <= max),
        },
{
    if v.len() == 0 {
        return None;
    }
    let mut n: u64 = 0;
    let mut i: usize = 0;
    while i < v.len()
        invariant
            i <= v@.len(),
            n <= max,
            all_digits(v@.take(i as int)),
            n == value(v@.take(i as int)),
        decreases v@.len() - i,
    {
        let c = v[i];
        if !('0' <= c && c <= '9') {
            assert(!is_digit(v@[i as int]));
            return None;
        }
        let d: u64 = (c as u32 - 48) as u64;
        proof {
            assert(v@.take(i + 1).drop_last() =~= v@.take(i as int));
            assert(v@.take(i + 1).last() == c);
            assert(is_digit(c));
            assert(all_digits(v@.take(i + 1))) by {
                assert forall|j: int| 0 <= j < i + 1 implies is_digit(
                    #[trigger] v@.take(i + 1)[j],
                ) by {
                    if j < i {
                        assert(v@.take(i as int)[j] == v@.take(i + 1)[j]);
                    }
                }
            }
            assert(value(v@.take(i + 1)) == 10 * n + d);
        }
        let m: u128 = (n as u128) * 10 + d as u128;
        if m > max as u128 {
            proof {
                if all_digits(v@) {
                    lemma_value_prefix(v@, i + 1);
                }
            }
            return None;
        }
        n = m as u64;
        i += 1;
    }
    assert(v@.take(i as int) =~= v@);
    Some(n)
}

/// Reads an optional `+` and digits that denote a `u32`.
pub fn read_u32(v: &[char]) -> (r: Option<u32>)
    ensures
        match r {
            Some(n) => parse_unsigned(v@, u32::MAX as int) == Some(n as int),
            None => parse_unsigned(v@, u32::MAX as int) is None,
        },
{
    let body = if v.len() > 0 && v[0] == '+' {
        vstd::slice::slice_subrange(v, 1, v.len())
    } else {
        v
    };
    assert(v@.len() > 0 && v@[0] == '+' ==> body@ =~= v@.skip(1));
    match read_digits(body, u32::MAX as u64) {
        Some(n) => Some(n as u32),
        None => None,
    }
}

/// Reads an optional `+` and digits that denote a `u64`.
pub fn read_u64(v: &[char]) -> (r: Option<u64>)
    ensures
        match r {
            Some(n) => parse_unsigned(v@, u64::MAX as int) == Some(n as int),
            None => parse_unsigned(v@, u64::MAX as int) is None,
        },
{
    let body = if v.len() > 0 && v[0] == '+' {
        vstd::slice::slice_subrange(v, 1, v.len())
    } else {
        v
    };
    assert(v@.len() > 0 && v@[0] == '+' ==> body@ =~= v@.skip(1));
    read_digits(body, u64::MAX)
}

/// Reads an optional sign and digits that denote an `i64`.
pub fn read_i64(v: &[char]) -> (r: Option<i64>)
    ensures
        match r {
            Some(n) => parse_signed(v@) == Some(n as int),
            None => parse_signed(v@) is None,
        },
{
    if v.len() > 0 && v[0] == '-' {
        let body = vstd::slice::slice_subrange(v, 1, v.len());
        assert(body@ =~= v@.skip(1));
        match read_digits(body, 0x8000_0000_0000_0000) {
            Some(n) => {
                if n == 0x8000_0000_0000_0000 {
                    Some(i64::MIN)
                } else {
                    Some(-(n as i64))
                }
            },
            None => None,
        }
    } else {
        let body = if v.len() > 0 && v[0] == '+' {
            vstd::slice::slice_subrange(v, 1, v.len())
        } else {
            v
        };
        assert(v@.len() > 0 && v@[0] == '+' ==> body@ =~= v@.skip(1));
        match read_digits(body, i64::MAX as u64) {
            Some(n) => Some(n as i64),
            None => None,
        }
    }
}

pub proof fn lemma_decimal_len(n: nat)
    ensures
        decimal(n).len() >= 1,
        all_digits(decimal(n)),
    decreases n,
{
    if n >= 10 {
        lemma_decimal_len(n / 10);
        assert forall|i: int| 0 <= i < decimal(n).len() implies is_digit(
            #[trigger] decimal(n)[i],
        ) by {
            if i < decimal(n / 10).len() {
                assert(decimal(n)[i] == decimal(n / 10)[i]);
            }
        }
    }
}

/// Reading back the digits of a number gives the number.
pub proof fn lemma_decimal_value(n: nat)
    ensures
        value(decimal(n)) == n,
    decreases n,
{
    reveal_with_fuel(value, 2);
    if n >= 10 {
        lemma_decimal_value(n / 10);
        assert(decimal(n).drop_last() =~= decimal(n / 10));
    } else {
        assert(decimal(n).drop_last() =~= Seq::<char>::empty());
    }
}

/// Appends the digits of `n`.
fn push_decimal(s: &mut String, n: u128)
    ensures
        final(s)@ == old(s)@ + decimal(n as nat),
    decreases n,
{
    if n < 10 {
        s.push(((n as u8) + 48u8) as char);
        assert(s@ =~= old(s)@ + decimal(n as nat));
    } else {
        push_decimal(s, n / 10);
        s.push((((n % 10) as u8) + 48u8) as char);
        assert(s@ =~= old(s)@ + decimal(n as nat));
    }
}

/// Appends `n`, filled with zeros to at least `width` characters.
pub fn push_padded(s: &mut String, n: i128, width: usize)
    requires
        n > i128::MIN,
        width <= 64,
    ensures
        final(s)@ == old(s)@ + padded(n as int, width as int),
{
    let mut d: String = String::new();
    let m: u128 = if n < 0 {
        (-n) as u128
    } else {
        n as u128
    };
    push_decimal(&mut d, m);
    proof {
        lemma_decimal_len(m as nat);
    }
    assert(d@ =~= decimal(m as nat));
    let digits = chars_of(d.as_str());
    let room: usize = if n < 0 {
        s.push('-');
        if width > 0 {
            width - 1
        } else {
            0
        }
    } else {
        width
    };
    let ghost start = s@;
    let mut k: usize = digits.len();
    while k < room
        invariant
            digits@.len() >= 1,
            digits@.len() <= k,
            k <= room || k == digits@.len(),
            s@ == start + zeros(k - digits@.len()),
        decreases room - k,
    {
        s.push('0');
        k += 1;
        assert(s@ =~= start + zeros(k - digits@.len()));
    }
    s.append(d.as_str());
    assert(s@ =~= old(s)@ + padded(n as int, width as int));
}

/// Appends `n` in decimal.
pub fn push_integer(s: &mut String, n: i128)
    requires
        n > i128::MIN,
    ensures
        final(s)@ == old(s)@ + integer(n as int),
{
    push_padded(s, n, 0);
}

/// Appends `n` spaces.
pub fn push_spaces(s: &mut String, n: usize)
    ensures
        final(s)@ == old(s)@ + spaces(n as int),
{
    let ghost before = s@;
    let mut i: usize = 0;
    assert(before + spaces(0) =~= before);
    while i < n
        invariant
            i <= n,
            s@ == before + spaces(i as int),
        decreases n - i,
    {
        s.push(' ');
        i += 1;
        assert(before + spaces(i as int) =~= (before + spaces(i - 1)).push(' '));
    }
}

pub fn lower(c: char) -> (r: char)
    ensures
        r == ascii_lower(c),
{
    if 'A' <= c && c <= 'Z' {
        ((c as u8) + 32u8) as char
    } else {
        c
    }
}

/// `v` with ASCII capitals made small.
pub fn lowercase(v: &[char]) -> (r: Vec<char>)
    ensures
        r@ == ascii_lowercase(v@),
{
    let mut out: Vec<char> = Vec::new();
    let mut i: usize = 0;
    while i < v.len()
        invariant
            i <= v@.len(),
            out@ == ascii_lowercase(v@.take(i as int)),
        decreases v@.len() - i,
    {
        out.push(lower(v[i]));
        i += 1;
        assert(out@ =~= ascii_lowercase(v@.take(i as int)));
    }
    assert(v@.take(i as int) =~= v@);
    out
}


// ---------------------------------------------------------------------------
// Laws
// ---------------------------------------------------------------------------

/// The first occurrence is the one with none before it.
pub proof fn lemma_position(s: Seq<char>, c: char, i: int)
    requires
        0 <= i < s.len(),
        s[i] == c,
        forall|j: int| 0 <= j < i ==> s[j] != c,
    ensures
        position_of(s, c) == i,
    decreases i,
{
    if i > 0 {
        lemma_position(s.skip(1), c, i - 1);
    }
}

/// A character that does not occur is found nowhere.
pub proof fn lemma_no_position(s: Seq<char>, c: char)
    requires
        forall|j: int| 0 <= j < s.len() ==> s[j] != c,
    ensures
        position_of(s, c) == s.len(),
    decreases s.len(),
{
    if s.len() > 0 {
        assert(s[0] != c);
        assert forall|j: int| 0 <= j < s.skip(1).len() implies s.skip(1)[j] != c by {
            assert(s.skip(1)[j] == s[j + 1]);
        }
        lemma_no_position(s.skip(1), c);
    }
}

/// Leading zeros do not change what digits denote.
pub proof fn lemma_value_zeros(k: int, d: Seq<char>)
    requires
        k >= 0,
    ensures
        value(zeros(k) + d) == value(d),
    decreases k + d.len(),
{
    let s = zeros(k) + d;
    if d.len() > 0 {
        assert(s.drop_last() =~= zeros(k) + d.drop_last());
        assert(s.last() == d.last());
        lemma_value_zeros(k, d.drop_last());
    } else if k > 0 {
        assert(s.drop_last() =~= zeros(k - 1) + d);
        assert(s.last() == '0');
        lemma_value_zeros(k - 1, d);
    }
}

proof fn lemma_decimal_short(n: nat)
    requires
        n < 10000,
    ensures
        n < 100 ==> decimal(n).len() <= 2,
        decimal(n).len() <= 4,
{
    reveal_with_fuel(decimal, 4);
}

/// A number of at most `width` digits, filled to two or four characters,
/// is `width` digits that denote it.
pub proof fn lemma_padded(n: int, width: int)
    requires
        0 <= n < 10000,
        width == 4 || (width == 2 && n < 100),
    ensures
        padded(n, width).len() == width,
        all_digits(padded(n, width)),
        value(padded(n, width)) == n,
        parse_unsigned(padded(n, width), u32::MAX as int) == Some(n),
        parse_unsigned(padded(n, width), i64::MAX as int) == Some(n),
        parse_signed(padded(n, width)) == Some(n),
{
    let d = decimal(n as nat);
    lemma_decimal_short(n as nat);
    lemma_decimal_len(n as nat);
    lemma_decimal_value(n as nat);
    lemma_value_zeros(width - d.len(), d);
    let p = padded(n, width);
    assert forall|i: int| 0 <= i < p.len() implies is_digit(#[trigger] p[i]) by {
        if i >= width - d.len() {
            assert(p[i] == d[i - (width - d.len())]);
        }
    }
    assert(is_digit(p[0]));
}

/// What neither begins nor ends with white space is left as it is.
pub proof fn lemma_trim_none(s: Seq<char>)
    requires
        s.len() > 0 ==> !is_white_space(s[0]) && !is_white_space(s.last()),
    ensures
        trim(s) == s,
{
}

/// Text without capitals is left as it is.
pub proof fn lemma_lowercase_none(s: Seq<char>)
    requires
        forall|i: int| 0 <= i < s.len() ==> !('A' <= #[trigger] s[i] <= 'Z'),
    ensures
        ascii_lowercase(s) == s,
{
    assert(ascii_lowercase(s) =~= s);
}

/// The bytes of ASCII text, read one by one, are its characters.
pub proof fn lemma_latin_ascii(s: Seq<char>)
    requires
        vstd::utf8::is_ascii_chars(s),
    ensures
        vstd::utf8::encode_utf8(s).len() == s.len(),
        latin(vstd::utf8::encode_utf8(s)) == s,
{
    vstd::utf8::is_ascii_chars_encode_utf8(s);
    let b = vstd::utf8::encode_utf8(s);
    assert forall|i: int| 0 <= i < s.len() implies #[trigger] latin(b)[i] == s[i] by {
        assert(s[i] as u8 == b[i]);
        assert('\0' <= s[i] <= '\u{7f}');
    }
    assert(latin(b) =~= s);
}

}
