//! The order of dates, times and time stamps.

use crate::datetime;
use crate::datetime::LocalDateTime;
use crate::text;
use crate::ui::calendar;
use vstd::prelude::*;

verus! {

// ---------------------------------------------------------------------------
// Order
// ---------------------------------------------------------------------------

/// Later dates have greater day numbers.
pub proof fn dates_are_ordered(y: int, m: int, d: int, y2: int, m2: int, d2: int)
    requires
        calendar::is_date(y, m, d),
        calendar::is_date(y2, m2, d2),
        y < y2 || (y == y2 && m < m2) || (y == y2 && m == m2 && d < d2),
    ensures
        calendar::day_number(y, m, d) < calendar::day_number(y2, m2, d2),
{
    lemma_days_add(y, m, d, calendar::month_length(y, m));
    lemma_days_add(y2, m2, 1, d2);
    if y < y2 {
        lemma_months_follow(y, m, 12);
        lemma_days_add(y, 12, 1, 31);
        lemma_days_add(y, m, 1, d);
        calendar::days_are_consecutive(y, 12, 31);
        lemma_years_follow(y + 1, y2);
        lemma_months_follow(y2, 1, m2);
    } else if m < m2 {
        calendar::days_are_consecutive(y, m, calendar::month_length(y, m));
        lemma_months_follow(y, m + 1, m2);
    } else {
        lemma_days_add(y, m, d, d2);
    }
}

proof fn lemma_days_add(y: int, m: int, d: int, e: int)
    requires
        calendar::is_date(y, m, d),
        d <= e <= calendar::month_length(y, m),
    ensures
        calendar::day_number(y, m, e) == calendar::day_number(y, m, d) + (e - d),
    decreases e - d,
{
    if d < e {
        lemma_days_add(y, m, d, e - 1);
        calendar::days_are_consecutive(y, m, e - 1);
    }
}

proof fn lemma_months_follow(y: int, m: int, n: int)
    requires
        1 <= m <= n <= 12,
    ensures
        calendar::day_number(y, m, 1) <= calendar::day_number(y, n, 1),
        m < n ==> calendar::day_number(y, m, calendar::month_length(y, m)) < calendar::day_number(
            y,
            n,
            1,
        ),
    decreases n - m,
{
    let l = calendar::month_length(y, m);
    lemma_days_add(y, m, 1, l);
    if m < n {
        calendar::days_are_consecutive(y, m, l);
        lemma_months_follow(y, m + 1, n);
    }
}

proof fn lemma_years_follow(y: int, z: int)
    requires
        y <= z,
    ensures
        calendar::day_number(y, 1, 1) <= calendar::day_number(z, 1, 1),
    decreases z - y,
{
    if y < z {
        lemma_months_follow(y, 1, 12);
        lemma_days_add(y, 12, 1, 31);
        calendar::days_are_consecutive(y, 12, 31);
        lemma_years_follow(y + 1, z);
    }
}

/// Fields of one width are compared first to last.
proof fn lemma_fields_first(p: Seq<char>, q: Seq<char>, x: Seq<char>, y: Seq<char>)
    requires
        p.len() == q.len(),
    ensures
        p == q ==> text::text_le(p + x, q + y) == text::text_le(x, y),
        p != q ==> text::text_le(p + x, q + y) == text::text_le(p, q),
    decreases p.len(),
{
    if p.len() == 0 {
        assert(p + x =~= x);
        assert(q + y =~= y);
        assert(p =~= q);
    } else {
        lemma_fields_first(p.skip(1), q.skip(1), x, y);
        assert((p + x).skip(1) =~= p.skip(1) + x);
        assert((q + y).skip(1) =~= q.skip(1) + y);
        if p[0] == q[0] && p.skip(1) == q.skip(1) {
            assert(p =~= seq![p[0]] + p.skip(1));
            assert(q =~= seq![q[0]] + q.skip(1));
        }
    }
}

/// Two digits are ordered as the numbers they denote.
proof fn lemma_two_ordered(a: int, b: int)
    requires
        0 <= a < 100,
        0 <= b < 100,
    ensures
        text::text_le(text::padded(a, 2), text::padded(b, 2)) <==> a <= b,
        text::padded(a, 2) == text::padded(b, 2) <==> a == b,
        text::padded(a, 2).len() == 2,
        text::padded(b, 2).len() == 2,
{
    text::lemma_padded(a, 2);
    text::lemma_padded(b, 2);
    let (s, t) = (text::padded(a, 2), text::padded(b, 2));
    lemma_two_value(s);
    lemma_two_value(t);
    reveal_with_fuel(text::text_le, 4);
    assert(s.skip(1)[0] == s[1] && t.skip(1)[0] == t[1]);
    assert(s.skip(1).skip(1).len() == 0);
}

proof fn lemma_two_value(s: Seq<char>)
    requires
        s.len() == 2,
        text::all_digits(s),
    ensures
        text::value(s) == 10 * (s[0] as int - 48) + (s[1] as int - 48),
        48 <= s[0] as int <= 57,
        48 <= s[1] as int <= 57,
{
    reveal_with_fuel(text::value, 3);
    assert(text::is_digit(s[0]) && text::is_digit(s[1]));
    assert(s.drop_last().last() == s[0]);
    assert(s.drop_last().drop_last().len() == 0);
}

/// Four digits are ordered as the numbers they denote.
proof fn lemma_four_ordered(a: int, b: int)
    requires
        0 <= a <= 9999,
        0 <= b <= 9999,
    ensures
        text::text_le(text::padded(a, 4), text::padded(b, 4)) <==> a <= b,
        text::padded(a, 4) == text::padded(b, 4) <==> a == b,
        text::padded(a, 4).len() == 4,
        text::padded(b, 4).len() == 4,
{
    text::lemma_padded(a, 4);
    text::lemma_padded(b, 4);
    let (s, t) = (text::padded(a, 4), text::padded(b, 4));
    lemma_four_value(s);
    lemma_four_value(t);
    let (p, q) = (s.take(2), t.take(2));
    let (x, y) = (s.skip(2), t.skip(2));
    assert(s =~= p + x);
    assert(t =~= q + y);
    lemma_fields_first(p, q, x, y);
    assert forall|i: int| 0 <= i < 2 implies text::is_digit(#[trigger] p[i]) by {
        assert(text::is_digit(s[i]));
    }
    assert forall|i: int| 0 <= i < 2 implies text::is_digit(#[trigger] q[i]) by {
        assert(text::is_digit(t[i]));
    }
    assert forall|i: int| 0 <= i < 2 implies text::is_digit(#[trigger] x[i]) by {
        assert(text::is_digit(s[i + 2]));
    }
    assert forall|i: int| 0 <= i < 2 implies text::is_digit(#[trigger] y[i]) by {
        assert(text::is_digit(t[i + 2]));
    }
    lemma_two_texts(p, q);
    lemma_two_texts(x, y);
}

/// Two texts of two digits are ordered as the numbers they denote.
proof fn lemma_two_texts(s: Seq<char>, t: Seq<char>)
    requires
        s.len() == 2,
        t.len() == 2,
        text::all_digits(s),
        text::all_digits(t),
    ensures
        text::text_le(s, t) <==> text::value(s) <= text::value(t),
        s == t <==> text::value(s) == text::value(t),
        text::value(s) == 10 * (s[0] as int - 48) + (s[1] as int - 48),
        text::value(t) == 10 * (t[0] as int - 48) + (t[1] as int - 48),
        0 <= text::value(s) <= 99,
        0 <= text::value(t) <= 99,
{
    lemma_two_value(s);
    lemma_two_value(t);
    reveal_with_fuel(text::text_le, 4);
    assert(s.skip(1)[0] == s[1] && t.skip(1)[0] == t[1]);
    assert(s.skip(1).skip(1).len() == 0);
    if text::value(s) == text::value(t) {
        assert(s =~= t);
    }
}

proof fn lemma_four_value(s: Seq<char>)
    requires
        s.len() == 4,
        text::all_digits(s),
    ensures
        text::value(s) == 1000 * (s[0] as int - 48) + 100 * (s[1] as int - 48) + 10 * (s[2] as int
            - 48) + (s[3] as int - 48),
{
    reveal_with_fuel(text::value, 5);
    let a = s.drop_last();
    let b = a.drop_last();
    let c = b.drop_last();
    assert(a.last() == s[2] && b.last() == s[1] && c.last() == s[0]);
    assert(c.drop_last().len() == 0);
}

/// A field, what parts it from the rest, and the rest.
spec fn parted(p: Seq<char>, c: char, rest: Seq<char>) -> Seq<char> {
    p + (seq![c] + rest)
}

/// Two fields alike leave the order to the rest.
proof fn lemma_parted(p: Seq<char>, q: Seq<char>, c: char, x: Seq<char>, y: Seq<char>)
    requires
        p.len() == q.len(),
    ensures
        p == q ==> text::text_le(parted(p, c, x), parted(q, c, y)) == text::text_le(x, y),
        p != q ==> text::text_le(parted(p, c, x), parted(q, c, y)) == text::text_le(p, q),
{
    lemma_fields_first(p, q, seq![c] + x, seq![c] + y);
    lemma_fields_first(seq![c], seq![c], x, y);
}

spec fn time_text(h: int, mi: int, se: int) -> Seq<char> {
    parted(
        text::padded(h, 2),
        ':',
        parted(text::padded(mi, 2), ':', parted(text::padded(se, 2), 'Z', Seq::empty())),
    )
}

/// Times of the day are ordered hour by hour, minute by minute, second by second.
proof fn lemma_times_ordered(h: int, mi: int, se: int, h2: int, mi2: int, se2: int)
    requires
        0 <= h < 24,
        0 <= mi < 60,
        0 <= se < 60,
        0 <= h2 < 24,
        0 <= mi2 < 60,
        0 <= se2 < 60,
    ensures
        text::text_le(time_text(h, mi, se), time_text(h2, mi2, se2)) <==> h * 3600 + mi * 60 + se
            <= h2 * 3600 + mi2 * 60 + se2,
{
    lemma_two_ordered(h, h2);
    lemma_two_ordered(mi, mi2);
    lemma_two_ordered(se, se2);
    let none = Seq::<char>::empty();
    let (x, y) = (
        parted(text::padded(se, 2), 'Z', none),
        parted(text::padded(se2, 2), 'Z', none),
    );
    lemma_parted(text::padded(se, 2), text::padded(se2, 2), 'Z', none, none);
    lemma_parted(text::padded(mi, 2), text::padded(mi2, 2), ':', x, y);
    lemma_parted(
        text::padded(h, 2),
        text::padded(h2, 2),
        ':',
        parted(text::padded(mi, 2), ':', x),
        parted(text::padded(mi2, 2), ':', y),
    );
}

spec fn date_text(y: int, m: int, d: int, rest: Seq<char>) -> Seq<char> {
    parted(
        text::padded(y, 4),
        '-',
        parted(text::padded(m, 2), '-', parted(text::padded(d, 2), 'T', rest)),
    )
}

/// Dates are ordered year by year, month by month, day by day; on one date the
/// rest decides.
proof fn lemma_dates_ordered(
    y: int,
    m: int,
    d: int,
    y2: int,
    m2: int,
    d2: int,
    u: Seq<char>,
    v: Seq<char>,
)
    requires
        calendar::is_date(y, m, d),
        calendar::is_date(y2, m2, d2),
        0 <= y <= 9999,
        0 <= y2 <= 9999,
    ensures
        (y, m, d) == (y2, m2, d2) ==> text::text_le(
            date_text(y, m, d, u),
            date_text(y2, m2, d2, v),
        ) == text::text_le(u, v),
        (y, m, d) != (y2, m2, d2) ==> text::text_le(
            date_text(y, m, d, u),
            date_text(y2, m2, d2, v),
        ) == (y < y2 || (y == y2 && m < m2) || (y == y2 && m == m2 && d < d2)),
{
    lemma_four_ordered(y, y2);
    lemma_two_ordered(m, m2);
    lemma_two_ordered(d, d2);
    let (s, t) = (parted(text::padded(d, 2), 'T', u), parted(text::padded(d2, 2), 'T', v));
    lemma_parted(text::padded(d, 2), text::padded(d2, 2), 'T', u, v);
    lemma_parted(text::padded(m, 2), text::padded(m2, 2), '-', s, t);
    lemma_parted(
        text::padded(y, 4),
        text::padded(y2, 4),
        '-',
        parted(text::padded(m, 2), '-', s),
        parted(text::padded(m2, 2), '-', t),
    );
}

/// It does not matter what is put together first.
proof fn lemma_assoc(a: Seq<char>, b: Seq<char>, c: Seq<char>)
    ensures
        a + b + c == a + (b + c),
{
    assert(a + b + c =~= a + (b + c));
}

proof fn lemma_stamp_parts(y: int, m: int, d: int, h: int, mi: int, se: int)
    ensures
        calendar::iso_stamp(y, m, d, h, mi, se) == date_text(y, m, d, time_text(h, mi, se)),
{
    reveal(calendar::iso_stamp);
    reveal_strlit("-");
    reveal_strlit("T");
    reveal_strlit(":");
    reveal_strlit("Z");
    assert("-"@ =~= seq!['-']);
    assert("T"@ =~= seq!['T']);
    assert(":"@ =~= seq![':']);
    assert("Z"@ =~= seq!['Z'] + Seq::<char>::empty());
    let (py, pm, pd) = (text::padded(y, 4), text::padded(m, 2), text::padded(d, 2));
    let (ph, pi, ps) = (text::padded(h, 2), text::padded(mi, 2), text::padded(se, 2));
    let a1 = py + "-"@;
    let a2 = a1 + pm;
    let a3 = a2 + "-"@;
    let a4 = a3 + pd;
    let a5 = a4 + "T"@;
    let a6 = a5 + ph;
    let a7 = a6 + ":"@;
    let a8 = a7 + pi;
    let a9 = a8 + ":"@;
    let r9 = ps + "Z"@;
    lemma_assoc(a9, ps, "Z"@);
    lemma_assoc(a8, ":"@, r9);
    let r8 = ":"@ + r9;
    lemma_assoc(a7, pi, r8);
    let r7 = pi + r8;
    lemma_assoc(a6, ":"@, r7);
    let r6 = ":"@ + r7;
    lemma_assoc(a5, ph, r6);
    let r5 = ph + r6;
    lemma_assoc(a4, "T"@, r5);
    let r4 = "T"@ + r5;
    lemma_assoc(a3, pd, r4);
    let r3 = pd + r4;
    lemma_assoc(a2, "-"@, r3);
    let r2 = "-"@ + r3;
    lemma_assoc(a1, pm, r2);
    let r1 = pm + r2;
    lemma_assoc(py, "-"@, r1);
}

/// Time stamps are ordered as the instants they denote: text that comes first is
/// the earlier time.
pub proof fn stamps_are_ordered_in_time(
    y: int,
    m: int,
    d: int,
    h: int,
    mi: int,
    se: int,
    y2: int,
    m2: int,
    d2: int,
    h2: int,
    mi2: int,
    se2: int,
)
    requires
        calendar::is_moment(y, m, d, h, mi, se),
        calendar::is_moment(y2, m2, d2, h2, mi2, se2),
        0 <= y <= 9999,
        0 <= y2 <= 9999,
    ensures
        text::text_le(
            calendar::iso_stamp(y, m, d, h, mi, se),
            calendar::iso_stamp(y2, m2, d2, h2, mi2, se2),
        ) <==> calendar::day_number(y, m, d) * 86400 + h * 3600 + mi * 60 + se
            <= calendar::day_number(y2, m2, d2) * 86400 + h2 * 3600 + mi2 * 60 + se2,
{
    lemma_stamp_parts(y, m, d, h, mi, se);
    lemma_stamp_parts(y2, m2, d2, h2, mi2, se2);
    lemma_times_ordered(h, mi, se, h2, mi2, se2);
    lemma_dates_ordered(
        y,
        m,
        d,
        y2,
        m2,
        d2,
        time_text(h, mi, se),
        time_text(h2, mi2, se2),
    );
    if (y, m, d) != (y2, m2, d2) {
        if y < y2 || (y == y2 && m < m2) || (y == y2 && m == m2 && d < d2) {
            dates_are_ordered(y, m, d, y2, m2, d2);
        } else {
            dates_are_ordered(y2, m2, d2, y, m, d);
        }
    }
}

/// To the minute too: the earlier of two times has the time stamp that comes
/// first.
pub proof fn minutes_are_ordered_in_time(a: int, b: int)
    requires
        0 <= calendar::civil(a / 1440).0 <= 9999,
        0 <= calendar::civil(b / 1440).0 <= 9999,
    ensures
        text::text_le(datetime::iso_of_min(a), datetime::iso_of_min(b)) <==> a <= b,
{
    let (y, m, d) = calendar::civil(a / 1440);
    let (y2, m2, d2) = calendar::civil(b / 1440);
    calendar::civil_is_inverse_of_day_number(a / 1440);
    calendar::civil_is_inverse_of_day_number(b / 1440);
    let (h, mi) = ((a % 1440) / 60, a % 60);
    let (h2, mi2) = ((b % 1440) / 60, b % 60);
    stamps_are_ordered_in_time(y, m, d, h, mi, 0, y2, m2, d2, h2, mi2, 0);
    lemma_minutes_whole(a);
    lemma_minutes_whole(b);
}

proof fn lemma_minutes_whole(a: int)
    ensures
        a == (a / 1440) * 1440 + ((a % 1440) / 60) * 60 + a % 60,
        0 <= (a % 1440) / 60 < 24,
        0 <= a % 60 < 60,
{
    let r = a % 1440;
    assert(r % 60 == a % 60) by {
        vstd::arithmetic::div_mod::lemma_mod_mod(a, 60, 24);
    }
}

/// What is no date of the calendar is not read as one.
#[verifier::spinoff_prover]
#[verifier::rlimit(40)]
pub proof fn impossible_dates_are_refused(y: int, m: int, d: int, now: LocalDateTime)
    requires
        0 <= y <= 9999,
        0 <= m < 100,
        0 <= d < 100,
        !calendar::is_date(y, m, d),
    ensures
        datetime::local_of(calendar::iso_date(y, m, d), now) is None,
{
    let s = calendar::iso_date(y, m, d);
    calendar::lemma_stamp_layout(y, m, d, 0, 0, 0);
    let stamp = calendar::iso_stamp(y, m, d, 0, 0, 0);
    assert(stamp.subrange(0, 10) == s);
    assert(forall|i: int| 0 <= i < 10 ==> s[i] == stamp.subrange(0, 10)[i]);
    text::lemma_padded(y, 4);
    text::lemma_padded(m, 2);
    text::lemma_padded(d, 2);
    assert(s[0] == stamp[0] && text::is_digit(stamp[0]));
    assert(s[9] == stamp[9] && text::is_digit(stamp[9]));
    text::lemma_trim_none(s);
    reveal_strlit("today");
    reveal_strlit("tomorrow");
    assert("today"@[0] == 't' && "tomorrow"@[0] == 't');
    assert(s.take(5)[0] == s[0] && s.take(8)[0] == s[0]);
    assert(vstd::utf8::is_ascii_chars(s)) by {
        assert forall|i: int| 0 <= i < s.len() implies '\0' <= #[trigger] s[i] <= '\u{7f}' by {
            assert('\0' <= stamp[i] <= '\u{7f}');
        }
    }
    vstd::utf8::is_ascii_chars_encode_utf8(s);
    assert(s[4] == '-');
    assert(s[4] as u8 == vstd::utf8::encode_utf8(s)[4]);
    assert forall|i: int| 0 <= i < s.len() implies s[i] != ' ' by {
        if i != 4 && i != 7 {
            assert(text::is_digit(stamp[i]));
        } else {
            assert(s[i] == stamp[i]);
        }
    }
    text::lemma_no_position(s, ' ');
    assert forall|i: int| 0 <= i < 4 implies s[i] != '-' by {
        assert(text::is_digit(stamp[i]));
    }
    text::lemma_position(s, '-', 4);
    let t = s.skip(5);
    assert forall|i: int| 0 <= i < 2 implies t[i] != '-' by {
        assert(text::is_digit(stamp[i + 5]));
    }
    assert(t[2] == s[7] && s[7] == stamp[7]);
    text::lemma_position(t, '-', 2);
    let u = t.skip(3);
    assert forall|i: int| 0 <= i < u.len() implies u[i] != '-' by {
        assert(text::is_digit(stamp[i + 8]));
    }
    text::lemma_no_position(u, '-');
    assert(s.take(4) =~= stamp.subrange(0, 4));
    assert(t.take(2) =~= stamp.subrange(5, 7));
    assert(u =~= stamp.subrange(8, 10));
    assert(text::split(u, '-') =~= seq![u]);
    assert(text::split(t, '-') =~= seq![t.take(2), u]);
    assert(text::split(s, '-') =~= seq![s.take(4), t.take(2), u]);
    assert(text::is_digit(text::padded(y, 4)[0]));
    assert(text::is_digit(text::padded(m, 2)[0]));
    assert(text::is_digit(text::padded(d, 2)[0]));
}

}
