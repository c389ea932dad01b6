//! Civil-calendar arithmetic and time stamps.

use crate::datetime;
use crate::text;
use vstd::prelude::*;

verus! {

// ---------------------------------------------------------------------------
// Days and dates
// ---------------------------------------------------------------------------

pub open spec fn is_leap(y: int) -> bool {
    (y % 4 == 0 && y % 100 != 0) || y % 400 == 0
}

/// How many days month `m` of year `y` has; none where there is no such month.
pub open spec fn month_length(y: int, m: int) -> int {
    if m == 2 {
        if is_leap(y) {
            29
        } else {
            28
        }
    } else if m == 4 || m == 6 || m == 9 || m == 11 {
        30
    } else if 1 <= m <= 12 {
        31
    } else {
        0
    }
}

pub open spec fn is_date(y: int, m: int, d: int) -> bool {
    1 <= m <= 12 && 1 <= d <= month_length(y, m)
}

/// Days between 1970-01-01 and the given date of the proleptic Gregorian
/// calendar. Years are counted from March, so that a leap day ends its year.
#[verifier::opaque]
pub open spec fn day_number(y: int, m: int, d: int) -> int {
    let yy = if m <= 2 {
        y - 1
    } else {
        y
    };
    365 * yy + yy / 4 - yy / 100 + yy / 400 + (153 * ((m + 9) % 12) + 2) / 5 + d - 719469
}

/// Days before the first of March of year `yoe` of a 400-year era.
spec fn era_days(yoe: int) -> int {
    365 * yoe + yoe / 4 - yoe / 100
}

spec fn year_of_era(doe: int) -> int {
    (doe - doe / 1460 + doe / 36524 - doe / 146096) / 365
}

/// The date that lies `z` days after 1970-01-01.
pub closed spec fn civil(z: int) -> (int, int, int) {
    let w = z + 719468;
    let era = w / 146097;
    let doe = w % 146097;
    let yoe = year_of_era(doe);
    let doy = doe - era_days(yoe);
    let mp = (5 * doy + 2) / 153;
    let d = doy - (153 * mp + 2) / 5 + 1;
    let m = if mp < 10 {
        mp + 3
    } else {
        mp - 9
    };
    let y = yoe + era * 400;
    (if m <= 2 {
        y + 1
    } else {
        y
    }, m, d)
}

proof fn lemma_year_of_era(doe: int)
    requires
        0 <= doe < 146097,
    ensures
        0 <= year_of_era(doe) <= 399,
        0 <= doe - era_days(year_of_era(doe)),
        year_of_era(doe) < 399 ==> doe < era_days(year_of_era(doe) + 1),
        doe - era_days(year_of_era(doe)) <= 365,
{
    let a = doe / 1460;
    let b = doe / 36524;
    let c = doe / 146096;
    let yoe = year_of_era(doe);
    let g = yoe / 4;
    let h = yoe / 100;
    assert(0 <= b <= 4);
    assert(0 <= c <= 1);
    assert(0 <= h <= 3);
    if b == 0 {
    } else if b == 1 {
    } else if b == 2 {
    } else if b == 3 {
    } else {
    }
}


proof fn lemma_era_days_monotone(a: int, b: int)
    requires
        0 <= a < b <= 400,
    ensures
        era_days(a) < era_days(b),
{
}

/// A day of an era lies in one year of it only.
proof fn lemma_year_of_era_unique(doe: int, yoe: int)
    requires
        0 <= doe < 146097,
        0 <= yoe <= 399,
        era_days(yoe) <= doe,
        yoe < 399 ==> doe < era_days(yoe + 1),
    ensures
        year_of_era(doe) == yoe,
{
    lemma_year_of_era(doe);
    let k = year_of_era(doe);
    if k < yoe {
        if k + 1 < yoe {
            lemma_era_days_monotone(k + 1, yoe);
        }
    } else if k > yoe {
        if yoe + 1 < k {
            lemma_era_days_monotone(yoe + 1, k);
        }
    }
}

/// `civil` gives a date of the calendar, and `day_number` takes it back.
#[verifier::spinoff_prover]
#[verifier::rlimit(40)]
pub proof fn civil_is_inverse_of_day_number(z: int)
    ensures
        is_date(civil(z).0, civil(z).1, civil(z).2),
        day_number(civil(z).0, civil(z).1, civil(z).2) == z,
{
    reveal(day_number);
    let w = z + 719468;
    let era = w / 146097;
    let doe = w % 146097;
    let yoe = year_of_era(doe);
    lemma_year_of_era(doe);
    let doy = doe - era_days(yoe);
    let mp = (5 * doy + 2) / 153;
    let y = yoe + era * 400;
    assert(0 <= mp <= 11);
    assert(y / 4 == yoe / 4 + era * 100);
    assert(y / 100 == yoe / 100 + era * 4);
    assert(y / 400 == era);
    let m = if mp < 10 {
        mp + 3
    } else {
        mp - 9
    };
    assert((m + 9) % 12 == mp);
    let d = doy - (153 * mp + 2) / 5 + 1;
    assert(365 * y + y / 4 - y / 100 + y / 400 == 146097 * era + era_days(yoe));
    if mp == 11 && d == 29 {
        assert(doy == 365);
        assert((y + 1) % 4 == (yoe + 1) % 4);
        assert((y + 1) % 100 == (yoe + 1) % 100);
        assert((y + 1) % 400 == (yoe + 1) % 400);
        assert(is_leap(y + 1));
    }
}

/// `day_number` of a date of the calendar is taken back by `civil`.
pub proof fn day_number_is_inverse_of_civil(y: int, m: int, d: int)
    requires
        is_date(y, m, d),
    ensures
        civil(day_number(y, m, d)) == (y, m, d),
{
    reveal(day_number);
    let yy = if m <= 2 {
        y - 1
    } else {
        y
    };
    let mp = (m + 9) % 12;
    let era = yy / 400;
    let yoe = yy % 400;
    let doy = (153 * mp + 2) / 5 + d - 1;
    let doe = era_days(yoe) + doy;
    let z = day_number(y, m, d);
    assert(yy / 4 == yoe / 4 + era * 100);
    assert(yy / 100 == yoe / 100 + era * 4);
    assert(z + 719468 == era * 146097 + doe);
    assert((y % 4 == 0) == ((if m <= 2 {
        yoe + 1
    } else {
        yoe
    }) % 4 == 0));
    assert(0 <= doy <= 365);
    if doy == 365 {
        assert(m == 2 && d == 29);
        assert((yoe + 1) % 4 == 0);
        assert((yoe + 1) % 100 != 0 || (yoe + 1) % 400 == 0);
    }
    assert(doe < 146097);
    assert(yoe < 399 ==> doe < era_days(yoe + 1));
    lemma_year_of_era_unique(doe, yoe);
    assert((z + 719468) / 146097 == era);
    assert((z + 719468) % 146097 == doe);
}

/// The days are numbered one after another: the day after a date has the
/// next number, at the end of a month and of a year too.
pub proof fn days_are_consecutive(y: int, m: int, d: int)
    requires
        is_date(y, m, d),
    ensures
        d < month_length(y, m) ==> day_number(y, m, d + 1) == day_number(y, m, d) + 1,
        d == month_length(y, m) && m < 12 ==> day_number(y, m + 1, 1) == day_number(y, m, d) + 1,
        d == month_length(y, m) && m == 12 ==> day_number(y + 1, 1, 1) == day_number(y, m, d) + 1,
        day_number(1970, 1, 1) == 0,
{
    reveal(day_number);
    let yy = if m <= 2 {
        y - 1
    } else {
        y
    };
    if m == 2 {
        assert(y % 4 == 0 ==> y / 4 == (y - 1) / 4 + 1);
        assert(y % 4 != 0 ==> y / 4 == (y - 1) / 4);
        assert(y % 100 == 0 ==> y / 100 == (y - 1) / 100 + 1);
        assert(y % 100 != 0 ==> y / 100 == (y - 1) / 100);
        assert(y % 400 == 0 ==> y / 400 == (y - 1) / 400 + 1);
        assert(y % 400 != 0 ==> y / 400 == (y - 1) / 400);
    }
    assert(m == 1 || m == 2 || m == 3 || m == 4 || m == 5 || m == 6 || m == 7 || m == 8 || m == 9
        || m == 10 || m == 11 || m == 12);
}

/// Quotient rounded down.
pub fn floor_div(a: i128, b: i128) -> (r: i128)
    requires
        b > 0,
        a > i128::MIN + b,
    ensures
        r == (a as int) / (b as int),
{
    if a >= 0 {
        a / b
    } else {
        let q: i128 = (b - 1 - a) / b;
        proof {
            let x = a as int;
            let y = b as int;
            let n = b - 1 - x;
            vstd::arithmetic::div_mod::lemma_fundamental_div_mod(n, y);
            let k = n / y;
            let r = n % y;
            assert(x == y * (-k) + (y - 1 - r)) by (nonlinear_arith)
                requires
                    n == y * k + r,
                    n == y - 1 - x,
            ;
            vstd::arithmetic::div_mod::lemma_fundamental_div_mod_converse(x, y, -k, y - 1 - r);
        }
        -q
    }
}

/// Remainder that is never negative.
pub fn floor_mod(a: i128, b: i128) -> (r: i128)
    requires
        b > 0,
        b <= 1_000_000_000,
        -0x4000_0000_0000_0000_0000_0000_0000_0000 < a < 0x4000_0000_0000_0000_0000_0000_0000_0000,
    ensures
        r == (a as int) % (b as int),
        0 <= r < b,
{
    let q: i128 = floor_div(a, b);
    proof {
        vstd::arithmetic::div_mod::lemma_fundamental_div_mod(a as int, b as int);
        vstd::arithmetic::div_mod::lemma_mod_bound(a as int, b as int);
        assert(q * b == b * q) by (nonlinear_arith);
    }
    a - q * b
}


/// The number of days between 1970-01-01 and a date.
pub fn day_of_date(y: i128, m: u32, d: u32) -> (r: i128)
    requires
        -0x1_0000_0000_0000_0000_0000 < y < 0x1_0000_0000_0000_0000_0000,
    ensures
        r == day_number(y as int, m as int, d as int),
        y >= 0 ==> -800000 <= r <= 366 * y + d + 400,
        y <= 0 ==> 366 * y - 800000 <= r <= d + 400,
{
    proof {
        reveal(day_number);
    }
    let yy: i128 = if m <= 2 {
        y - 1
    } else {
        y
    };
    let mp: i128 = ((m as i128) + 9) % 12;
    365 * yy + floor_div(yy, 4) - floor_div(yy, 100) + floor_div(yy, 400) + (153 * mp + 2) / 5 + (
    d as i128) - 719469
}

/// The date that lies `z` days after 1970-01-01.
pub fn date_of_day(z: i128) -> (r: (i128, u32, u32))
    requires
        -0x1_0000_0000_0000_0000_0000_0000 < z < 0x1_0000_0000_0000_0000_0000_0000,
    ensures
        (r.0 as int, r.1 as int, r.2 as int) == civil(z as int),
        is_date(r.0 as int, r.1 as int, r.2 as int),
        day_number(r.0 as int, r.1 as int, r.2 as int) == z,
        -0x1_0000_0000_0000_0000_0000_0000 < r.0 < 0x1_0000_0000_0000_0000_0000_0000,
{
    let w: i128 = z + 719468;
    let era: i128 = floor_div(w, 146097);
    let doe: i128 = floor_mod(w, 146097);
    proof {
        civil_is_inverse_of_day_number(z as int);
        lemma_year_of_era(doe as int);
    }
    let yoe: i128 = (doe - doe / 1460 + doe / 36524 - doe / 146096) / 365;
    let doy: i128 = doe - (365 * yoe + yoe / 4 - yoe / 100);
    let mp: i128 = (5 * doy + 2) / 153;
    let d: i128 = doy - (153 * mp + 2) / 5 + 1;
    let m: i128 = if mp < 10 {
        mp + 3
    } else {
        mp - 9
    };
    let y: i128 = yoe + era * 400;
    (if m <= 2 {
        y + 1
    } else {
        y
    }, m as u32, d as u32)
}

/// Converts a count of days since the Unix epoch into a `(year, month, day)`
/// date.
pub fn civil_from_days(z: i64) -> (r: (i64, u32, u32))
    ensures
        (r.0 as int, r.1 as int, r.2 as int) == civil(z as int),
        is_date(r.0 as int, r.1 as int, r.2 as int),
        day_number(r.0 as int, r.1 as int, r.2 as int) == z,
{
    let (y, m, d) = date_of_day(z as i128);
    proof {
        lemma_year_within_days(y as int, m as int, d as int);
    }
    (y as i64, m, d)
}

/// A date lies at least 300 times as many days from the epoch as years from
/// year 0, less the days from year 0 to the epoch.
pub proof fn lemma_year_within_days(y: int, m: int, d: int)
    requires
        is_date(y, m, d),
    ensures
        day_number(y, m, d) >= 0 ==> 0 <= 300 * y <= day_number(y, m, d) + 800000,
        day_number(y, m, d) <= 0 ==> day_number(y, m, d) - 800000 <= 300 * y <= 800000,
{
    reveal(day_number);
}

/// The inverse of `civil_from_days`: a date to a day count since the Unix
/// epoch.
pub fn days_from_civil(y: i64, m: u32, d: u32) -> (r: i64)
    requires
        i64::MIN <= day_number(y as int, m as int, d as int) <= i64::MAX,
    ensures
        r == day_number(y as int, m as int, d as int),
{
    day_of_date(y as i128, m, d) as i64
}

// ---------------------------------------------------------------------------
// Time stamps
// ---------------------------------------------------------------------------

/// `YYYY-MM-DD`.
pub open spec fn iso_date(y: int, m: int, d: int) -> Seq<char> {
    text::padded(y, 4) + "-"@ + text::padded(m, 2) + "-"@ + text::padded(d, 2)
}

/// `YYYY-MM-DDTHH:MM:SSZ`.
#[verifier::opaque]
pub open spec fn iso_stamp(y: int, m: int, d: int, h: int, mi: int, se: int) -> Seq<char> {
    iso_date(y, m, d) + "T"@ + text::padded(h, 2) + ":"@ + text::padded(mi, 2) + ":"@ + text::padded(se, 2) + "Z"@
}

/// The time stamp of the instant `secs` seconds after the Unix epoch.
pub open spec fn iso_of_unix(secs: int) -> Seq<char> {
    let (y, m, d) = civil(secs / 86400);
    let rem = secs % 86400;
    iso_stamp(y, m, d, rem / 3600, (rem % 3600) / 60, rem % 60)
}

/// The integer in bytes `from..to`, where there are that many and they hold
/// one.
pub open spec fn field(b: Seq<u8>, from: int, to: int) -> Option<int> {
    if to <= b.len() {
        text::parse_signed(text::latin(b.subrange(from, to)))
    } else {
        None
    }
}

/// The number that characters `from..to` denote, where they are all digits.
pub open spec fn digits(s: Seq<char>, from: int, to: int) -> Option<int> {
    if text::all_digits(s.subrange(from, to)) {
        Some(text::value(s.subrange(from, to)))
    } else {
        None
    }
}

/// As long as `YYYY-MM-DDTHH:MM:SSZ`, with the same marks between the numbers.
pub open spec fn is_laid_out(s: Seq<char>) -> bool {
    &&& s.len() == 20
    &&& s[4] == '-' && s[7] == '-' && s[10] == 'T' && s[13] == ':' && s[16] == ':' && s[19] == 'Z'
}

/// A day of the calendar, and a time of day.
pub open spec fn is_moment(y: int, m: int, d: int, h: int, mi: int, se: int) -> bool {
    is_date(y, m, d) && 0 <= h < 24 && 0 <= mi < 60 && 0 <= se < 60
}

/// The instant that a time stamp denotes; the Unix epoch for what is no date and
/// time written as `YYYY-MM-DDTHH:MM:SSZ`.
pub open spec fn unix_of_iso(s: Seq<char>) -> int {
    if !is_laid_out(s) {
        0
    } else {
        match (
            digits(s, 0, 4),
            digits(s, 5, 7),
            digits(s, 8, 10),
            digits(s, 11, 13),
            digits(s, 14, 16),
            digits(s, 17, 19),
        ) {
            (Some(y), Some(mo), Some(d), Some(h), Some(mi), Some(se)) => if is_moment(
                y,
                mo,
                d,
                h,
                mi,
                se,
            ) {
                day_number(y, mo, d) * 86400 + h * 3600 + mi * 60 + se
            } else {
                0
            },
            _ => 0,
        }
    }
}

proof fn lemma_field_bounds(b: Seq<u8>, from: int, to: int)
    requires
        0 <= from <= to <= from + 4,
    ensures
        field(b, from, to) matches Some(n) ==> -9999 <= n <= 9999,
        to - from == 2 ==> (field(b, from, to) matches Some(n) ==> -9 <= n <= 99),
{
    if to <= b.len() {
        let t = text::latin(b.subrange(from, to));
        lemma_short_value(t);
        if t.len() > 0 {
            lemma_short_value(t.skip(1));
        }
    }
}

/// At most four digits denote less than ten thousand.
pub proof fn lemma_short_value(s: Seq<char>)
    requires
        s.len() <= 4,
    ensures
        text::all_digits(s) ==> 0 <= text::value(s) <= 9999,
        text::all_digits(s) && s.len() <= 2 ==> text::value(s) <= 99,
        text::all_digits(s) && s.len() <= 1 ==> text::value(s) <= 9,
    decreases s.len(),
{
    if text::all_digits(s) && s.len() > 0 {
        assert(text::all_digits(s.drop_last()));
        lemma_short_value(s.drop_last());
        assert(text::is_digit(s.last()));
        if s.len() == 4 {
            let t = s.drop_last();
            lemma_short_value(t.drop_last());
            assert(text::is_digit(t.last()));
            assert(text::all_digits(t.drop_last()));
            assert(text::value(t) <= 999);
        }
    }
}

pub fn read_field(b: &[u8], from: usize, to: usize) -> (r: Option<i64>)
    requires
        from <= to <= from + 4,
        from < 1000,
    ensures
        match r {
            Some(n) => field(b@, from as int, to as int) == Some(n as int) && -9999 <= n <= 9999 && (
            to - from == 2 ==> -9 <= n <= 99),
            None => field(b@, from as int, to as int) is None,
        },
{
    proof {
        lemma_field_bounds(b@, from as int, to as int);
    }
    if to <= b.len() {
        let v = text::latin_of(b, from, to);
        text::read_i64(v.as_slice())
    } else {
        None
    }
}

fn read_digits(v: &[char], from: usize, to: usize) -> (r: Option<u32>)
    requires
        from < to <= v@.len(),
        to - from <= 4,
    ensures
        match r {
            Some(n) => digits(v@, from as int, to as int) == Some(n as int) && n <= 9999,
            None => digits(v@, from as int, to as int) is None,
        },
{
    let t = vstd::slice::slice_subrange(v, from, to);
    proof {
        lemma_short_value(t@);
        assert(t@[0] == v@[from as int]);
    }
    if '0' <= t[0] && t[0] <= '9' {
        text::read_u32(t)
    } else {
        None
    }
}

fn laid_out(v: &[char]) -> (r: bool)
    ensures
        r == is_laid_out(v@),
{
    v.len() == 20 && v[4] == '-' && v[7] == '-' && v[10] == 'T' && v[13] == ':' && v[16] == ':'
        && v[19] == 'Z'
}

/// Parses a fixed-width `YYYY-MM-DDTHH:MM:SSZ` UTC string into a Unix
/// timestamp; malformed or short input falls back to the Unix epoch.
pub fn parse_iso_utc(s: &str) -> (r: i64)
    ensures
        r == unix_of_iso(s@),
        -0x4000_0000_0000 <= r <= 0x4_0000_0000_0000,
{
    let chars = text::chars_of(s);
    let v = chars.as_slice();
    if !laid_out(v) {
        return 0;
    }
    match (
        read_digits(v, 0, 4),
        read_digits(v, 5, 7),
        read_digits(v, 8, 10),
        read_digits(v, 11, 13),
        read_digits(v, 14, 16),
        read_digits(v, 17, 19),
    ) {
        (Some(y), Some(mo), Some(d), Some(h), Some(mi), Some(se)) => {
            let known = 1 <= mo && mo <= 12 && 1 <= d && d <= datetime::days_in_month(y as i64, mo)
                && h < 24 && mi < 60 && se < 60;
            if !known {
                return 0;
            }
            let days: i128 = day_of_date(y as i128, mo, d);
            proof {
                reveal(day_number);
            }
            (days as i64) * 86400 + (h as i64) * 3600 + (mi as i64) * 60 + (se as i64)
        },
        _ => 0,
    }
}

/// `YYYY-MM-DD`.
pub fn date_text(y: i128, m: u32, d: u32) -> (r: String)
    requires
        y > i128::MIN,
    ensures
        r@ == iso_date(y as int, m as int, d as int),
{
    let mut s: String = String::new();
    text::push_padded(&mut s, y, 4);
    assert(s@ =~= text::padded(y as int, 4));
    s.append("-");
    text::push_padded(&mut s, m as i128, 2);
    s.append("-");
    text::push_padded(&mut s, d as i128, 2);
    s
}

/// `YYYY-MM-DDTHH:MM:SSZ`.
pub fn stamp_text(y: i128, m: u32, d: u32, h: u32, mi: u32, se: u32) -> (r: String)
    requires
        y > i128::MIN,
    ensures
        r@ == iso_stamp(y as int, m as int, d as int, h as int, mi as int, se as int),
{
    proof {
        reveal(iso_stamp);
    }
    let mut s: String = date_text(y, m, d);
    s.append("T");
    text::push_padded(&mut s, h as i128, 2);
    s.append(":");
    text::push_padded(&mut s, mi as i128, 2);
    s.append(":");
    text::push_padded(&mut s, se as i128, 2);
    s.append("Z");
    s
}

/// The time stamp of the instant `secs` seconds after the Unix epoch.
fn stamp_of_unix(secs: i128) -> (r: String)
    requires
        -0x1_0000_0000_0000_0000_0000 < secs < 0x1_0000_0000_0000_0000_0000,
    ensures
        r@ == iso_of_unix(secs as int),
{
    let days: i128 = floor_div(secs, 86400);
    let rem: i128 = floor_mod(secs, 86400);
    let (y, m, d) = date_of_day(days);
    stamp_text(y, m, d, (rem / 3600) as u32, ((rem % 3600) / 60) as u32, (rem % 60) as u32)
}

/// Formats a Unix timestamp as an ISO-8601 UTC string.
pub fn unix_to_iso8601(secs: i64) -> (r: String)
    ensures
        r@ == iso_of_unix(secs as int),
{
    stamp_of_unix(secs as i128)
}


/// Where each piece of a time stamp of a four-digit year stands.
pub proof fn lemma_stamp_layout(y: int, m: int, d: int, h: int, mi: int, se: int)
    requires
        0 <= y <= 9999,
        0 <= m < 100,
        0 <= d < 100,
        0 <= h < 100,
        0 <= mi < 100,
        0 <= se < 100,
    ensures
        ({
            let s = iso_stamp(y, m, d, h, mi, se);
            &&& s.len() == 20
            &&& s.subrange(0, 10) == iso_date(y, m, d)
            &&& s.subrange(0, 4) == text::padded(y, 4)
            &&& s[4] == '-'
            &&& s.subrange(5, 7) == text::padded(m, 2)
            &&& s[7] == '-'
            &&& s.subrange(8, 10) == text::padded(d, 2)
            &&& s[10] == 'T'
            &&& s.subrange(11, 13) == text::padded(h, 2)
            &&& s[13] == ':'
            &&& s.subrange(14, 16) == text::padded(mi, 2)
            &&& s[16] == ':'
            &&& s.subrange(17, 19) == text::padded(se, 2)
            &&& s[19] == 'Z'
            &&& forall|i: int|
                0 <= i < 20 && i != 4 && i != 7 && i != 10 && i != 13 && i != 16 && i != 19
                    ==> text::is_digit(#[trigger] s[i])
            &&& vstd::utf8::is_ascii_chars(s)
        }),
{
    reveal(iso_stamp);
    text::lemma_padded(y, 4);
    text::lemma_padded(m, 2);
    text::lemma_padded(d, 2);
    text::lemma_padded(h, 2);
    text::lemma_padded(mi, 2);
    text::lemma_padded(se, 2);
    reveal_strlit("-");
    reveal_strlit("T");
    reveal_strlit(":");
    reveal_strlit("Z");
    let s = iso_stamp(y, m, d, h, mi, se);
    assert(s.len() == 20);
    assert(s.subrange(0, 10) =~= iso_date(y, m, d));
    assert(s.subrange(0, 4) =~= text::padded(y, 4));
    assert(s.subrange(5, 7) =~= text::padded(m, 2));
    assert(s.subrange(8, 10) =~= text::padded(d, 2));
    assert(s.subrange(11, 13) =~= text::padded(h, 2));
    assert(s.subrange(14, 16) =~= text::padded(mi, 2));
    assert(s.subrange(17, 19) =~= text::padded(se, 2));
    assert forall|i: int|
        0 <= i < 20 && i != 4 && i != 7 && i != 10 && i != 13 && i != 16 && i != 19 implies text::is_digit(
        #[trigger] s[i],
    ) by {
        if i < 4 {
            assert(s[i] == text::padded(y, 4)[i]);
        } else if i < 7 {
            assert(s[i] == text::padded(m, 2)[i - 5]);
        } else if i < 10 {
            assert(s[i] == text::padded(d, 2)[i - 8]);
        } else if i < 13 {
            assert(s[i] == text::padded(h, 2)[i - 11]);
        } else if i < 16 {
            assert(s[i] == text::padded(mi, 2)[i - 14]);
        } else {
            assert(s[i] == text::padded(se, 2)[i - 17]);
        }
    }
}

/// Reading a field of ASCII text reads its characters.
pub proof fn lemma_field_ascii(s: Seq<char>, from: int, to: int)
    requires
        vstd::utf8::is_ascii_chars(s),
        0 <= from <= to <= s.len(),
    ensures
        field(vstd::utf8::encode_utf8(s), from, to) == text::parse_signed(s.subrange(from, to)),
{
    text::lemma_latin_ascii(s);
    let b = vstd::utf8::encode_utf8(s);
    assert(text::latin(b.subrange(from, to)) =~= text::latin(b).subrange(from, to));
}

/// A Unix timestamp written out and parsed back is the same, as long as its
/// year has four digits.
pub proof fn unix_time_round_trips(secs: int)
    requires
        0 <= civil(secs / 86400).0 <= 9999,
    ensures
        unix_of_iso(iso_of_unix(secs)) == secs,
{
    let (y, m, d) = civil(secs / 86400);
    civil_is_inverse_of_day_number(secs / 86400);
    let rem = secs % 86400;
    let s = iso_of_unix(secs);
    let (h, mi, se) = (rem / 3600, (rem % 3600) / 60, rem % 60);
    lemma_stamp_layout(y, m, d, h, mi, se);
    text::lemma_padded(y, 4);
    text::lemma_padded(m, 2);
    text::lemma_padded(d, 2);
    text::lemma_padded(h, 2);
    text::lemma_padded(mi, 2);
    text::lemma_padded(se, 2);
}

}
