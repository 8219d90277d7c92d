//! Decimal numbers, calendar arithmetic, timestamps and durations.
//!
//! The scheduler stores instants as seconds since the Unix epoch. The
//! proleptic Gregorian calendar from 1970 on is defined here by the
//! year/month day counts; timestamp parsing accepts the plain UTC form
//! `YYYY-MM-DDTHH:MM:SSZ`.

use vstd::prelude::*;
use vstd::string::StrSliceExecFns;

use crate::chars::matches_at;

verus! {

pub open spec fn spec_is_digit(c: char) -> bool {
    '0' <= c && c <= '9'
}

pub open spec fn spec_digit_val(c: char) -> nat {
    ((c as u32) - 48) as nat
}

/// A non-empty run of decimal digits.
pub open spec fn spec_all_digits(s: Seq<char>) -> bool {
    s.len() > 0 && forall|i: int| 0 <= i < s.len() ==> spec_is_digit(#[trigger] s[i])
}

/// The value of a digit run, most significant digit first.
pub open spec fn spec_num_val(s: Seq<char>) -> nat
    decreases s.len(),
{
    if s.len() == 0 {
        0
    } else {
        spec_num_val(s.drop_last()) * 10 + spec_digit_val(s.last())
    }
}

/// A prefix of a digit run is worth no more than the whole run.
proof fn lemma_num_val_prefix_le(s: Seq<char>, k: int)
    requires
        0 <= k <= s.len(),
    ensures
        spec_num_val(s.take(k)) <= spec_num_val(s),
    decreases s.len() - k,
{
    if k < s.len() {
        lemma_num_val_prefix_le(s.drop_last(), k);
        assert(s.drop_last().take(k) =~= s.take(k));
    } else {
        assert(s.take(k) =~= s);
    }
}

/// Bounds on the value of short digit runs.
pub proof fn lemma_num_val_small(s: Seq<char>)
    requires
        forall|i: int| 0 <= i < s.len() ==> spec_is_digit(#[trigger] s[i]),
    ensures
        s.len() <= 1 ==> spec_num_val(s) <= 9,
        s.len() <= 2 ==> spec_num_val(s) <= 99,
        s.len() <= 3 ==> spec_num_val(s) <= 999,
    decreases s.len(),
{
    if s.len() > 0 {
        lemma_num_val_small(s.drop_last());
        assert(spec_is_digit(s.last()));
        assert(spec_digit_val(s.last()) <= 9);
    }
}

/// Parses `v[from..to]` as a decimal `u64`.
pub fn parse_u64_range(v: &Vec<char>, from: usize, to: usize) -> (r: Option<u64>)
    requires
        from <= to <= v@.len(),
    ensures
        match r {
            Some(x) => spec_all_digits(v@.subrange(from as int, to as int)) && x == spec_num_val(
                v@.subrange(from as int, to as int),
            ),
            None => !(spec_all_digits(v@.subrange(from as int, to as int)) && spec_num_val(
                v@.subrange(from as int, to as int),
            ) <= u64::MAX),
        },
{
    let ghost sub = v@.subrange(from as int, to as int);
    if from == to {
        return None;
    }
    let mut acc: u64 = 0;
    let mut i: usize = from;
    proof {
        assert(sub.take(0) =~= Seq::<char>::empty());
    }
    while i < to
        invariant
            from <= i <= to <= v@.len(),
            sub == v@.subrange(from as int, to as int),
            sub.len() == to - from,
            forall|k: int| 0 <= k < i - from ==> spec_is_digit(#[trigger] sub[k]),
            acc == spec_num_val(sub.take(i - from)),
        decreases to - i,
    {
        let c = v[i];
        proof {
            assert(sub[i - from] == v@[i as int]);
        }
        if !('0' <= c && c <= '9') {
            return None;
        }
        let d: u64 = ((c as u8) - 48) as u64;
        let step = match acc.checked_mul(10) {
            Some(m) => m.checked_add(d),
            None => None,
        };
        proof {
            assert(sub.take(i - from + 1).drop_last() =~= sub.take(i - from));
            assert(sub.take(i - from + 1).last() == sub[i - from]);
        }
        match step {
            Some(next) => {
                acc = next;
            },
            None => {
                proof {
                    assert(spec_num_val(sub.take(i - from + 1)) > u64::MAX);
                    lemma_num_val_prefix_le(sub, i - from + 1);
                }
                return None;
            },
        }
        i = i + 1;
    }
    proof {
        assert(sub.take(to - from) =~= sub);
    }
    Some(acc)
}

/// A leap year of the Gregorian calendar.
pub open spec fn spec_is_leap(y: nat) -> bool {
    (y % 4 == 0 && y % 100 != 0) || y % 400 == 0
}

pub open spec fn spec_days_in_year(y: nat) -> nat {
    if spec_is_leap(y) {
        366
    } else {
        365
    }
}

/// Days in month `m` (1 to 12) of year `y`.
pub open spec fn spec_days_in_month(y: nat, m: nat) -> nat {
    if m == 2 {
        if spec_is_leap(y) {
            29
        } else {
            28
        }
    } else if m == 4 || m == 6 || m == 9 || m == 11 {
        30
    } else {
        31
    }
}

pub fn days_in_year(y: u64) -> (r: u64)
    ensures
        r == spec_days_in_year(y as nat),
{
    if (y % 4 == 0 && y % 100 != 0) || y % 400 == 0 {
        366
    } else {
        365
    }
}

pub fn days_in_month(y: u64, m: u64) -> (r: u64)
    ensures
        r == spec_days_in_month(y as nat, m as nat),
{
    if m == 2 {
        if (y % 4 == 0 && y % 100 != 0) || y % 400 == 0 {
            29
        } else {
            28
        }
    } else if m == 4 || m == 6 || m == 9 || m == 11 {
        30
    } else {
        31
    }
}

/// The year holding day `days` counted from January 1 of year `y`, and
/// the remaining day offset within it.
pub open spec fn spec_year_of(days: nat, y: nat) -> (nat, nat)
    decreases days,
{
    if days < spec_days_in_year(y) {
        (y, days)
    } else {
        spec_year_of((days - spec_days_in_year(y)) as nat, y + 1)
    }
}

/// The month holding day `days` counted from the first of month `m` of
/// year `y`, and the remaining day offset within it.
pub open spec fn spec_month_of(days: nat, y: nat, m: nat) -> (nat, nat)
    decreases 12 - m,
{
    if m >= 12 || days < spec_days_in_month(y, m) {
        (m, days)
    } else {
        spec_month_of((days - spec_days_in_month(y, m)) as nat, y, m + 1)
    }
}

/// Calendar date (year, month, day) of a day count since 1970-01-01.
pub open spec fn spec_civil_of_days(days: nat) -> (nat, nat, nat) {
    let yr = spec_year_of(days, 1970);
    let mr = spec_month_of(yr.1, yr.0, 1);
    (yr.0, mr.0, mr.1 + 1)
}

/// Computes the calendar date of a day count since 1970-01-01.
pub fn civil_of_days(days: u64) -> (r: (u64, u64, u64))
    requires
        days < 3_000_000,
    ensures
        r.0 == spec_civil_of_days(days as nat).0,
        r.1 == spec_civil_of_days(days as nat).1,
        r.2 == spec_civil_of_days(days as nat).2,
{
    let mut y: u64 = 1970;
    let mut rem: u64 = days;
    while rem >= days_in_year(y)
        invariant
            days < 3_000_000,
            rem <= days,
            y <= 1970 + (days - rem),
            spec_year_of(days as nat, 1970) == spec_year_of(rem as nat, y as nat),
        decreases rem,
    {
        let diy = days_in_year(y);
        rem = rem - diy;
        y = y + 1;
    }
    let mut m: u64 = 1;
    let ghost rem_y = rem;
    while m < 12 && rem >= days_in_month(y, m)
        invariant
            rem <= rem_y,
            1 <= m <= 12,
            spec_month_of(rem_y as nat, y as nat, 1) == spec_month_of(rem as nat, y as nat, m as nat),
        decreases 12 - m,
    {
        let dim = days_in_month(y, m);
        rem = rem - dim;
        m = m + 1;
    }
    (y, m, rem + 1)
}

/// Day of week of a day count since 1970-01-01; 0 is Sunday (the epoch
/// day, 1970-01-01, was a Thursday, day 4).
pub open spec fn spec_weekday_of_days(days: nat) -> nat {
    (days + 4) % 7
}

pub fn weekday_of_days(days: u64) -> (r: u64)
    requires
        days < 3_000_000,
    ensures
        r == spec_weekday_of_days(days as nat),
{
    (days + 4) % 7
}

/// Days from 1970-01-01 to January 1 of year `y`.
pub open spec fn spec_days_before_year(y: nat) -> nat
    decreases y,
{
    if y <= 1970 {
        0
    } else {
        spec_days_before_year((y - 1) as nat) + spec_days_in_year((y - 1) as nat)
    }
}

/// Days from the first of January to the first of month `m` in year `y`.
pub open spec fn spec_days_before_month(y: nat, m: nat) -> nat
    decreases m,
{
    if m <= 1 {
        0
    } else {
        spec_days_before_month(y, (m - 1) as nat) + spec_days_in_month(y, (m - 1) as nat)
    }
}

/// Day count since 1970-01-01 of the calendar date (y, m, d).
pub open spec fn spec_days_of_civil(y: nat, m: nat, d: nat) -> nat {
    (spec_days_before_year(y) + spec_days_before_month(y, m) + d - 1) as nat
}

proof fn lemma_days_before_year_bound(y: nat)
    requires
        y <= 10000,
    ensures
        y >= 1970 ==> spec_days_before_year(y) <= 366 * (y - 1970),
        y < 1970 ==> spec_days_before_year(y) == 0,
    decreases y,
{
    if y > 1970 {
        lemma_days_before_year_bound((y - 1) as nat);
    }
}

proof fn lemma_days_before_month_bound(y: nat, m: nat)
    requires
        m <= 13,
    ensures
        spec_days_before_month(y, m) <= 31 * m,
    decreases m,
{
    if m > 1 {
        lemma_days_before_month_bound(y, (m - 1) as nat);
    }
}

/// Computes the day count since 1970-01-01 of a calendar date.
pub fn days_of_civil(y: u64, m: u64, d: u64) -> (r: u64)
    requires
        1970 <= y <= 9999,
        1 <= m <= 12,
        1 <= d <= 31,
    ensures
        r == spec_days_of_civil(y as nat, m as nat, d as nat),
        r < 3_000_000,
{
    let mut acc: u64 = 0;
    let mut yy: u64 = 1970;
    while yy < y
        invariant
            1970 <= yy <= y <= 9999,
            acc == spec_days_before_year(yy as nat),
            acc <= 366 * (yy - 1970),
        decreases y - yy,
    {
        proof {
            lemma_days_before_year_bound((yy + 1) as nat);
        }
        acc = acc + days_in_year(yy);
        yy = yy + 1;
    }
    let mut mm: u64 = 1;
    while mm < m
        invariant
            1970 <= y <= 9999,
            1 <= mm <= m <= 12,
            acc == spec_days_before_year(y as nat) + spec_days_before_month(y as nat, mm as nat),
            acc <= 366 * (y - 1970) + 31 * mm,
        decreases m - mm,
    {
        proof {
            lemma_days_before_month_bound(y as nat, (mm + 1) as nat);
            lemma_days_before_year_bound(y as nat);
        }
        acc = acc + days_in_month(y, mm);
        mm = mm + 1;
    }
    acc + d - 1
}

/// Epoch seconds of `YYYY-MM-DDTHH:MM:SSZ`, when the text has exactly
/// that shape and names a valid date from 1970 to 9999; fractional
/// seconds and numeric offsets are not accepted.
pub open spec fn spec_rfc3339_utc(s: Seq<char>) -> Option<u64> {
    if s.len() == 20 && s[4] == '-' && s[7] == '-' && s[10] == 'T' && s[13] == ':' && s[16] == ':'
        && s[19] == 'Z' && spec_all_digits(s.subrange(0, 4)) && spec_all_digits(s.subrange(5, 7))
        && spec_all_digits(s.subrange(8, 10)) && spec_all_digits(s.subrange(11, 13))
        && spec_all_digits(s.subrange(14, 16)) && spec_all_digits(s.subrange(17, 19)) {
        let y = spec_num_val(s.subrange(0, 4));
        let m = spec_num_val(s.subrange(5, 7));
        let d = spec_num_val(s.subrange(8, 10));
        let h = spec_num_val(s.subrange(11, 13));
        let mi = spec_num_val(s.subrange(14, 16));
        let sec = spec_num_val(s.subrange(17, 19));
        if 1970 <= y <= 9999 && 1 <= m <= 12 && 1 <= d <= spec_days_in_month(y, m) && h <= 23
            && mi <= 59 && sec <= 59 {
            Some(
                (spec_days_of_civil(y, m, d) * 86400 + h * 3600 + mi * 60 + sec) as u64,
            )
        } else {
            None
        }
    } else {
        None
    }
}

/// Parses a UTC timestamp of the form `YYYY-MM-DDTHH:MM:SSZ`.
pub fn parse_rfc3339_utc(v: &Vec<char>) -> (r: Option<u64>)
    ensures
        r == spec_rfc3339_utc(v@),
{
    if v.len() != 20 {
        return None;
    }
    if !(v[4] == '-' && v[7] == '-' && v[10] == 'T' && v[13] == ':' && v[16] == ':' && v[19]
        == 'Z') {
        return None;
    }
    let y = match parse_u64_range(v, 0, 4) {
        Some(x) => x,
        None => {
            return None;
        },
    };
    let m = match parse_u64_range(v, 5, 7) {
        Some(x) => x,
        None => {
            return None;
        },
    };
    let d = match parse_u64_range(v, 8, 10) {
        Some(x) => x,
        None => {
            return None;
        },
    };
    let h = match parse_u64_range(v, 11, 13) {
        Some(x) => x,
        None => {
            return None;
        },
    };
    let mi = match parse_u64_range(v, 14, 16) {
        Some(x) => x,
        None => {
            return None;
        },
    };
    let sec = match parse_u64_range(v, 17, 19) {
        Some(x) => x,
        None => {
            return None;
        },
    };
    proof {
        assert(spec_num_val(v@.subrange(0, 4)) <= u64::MAX);
    }
    if !(1970 <= y && y <= 9999) {
        return None;
    }
    if !(1 <= m && m <= 12) {
        return None;
    }
    if !(1 <= d && d <= days_in_month(y, m)) {
        return None;
    }
    if !(h <= 23 && mi <= 59 && sec <= 59) {
        return None;
    }
    let days = days_of_civil(y, m, d);
    Some(days * 86400 + h * 3600 + mi * 60 + sec)
}

/// Milliseconds of a duration written as a bare number of seconds or as
/// a number with unit `ms`, `s`, `m`, `h` or `d`; nothing else, and
/// nothing whose value overflows.
pub open spec fn spec_duration_ms(s: Seq<char>) -> Option<u64> {
    if spec_all_digits(s) && spec_num_val(s) * 1000 <= u64::MAX {
        Some((spec_num_val(s) * 1000) as u64)
    } else if spec_duration_with_unit(s, "ms"@, 1) is Some {
        spec_duration_with_unit(s, "ms"@, 1)
    } else if spec_duration_with_unit(s, "s"@, 1000) is Some {
        spec_duration_with_unit(s, "s"@, 1000)
    } else if spec_duration_with_unit(s, "m"@, 60000) is Some {
        spec_duration_with_unit(s, "m"@, 60000)
    } else if spec_duration_with_unit(s, "h"@, 3600000) is Some {
        spec_duration_with_unit(s, "h"@, 3600000)
    } else if spec_duration_with_unit(s, "d"@, 86400000) is Some {
        spec_duration_with_unit(s, "d"@, 86400000)
    } else {
        None
    }
}

/// Milliseconds of `<digits><unit>` for one unit worth `factor`
/// milliseconds.
pub open spec fn spec_duration_with_unit(s: Seq<char>, unit: Seq<char>, factor: u64) -> Option<
    u64,
> {
    if s.len() > unit.len() && s.subrange(s.len() - unit.len(), s.len() as int) == unit
        && spec_all_digits(s.subrange(0, s.len() - unit.len())) && spec_num_val(
        s.subrange(0, s.len() - unit.len()),
    ) * factor <= u64::MAX {
        Some((spec_num_val(s.subrange(0, s.len() - unit.len())) * factor) as u64)
    } else {
        None
    }
}

fn try_unit(v: &Vec<char>, unit: &str, factor: u64) -> (r: Option<u64>)
    requires
        factor >= 1,
    ensures
        r == spec_duration_with_unit(v@, unit@, factor),
{
    let ulen = unit.unicode_len();
    if v.len() <= ulen {
        return None;
    }
    let at = v.len() - ulen;
    if !matches_at(v, unit, at) {
        return None;
    }
    proof {
        assert(v@.subrange(v@.len() - unit@.len(), v@.len() as int) =~= unit@);
    }
    match parse_u64_range(v, 0, at) {
        Some(n) => match n.checked_mul(factor) {
            Some(ms) => Some(ms),
            None => None,
        },
        None => {
            proof {
                let nv = spec_num_val(v@.subrange(0, v@.len() - unit@.len()));
                if nv * factor <= u64::MAX {
                    assert(nv <= nv * factor) by (nonlinear_arith)
                        requires
                            factor >= 1,
                    ;
                }
            }
            None
        },
    }
}

/// Parses a duration to milliseconds.
pub fn parse_duration_ms(v: &Vec<char>) -> (r: Option<u64>)
    ensures
        r == spec_duration_ms(v@),
{
    match parse_u64_range(v, 0, v.len()) {
        Some(n) => {
            proof {
                assert(v@.subrange(0, v@.len() as int) =~= v@);
            }
            match n.checked_mul(1000) {
                Some(ms) => {
                    return Some(ms);
                },
                None => {
                },
            }
        },
        None => {
            proof {
                assert(v@.subrange(0, v@.len() as int) =~= v@);
            }
        },
    }
    if let Some(r) = try_unit(v, "ms", 1) {
        return Some(r);
    }
    if let Some(r) = try_unit(v, "s", 1000) {
        return Some(r);
    }
    if let Some(r) = try_unit(v, "m", 60000) {
        return Some(r);
    }
    if let Some(r) = try_unit(v, "h", 3600000) {
        return Some(r);
    }
    if let Some(r) = try_unit(v, "d", 86400000) {
        return Some(r);
    }
    None
}

} // verus!
