//! Parsers for the wire formats the backend accepts: decimal numbers,
//! `YYYY-MM-DD` dates, `YYYY-MM` months and `YYYY-MM-DDTHH:MM:SS` timestamps.

use vstd::prelude::*;
use vstd::string::StrSliceExecFns;
use crate::time::{Date, DateTime};

verus! {

pub open spec fn is_digit(c: char) -> bool {
    48 <= c as int && c as int <= 57
}

pub open spec fn digit_val(c: char) -> int {
    c as int - 48
}

pub open spec fn all_digits(s: Seq<char>) -> bool {
    forall|i: int| 0 <= i < s.len() ==> is_digit(#[trigger] s[i])
}

/// The value of a sequence of decimal digits, most significant first.
pub open spec fn dec_val(s: Seq<char>) -> int
    decreases s.len(),
{
    if s.len() == 0 {
        0
    } else {
        dec_val(s.drop_last()) * 10 + digit_val(s.last())
    }
}

pub proof fn lemma_dec_val_nonneg(s: Seq<char>)
    requires
        all_digits(s),
    ensures
        dec_val(s) >= 0,
    decreases s.len(),
{
    if s.len() > 0 {
        assert(all_digits(s.drop_last()));
        lemma_dec_val_nonneg(s.drop_last());
    }
}

/// A digit string is worth at least any of its prefixes.
pub proof fn lemma_dec_val_prefix_le(s: Seq<char>, i: int)
    requires
        all_digits(s),
        0 <= i <= s.len(),
    ensures
        dec_val(s.subrange(0, i)) <= dec_val(s),
    decreases s.len() - i,
{
    if i < s.len() {
        let t = s.subrange(0, i + 1);
        assert(t.drop_last() =~= s.subrange(0, i));
        assert(all_digits(t.drop_last()));
        lemma_dec_val_nonneg(t.drop_last());
        assert(dec_val(t) == dec_val(s.subrange(0, i)) * 10 + digit_val(s[i]));
        lemma_dec_val_prefix_le(s, i + 1);
    } else {
        assert(s.subrange(0, i) =~= s);
    }
}

/// The digits of a decimal string after an optional leading `+`.
pub open spec fn after_sign(s: Seq<char>) -> Seq<char> {
    if s.len() > 0 && s[0] == '+' {
        s.subrange(1, s.len() as int)
    } else {
        s
    }
}

/// What a decimal string (with an optional leading `+`) denotes as a `u32`.
pub open spec fn spec_parse_u32(s: Seq<char>) -> Option<u32> {
    let t = after_sign(s);
    if t.len() > 0 && all_digits(t) && dec_val(t) <= u32::MAX {
        Some(dec_val(t) as u32)
    } else {
        None
    }
}

/// Reads a `u32` from a decimal string, as `str::parse::<u32>` does:
/// an optional leading `+`, then one or more digits, rejecting overflow.
pub fn parse_u32(s: &str) -> (r: Option<u32>)
    ensures
        r == spec_parse_u32(s@),
{
    let len = s.unicode_len();
    let start: usize = if len > 0 && s.get_char(0) == '+' {
        1
    } else {
        0
    };
    let ghost t = after_sign(s@);
    assert(t =~= s@.subrange(start as int, s@.len() as int));
    if len == start {
        return None;
    }
    let mut acc: u32 = 0;
    let mut i: usize = start;
    while i < len
        invariant
            start <= i <= len,
            len == s@.len(),
            start == 0 || start == 1,
            (start == 1) == (s@.len() > 0 && s@[0] == '+'),
            t == after_sign(s@),
            t =~= s@.subrange(start as int, s@.len() as int),
            all_digits(t.subrange(0, i - start)),
            acc == dec_val(t.subrange(0, i - start)),
        decreases len - i,
    {
        let c = s.get_char(i);
        let ghost pre = t.subrange(0, i - start);
        assert(t.subrange(0, i + 1 - start).drop_last() =~= pre);
        assert(t[i - start] == c);
        let v = c as u32;
        if v < 48 || v > 57 {
            assert(!is_digit(t[i - start]));
            return None;
        }
        let d = v - 48;
        assert(all_digits(t.subrange(0, i + 1 - start)));
        if acc > (u32::MAX - d) / 10 {
            proof {
                assert(dec_val(t.subrange(0, i + 1 - start)) == acc * 10 + d);
                if all_digits(t) {
                    lemma_dec_val_prefix_le(t, i + 1 - start);
                }
            }
            return None;
        }
        acc = acc * 10 + d;
        i = i + 1;
    }
    assert(t.subrange(0, len - start) =~= t);
    Some(acc)
}

/// Shape of a `YYYY-MM-DD` date string.
pub open spec fn date_str_shape(s: Seq<char>) -> bool {
    &&& s.len() == 10
    &&& is_digit(s[0]) && is_digit(s[1]) && is_digit(s[2]) && is_digit(s[3])
    &&& s[4] == '-'
    &&& is_digit(s[5]) && is_digit(s[6])
    &&& s[7] == '-'
    &&& is_digit(s[8]) && is_digit(s[9])
}

/// The date a well-shaped `YYYY-MM-DD` string denotes.
pub open spec fn date_of_str(s: Seq<char>) -> Date {
    Date {
        year: (digit_val(s[0]) * 1000 + digit_val(s[1]) * 100 + digit_val(s[2]) * 10 + digit_val(
            s[3],
        )) as u32,
        month: (digit_val(s[5]) * 10 + digit_val(s[6])) as u32,
        day: (digit_val(s[8]) * 10 + digit_val(s[9])) as u32,
    }
}

pub open spec fn spec_parse_date(s: Seq<char>) -> Option<Date> {
    if date_str_shape(s) && date_of_str(s).valid() {
        Some(date_of_str(s))
    } else {
        None
    }
}

/// Reads a digit at a fixed position.
fn digit_at(s: &str, i: usize) -> (r: Option<u32>)
    requires
        i < s@.len(),
    ensures
        match r {
            Some(v) => is_digit(s@[i as int]) && v == digit_val(s@[i as int]),
            None => !is_digit(s@[i as int]),
        },
{
    let v = s.get_char(i) as u32;
    if 48 <= v && v <= 57 {
        Some(v - 48)
    } else {
        None
    }
}

/// Parses a strict `YYYY-MM-DD` date, rejecting impossible calendar dates.
pub fn parse_date(s: &str) -> (r: Option<Date>)
    ensures
        r == spec_parse_date(s@),
{
    if s.unicode_len() != 10 {
        return None;
    }
    if s.get_char(4) != '-' || s.get_char(7) != '-' {
        return None;
    }
    let (y, m, d) = match (
        digit_at(s, 0),
        digit_at(s, 1),
        digit_at(s, 2),
        digit_at(s, 3),
        digit_at(s, 5),
        digit_at(s, 6),
        digit_at(s, 8),
        digit_at(s, 9),
    ) {
        (Some(y0), Some(y1), Some(y2), Some(y3), Some(m0), Some(m1), Some(d0), Some(d1)) => (
            y0 * 1000 + y1 * 100 + y2 * 10 + y3,
            m0 * 10 + m1,
            d0 * 10 + d1,
        ),
        _ => {
            return None;
        },
    };
    let date = Date { year: y, month: m, day: d };
    if 1 <= m && m <= 12 && 1 <= d && d <= crate::time::days_in_month(y, m) {
        Some(date)
    } else {
        None
    }
}

/// Shape of a `YYYY-MM` month string.
pub open spec fn month_str_shape(s: Seq<char>) -> bool {
    &&& s.len() == 7
    &&& is_digit(s[0]) && is_digit(s[1]) && is_digit(s[2]) && is_digit(s[3])
    &&& s[4] == '-'
    &&& is_digit(s[5]) && is_digit(s[6])
}

/// The (year, month) a well-shaped `YYYY-MM` string denotes.
pub open spec fn month_of_str(s: Seq<char>) -> (u32, u32) {
    (
        (digit_val(s[0]) * 1000 + digit_val(s[1]) * 100 + digit_val(s[2]) * 10 + digit_val(
            s[3],
        )) as u32,
        (digit_val(s[5]) * 10 + digit_val(s[6])) as u32,
    )
}

pub open spec fn spec_parse_month(s: Seq<char>) -> Option<(u32, u32)> {
    if month_str_shape(s) && 1 <= month_of_str(s).1 <= 12 && month_of_str(s).0 <= 9999 {
        Some(month_of_str(s))
    } else {
        None
    }
}

/// Parses a strict `YYYY-MM` month.
pub fn parse_month(s: &str) -> (r: Option<(u32, u32)>)
    ensures
        r == spec_parse_month(s@),
{
    if s.unicode_len() != 7 {
        return None;
    }
    if s.get_char(4) != '-' {
        return None;
    }
    let (y, m) = match (
        digit_at(s, 0),
        digit_at(s, 1),
        digit_at(s, 2),
        digit_at(s, 3),
        digit_at(s, 5),
        digit_at(s, 6),
    ) {
        (Some(y0), Some(y1), Some(y2), Some(y3), Some(m0), Some(m1)) => (
            y0 * 1000 + y1 * 100 + y2 * 10 + y3,
            m0 * 10 + m1,
        ),
        _ => {
            return None;
        },
    };
    if 1 <= m && m <= 12 {
        Some((y, m))
    } else {
        None
    }
}

/// Shape of a `YYYY-MM-DDTHH:MM:SS` timestamp string.
pub open spec fn datetime_str_shape(s: Seq<char>) -> bool {
    &&& s.len() == 19
    &&& date_str_shape(s.subrange(0, 10))
    &&& s[10] == 'T'
    &&& is_digit(s[11]) && is_digit(s[12])
    &&& s[13] == ':'
    &&& is_digit(s[14]) && is_digit(s[15])
    &&& s[16] == ':'
    &&& is_digit(s[17]) && is_digit(s[18])
}

/// The timestamp a well-shaped `YYYY-MM-DDTHH:MM:SS` string denotes.
pub open spec fn datetime_of_str(s: Seq<char>) -> DateTime {
    DateTime {
        date: date_of_str(s.subrange(0, 10)),
        sec: (hour_of_str(s) * 3600 + minute_of_str(s) * 60 + second_of_str(s)) as u32,
    }
}

pub open spec fn hour_of_str(s: Seq<char>) -> int {
    digit_val(s[11]) * 10 + digit_val(s[12])
}

pub open spec fn minute_of_str(s: Seq<char>) -> int {
    digit_val(s[14]) * 10 + digit_val(s[15])
}

pub open spec fn second_of_str(s: Seq<char>) -> int {
    digit_val(s[17]) * 10 + digit_val(s[18])
}

pub open spec fn spec_parse_datetime(s: Seq<char>) -> Option<DateTime> {
    if datetime_str_shape(s) && datetime_of_str(s).valid() && hour_of_str(s) < 24 && minute_of_str(
        s,
    ) < 60 && second_of_str(s) < 60 {
        Some(datetime_of_str(s))
    } else {
        None
    }
}

/// Parses a strict `YYYY-MM-DDTHH:MM:SS` timestamp.
pub fn parse_datetime(s: &str) -> (r: Option<DateTime>)
    ensures
        r == spec_parse_datetime(s@),
{
    if s.unicode_len() != 19 {
        return None;
    }
    let date_part = s.substring_char(0, 10);
    assert(date_part@ =~= s@.subrange(0, 10));
    let date = match parse_date(date_part) {
        Some(d) => d,
        None => {
            return None;
        },
    };
    if s.get_char(10) != 'T' || s.get_char(13) != ':' || s.get_char(16) != ':' {
        return None;
    }
    let (h, mi, se) = match (
        digit_at(s, 11),
        digit_at(s, 12),
        digit_at(s, 14),
        digit_at(s, 15),
        digit_at(s, 17),
        digit_at(s, 18),
    ) {
        (Some(h0), Some(h1), Some(m0), Some(m1), Some(s0), Some(s1)) => (
            h0 * 10 + h1,
            m0 * 10 + m1,
            s0 * 10 + s1,
        ),
        _ => {
            return None;
        },
    };
    if h < 24 && mi < 60 && se < 60 {
        Some(DateTime { date, sec: h * 3600 + mi * 60 + se })
    } else {
        None
    }
}

} // verus!
