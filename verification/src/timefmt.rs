//! The creation-time parser: a timestamp of the fixed shape
//! `YYYY-MM-DD HH:MM:SS +ZZZZ` (or `-ZZZZ`) is turned into epoch seconds
//! with proleptic-Gregorian day arithmetic; anything else falls back to the
//! current wall-clock time.

use vstd::prelude::*;

use crate::text::{digit_val, is_digit};

verus! {

/// Whether `y` is a leap year in the proleptic Gregorian calendar.
pub open spec fn spec_is_leap(y: int) -> bool {
    y % 4 == 0 && (y % 100 != 0 || y % 400 == 0)
}

pub open spec fn spec_days_in_month(y: int, m: int) -> int {
    if m == 2 {
        if spec_is_leap(y) {
            29
        } else {
            28
        }
    } else if m == 4 || m == 6 || m == 9 || m == 11 {
        30
    } else {
        31
    }
}

/// Days since 1970-01-01 of the civil date `y-m-d`, by the standard
/// era-of-400-years formula, shifted by one era to keep the intermediate
/// values non-negative for years 0 through 9999.
pub open spec fn spec_days_from_civil(y: int, m: int, d: int) -> int {
    let yy = if m <= 2 {
        y + 399
    } else {
        y + 400
    };
    let era = yy / 400;
    let yoe = yy % 400;
    let mp = if m > 2 {
        m - 3
    } else {
        m + 9
    };
    let doy = (153 * mp + 2) / 5 + d - 1;
    let doe = yoe * 365 + yoe / 4 - yoe / 100 + doy;
    era * 146097 + doe - 865565
}

/// Whether `k` characters starting at `i` are all decimal digits.
pub open spec fn digits_at(s: Seq<char>, i: int, k: int) -> bool {
    forall|j: int| i <= j < i + k ==> is_digit(s[j])
}

/// The value of the two digits at positions `i` and `i + 1`.
pub open spec fn d2(s: Seq<char>, i: int) -> int {
    10 * digit_val(s[i]) + digit_val(s[i + 1])
}

/// The value of the four digits starting at position `i`.
pub open spec fn d4(s: Seq<char>, i: int) -> int {
    1000 * digit_val(s[i]) + 100 * digit_val(s[i + 1]) + 10 * digit_val(s[i + 2]) + digit_val(
        s[i + 3],
    )
}

/// Whether `s` has exactly the shape `YYYY-MM-DD HH:MM:SS +ZZZZ`, with `+`
/// possibly `-`.
pub open spec fn spec_ts_shape(s: Seq<char>) -> bool {
    &&& s.len() == 25
    &&& digits_at(s, 0, 4)
    &&& s[4] == '-'
    &&& digits_at(s, 5, 2)
    &&& s[7] == '-'
    &&& digits_at(s, 8, 2)
    &&& s[10] == ' '
    &&& digits_at(s, 11, 2)
    &&& s[13] == ':'
    &&& digits_at(s, 14, 2)
    &&& s[16] == ':'
    &&& digits_at(s, 17, 2)
    &&& s[19] == ' '
    &&& (s[20] == '+' || s[20] == '-')
    &&& digits_at(s, 21, 4)
}

/// Whether the fields of a well-shaped timestamp are in range: a real
/// calendar date, a time of day, and an offset of at most 23:59.
pub open spec fn spec_ts_fields_ok(s: Seq<char>) -> bool {
    &&& 1 <= d2(s, 5) <= 12
    &&& 1 <= d2(s, 8) <= spec_days_in_month(d4(s, 0), d2(s, 5))
    &&& d2(s, 11) <= 23
    &&& d2(s, 14) <= 59
    &&& d2(s, 17) <= 59
    &&& d2(s, 21) <= 23
    &&& d2(s, 23) <= 59
}

/// The epoch second that a well-formed timestamp denotes: days since the
/// epoch scaled to seconds, plus the time of day, minus the zone offset.
pub open spec fn spec_ts_epoch(s: Seq<char>) -> int {
    let days = spec_days_from_civil(d4(s, 0), d2(s, 5), d2(s, 8));
    let tod = d2(s, 11) * 3600 + d2(s, 14) * 60 + d2(s, 17);
    let off = d2(s, 21) * 3600 + d2(s, 23) * 60;
    if s[20] == '-' {
        days * 86400 + tod + off
    } else {
        days * 86400 + tod - off
    }
}

/// The epoch second of a timestamp string, defined exactly when the string
/// matches the fixed shape with in-range fields.
pub open spec fn spec_parse_timestamp(s: Seq<char>) -> Option<int> {
    if spec_ts_shape(s) && spec_ts_fields_ok(s) {
        Some(spec_ts_epoch(s))
    } else {
        None
    }
}

fn read_digit(s: &str, i: usize) -> (r: Option<u32>)
    requires
        i < s@.len(),
    ensures
        match r {
            Some(v) => is_digit(s@[i as int]) && v == digit_val(s@[i as int]),
            None => !is_digit(s@[i as int]),
        },
{
    let c = s.get_char(i);
    let v = c as u32;
    if 48 <= v && v <= 57 {
        Some(v - 48)
    } else {
        None
    }
}

fn read2(s: &str, i: usize) -> (r: Option<u32>)
    requires
        i + 1 < s@.len(),
        s@.len() <= usize::MAX,
    ensures
        match r {
            Some(v) => digits_at(s@, i as int, 2) && v == d2(s@, i as int) && v <= 99,
            None => !digits_at(s@, i as int, 2),
        },
{
    let a = read_digit(s, i);
    let b = read_digit(s, i + 1);
    match (a, b) {
        (Some(x), Some(y)) => Some(10 * x + y),
        _ => None,
    }
}

fn read4(s: &str, i: usize) -> (r: Option<u32>)
    requires
        i + 3 < s@.len(),
        s@.len() <= usize::MAX,
    ensures
        match r {
            Some(v) => digits_at(s@, i as int, 4) && v == d4(s@, i as int) && v <= 9999,
            None => !digits_at(s@, i as int, 4),
        },
{
    let a = read_digit(s, i);
    let b = read_digit(s, i + 1);
    let c = read_digit(s, i + 2);
    let d = read_digit(s, i + 3);
    match (a, b, c, d) {
        (Some(x), Some(y), Some(z), Some(w)) => Some(1000 * x + 100 * y + 10 * z + w),
        _ => None,
    }
}

fn days_in_month_x(y: u32, m: u32) -> (r: u32)
    ensures
        r == spec_days_in_month(y as int, m as int),
{
    if m == 2 {
        if y % 4 == 0 && (y % 100 != 0 || y % 400 == 0) {
            29
        } else {
            28
        }
    } else if m == 4 || m == 6 || m == 9 || m == 11 {
        30
    } else {
        31
    }
}

fn days_from_civil_x(y: u32, m: u32, d: u32) -> (r: i64)
    requires
        y <= 9999,
        1 <= m <= 12,
        1 <= d <= 31,
    ensures
        r == spec_days_from_civil(y as int, m as int, d as int),
        -865565 <= r <= 4000000,
{
    let yy: u64 = if m <= 2 {
        y as u64 + 399
    } else {
        y as u64 + 400
    };
    let era: u64 = yy / 400;
    let yoe: u64 = yy % 400;
    let mp: u64 = if m > 2 {
        (m - 3) as u64
    } else {
        (m + 9) as u64
    };
    let doy: u64 = (153 * mp + 2) / 5 + d as u64 - 1;
    let doe: u64 = yoe * 365 + yoe / 4 - yoe / 100 + doy;
    (era * 146097 + doe) as i64 - 865565
}

/// Parses a timestamp of the fixed shape into epoch seconds; `None` on any
/// deviation from the shape or an out-of-range field.
pub fn parse_timestamp(s: &str) -> (r: Option<i64>)
    ensures
        (match r {
            Some(v) => Some(v as int),
            None => None::<int>,
        }) == spec_parse_timestamp(s@),
{
    let n = s.unicode_len();
    if n != 25 {
        return None;
    }
    let sep_ok = s.get_char(4) == '-' && s.get_char(7) == '-' && s.get_char(10) == ' '
        && s.get_char(13) == ':' && s.get_char(16) == ':' && s.get_char(19) == ' ';
    if !sep_ok {
        return None;
    }
    let sign = s.get_char(20);
    if sign != '+' && sign != '-' {
        return None;
    }
    let y = match read4(s, 0) {
        Some(v) => v,
        None => {
            return None;
        },
    };
    let mo = match read2(s, 5) {
        Some(v) => v,
        None => {
            return None;
        },
    };
    let d = match read2(s, 8) {
        Some(v) => v,
        None => {
            return None;
        },
    };
    let h = match read2(s, 11) {
        Some(v) => v,
        None => {
            return None;
        },
    };
    let mi = match read2(s, 14) {
        Some(v) => v,
        None => {
            return None;
        },
    };
    let sec = match read2(s, 17) {
        Some(v) => v,
        None => {
            return None;
        },
    };
    let oh = match read2(s, 21) {
        Some(v) => v,
        None => {
            return None;
        },
    };
    let om = match read2(s, 23) {
        Some(v) => v,
        None => {
            return None;
        },
    };
    if !(1 <= mo && mo <= 12) {
        return None;
    }
    if !(1 <= d && d <= days_in_month_x(y, mo)) {
        return None;
    }
    if h > 23 || mi > 59 || sec > 59 || oh > 23 || om > 59 {
        return None;
    }
    let days = days_from_civil_x(y, mo, d);
    let tod = (h * 3600 + mi * 60 + sec) as i64;
    let off = (oh * 3600 + om * 60) as i64;
    let epoch = if sign == '-' {
        days * 86400 + tod + off
    } else {
        days * 86400 + tod - off
    };
    Some(epoch)
}

/// Relies on `chrono::Utc::now` for the current wall-clock time, reported as
/// seconds since the epoch by `DateTime::timestamp`.
#[verifier::external_body]
fn now_epoch() -> i64 {
    chrono::Utc::now().timestamp()
}

/// Parses a creation-time string, substituting the current wall-clock time
/// when the string does not match the fixed shape.
pub fn parse_created_at(s: &str) -> (r: i64)
    ensures
        spec_parse_timestamp(s@) is Some ==> r as int == spec_parse_timestamp(s@)->0,
{
    match parse_timestamp(s) {
        Some(t) => t,
        None => now_epoch(),
    }
}

} // verus!
