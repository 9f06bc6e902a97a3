//! Parsing of date and time strings against a fixed, ordered family of
//! layouts.
//!
//! Both entry points try their layouts in a fixed order and take the first
//! that matches; several inputs (an eight-digit string, say) are
//! syntactically compatible with more than one layout, so the order is
//! part of the contract.  A layout matches when the string has exactly its
//! shape and the fields form a real calendar date and time; the match is
//! then resolved against the ambient local timezone, and a local time that
//! does not exist or is ambiguous under the local DST rules is rejected,
//! letting the remaining layouts have their turn.  Seconds run 00..=59:
//! leap-second inputs are rejected.  In the layouts with a UTC designator
//! or a numeric offset the offset is required syntactically but ignored,
//! the fields being read as local time.

use vstd::prelude::*;

use crate::calendar::CivilDateTime;
use crate::timestamp::Timestamp;

verus! {

use crate::calendar::valid_time;
use crate::layout::{default_str, digit_char, num_str, year_str};
use crate::timestamp::{resolved_at, resolved_from_fields};
use crate::zone::{local_resolve, today_date};

/// The error of both parsing entry points: no layout matched, or no match
/// resolved to a local instant.  It carries the offending input.
#[derive(Debug, Clone)]
pub struct ParseTimestampError {
    pub input: String,
}

/// A time of day at millisecond resolution, as the time-only layouts of
/// `parse_time` produce it.
#[derive(Clone, Copy, Debug, PartialEq, Eq, Structural)]
pub struct TimeOfDay {
    pub hour: u32,
    pub minute: u32,
    pub second: u32,
    pub millisecond: u32,
}

impl TimeOfDay {
    pub open spec fn valid(self) -> bool {
        valid_time(self.hour as int, self.minute as int, self.second as int, self.millisecond as int)
    }
}

pub open spec fn is_digit(c: char) -> bool {
    48 <= c as int <= 57
}

pub open spec fn digit_val(c: char) -> int {
    c as int - 48
}

/// Characters `i..i+k` of `s` are all decimal digits.
pub open spec fn digits_at(s: Seq<char>, i: int, k: int) -> bool {
    forall|j: int| i <= j < i + k ==> is_digit(#[trigger] s[j])
}

/// The two-digit number at position `i`.
pub open spec fn num2(s: Seq<char>, i: int) -> int {
    10 * digit_val(s[i]) + digit_val(s[i + 1])
}

/// The four-digit number at position `i`.
pub open spec fn num4(s: Seq<char>, i: int) -> int {
    1000 * digit_val(s[i]) + 100 * digit_val(s[i + 1]) + 10 * digit_val(s[i + 2]) + digit_val(
        s[i + 3],
    )
}

/// `YYYY-MM-DD` at position `i` (ten characters).
pub open spec fn dash_date_ok(s: Seq<char>, i: int) -> bool {
    &&& i + 10 <= s.len()
    &&& digits_at(s, i, 4)
    &&& s[i + 4] == '-'
    &&& digits_at(s, i + 5, 2)
    &&& s[i + 7] == '-'
    &&& digits_at(s, i + 8, 2)
}

/// `YYYY/MM/DD` at position `i` (ten characters).
pub open spec fn slash_date_ok(s: Seq<char>, i: int) -> bool {
    &&& i + 10 <= s.len()
    &&& digits_at(s, i, 4)
    &&& s[i + 4] == '/'
    &&& digits_at(s, i + 5, 2)
    &&& s[i + 7] == '/'
    &&& digits_at(s, i + 8, 2)
}

/// `HH:MM:SS` at position `i` (eight characters).
pub open spec fn time_ok(s: Seq<char>, i: int) -> bool {
    &&& i + 8 <= s.len()
    &&& digits_at(s, i, 2)
    &&& s[i + 2] == ':'
    &&& digits_at(s, i + 3, 2)
    &&& s[i + 5] == ':'
    &&& digits_at(s, i + 6, 2)
}

/// An optional fraction from position `i` to the end of `s`: either
/// nothing, or a dot followed by one to nine digits.
pub open spec fn frac_ok(s: Seq<char>, i: int) -> bool {
    ||| i == s.len()
    ||| {
        &&& i < s.len()
        &&& s[i] == '.'
        &&& 1 <= s.len() - i - 1 <= 9
        &&& digits_at(s, i + 1, s.len() - i - 1)
    }
}

/// The fraction's value in milliseconds: the first three fractional
/// digits, zero-padded on the right, further digits truncated.
pub open spec fn frac_ms(s: Seq<char>, i: int) -> int {
    if i == s.len() {
        0
    } else {
        100 * digit_val(s[i + 1]) + (if s.len() - i - 1 >= 2 {
            10 * digit_val(s[i + 2])
        } else {
            0
        }) + (if s.len() - i - 1 >= 3 {
            digit_val(s[i + 3])
        } else {
            0
        })
    }
}

/// The calendar fields for plain integer values, as the layouts produce
/// them; all values fit their fields by construction.
pub open spec fn civil_from(y: int, mo: int, d: int, h: int, mi: int, sec: int, ms: int) -> CivilDateTime {
    CivilDateTime {
        year: y as i32,
        month: mo as u32,
        day: d as u32,
        hour: h as u32,
        minute: mi as u32,
        second: sec as u32,
        millisecond: ms as u32,
    }
}

/// A syntactic match is kept only when its fields form a real calendar
/// date and time.
pub open spec fn checked(c: CivilDateTime) -> Option<CivilDateTime> {
    if c.valid() {
        Some(c)
    } else {
        None
    }
}

pub open spec fn checked_time(t: TimeOfDay) -> Option<TimeOfDay> {
    if t.valid() {
        Some(t)
    } else {
        None
    }
}

/// `YYYY-MM-DD HH:MM:SS` with an optional millisecond fraction.
pub open spec fn m_dash_dt_frac(s: Seq<char>) -> Option<CivilDateTime> {
    if s.len() >= 19 && dash_date_ok(s, 0) && s[10] == ' ' && time_ok(s, 11) && frac_ok(s, 19) {
        checked(
            civil_from(
                num4(s, 0),
                num2(s, 5),
                num2(s, 8),
                num2(s, 11),
                num2(s, 14),
                num2(s, 17),
                frac_ms(s, 19),
            ),
        )
    } else {
        None
    }
}

/// `YYYY-MM-DD HH:MM:SS`, exactly.
pub open spec fn m_dash_dt(s: Seq<char>) -> Option<CivilDateTime> {
    if s.len() == 19 && dash_date_ok(s, 0) && s[10] == ' ' && time_ok(s, 11) {
        checked(
            civil_from(num4(s, 0), num2(s, 5), num2(s, 8), num2(s, 11), num2(s, 14), num2(s, 17), 0),
        )
    } else {
        None
    }
}

/// `YYYY/MM/DD HH:MM:SS` with an optional millisecond fraction.
pub open spec fn m_slash_dt_frac(s: Seq<char>) -> Option<CivilDateTime> {
    if s.len() >= 19 && slash_date_ok(s, 0) && s[10] == ' ' && time_ok(s, 11) && frac_ok(s, 19) {
        checked(
            civil_from(
                num4(s, 0),
                num2(s, 5),
                num2(s, 8),
                num2(s, 11),
                num2(s, 14),
                num2(s, 17),
                frac_ms(s, 19),
            ),
        )
    } else {
        None
    }
}

/// `YYYY/MM/DD HH:MM:SS`, exactly.
pub open spec fn m_slash_dt(s: Seq<char>) -> Option<CivilDateTime> {
    if s.len() == 19 && slash_date_ok(s, 0) && s[10] == ' ' && time_ok(s, 11) {
        checked(
            civil_from(num4(s, 0), num2(s, 5), num2(s, 8), num2(s, 11), num2(s, 14), num2(s, 17), 0),
        )
    } else {
        None
    }
}

/// `MM/DD/YYYY HH:MM:SS`.
pub open spec fn m_us_dt(s: Seq<char>) -> Option<CivilDateTime> {
    if s.len() == 19 && digits_at(s, 0, 2) && s[2] == '/' && digits_at(s, 3, 2) && s[5] == '/'
        && digits_at(s, 6, 4) && s[10] == ' ' && time_ok(s, 11) {
        checked(
            civil_from(num4(s, 6), num2(s, 0), num2(s, 3), num2(s, 11), num2(s, 14), num2(s, 17), 0),
        )
    } else {
        None
    }
}

/// `HH:MM:SS DD-MM-YYYY`.
pub open spec fn m_time_first(s: Seq<char>) -> Option<CivilDateTime> {
    if s.len() == 19 && time_ok(s, 0) && s[8] == ' ' && digits_at(s, 9, 2) && s[11] == '-'
        && digits_at(s, 12, 2) && s[14] == '-' && digits_at(s, 15, 4) {
        checked(
            civil_from(num4(s, 15), num2(s, 12), num2(s, 9), num2(s, 0), num2(s, 3), num2(s, 6), 0),
        )
    } else {
        None
    }
}

/// `YYYYMMDD HHMMSS`.
pub open spec fn m_compact_dt(s: Seq<char>) -> Option<CivilDateTime> {
    if s.len() == 15 && digits_at(s, 0, 8) && s[8] == ' ' && digits_at(s, 9, 6) {
        checked(
            civil_from(num4(s, 0), num2(s, 4), num2(s, 6), num2(s, 9), num2(s, 11), num2(s, 13), 0),
        )
    } else {
        None
    }
}

/// `YYYY-MM-DDTHH:MM:SSZ`: the UTC designator is required syntactically
/// but the fields are read as local time.
pub open spec fn m_iso_z(s: Seq<char>) -> Option<CivilDateTime> {
    if s.len() == 20 && dash_date_ok(s, 0) && s[10] == 'T' && time_ok(s, 11) && s[19] == 'Z' {
        checked(
            civil_from(num4(s, 0), num2(s, 5), num2(s, 8), num2(s, 11), num2(s, 14), num2(s, 17), 0),
        )
    } else {
        None
    }
}

/// `YYYY-MM-DDTHH:MM:SS±HHMM`: the numeric offset is required
/// syntactically but ignored, the fields being read as local time.
pub open spec fn m_iso_off(s: Seq<char>) -> Option<CivilDateTime> {
    if s.len() == 24 && dash_date_ok(s, 0) && s[10] == 'T' && time_ok(s, 11) && (s[19] == '+'
        || s[19] == '-') && digits_at(s, 20, 4) {
        checked(
            civil_from(num4(s, 0), num2(s, 5), num2(s, 8), num2(s, 11), num2(s, 14), num2(s, 17), 0),
        )
    } else {
        None
    }
}

/// `YYYY-MM-DD`, read as local midnight.
pub open spec fn m_dash_date(s: Seq<char>) -> Option<CivilDateTime> {
    if s.len() == 10 && dash_date_ok(s, 0) {
        checked(civil_from(num4(s, 0), num2(s, 5), num2(s, 8), 0, 0, 0, 0))
    } else {
        None
    }
}

/// `YYYY/MM/DD`, read as local midnight.
pub open spec fn m_slash_date(s: Seq<char>) -> Option<CivilDateTime> {
    if s.len() == 10 && slash_date_ok(s, 0) {
        checked(civil_from(num4(s, 0), num2(s, 5), num2(s, 8), 0, 0, 0, 0))
    } else {
        None
    }
}

/// `YYYYMMDD`, read as local midnight.
pub open spec fn m_compact_date(s: Seq<char>) -> Option<CivilDateTime> {
    if s.len() == 8 && digits_at(s, 0, 8) {
        checked(civil_from(num4(s, 0), num2(s, 4), num2(s, 6), 0, 0, 0, 0))
    } else {
        None
    }
}

/// The ordered layout family of `parse`: layout `k` of twelve, matched
/// syntactically and for calendar validity.
pub open spec fn pd_match(k: int, s: Seq<char>) -> Option<CivilDateTime> {
    if k == 0 {
        m_dash_dt_frac(s)
    } else if k == 1 {
        m_dash_dt(s)
    } else if k == 2 {
        m_slash_dt_frac(s)
    } else if k == 3 {
        m_slash_dt(s)
    } else if k == 4 {
        m_us_dt(s)
    } else if k == 5 {
        m_time_first(s)
    } else if k == 6 {
        m_compact_dt(s)
    } else if k == 7 {
        m_iso_z(s)
    } else if k == 8 {
        m_iso_off(s)
    } else if k == 9 {
        m_dash_date(s)
    } else if k == 10 {
        m_slash_date(s)
    } else if k == 11 {
        m_compact_date(s)
    } else {
        None
    }
}

/// No layout of `parse` matches `s`.
pub open spec fn pd_all_none(s: Seq<char>) -> bool {
    forall|k: int| 0 <= k < 12 ==> (#[trigger] pd_match(k, s)) is None
}

/// `HH:MM:SS` with an optional millisecond fraction.
pub open spec fn m_time_frac(s: Seq<char>) -> Option<TimeOfDay> {
    if s.len() >= 8 && time_ok(s, 0) && frac_ok(s, 8) {
        checked_time(
            TimeOfDay {
                hour: num2(s, 0) as u32,
                minute: num2(s, 3) as u32,
                second: num2(s, 6) as u32,
                millisecond: frac_ms(s, 8) as u32,
            },
        )
    } else {
        None
    }
}

/// `HH:MM:SS`, exactly.
pub open spec fn m_time(s: Seq<char>) -> Option<TimeOfDay> {
    if s.len() == 8 && time_ok(s, 0) {
        checked_time(
            TimeOfDay {
                hour: num2(s, 0) as u32,
                minute: num2(s, 3) as u32,
                second: num2(s, 6) as u32,
                millisecond: 0,
            },
        )
    } else {
        None
    }
}

/// `HH:MM`.
pub open spec fn m_hm(s: Seq<char>) -> Option<TimeOfDay> {
    if s.len() == 5 && digits_at(s, 0, 2) && s[2] == ':' && digits_at(s, 3, 2) {
        checked_time(
            TimeOfDay {
                hour: num2(s, 0) as u32,
                minute: num2(s, 3) as u32,
                second: 0,
                millisecond: 0,
            },
        )
    } else {
        None
    }
}

/// `HHMMSS`, six contiguous digits.
pub open spec fn m_compact6(s: Seq<char>) -> Option<TimeOfDay> {
    if s.len() == 6 && digits_at(s, 0, 6) {
        checked_time(
            TimeOfDay {
                hour: num2(s, 0) as u32,
                minute: num2(s, 2) as u32,
                second: num2(s, 4) as u32,
                millisecond: 0,
            },
        )
    } else {
        None
    }
}

/// `HHMM`, four contiguous digits.
pub open spec fn m_compact4(s: Seq<char>) -> Option<TimeOfDay> {
    if s.len() == 4 && digits_at(s, 0, 4) {
        checked_time(
            TimeOfDay { hour: num2(s, 0) as u32, minute: num2(s, 2) as u32, second: 0, millisecond: 0 },
        )
    } else {
        None
    }
}

/// The ordered time-only layout family of `parse_time`: layout `k` of
/// five, anchored to today's local date.
pub open spec fn pt_match(k: int, s: Seq<char>) -> Option<TimeOfDay> {
    if k == 0 {
        m_time_frac(s)
    } else if k == 1 {
        m_time(s)
    } else if k == 2 {
        m_hm(s)
    } else if k == 3 {
        m_compact6(s)
    } else if k == 4 {
        m_compact4(s)
    } else {
        None
    }
}

/// No time-only layout of `parse_time` matches `s`.
pub open spec fn pt_all_none(s: Seq<char>) -> bool {
    forall|k: int| 0 <= k < 5 ==> (#[trigger] pt_match(k, s)) is None
}

/// The calendar day `y`-`mo`-`d` at the time of day `tod`.
pub open spec fn with_tod(y: i32, mo: u32, d: u32, tod: TimeOfDay) -> CivilDateTime {
    CivilDateTime {
        year: y,
        month: mo,
        day: d,
        hour: tod.hour,
        minute: tod.minute,
        second: tod.second,
        millisecond: tod.millisecond,
    }
}

/// `t` is the time of day `tod` on some calendar day (today's, when the
/// clock is read), resolved against the local timezone.
pub open spec fn today_resolved(tod: TimeOfDay, t: int) -> bool {
    exists|y: i32, mo: u32, d: u32| resolved_from_fields(#[trigger] with_tod(y, mo, d, tod), t)
}

/// `t` resolves some layout of `parse` matched against `s`.
pub open spec fn parses_to(s: Seq<char>, t: int) -> bool {
    exists|k: int, c: CivilDateTime|
        #![trigger pd_match(k, s), resolved_from_fields(c, t)]
        {
            &&& 0 <= k < 12
            &&& pd_match(k, s) == Some(c)
            &&& resolved_from_fields(c, t)
        }
}

/// `t` resolves some time-only layout of `parse_time` matched against
/// `s`, anchored to a calendar day.
pub open spec fn time_parses_to(s: Seq<char>, t: int) -> bool {
    exists|k: int, tod: TimeOfDay|
        #![trigger pt_match(k, s), today_resolved(tod, t)]
        {
            &&& 0 <= k < 5
            &&& pt_match(k, s) == Some(tod)
            &&& today_resolved(tod, t)
        }
}

/// Reads the decimal digit at `i`, if there is one.
fn digit_at(s: &str, i: usize) -> (r: Option<u32>)
    requires
        i < s@.len(),
    ensures
        r matches Some(v) ==> is_digit(s@[i as int]) && v == digit_val(s@[i as int]) && v <= 9,
        r is None ==> !is_digit(s@[i as int]),
{
    let c: char = s.get_char(i);
    let cv: u32 = c as u32;
    if 48 <= cv && cv <= 57 {
        Some(cv - 48)
    } else {
        None
    }
}

/// True when character `i` is exactly `ch`.
fn char_is(s: &str, i: usize, ch: char) -> (r: bool)
    requires
        i < s@.len(),
    ensures
        r == (s@[i as int] == ch),
{
    s.get_char(i) == ch
}

/// Reads the two-digit number at `i`.
fn read2(s: &str, i: usize) -> (r: Option<u32>)
    requires
        i + 2 <= s@.len(),
        i + 2 <= usize::MAX,
    ensures
        r matches Some(v) ==> digits_at(s@, i as int, 2) && v == num2(s@, i as int) && v <= 99,
        r is None ==> !digits_at(s@, i as int, 2),
{
    let a: u32 = match digit_at(s, i) {
        Some(v) => v,
        None => {
            return None;
        },
    };
    let b: u32 = match digit_at(s, i + 1) {
        Some(v) => v,
        None => {
            return None;
        },
    };
    Some(10 * a + b)
}

/// Reads the four-digit number at `i`.
fn read4(s: &str, i: usize) -> (r: Option<u32>)
    requires
        i + 4 <= s@.len(),
        i + 4 <= usize::MAX,
    ensures
        r matches Some(v) ==> digits_at(s@, i as int, 4) && v == num4(s@, i as int) && v <= 9999,
        r is None ==> !digits_at(s@, i as int, 4),
{
    let a: u32 = match digit_at(s, i) {
        Some(v) => v,
        None => {
            return None;
        },
    };
    let b: u32 = match digit_at(s, i + 1) {
        Some(v) => v,
        None => {
            return None;
        },
    };
    let c: u32 = match digit_at(s, i + 2) {
        Some(v) => v,
        None => {
            return None;
        },
    };
    let d: u32 = match digit_at(s, i + 3) {
        Some(v) => v,
        None => {
            return None;
        },
    };
    Some(1000 * a + 100 * b + 10 * c + d)
}

/// Reads `YYYY-MM-DD` at `i`.
fn read_dash_date(s: &str, i: usize) -> (r: Option<(u32, u32, u32)>)
    requires
        i + 10 <= s@.len(),
        i + 10 <= usize::MAX,
    ensures
        r matches Some(v) ==> {
            &&& dash_date_ok(s@, i as int)
            &&& v.0 == num4(s@, i as int) && v.0 <= 9999
            &&& v.1 == num2(s@, i as int + 5) && v.1 <= 99
            &&& v.2 == num2(s@, i as int + 8) && v.2 <= 99
        },
        r is None ==> !dash_date_ok(s@, i as int),
{
    let y: u32 = match read4(s, i) {
        Some(v) => v,
        None => {
            return None;
        },
    };
    if !char_is(s, i + 4, '-') {
        return None;
    }
    let mo: u32 = match read2(s, i + 5) {
        Some(v) => v,
        None => {
            return None;
        },
    };
    if !char_is(s, i + 7, '-') {
        return None;
    }
    let d: u32 = match read2(s, i + 8) {
        Some(v) => v,
        None => {
            return None;
        },
    };
    Some((y, mo, d))
}

/// Reads `YYYY/MM/DD` at `i`.
fn read_slash_date(s: &str, i: usize) -> (r: Option<(u32, u32, u32)>)
    requires
        i + 10 <= s@.len(),
        i + 10 <= usize::MAX,
    ensures
        r matches Some(v) ==> {
            &&& slash_date_ok(s@, i as int)
            &&& v.0 == num4(s@, i as int) && v.0 <= 9999
            &&& v.1 == num2(s@, i as int + 5) && v.1 <= 99
            &&& v.2 == num2(s@, i as int + 8) && v.2 <= 99
        },
        r is None ==> !slash_date_ok(s@, i as int),
{
    let y: u32 = match read4(s, i) {
        Some(v) => v,
        None => {
            return None;
        },
    };
    if !char_is(s, i + 4, '/') {
        return None;
    }
    let mo: u32 = match read2(s, i + 5) {
        Some(v) => v,
        None => {
            return None;
        },
    };
    if !char_is(s, i + 7, '/') {
        return None;
    }
    let d: u32 = match read2(s, i + 8) {
        Some(v) => v,
        None => {
            return None;
        },
    };
    Some((y, mo, d))
}

/// Reads `HH:MM:SS` at `i`.
fn read_time(s: &str, i: usize) -> (r: Option<(u32, u32, u32)>)
    requires
        i + 8 <= s@.len(),
        i + 8 <= usize::MAX,
    ensures
        r matches Some(v) ==> {
            &&& time_ok(s@, i as int)
            &&& v.0 == num2(s@, i as int) && v.0 <= 99
            &&& v.1 == num2(s@, i as int + 3) && v.1 <= 99
            &&& v.2 == num2(s@, i as int + 6) && v.2 <= 99
        },
        r is None ==> !time_ok(s@, i as int),
{
    let h: u32 = match read2(s, i) {
        Some(v) => v,
        None => {
            return None;
        },
    };
    if !char_is(s, i + 2, ':') {
        return None;
    }
    let mi: u32 = match read2(s, i + 3) {
        Some(v) => v,
        None => {
            return None;
        },
    };
    if !char_is(s, i + 5, ':') {
        return None;
    }
    let sec: u32 = match read2(s, i + 6) {
        Some(v) => v,
        None => {
            return None;
        },
    };
    Some((h, mi, sec))
}

/// Reads the optional millisecond fraction running from `i` to the end.
fn scan_frac(s: &str, i: usize) -> (r: Option<u32>)
    requires
        i <= s@.len(),
    ensures
        r matches Some(v) ==> frac_ok(s@, i as int) && v == frac_ms(s@, i as int) && v <= 999,
        r is None ==> !frac_ok(s@, i as int),
{
    let n: usize = s.unicode_len();
    if i == n {
        return Some(0);
    }
    if !char_is(s, i, '.') {
        return None;
    }
    let k: usize = n - i - 1;
    if k < 1 || k > 9 {
        return None;
    }
    let mut j: usize = i + 1;
    while j < n
        invariant
            i + 1 <= j <= n,
            n == s@.len(),
            i < n,
            forall|t: int| i + 1 <= t < j ==> is_digit(#[trigger] s@[t]),
        decreases n - j,
    {
        match digit_at(s, j) {
            Some(v) => {},
            None => {
                return None;
            },
        }
        j += 1;
    }
    let d1: u32 = match digit_at(s, i + 1) {
        Some(v) => v,
        None => vstd::pervasive::unreached(),
    };
    let mut v: u32 = 100 * d1;
    if k >= 2 {
        let d2: u32 = match digit_at(s, i + 2) {
            Some(v2) => v2,
            None => vstd::pervasive::unreached(),
        };
        v = v + 10 * d2;
    }
    if k >= 3 {
        let d3: u32 = match digit_at(s, i + 3) {
            Some(v3) => v3,
            None => vstd::pervasive::unreached(),
        };
        v = v + d3;
    }
    Some(v)
}

/// Keeps a syntactic date/time match only when its fields are a real
/// calendar date and time.
fn finish(y: u32, mo: u32, d: u32, h: u32, mi: u32, sec: u32, ms: u32) -> (r: Option<
    CivilDateTime,
>)
    requires
        y <= 9999,
    ensures
        r == checked(
            civil_from(y as int, mo as int, d as int, h as int, mi as int, sec as int, ms as int),
        ),
{
    let c = CivilDateTime {
        year: y as i32,
        month: mo,
        day: d,
        hour: h,
        minute: mi,
        second: sec,
        millisecond: ms,
    };
    if c.check_valid() {
        Some(c)
    } else {
        None
    }
}

/// Keeps a syntactic time match only when its fields are a real time of
/// day.
fn finish_time(h: u32, mi: u32, sec: u32, ms: u32) -> (r: Option<TimeOfDay>)
    ensures
        r == checked_time(TimeOfDay { hour: h, minute: mi, second: sec, millisecond: ms }),
{
    let t = TimeOfDay { hour: h, minute: mi, second: sec, millisecond: ms };
    if h < 24 && mi < 60 && sec < 60 && ms < 1000 {
        Some(t)
    } else {
        None
    }
}

fn try_dash_dt_frac(s: &str) -> (r: Option<CivilDateTime>)
    ensures
        r == m_dash_dt_frac(s@),
{
    let n: usize = s.unicode_len();
    if n < 19 {
        return None;
    }
    let (y, mo, d) = match read_dash_date(s, 0) {
        Some(v) => v,
        None => {
            return None;
        },
    };
    if !char_is(s, 10, ' ') {
        return None;
    }
    let (h, mi, sec) = match read_time(s, 11) {
        Some(v) => v,
        None => {
            return None;
        },
    };
    let ms: u32 = match scan_frac(s, 19) {
        Some(v) => v,
        None => {
            return None;
        },
    };
    finish(y, mo, d, h, mi, sec, ms)
}

fn try_dash_dt(s: &str) -> (r: Option<CivilDateTime>)
    ensures
        r == m_dash_dt(s@),
{
    let n: usize = s.unicode_len();
    if n != 19 {
        return None;
    }
    let (y, mo, d) = match read_dash_date(s, 0) {
        Some(v) => v,
        None => {
            return None;
        },
    };
    if !char_is(s, 10, ' ') {
        return None;
    }
    let (h, mi, sec) = match read_time(s, 11) {
        Some(v) => v,
        None => {
            return None;
        },
    };
    finish(y, mo, d, h, mi, sec, 0)
}

fn try_slash_dt_frac(s: &str) -> (r: Option<CivilDateTime>)
    ensures
        r == m_slash_dt_frac(s@),
{
    let n: usize = s.unicode_len();
    if n < 19 {
        return None;
    }
    let (y, mo, d) = match read_slash_date(s, 0) {
        Some(v) => v,
        None => {
            return None;
        },
    };
    if !char_is(s, 10, ' ') {
        return None;
    }
    let (h, mi, sec) = match read_time(s, 11) {
        Some(v) => v,
        None => {
            return None;
        },
    };
    let ms: u32 = match scan_frac(s, 19) {
        Some(v) => v,
        None => {
            return None;
        },
    };
    finish(y, mo, d, h, mi, sec, ms)
}

fn try_slash_dt(s: &str) -> (r: Option<CivilDateTime>)
    ensures
        r == m_slash_dt(s@),
{
    let n: usize = s.unicode_len();
    if n != 19 {
        return None;
    }
    let (y, mo, d) = match read_slash_date(s, 0) {
        Some(v) => v,
        None => {
            return None;
        },
    };
    if !char_is(s, 10, ' ') {
        return None;
    }
    let (h, mi, sec) = match read_time(s, 11) {
        Some(v) => v,
        None => {
            return None;
        },
    };
    finish(y, mo, d, h, mi, sec, 0)
}

fn try_us_dt(s: &str) -> (r: Option<CivilDateTime>)
    ensures
        r == m_us_dt(s@),
{
    let n: usize = s.unicode_len();
    if n != 19 {
        return None;
    }
    let mo: u32 = match read2(s, 0) {
        Some(v) => v,
        None => {
            return None;
        },
    };
    if !char_is(s, 2, '/') {
        return None;
    }
    let d: u32 = match read2(s, 3) {
        Some(v) => v,
        None => {
            return None;
        },
    };
    if !char_is(s, 5, '/') {
        return None;
    }
    let y: u32 = match read4(s, 6) {
        Some(v) => v,
        None => {
            return None;
        },
    };
    if !char_is(s, 10, ' ') {
        return None;
    }
    let (h, mi, sec) = match read_time(s, 11) {
        Some(v) => v,
        None => {
            return None;
        },
    };
    finish(y, mo, d, h, mi, sec, 0)
}

fn try_time_first(s: &str) -> (r: Option<CivilDateTime>)
    ensures
        r == m_time_first(s@),
{
    let n: usize = s.unicode_len();
    if n != 19 {
        return None;
    }
    let (h, mi, sec) = match read_time(s, 0) {
        Some(v) => v,
        None => {
            return None;
        },
    };
    if !char_is(s, 8, ' ') {
        return None;
    }
    let d: u32 = match read2(s, 9) {
        Some(v) => v,
        None => {
            return None;
        },
    };
    if !char_is(s, 11, '-') {
        return None;
    }
    let mo: u32 = match read2(s, 12) {
        Some(v) => v,
        None => {
            return None;
        },
    };
    if !char_is(s, 14, '-') {
        return None;
    }
    let y: u32 = match read4(s, 15) {
        Some(v) => v,
        None => {
            return None;
        },
    };
    finish(y, mo, d, h, mi, sec, 0)
}

fn try_compact_dt(s: &str) -> (r: Option<CivilDateTime>)
    ensures
        r == m_compact_dt(s@),
{
    let n: usize = s.unicode_len();
    if n != 15 {
        return None;
    }
    let y: u32 = match read4(s, 0) {
        Some(v) => v,
        None => {
            return None;
        },
    };
    let mo: u32 = match read2(s, 4) {
        Some(v) => v,
        None => {
            return None;
        },
    };
    let d: u32 = match read2(s, 6) {
        Some(v) => v,
        None => {
            return None;
        },
    };
    if !char_is(s, 8, ' ') {
        return None;
    }
    let h: u32 = match read2(s, 9) {
        Some(v) => v,
        None => {
            return None;
        },
    };
    let mi: u32 = match read2(s, 11) {
        Some(v) => v,
        None => {
            return None;
        },
    };
    let sec: u32 = match read2(s, 13) {
        Some(v) => v,
        None => {
            return None;
        },
    };
    finish(y, mo, d, h, mi, sec, 0)
}

fn try_iso_z(s: &str) -> (r: Option<CivilDateTime>)
    ensures
        r == m_iso_z(s@),
{
    let n: usize = s.unicode_len();
    if n != 20 {
        return None;
    }
    let (y, mo, d) = match read_dash_date(s, 0) {
        Some(v) => v,
        None => {
            return None;
        },
    };
    if !char_is(s, 10, 'T') {
        return None;
    }
    let (h, mi, sec) = match read_time(s, 11) {
        Some(v) => v,
        None => {
            return None;
        },
    };
    if !char_is(s, 19, 'Z') {
        return None;
    }
    finish(y, mo, d, h, mi, sec, 0)
}

fn try_iso_off(s: &str) -> (r: Option<CivilDateTime>)
    ensures
        r == m_iso_off(s@),
{
    let n: usize = s.unicode_len();
    if n != 24 {
        return None;
    }
    let (y, mo, d) = match read_dash_date(s, 0) {
        Some(v) => v,
        None => {
            return None;
        },
    };
    if !char_is(s, 10, 'T') {
        return None;
    }
    let (h, mi, sec) = match read_time(s, 11) {
        Some(v) => v,
        None => {
            return None;
        },
    };
    if !char_is(s, 19, '+') && !char_is(s, 19, '-') {
        return None;
    }
    match read4(s, 20) {
        Some(v) => {},
        None => {
            return None;
        },
    }
    finish(y, mo, d, h, mi, sec, 0)
}

fn try_dash_date(s: &str) -> (r: Option<CivilDateTime>)
    ensures
        r == m_dash_date(s@),
{
    let n: usize = s.unicode_len();
    if n != 10 {
        return None;
    }
    let (y, mo, d) = match read_dash_date(s, 0) {
        Some(v) => v,
        None => {
            return None;
        },
    };
    finish(y, mo, d, 0, 0, 0, 0)
}

fn try_slash_date(s: &str) -> (r: Option<CivilDateTime>)
    ensures
        r == m_slash_date(s@),
{
    let n: usize = s.unicode_len();
    if n != 10 {
        return None;
    }
    let (y, mo, d) = match read_slash_date(s, 0) {
        Some(v) => v,
        None => {
            return None;
        },
    };
    finish(y, mo, d, 0, 0, 0, 0)
}

fn try_compact_date(s: &str) -> (r: Option<CivilDateTime>)
    ensures
        r == m_compact_date(s@),
{
    let n: usize = s.unicode_len();
    if n != 8 {
        return None;
    }
    let y: u32 = match read4(s, 0) {
        Some(v) => v,
        None => {
            return None;
        },
    };
    let mo: u32 = match read2(s, 4) {
        Some(v) => v,
        None => {
            return None;
        },
    };
    let d: u32 = match read2(s, 6) {
        Some(v) => v,
        None => {
            return None;
        },
    };
    finish(y, mo, d, 0, 0, 0, 0)
}

fn try_time_frac(s: &str) -> (r: Option<TimeOfDay>)
    ensures
        r == m_time_frac(s@),
{
    let n: usize = s.unicode_len();
    if n < 8 {
        return None;
    }
    let (h, mi, sec) = match read_time(s, 0) {
        Some(v) => v,
        None => {
            return None;
        },
    };
    let ms: u32 = match scan_frac(s, 8) {
        Some(v) => v,
        None => {
            return None;
        },
    };
    finish_time(h, mi, sec, ms)
}

fn try_time(s: &str) -> (r: Option<TimeOfDay>)
    ensures
        r == m_time(s@),
{
    let n: usize = s.unicode_len();
    if n != 8 {
        return None;
    }
    let (h, mi, sec) = match read_time(s, 0) {
        Some(v) => v,
        None => {
            return None;
        },
    };
    finish_time(h, mi, sec, 0)
}

fn try_hm(s: &str) -> (r: Option<TimeOfDay>)
    ensures
        r == m_hm(s@),
{
    let n: usize = s.unicode_len();
    if n != 5 {
        return None;
    }
    let h: u32 = match read2(s, 0) {
        Some(v) => v,
        None => {
            return None;
        },
    };
    if !char_is(s, 2, ':') {
        return None;
    }
    let mi: u32 = match read2(s, 3) {
        Some(v) => v,
        None => {
            return None;
        },
    };
    finish_time(h, mi, 0, 0)
}

fn try_compact6(s: &str) -> (r: Option<TimeOfDay>)
    ensures
        r == m_compact6(s@),
{
    let n: usize = s.unicode_len();
    if n != 6 {
        return None;
    }
    let h: u32 = match read2(s, 0) {
        Some(v) => v,
        None => {
            return None;
        },
    };
    let mi: u32 = match read2(s, 2) {
        Some(v) => v,
        None => {
            return None;
        },
    };
    let sec: u32 = match read2(s, 4) {
        Some(v) => v,
        None => {
            return None;
        },
    };
    finish_time(h, mi, sec, 0)
}

fn try_compact4(s: &str) -> (r: Option<TimeOfDay>)
    ensures
        r == m_compact4(s@),
{
    let n: usize = s.unicode_len();
    if n != 4 {
        return None;
    }
    let h: u32 = match read2(s, 0) {
        Some(v) => v,
        None => {
            return None;
        },
    };
    let mi: u32 = match read2(s, 2) {
        Some(v) => v,
        None => {
            return None;
        },
    };
    finish_time(h, mi, 0, 0)
}

/// Resolves a valid calendar match against the local timezone.
fn resolve_civil(c: &CivilDateTime) -> (r: Option<Timestamp>)
    requires
        c.valid(),
    ensures
        r matches Some(t) ==> resolved_from_fields(*c, t@),
{
    match local_resolve(c) {
        Some((ms, off)) => {
            let t = Timestamp::new(ms);
            proof {
                assert(resolved_at(t@, *c, off as int));
                assert(resolved_from_fields(*c, t@));
            }
            return Some(t);
        },
        None => None,
    }
}

/// Anchors a valid time-of-day match to today's local date and resolves
/// it against the local timezone.
fn resolve_today(tod: &TimeOfDay) -> (r: Option<Timestamp>)
    requires
        tod.valid(),
    ensures
        r matches Some(t) ==> today_resolved(*tod, t@),
{
    let (y, mo, d) = today_date();
    let c = CivilDateTime {
        year: y,
        month: mo,
        day: d,
        hour: tod.hour,
        minute: tod.minute,
        second: tod.second,
        millisecond: tod.millisecond,
    };
    if !c.check_valid() {
        return None;
    }
    match resolve_civil(&c) {
        Some(t) => {
            proof {
                assert(c == with_tod(y, mo, d, *tod));
                assert(resolved_from_fields(with_tod(y, mo, d, *tod), t@));
                assert(today_resolved(*tod, t@));
            }
            return Some(t);
        },
        None => None,
    }
}

impl Timestamp {
    /// Parses a date-forward string: tries the twelve layouts in their
    /// fixed order and returns the first match that resolves to a local
    /// instant.  A date-only match is read as local midnight.
    pub fn parse(s: &str) -> (r: Result<Timestamp, ParseTimestampError>)
        ensures
            r is Ok ==> parses_to(s@, (r->Ok_0)@),
            pd_all_none(s@) ==> r is Err,
            r is Err ==> (r->Err_0).input@ == s@,
    {
        if let Some(c) = try_dash_dt_frac(s) {
            if let Some(t) = resolve_civil(&c) {
                proof {
                    assert(pd_match(0, s@) == Some(c));
                    assert(parses_to(s@, t@));
                }
                return Ok(t);
            }
        }
        if let Some(c) = try_dash_dt(s) {
            if let Some(t) = resolve_civil(&c) {
                proof {
                    assert(pd_match(1, s@) == Some(c));
                    assert(parses_to(s@, t@));
                }
                return Ok(t);
            }
        }
        if let Some(c) = try_slash_dt_frac(s) {
            if let Some(t) = resolve_civil(&c) {
                proof {
                    assert(pd_match(2, s@) == Some(c));
                    assert(parses_to(s@, t@));
                }
                return Ok(t);
            }
        }
        if let Some(c) = try_slash_dt(s) {
            if let Some(t) = resolve_civil(&c) {
                proof {
                    assert(pd_match(3, s@) == Some(c));
                    assert(parses_to(s@, t@));
                }
                return Ok(t);
            }
        }
        if let Some(c) = try_us_dt(s) {
            if let Some(t) = resolve_civil(&c) {
                proof {
                    assert(pd_match(4, s@) == Some(c));
                    assert(parses_to(s@, t@));
                }
                return Ok(t);
            }
        }
        if let Some(c) = try_time_first(s) {
            if let Some(t) = resolve_civil(&c) {
                proof {
                    assert(pd_match(5, s@) == Some(c));
                    assert(parses_to(s@, t@));
                }
                return Ok(t);
            }
        }
        if let Some(c) = try_compact_dt(s) {
            if let Some(t) = resolve_civil(&c) {
                proof {
                    assert(pd_match(6, s@) == Some(c));
                    assert(parses_to(s@, t@));
                }
                return Ok(t);
            }
        }
        if let Some(c) = try_iso_z(s) {
            if let Some(t) = resolve_civil(&c) {
                proof {
                    assert(pd_match(7, s@) == Some(c));
                    assert(parses_to(s@, t@));
                }
                return Ok(t);
            }
        }
        if let Some(c) = try_iso_off(s) {
            if let Some(t) = resolve_civil(&c) {
                proof {
                    assert(pd_match(8, s@) == Some(c));
                    assert(parses_to(s@, t@));
                }
                return Ok(t);
            }
        }
        if let Some(c) = try_dash_date(s) {
            if let Some(t) = resolve_civil(&c) {
                proof {
                    assert(pd_match(9, s@) == Some(c));
                    assert(parses_to(s@, t@));
                }
                return Ok(t);
            }
        }
        if let Some(c) = try_slash_date(s) {
            if let Some(t) = resolve_civil(&c) {
                proof {
                    assert(pd_match(10, s@) == Some(c));
                    assert(parses_to(s@, t@));
                }
                return Ok(t);
            }
        }
        if let Some(c) = try_compact_date(s) {
            if let Some(t) = resolve_civil(&c) {
                proof {
                    assert(pd_match(11, s@) == Some(c));
                    assert(parses_to(s@, t@));
                }
                return Ok(t);
            }
        }
        Err(ParseTimestampError { input: s.to_owned() })
    }

    /// Parses a time-forward string: tries the five time-only layouts
    /// first, each anchored to today's local date, and falls through to
    /// the full layout family of `parse`.
    pub fn parse_time(s: &str) -> (r: Result<Timestamp, ParseTimestampError>)
        ensures
            r is Ok ==> time_parses_to(s@, (r->Ok_0)@) || parses_to(s@, (r->Ok_0)@),
            pt_all_none(s@) && pd_all_none(s@) ==> r is Err,
            r is Err ==> (r->Err_0).input@ == s@,
    {
        if let Some(tod) = try_time_frac(s) {
            if let Some(t) = resolve_today(&tod) {
                proof {
                    assert(pt_match(0, s@) == Some(tod));
                    assert(time_parses_to(s@, t@));
                }
                return Ok(t);
            }
        }
        if let Some(tod) = try_time(s) {
            if let Some(t) = resolve_today(&tod) {
                proof {
                    assert(pt_match(1, s@) == Some(tod));
                    assert(time_parses_to(s@, t@));
                }
                return Ok(t);
            }
        }
        if let Some(tod) = try_hm(s) {
            if let Some(t) = resolve_today(&tod) {
                proof {
                    assert(pt_match(2, s@) == Some(tod));
                    assert(time_parses_to(s@, t@));
                }
                return Ok(t);
            }
        }
        if let Some(tod) = try_compact6(s) {
            if let Some(t) = resolve_today(&tod) {
                proof {
                    assert(pt_match(3, s@) == Some(tod));
                    assert(time_parses_to(s@, t@));
                }
                return Ok(t);
            }
        }
        if let Some(tod) = try_compact4(s) {
            if let Some(t) = resolve_today(&tod) {
                proof {
                    assert(pt_match(4, s@) == Some(tod));
                    assert(time_parses_to(s@, t@));
                }
                return Ok(t);
            }
        }
        match Timestamp::parse(s) {
            Ok(t) => {
                proof {
                    assert(parses_to(s@, t@));
                }
                return Ok(t);
            },
            Err(e) => Err(e),
        }
    }

    /// Parses a string, as `parse` does.
    pub fn from_string(s: &str) -> (r: Result<Timestamp, ParseTimestampError>)
        ensures
            r is Ok ==> parses_to(s@, (r->Ok_0)@),
            pd_all_none(s@) ==> r is Err,
            r is Err ==> (r->Err_0).input@ == s@,
    {
        Timestamp::parse(s)
    }
}


/// Every decimal digit character carries its value.
proof fn lemma_digit_val_char(k: int)
    requires
        0 <= k <= 9,
    ensures
        is_digit(digit_char(k)),
        digit_val(digit_char(k)) == k,
{
}

/// A two-digit rendering is two digit characters that read back as the
/// number.
proof fn lemma_num_str2(n: int)
    requires
        0 <= n <= 99,
    ensures
        num_str(n, 2) =~= seq![digit_char(n / 10), digit_char(n % 10)],
        is_digit(num_str(n, 2)[0]),
        is_digit(num_str(n, 2)[1]),
        num2(num_str(n, 2), 0) == n,
{
    reveal_with_fuel(num_str, 3);
    lemma_digit_val_char(n / 10);
    lemma_digit_val_char(n % 10);
    assert(num_str(n, 2) =~= seq![digit_char(n / 10), digit_char(n % 10)]);
}

/// A three-digit rendering reads back as the number.
proof fn lemma_num_str3(n: int)
    requires
        0 <= n <= 999,
    ensures
        num_str(n, 3) =~= seq![digit_char(n / 100), digit_char((n / 10) % 10), digit_char(n % 10)],
        is_digit(num_str(n, 3)[0]),
        is_digit(num_str(n, 3)[1]),
        is_digit(num_str(n, 3)[2]),
        100 * digit_val(num_str(n, 3)[0]) + 10 * digit_val(num_str(n, 3)[1]) + digit_val(
            num_str(n, 3)[2],
        ) == n,
{
    reveal_with_fuel(num_str, 4);
    lemma_digit_val_char(n / 100);
    lemma_digit_val_char((n / 10) % 10);
    lemma_digit_val_char(n % 10);
    assert(num_str(n, 3) =~= seq![
        digit_char(n / 100),
        digit_char((n / 10) % 10),
        digit_char(n % 10),
    ]);
    assert(n / 10 / 10 == n / 100) by (nonlinear_arith);
    assert(100 * (n / 100) + 10 * ((n / 10) % 10) + n % 10 == n) by (nonlinear_arith)
        requires
            0 <= n <= 999,
    ;
}

/// A four-digit rendering reads back as the number.
proof fn lemma_num_str4(n: int)
    requires
        0 <= n <= 9999,
    ensures
        num_str(n, 4) =~= seq![
            digit_char(n / 1000),
            digit_char((n / 100) % 10),
            digit_char((n / 10) % 10),
            digit_char(n % 10),
        ],
        digits_at(num_str(n, 4), 0, 4),
        num4(num_str(n, 4), 0) == n,
{
    reveal_with_fuel(num_str, 5);
    lemma_digit_val_char(n / 1000);
    lemma_digit_val_char((n / 100) % 10);
    lemma_digit_val_char((n / 10) % 10);
    lemma_digit_val_char(n % 10);
    assert(n / 10 / 10 == n / 100) by (nonlinear_arith);
    assert(n / 10 / 10 / 10 == n / 1000) by (nonlinear_arith);
    assert(num_str(n, 4) =~= seq![
        digit_char(n / 1000),
        digit_char((n / 100) % 10),
        digit_char((n / 10) % 10),
        digit_char(n % 10),
    ]);
    assert(1000 * (n / 1000) + 100 * ((n / 100) % 10) + 10 * ((n / 10) % 10) + n % 10 == n)
        by (nonlinear_arith)
        requires
            0 <= n <= 9999,
    ;
}

/// Law: the canonical formatted form of a valid civil date/time with a
/// four-digit year parses back, under the first layout of `parse`, to
/// exactly the original fields.  Together with the uniqueness of local
/// decompositions this is the formatting/parsing round trip at the level
/// of calendar fields; the instant itself additionally depends on the
/// ambient timezone at the two moments.
#[verifier::rlimit(100)]
pub proof fn lemma_default_format_parses(c: CivilDateTime)
    requires
        c.valid(),
        0 <= c.year <= 9999,
    ensures
        pd_match(0, default_str(c)) == Some(c),
{
    let y = c.year as int;
    let mo = c.month as int;
    let d = c.day as int;
    let h = c.hour as int;
    let mi = c.minute as int;
    let sec = c.second as int;
    let ms = c.millisecond as int;
    lemma_num_str4(y);
    lemma_num_str2(mo);
    lemma_num_str2(d);
    lemma_num_str2(h);
    lemma_num_str2(mi);
    lemma_num_str2(sec);
    lemma_num_str3(ms);
    let s = default_str(c);
    assert(year_str(y) == num_str(y, 4));
    assert(s =~= seq![
        digit_char(y / 1000),
        digit_char((y / 100) % 10),
        digit_char((y / 10) % 10),
        digit_char(y % 10),
        '-',
        digit_char(mo / 10),
        digit_char(mo % 10),
        '-',
        digit_char(d / 10),
        digit_char(d % 10),
        ' ',
        digit_char(h / 10),
        digit_char(h % 10),
        ':',
        digit_char(mi / 10),
        digit_char(mi % 10),
        ':',
        digit_char(sec / 10),
        digit_char(sec % 10),
        '.',
        digit_char(ms / 100),
        digit_char((ms / 10) % 10),
        digit_char(ms % 10),
    ]);
    assert(s.len() == 23);
    assert(dash_date_ok(s, 0)) by {
        lemma_digit_val_char(y / 1000);
        lemma_digit_val_char((y / 100) % 10);
        lemma_digit_val_char((y / 10) % 10);
        lemma_digit_val_char(y % 10);
        lemma_digit_val_char(mo / 10);
        lemma_digit_val_char(mo % 10);
        lemma_digit_val_char(d / 10);
        lemma_digit_val_char(d % 10);
    }
    assert(time_ok(s, 11)) by {
        lemma_digit_val_char(h / 10);
        lemma_digit_val_char(h % 10);
        lemma_digit_val_char(mi / 10);
        lemma_digit_val_char(mi % 10);
        lemma_digit_val_char(sec / 10);
        lemma_digit_val_char(sec % 10);
    }
    assert(frac_ok(s, 19)) by {
        lemma_digit_val_char(ms / 100);
        lemma_digit_val_char((ms / 10) % 10);
        lemma_digit_val_char(ms % 10);
    }
    assert(num4(s, 0) == y) by {
        lemma_digit_val_char(y / 1000);
        lemma_digit_val_char((y / 100) % 10);
        lemma_digit_val_char((y / 10) % 10);
        lemma_digit_val_char(y % 10);
        assert(1000 * (y / 1000) + 100 * ((y / 100) % 10) + 10 * ((y / 10) % 10) + y % 10 == y)
            by (nonlinear_arith)
            requires
                0 <= y <= 9999,
        ;
    }
    assert(num2(s, 5) == mo) by {
        lemma_digit_val_char(mo / 10);
        lemma_digit_val_char(mo % 10);
    }
    assert(num2(s, 8) == d) by {
        lemma_digit_val_char(d / 10);
        lemma_digit_val_char(d % 10);
    }
    assert(num2(s, 11) == h) by {
        lemma_digit_val_char(h / 10);
        lemma_digit_val_char(h % 10);
    }
    assert(num2(s, 14) == mi) by {
        lemma_digit_val_char(mi / 10);
        lemma_digit_val_char(mi % 10);
    }
    assert(num2(s, 17) == sec) by {
        lemma_digit_val_char(sec / 10);
        lemma_digit_val_char(sec % 10);
    }
    assert(frac_ms(s, 19) == ms) by {
        lemma_digit_val_char(ms / 100);
        lemma_digit_val_char((ms / 10) % 10);
        lemma_digit_val_char(ms % 10);
        assert(100 * (ms / 100) + 10 * ((ms / 10) % 10) + ms % 10 == ms) by (nonlinear_arith)
            requires
                0 <= ms <= 999,
        ;
    }
    assert(civil_from(num4(s, 0), num2(s, 5), num2(s, 8), num2(s, 11), num2(s, 14), num2(s, 17),
        frac_ms(s, 19)) == c);
    assert(m_dash_dt_frac(s) == Some(c));
}

} // verus!
