//! The proleptic Gregorian calendar on plain integers.
//!
//! A civil date/time is a tuple of calendar fields with no timezone
//! attached.  `days_from_civil` counts the days from 1970-01-01 to a given
//! date, and `civil_millis` extends that count to milliseconds within the
//! day; both are the mathematical model against which every conversion in
//! this crate is stated.

use vstd::prelude::*;

verus! {

/// First calendar year that the conversions accept, matching the range of
/// `chrono::NaiveDate`.
pub const MIN_CIVIL_YEAR: i32 = -262143;

/// Last calendar year that the conversions accept, matching the range of
/// `chrono::NaiveDate`.
pub const MAX_CIVIL_YEAR: i32 = 262142;

/// First year that a local decomposition can report: reading the calendar
/// fields of an instant near the edge of the representable range may land
/// one day outside it.
pub const MIN_REPR_YEAR: i32 = -262144;

/// Last year that a local decomposition can report.
pub const MAX_REPR_YEAR: i32 = 262143;

pub const SECONDS_PER_MINUTE: i64 = 60;

pub const SECONDS_PER_HOUR: i64 = 60 * SECONDS_PER_MINUTE;

pub const SECONDS_PER_DAY: i64 = 24 * SECONDS_PER_HOUR;

pub const MILLISECONDS_PER_SECOND: i64 = 1000;

pub const MILLISECONDS_PER_MINUTE: i64 = 60 * MILLISECONDS_PER_SECOND;

pub const MILLISECONDS_PER_HOUR: i64 = 60 * MILLISECONDS_PER_MINUTE;

pub const MILLISECONDS_PER_DAY: i64 = 24 * MILLISECONDS_PER_HOUR;

/// A year is a leap year iff it is divisible by 4 but not by 100, or
/// divisible by 400.
pub open spec fn is_leap_year(y: int) -> bool {
    (y % 4 == 0 && y % 100 != 0) || y % 400 == 0
}

pub open spec fn year_length(y: int) -> int {
    if is_leap_year(y) {
        366
    } else {
        365
    }
}

/// Number of days in month `m` (1-based) of year `y`.
pub open spec fn days_in_month(y: int, m: int) -> int {
    if m == 2 {
        if is_leap_year(y) {
            29
        } else {
            28
        }
    } else if m == 4 || m == 6 || m == 9 || m == 11 {
        30
    } else {
        31
    }
}

/// Days from `y`-01-01 to `y`-`m`-01.
pub open spec fn days_before_month(y: int, m: int) -> int
    decreases m,
{
    if m <= 1 {
        0
    } else {
        days_before_month(y, m - 1) + days_in_month(y, m - 1)
    }
}

/// Days from 1970-01-01 to `y`-01-01 (negative for earlier years).
pub open spec fn days_before_year(y: int) -> int
    decreases (if y >= 1970 { y - 1970 } else { 1970 - y }),
{
    if y == 1970 {
        0
    } else if y > 1970 {
        days_before_year(y - 1) + year_length(y - 1)
    } else {
        days_before_year(y + 1) - year_length(y)
    }
}

/// Days from 1970-01-01 to the civil date `y`-`m`-`d`.
pub open spec fn days_from_civil(y: int, m: int, d: int) -> int {
    days_before_year(y) + days_before_month(y, m) + (d - 1)
}

/// Milliseconds from local midnight for a time of day.
pub open spec fn time_of_day_millis(h: int, mi: int, s: int, ms: int) -> int {
    h * 3600000 + mi * 60000 + s * 1000 + ms
}

pub open spec fn valid_date(y: int, m: int, d: int) -> bool {
    &&& MIN_CIVIL_YEAR <= y <= MAX_CIVIL_YEAR
    &&& 1 <= m <= 12
    &&& 1 <= d <= days_in_month(y, m)
}

/// Like `valid_date`, with the year range widened by one year on each side;
/// see `CivilDateTime::repr_valid`.
pub open spec fn valid_repr_date(y: int, m: int, d: int) -> bool {
    &&& MIN_REPR_YEAR <= y <= MAX_REPR_YEAR
    &&& 1 <= m <= 12
    &&& 1 <= d <= days_in_month(y, m)
}

pub open spec fn valid_time(h: int, mi: int, s: int, ms: int) -> bool {
    &&& 0 <= h < 24
    &&& 0 <= mi < 60
    &&& 0 <= s < 60
    &&& 0 <= ms < 1000
}

/// Calendar fields of one local instant: a date, and a time of day at
/// millisecond resolution.  No timezone is attached; the fields are read
/// and resolved against the ambient local timezone by the functions of
/// `timestamp`.
#[derive(Clone, Copy, Debug, PartialEq, Eq, Structural)]
pub struct CivilDateTime {
    pub year: i32,
    pub month: u32,
    pub day: u32,
    pub hour: u32,
    pub minute: u32,
    pub second: u32,
    pub millisecond: u32,
}

impl CivilDateTime {
    /// The fields form a real calendar date and time inside the range the
    /// conversions accept.
    pub open spec fn valid(self) -> bool {
        &&& valid_date(self.year as int, self.month as int, self.day as int)
        &&& valid_time(
            self.hour as int,
            self.minute as int,
            self.second as int,
            self.millisecond as int,
        )
    }

    /// Like `valid`, but with the year range widened by one year on each
    /// side: decomposing an instant at the very edge of the representable
    /// range can report a date one day outside `valid_date`'s year range.
    pub open spec fn repr_valid(self) -> bool {
        &&& valid_repr_date(self.year as int, self.month as int, self.day as int)
        &&& valid_time(
            self.hour as int,
            self.minute as int,
            self.second as int,
            self.millisecond as int,
        )
    }

    /// Milliseconds from the epoch to this civil date/time, read as if the
    /// clock showed these fields in a zone with no offset.
    pub open spec fn spec_millis(self) -> int {
        days_from_civil(self.year as int, self.month as int, self.day as int) * 86400000
            + time_of_day_millis(
            self.hour as int,
            self.minute as int,
            self.second as int,
            self.millisecond as int,
        )
    }

    /// Milliseconds from local midnight to this civil time of day.
    pub open spec fn spec_time_millis(self) -> int {
        time_of_day_millis(
            self.hour as int,
            self.minute as int,
            self.second as int,
            self.millisecond as int,
        )
    }

    /// Executable check for `valid`.
    pub fn check_valid(&self) -> (r: bool)
        ensures
            r == self.valid(),
    {
        if !(MIN_CIVIL_YEAR <= self.year && self.year <= MAX_CIVIL_YEAR) {
            return false;
        }
        if !(1 <= self.month && self.month <= 12) {
            return false;
        }
        let ml: u32 = month_length(self.year, self.month);
        (1 <= self.day && self.day <= ml) && self.hour < 24 && self.minute < 60 && self.second < 60
            && self.millisecond < 1000
    }
}

/// Crossing into the next year adds exactly one year's worth of days.
pub proof fn lemma_days_before_year_next(y: int)
    ensures
        days_before_year(y + 1) == days_before_year(y) + year_length(y),
{
}

/// `days_before_year` is monotone.
pub proof fn lemma_days_before_year_mono(y1: int, y2: int)
    requires
        y1 <= y2,
    ensures
        days_before_year(y1) <= days_before_year(y2),
    decreases y2 - y1,
{
    if y1 < y2 {
        lemma_days_before_year_mono(y1, y2 - 1);
        lemma_days_before_year_next(y2 - 1);
    }
}

/// `days_before_month` is monotone up to the virtual thirteenth month.
pub proof fn lemma_days_before_month_mono(y: int, m1: int, m2: int)
    requires
        1 <= m1 <= m2 <= 13,
    ensures
        days_before_month(y, m1) <= days_before_month(y, m2),
    decreases m2 - m1,
{
    if m1 < m2 {
        lemma_days_before_month_mono(y, m1, m2 - 1);
    }
}

/// The months of a year sum to its length.
pub proof fn lemma_days_before_month_full(y: int)
    ensures
        days_before_month(y, 13) == year_length(y),
{
    reveal_with_fuel(days_before_month, 13);
}

/// The day-of-year index of a valid month and day lies within the year.
pub proof fn lemma_day_of_year_range(y: int, m: int, d: int)
    requires
        1 <= m <= 12,
        1 <= d <= days_in_month(y, m),
    ensures
        0 <= days_before_month(y, m) + (d - 1) < year_length(y),
{
    lemma_days_before_month_mono(y, 1, m);
    lemma_days_before_month_mono(y, m + 1, 13);
    lemma_days_before_month_full(y);
}

/// Two valid calendar dates with the same day number are the same date.
pub proof fn lemma_days_from_civil_injective(y1: int, m1: int, d1: int, y2: int, m2: int, d2: int)
    requires
        1 <= m1 <= 12,
        1 <= d1 <= days_in_month(y1, m1),
        1 <= m2 <= 12,
        1 <= d2 <= days_in_month(y2, m2),
        days_from_civil(y1, m1, d1) == days_from_civil(y2, m2, d2),
    ensures
        y1 == y2,
        m1 == m2,
        d1 == d2,
{
    lemma_day_of_year_range(y1, m1, d1);
    lemma_day_of_year_range(y2, m2, d2);
    if y1 < y2 {
        lemma_days_before_year_next(y1);
        lemma_days_before_year_mono(y1 + 1, y2);
        assert(false);
    }
    if y2 < y1 {
        lemma_days_before_year_next(y2);
        lemma_days_before_year_mono(y2 + 1, y1);
        assert(false);
    }
    if m1 < m2 {
        lemma_days_before_month_mono(y1, m1 + 1, m2);
        assert(days_before_month(y1, m1 + 1) == days_before_month(y1, m1) + days_in_month(y1, m1));
        assert(false);
    }
    if m2 < m1 {
        lemma_days_before_month_mono(y1, m2 + 1, m1);
        assert(days_before_month(y1, m2 + 1) == days_before_month(y1, m2) + days_in_month(y1, m2));
        assert(false);
    }
}

/// A product of a scale with a remainder below the scale decomposes
/// uniquely.
proof fn lemma_scaled_bounded_eq(a1: int, r1: int, a2: int, r2: int, k: int)
    requires
        k > 0,
        0 <= r1 < k,
        0 <= r2 < k,
        a1 * k + r1 == a2 * k + r2,
    ensures
        a1 == a2,
        r1 == r2,
{
    assert(a1 == a2 && r1 == r2) by (nonlinear_arith)
        requires
            k > 0,
            0 <= r1 < k,
            0 <= r2 < k,
            a1 * k + r1 == a2 * k + r2,
    ;
}

/// Law: a millisecond count determines the civil fields.  Two valid civil
/// date/times with equal millisecond counts are field-for-field equal —
/// the core of the construction/extraction round trip.
pub proof fn lemma_civil_millis_injective(c1: CivilDateTime, c2: CivilDateTime)
    requires
        c1.repr_valid(),
        c2.repr_valid(),
        c1.spec_millis() == c2.spec_millis(),
    ensures
        c1 == c2,
{
    let dd1 = days_from_civil(c1.year as int, c1.month as int, c1.day as int);
    let dd2 = days_from_civil(c2.year as int, c2.month as int, c2.day as int);
    let tod1 = c1.spec_time_millis();
    let tod2 = c2.spec_time_millis();
    assert(0 <= tod1 < 86400000);
    assert(0 <= tod2 < 86400000);
    lemma_scaled_bounded_eq(dd1, tod1, dd2, tod2, 86400000);
    lemma_days_from_civil_injective(
        c1.year as int,
        c1.month as int,
        c1.day as int,
        c2.year as int,
        c2.month as int,
        c2.day as int,
    );
    lemma_scaled_bounded_eq(
        c1.hour as int,
        tod1 - c1.hour as int * 3600000,
        c2.hour as int,
        tod2 - c2.hour as int * 3600000,
        3600000,
    );
    lemma_scaled_bounded_eq(
        c1.minute as int,
        c1.second as int * 1000 + c1.millisecond as int,
        c2.minute as int,
        c2.second as int * 1000 + c2.millisecond as int,
        60000,
    );
    lemma_scaled_bounded_eq(
        c1.second as int,
        c1.millisecond as int,
        c2.second as int,
        c2.millisecond as int,
        1000,
    );
}

/// Executable form of `is_leap_year`.
pub fn leap_year(y: i32) -> (r: bool)
    ensures
        r == is_leap_year(y as int),
{
    let z: i64 = (y as i64) + 4_000_000_000;
    proof {
        vstd::arithmetic::div_mod::lemma_mod_multiples_vanish(1_000_000_000, y as int, 4);
        vstd::arithmetic::div_mod::lemma_mod_multiples_vanish(40_000_000, y as int, 100);
        vstd::arithmetic::div_mod::lemma_mod_multiples_vanish(10_000_000, y as int, 400);
    }
    (z % 4 == 0 && z % 100 != 0) || z % 400 == 0
}

/// Executable form of `days_in_month`.
pub fn month_length(y: i32, m: u32) -> (r: u32)
    requires
        1 <= m <= 12,
    ensures
        r == days_in_month(y as int, m as int),
{
    if m == 2 {
        if leap_year(y) {
            29
        } else {
            28
        }
    } else if m == 4 || m == 6 || m == 9 || m == 11 {
        30
    } else {
        31
    }
}

} // verus!
