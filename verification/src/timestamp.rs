//! The millisecond-resolution local timestamp.
//!
//! A [`Timestamp`] wraps a 64-bit signed count of milliseconds since the
//! Unix epoch.  Calendar-aware operations read the instant's local fields
//! through the trusted wrappers of [`crate::zone`]; every decision made on
//! those fields is verified here.  The value 0 doubles as the sentinel for
//! "unset", tested with [`Timestamp::is_empty`].

use vstd::prelude::*;

use crate::calendar::CivilDateTime;

verus! {

use crate::calendar::{
    MILLISECONDS_PER_HOUR,
    MILLISECONDS_PER_MINUTE,
    MILLISECONDS_PER_SECOND,
    time_of_day_millis,
    valid_time,
};
use crate::layout::{compact_date_str, date_str, default_str, fmt_layout, format_civil, time_str};
use vstd::std_specs::cmp::PartialOrdSpec;
use crate::zone::{local_decompose, local_rel, local_resolve, now_millis, representable_millis};

/// The calendar fields of `c` with the sub-second part cleared.
pub open spec fn seconds_truncate(c: CivilDateTime) -> CivilDateTime {
    CivilDateTime { millisecond: 0, ..c }
}

/// Hour of the fixed pre-market anchor, 09:00:00 local time.
pub const PRE_MARKET_HOUR: u32 = 9;

pub const PRE_MARKET_MINUTE: u32 = 0;

pub const PRE_MARKET_SECOND: u32 = 0;

/// A local timestamp: milliseconds since 1970-01-01T00:00:00 UTC, read in
/// the process's local timezone for display and calendar extraction.
#[derive(Clone, Copy, Debug, PartialEq, Eq, Ord, Structural)]
pub struct Timestamp {
    ms: i64,
}

impl View for Timestamp {
    type V = int;

    closed spec fn view(&self) -> int {
        self.ms as int
    }
}

/// The instant whose calendar fields the date-aware operations read: the
/// value itself when `chrono` can decompose it, and the Unix epoch
/// otherwise.  Falling back to the epoch keeps counts outside the
/// representable span usable in every calendar operation instead of
/// failing them.
pub open spec fn source_instant(ms: int) -> int {
    if representable_millis(ms) {
        ms
    } else {
        0
    }
}

/// The calendar fields of `c` with seconds and milliseconds cleared: the
/// start of the minute that contains `c`.
pub open spec fn minute_floor(c: CivilDateTime) -> CivilDateTime {
    CivilDateTime { second: 0, millisecond: 0, ..c }
}

/// The calendar fields of `c` moved to second 59, millisecond 999: the last
/// millisecond of the minute that contains `c`.
pub open spec fn minute_ceil(c: CivilDateTime) -> CivilDateTime {
    CivilDateTime { second: 59, millisecond: 999, ..c }
}

/// The calendar fields of `c` at local midnight of the same day.
pub open spec fn day_start(c: CivilDateTime) -> CivilDateTime {
    CivilDateTime { hour: 0, minute: 0, second: 0, millisecond: 0, ..c }
}

/// The date fields of `c` combined with the given time of day.
pub open spec fn with_time(c: CivilDateTime, h: u32, mi: u32, s: u32, ms: u32) -> CivilDateTime {
    CivilDateTime { hour: h, minute: mi, second: s, millisecond: ms, ..c }
}

/// `r` is the instant at which a clock in a fixed offset of `off` seconds
/// from UTC (strictly within one day) shows the civil fields `g`.
pub open spec fn resolved_at(r: int, g: CivilDateTime, off: int) -> bool {
    &&& -86400 < off < 86400
    &&& r == g.spec_millis() - off * 1000
}

/// `t` is an instant at which the local clock shows exactly the valid
/// civil fields `c`.
pub open spec fn resolved_from_fields(c: CivilDateTime, t: int) -> bool {
    &&& c.valid()
    &&& exists|off: int| resolved_at(t, c, off)
}

/// `t` is an instant on the same local calendar day as the instant `src`,
/// at the given time of day.
pub open spec fn same_day_at(src: int, h: u32, mi: u32, s: u32, ms: u32, t: int) -> bool {
    exists|c: CivilDateTime, off: int, off2: int|
        #![trigger local_rel(src, c, off), resolved_at(t, with_time(c, h, mi, s, ms), off2)]
        {
            &&& local_rel(src, c, off)
            &&& resolved_at(t, with_time(c, h, mi, s, ms), off2)
        }
}

/// `x` clamped to the range of `i64`.
pub open spec fn clamp_i64(x: int) -> int {
    if x > i64::MAX {
        i64::MAX as int
    } else if x < i64::MIN {
        i64::MIN as int
    } else {
        x
    }
}

impl Timestamp {
    /// Wraps a raw millisecond count; no validation is performed.
    pub fn new(ms: i64) -> (r: Self)
        ensures
            r@ == ms,
    {
        Timestamp { ms }
    }

    /// The raw millisecond count.
    pub fn value(&self) -> (r: i64)
        ensures
            r == self@,
    {
        self.ms
    }

    /// The raw millisecond count, under its conventional name.
    pub fn unix_millis(&self) -> (r: i64)
        ensures
            r == self@,
    {
        self.ms
    }

    /// The sentinel empty timestamp.
    pub fn zero() -> (r: Self)
        ensures
            r@ == 0,
    {
        Timestamp { ms: 0 }
    }

    /// True exactly when the value is the sentinel 0.
    pub fn is_empty(&self) -> (r: bool)
        ensures
            r == (self@ == 0),
    {
        self.ms == 0
    }

    /// The current local time, read from the process clock.
    pub fn now() -> (r: Self)
        ensures
            representable_millis(r@),
    {
        Timestamp { ms: now_millis() }
    }

    /// Shifts the value by a signed duration given as hours, minutes,
    /// seconds and milliseconds.  The shift is pure integer arithmetic on
    /// the millisecond count: calendar boundaries play no role.
    pub fn offset(&self, hour: i32, minute: i32, second: i32, millisecond: i32) -> (r: Self)
        requires
            i64::MIN <= self@ + time_of_day_millis(
                hour as int,
                minute as int,
                second as int,
                millisecond as int,
            ) <= i64::MAX,
        ensures
            r@ == self@ + time_of_day_millis(
                hour as int,
                minute as int,
                second as int,
                millisecond as int,
            ),
    {
        let shift: i64 = (hour as i64) * MILLISECONDS_PER_HOUR + (minute as i64)
            * MILLISECONDS_PER_MINUTE + (second as i64) * MILLISECONDS_PER_SECOND + (
        millisecond as i64);
        Timestamp { ms: self.ms + shift }
    }

    /// Reads the local calendar fields of this instant, together with the
    /// offset from UTC in force at it.  Values outside the representable
    /// span decompose as the epoch, per `source_instant`.
    fn local_fields(&self) -> (r: (i64, CivilDateTime, i32))
        ensures
            r.0 == source_instant(self@),
            local_rel(r.0 as int, r.1, r.2 as int),
    {
        let src: i64 = if representable(self.ms) {
            self.ms
        } else {
            0
        };
        match local_decompose(src) {
            Some(p) => (src, p.0, p.1),
            None => vstd::pervasive::unreached(),
        }
    }

    /// Local (year, month, day) of this instant.
    pub fn extract(&self) -> (r: (i32, u32, u32))
        ensures
            exists|c: CivilDateTime, off: int|
                local_rel(source_instant(self@), c, off) && r.0 == c.year && r.1 == c.month
                    && r.2 == c.day,
    {
        let (src, c, off) = self.local_fields();
        (c.year, c.month, c.day)
    }

    /// The local date as the integer `year * 10000 + month * 100 + day`;
    /// dates before year 0 yield 0, since the encoding is unsigned.
    pub fn yyyymmdd(&self) -> (r: u32)
        ensures
            exists|c: CivilDateTime, off: int|
                local_rel(source_instant(self@), c, off) && r == yyyymmdd_of(c),
    {
        let (src, c, off) = self.local_fields();
        if c.year >= 0 {
            (c.year as u32) * 10000 + c.month * 100 + c.day
        } else {
            0
        }
    }

    /// Rounds down to the start of the containing local minute: seconds and
    /// the sub-second part become zero.  The truncation is exact field
    /// arithmetic at the offset in force at the instant itself.
    pub fn floor(&self) -> (r: Self)
        ensures
            exists|c: CivilDateTime, off: int|
                {
                    &&& local_rel(source_instant(self@), c, off)
                    &&& r@ == source_instant(self@) - c.second * 1000 - c.millisecond
                    &&& local_rel(r@, minute_floor(c), off)
                },
    {
        let (src, c, off) = self.local_fields();
        let r = Timestamp { ms: src - (c.second as i64) * 1000 - (c.millisecond as i64) };
        proof {
            assert(local_rel(r@, minute_floor(c), off as int));
        }
        r
    }

    /// Moves to the last millisecond of the containing local minute:
    /// seconds become 59 and the sub-second part 999 ms.  This is the end
    /// of the same minute, not the start of the next one.
    pub fn ceil(&self) -> (r: Self)
        ensures
            exists|c: CivilDateTime, off: int|
                {
                    &&& local_rel(source_instant(self@), c, off)
                    &&& r@ == source_instant(self@) - c.second * 1000 - c.millisecond + 59999
                    &&& local_rel(r@, minute_ceil(c), off)
                },
    {
        let (src, c, off) = self.local_fields();
        let r = Timestamp {
            ms: src - (c.second as i64) * 1000 - (c.millisecond as i64) + 59999,
        };
        proof {
            assert(local_rel(r@, minute_ceil(c), off as int));
        }
        r
    }

    /// Local midnight of the instant's calendar day.  Midnight is resolved
    /// against the timezone rules; when the local rules make midnight
    /// skipped or ambiguous, or the day lies at the very edge of the
    /// representable span, the day start is instead computed at the offset
    /// in force at the instant itself.
    pub fn start_of_day(&self) -> (r: Self)
        ensures
            exists|c: CivilDateTime, off: int, off2: int|
                #![trigger local_rel(source_instant(self@), c, off), resolved_at(r@, day_start(c), off2)]
                {
                    &&& local_rel(source_instant(self@), c, off)
                    &&& resolved_at(r@, day_start(c), off2)
                },
    {
        let (src, c, off) = self.local_fields();
        let midnight = CivilDateTime {
            hour: 0,
            minute: 0,
            second: 0,
            millisecond: 0,
            ..c
        };
        if midnight.check_valid() {
            match local_resolve(&midnight) {
                Some((t, off2)) => {
                    let r = Timestamp { ms: t };
                    proof {
                        assert(midnight == day_start(c));
                        assert(local_rel(source_instant(self@), c, off as int));
                        assert(resolved_at(r@, day_start(c), off2 as int));
                    }
                    return r;
                },
                None => {},
            }
        }
        let tod: i64 = (c.hour as i64) * 3600000 + (c.minute as i64) * 60000 + (
        c.second as i64) * 1000 + (c.millisecond as i64);
        let r = Timestamp { ms: src - tod };
        proof {
            assert(local_rel(source_instant(self@), c, off as int));
            assert(resolved_at(r@, day_start(c), off as int));
        }
        r
    }

    /// Local midnight of the current day.
    pub fn midnight() -> (r: Self)
        ensures
            exists|c: CivilDateTime, off2: int|
                #![trigger resolved_at(r@, c, off2)]
                {
                    &&& c.repr_valid()
                    &&& c.hour == 0 && c.minute == 0 && c.second == 0 && c.millisecond == 0
                    &&& resolved_at(r@, c, off2)
                },
    {
        let n = Timestamp::now();
        let r = n.start_of_day();
        proof {
            let (c, off, off2) = choose|c: CivilDateTime, off: int, off2: int|
                {
                    &&& local_rel(source_instant(n@), c, off)
                    &&& resolved_at(r@, day_start(c), off2)
                };
            assert(day_start(c).repr_valid());
            assert(resolved_at(r@, day_start(c), off2));
        }
        r
    }

    /// Builds a timestamp from local calendar fields.  Returns `None` when
    /// the fields do not form a real calendar date and time, and when the
    /// named local time does not exist or is ambiguous under the local DST
    /// rules.
    pub fn from_date(
        year: i32,
        month: u32,
        day: u32,
        hour: u32,
        minute: u32,
        second: u32,
        millisecond: u32,
    ) -> (r: Option<Self>)
        ensures
            ({
                let c = CivilDateTime { year, month, day, hour, minute, second, millisecond };
                &&& !c.valid() ==> r is None
                &&& r is Some ==> resolved_from_fields(c, (r->0)@)
            }),
    {
        let c = CivilDateTime { year, month, day, hour, minute, second, millisecond };
        if !c.check_valid() {
            return None;
        }
        match local_resolve(&c) {
            Some((t, off)) => {
                let ts = Timestamp { ms: t };
                proof {
                    assert(resolved_at(ts@, c, off as int));
                    assert(resolved_from_fields(c, ts@));
                }
                return Some(ts);
            },
            None => None,
        }
    }

    /// The fixed pre-market anchor of a calendar day: 09:00:00.000 local
    /// time, via `from_date`.
    pub fn pre_market_time(year: i32, month: u32, day: u32) -> (r: Option<Self>)
        ensures
            ({
                let c = CivilDateTime {
                    year,
                    month,
                    day,
                    hour: PRE_MARKET_HOUR,
                    minute: PRE_MARKET_MINUTE,
                    second: PRE_MARKET_SECOND,
                    millisecond: 0,
                };
                &&& !c.valid() ==> r is None
                &&& r is Some ==> resolved_from_fields(c, (r->0)@)
            }),
    {
        Timestamp::from_date(
            year,
            month,
            day,
            PRE_MARKET_HOUR,
            PRE_MARKET_MINUTE,
            PRE_MARKET_SECOND,
            0,
        )
    }

    /// The instant's calendar day combined with the given local time of
    /// day.  Returns `None` when the time fields are out of range, when the
    /// combination is not a resolvable local time, and when the day lies at
    /// the very edge of the representable span.
    pub fn today(&self, hour: u32, minute: u32, second: u32, millisecond: u32) -> (r: Option<
        Self,
    >)
        ensures
            !valid_time(hour as int, minute as int, second as int, millisecond as int) ==> r
                is None,
            r is Some ==> same_day_at(
                source_instant(self@),
                hour,
                minute,
                second,
                millisecond,
                (r->0)@,
            ),
    {
        let (src, c, off) = self.local_fields();
        let cand = CivilDateTime {
            year: c.year,
            month: c.month,
            day: c.day,
            hour,
            minute,
            second,
            millisecond,
        };
        if !cand.check_valid() {
            return None;
        }
        match local_resolve(&cand) {
            Some((t, off2)) => {
                let ts = Timestamp { ms: t };
                proof {
                    assert(cand == with_time(c, hour, minute, second, millisecond));
                    assert(local_rel(source_instant(self@), c, off as int));
                    assert(resolved_at(
                        ts@,
                        with_time(c, hour, minute, second, millisecond),
                        off2 as int,
                    ));
                    assert(same_day_at(
                        source_instant(self@),
                        hour,
                        minute,
                        second,
                        millisecond,
                        ts@,
                    ));
                }
                return Some(ts);
            },
            None => None,
        }
    }

    /// A time of day measured from local midnight of the instant's day:
    /// `start_of_day()` shifted by the given components.  The shift is pure
    /// integer arithmetic; a result beyond the range of `i64` saturates.
    pub fn since(&self, hour: u32, minute: u32, second: u32, millisecond: u32) -> (r: Self)
        ensures
            exists|c: CivilDateTime, off: int, off2: int, m: int|
                #![trigger local_rel(source_instant(self@), c, off), resolved_at(m, day_start(c), off2)]
                {
                    &&& local_rel(source_instant(self@), c, off)
                    &&& resolved_at(m, day_start(c), off2)
                    &&& r@ == clamp_i64(
                        m + time_of_day_millis(
                            hour as int,
                            minute as int,
                            second as int,
                            millisecond as int,
                        ),
                    )
                },
    {
        let sod = self.start_of_day();
        let shift: u64 = (hour as u64) * 3600000 + (minute as u64) * 60000 + (second as u64)
            * 1000 + (millisecond as u64);
        let wide: i128 = (sod.ms as i128) + (shift as i128);
        let clamped: i64 = if wide > (i64::MAX as i128) {
            i64::MAX
        } else if wide < (i64::MIN as i128) {
            i64::MIN
        } else {
            wide as i64
        };
        let r = Timestamp { ms: clamped };
        proof {
            let (c, off, off2) = choose|c: CivilDateTime, off: int, off2: int|
                {
                    &&& local_rel(source_instant(self@), c, off)
                    &&& resolved_at(sod@, day_start(c), off2)
                };
            assert(resolved_at(sod@, day_start(c), off2));
            assert(r@ == clamp_i64(
                sod@ + time_of_day_millis(
                    hour as int,
                    minute as int,
                    second as int,
                    millisecond as int,
                ),
            ));
        }
        r
    }

    /// The pre-market anchor of the instant's own day: `today` at the fixed
    /// 09:00:00.000 local anchor.
    pub fn pre_market_time_from_current(&self) -> (r: Option<Self>)
        ensures
            r is Some ==> same_day_at(
                source_instant(self@),
                PRE_MARKET_HOUR,
                PRE_MARKET_MINUTE,
                PRE_MARKET_SECOND,
                0,
                (r->0)@,
            ),
    {
        self.today(PRE_MARKET_HOUR, PRE_MARKET_MINUTE, PRE_MARKET_SECOND, 0)
    }

    /// Formats the instant's local fields through a layout string; see
    /// [`crate::layout`] for the token set.
    pub fn to_string_with_layout(&self, layout: &str) -> (r: String)
        ensures
            exists|c: CivilDateTime, off: int|
                local_rel(source_instant(self@), c, off) && r@ == fmt_layout(c, layout@),
    {
        let (src, c, off) = self.local_fields();
        format_civil(&c, layout)
    }

    /// Formats like `to_string_with_layout`, after truncating the
    /// sub-second part to zero.
    pub fn to_string_as_time_in_seconds(&self, layout: &str) -> (r: String)
        ensures
            exists|c: CivilDateTime, off: int|
                local_rel(source_instant(self@), c, off) && r@ == fmt_layout(
                    seconds_truncate(c),
                    layout@,
                ),
    {
        let (src, c, off) = self.local_fields();
        let t = CivilDateTime { millisecond: 0, ..c };
        let r = format_civil(&t, layout);
        proof {
            assert(t == seconds_truncate(c));
        }
        r
    }

    /// The local date under the layout `%Y-%m-%d`.
    pub fn only_date(&self) -> (r: String)
        ensures
            exists|c: CivilDateTime, off: int|
                local_rel(source_instant(self@), c, off) && r@ == date_str(c),
    {
        let (src, c, off) = self.local_fields();
        crate::layout::date_string(&c)
    }

    /// The local time of day under the layout `%H:%M:%S`.
    pub fn only_time(&self) -> (r: String)
        ensures
            exists|c: CivilDateTime, off: int|
                local_rel(source_instant(self@), c, off) && r@ == time_str(c),
    {
        let (src, c, off) = self.local_fields();
        crate::layout::time_string(&c)
    }

    /// The local date under the compact layout `%Y%m%d`, fit for cache
    /// keys and file names.
    pub fn cache_date(&self) -> (r: String)
        ensures
            exists|c: CivilDateTime, off: int|
                local_rel(source_instant(self@), c, off) && r@ == compact_date_str(c),
    {
        let (src, c, off) = self.local_fields();
        crate::layout::compact_date_string(&c)
    }

    /// The canonical human-readable form, layout `%Y-%m-%d %H:%M:%S%.3f`.
    pub fn to_string(&self) -> (r: String)
        ensures
            exists|c: CivilDateTime, off: int|
                local_rel(source_instant(self@), c, off) && r@ == default_str(c),
    {
        let (src, c, off) = self.local_fields();
        crate::layout::default_string(&c)
    }

    /// True exactly when the two instants fall on the same local calendar
    /// day.
    pub fn is_same_date(&self, other: &Self) -> (r: bool)
        ensures
            exists|c1: CivilDateTime, off1: int, c2: CivilDateTime, off2: int|
                {
                    &&& local_rel(source_instant(self@), c1, off1)
                    &&& local_rel(source_instant(other@), c2, off2)
                    &&& r == (c1.year == c2.year && c1.month == c2.month && c1.day == c2.day)
                },
    {
        let (src1, c1, off1) = self.local_fields();
        let (src2, c2, off2) = other.local_fields();
        c1.year == c2.year && c1.month == c2.month && c1.day == c2.day
    }
}

/// The date encoding used by `Timestamp::yyyymmdd`.
pub open spec fn yyyymmdd_of(c: CivilDateTime) -> int {
    if c.year >= 0 {
        c.year * 10000 + c.month * 100 + c.day
    } else {
        0
    }
}

/// Executable check for `representable_millis`.
fn representable(ms: i64) -> (r: bool)
    ensures
        r == representable_millis(ms as int),
{
    -8334601228800000 <= ms && ms <= 8210266876799999
}

/// Law: `offset` composes additively.  Shifting an instant by one
/// duration and then by another lands on the same instant as shifting
/// once by the component-wise sums, because the shift of `offset` is pure
/// integer arithmetic on the millisecond count.
pub proof fn lemma_offset_composes(
    t: int,
    h1: int,
    mi1: int,
    s1: int,
    ms1: int,
    h2: int,
    mi2: int,
    s2: int,
    ms2: int,
)
    ensures
        t + time_of_day_millis(h1, mi1, s1, ms1) + time_of_day_millis(h2, mi2, s2, ms2) == t
            + time_of_day_millis(h1 + h2, mi1 + mi2, s1 + s2, ms1 + ms2),
{
}

/// Law: at a fixed offset, an instant has exactly one local calendar
/// decomposition.  In particular, when valid fields are resolved to an
/// instant and that instant's fields are read back while the same offset
/// is in force, the original fields — year, month and day included —
/// come back unchanged.
pub proof fn lemma_local_fields_unique(t: int, off: int, c1: CivilDateTime, c2: CivilDateTime)
    requires
        local_rel(t, c1, off),
        local_rel(t, c2, off),
    ensures
        c1 == c2,
{
    crate::calendar::lemma_civil_millis_injective(c1, c2);
}

/// Law: comparison of timestamps is the strict total order of the
/// underlying millisecond values, and equality is exact millisecond
/// equality.  Exactly one of `<`, `==`, `>` holds of any pair, and the
/// order is transitive.
pub proof fn lemma_comparison_total_order(a: Timestamp, b: Timestamp, c: Timestamp)
    ensures
        a.partial_cmp_spec(&b) is Some,
        a.partial_cmp_spec(&b) == Some(core::cmp::Ordering::Less) <==> a@ < b@,
        a.partial_cmp_spec(&b) == Some(core::cmp::Ordering::Equal) <==> a@ == b@,
        a.partial_cmp_spec(&b) == Some(core::cmp::Ordering::Greater) <==> a@ > b@,
        (a == b) <==> a@ == b@,
        a.partial_cmp_spec(&b) == Some(core::cmp::Ordering::Less) && b.partial_cmp_spec(&c)
            == Some(core::cmp::Ordering::Less) ==> a.partial_cmp_spec(&c) == Some(
            core::cmp::Ordering::Less,
        ),
{
}

impl From<i64> for Timestamp {
    fn from(ms: i64) -> (r: Timestamp) {
        Timestamp { ms }
    }
}

impl vstd::std_specs::convert::FromSpecImpl<i64> for Timestamp {
    open spec fn obeys_from_spec() -> bool {
        true
    }

    closed spec fn from_spec(ms: i64) -> Timestamp {
        Timestamp { ms }
    }
}

impl From<Timestamp> for i64 {
    fn from(t: Timestamp) -> (r: i64) {
        t.ms
    }
}

impl vstd::std_specs::convert::FromSpecImpl<Timestamp> for i64 {
    open spec fn obeys_from_spec() -> bool {
        true
    }

    open spec fn from_spec(t: Timestamp) -> i64 {
        t@ as i64
    }
}

impl PartialOrd for Timestamp {
    fn partial_cmp(&self, other: &Self) -> (r: Option<core::cmp::Ordering>) {
        if self.ms < other.ms {
            Some(core::cmp::Ordering::Less)
        } else if self.ms == other.ms {
            Some(core::cmp::Ordering::Equal)
        } else {
            Some(core::cmp::Ordering::Greater)
        }
    }
}

impl vstd::std_specs::cmp::PartialOrdSpecImpl for Timestamp {
    open spec fn obeys_partial_cmp_spec() -> bool {
        true
    }

    open spec fn partial_cmp_spec(&self, other: &Self) -> Option<core::cmp::Ordering> {
        if self@ < other@ {
            Some(core::cmp::Ordering::Less)
        } else if self@ == other@ {
            Some(core::cmp::Ordering::Equal)
        } else {
            Some(core::cmp::Ordering::Greater)
        }
    }
}

} // verus!
