//! Trusted bridge to `chrono` for the ambient local timezone and clock.
//!
//! Everything in this module is a thin wrapper around a `chrono` call whose
//! result depends on the environment: the process clock, or the local
//! timezone database.  Each contract states only what `chrono`'s source
//! guarantees of every outcome — in particular, no two calls are assumed to
//! agree on the local offset, since the timezone in force is ambient state
//! that this crate does not own.

use chrono::{Datelike, TimeZone, Timelike};
use vstd::prelude::*;

use crate::calendar::CivilDateTime;

verus! {

use crate::calendar::valid_repr_date;

/// Millisecond counts that `chrono` can decompose into a calendar date:
/// those whose day falls within `chrono::NaiveDate`'s year range
/// -262143..=262142.  The bounds are the first millisecond of -262143-01-01
/// and the last millisecond of 262142-12-31.
pub open spec fn representable_millis(ms: int) -> bool {
    -8334601228800000 <= ms <= 8210266876799999
}

/// The decomposition relation tying an instant to local calendar fields:
/// `c` is what a clock showing local time read at instant `ms`, in a fixed
/// offset of `off` seconds (strictly within one day) from UTC.
pub open spec fn local_rel(ms: int, c: CivilDateTime, off: int) -> bool {
    &&& c.repr_valid()
    &&& -86400 < off < 86400
    &&& c.spec_millis() == ms + off * 1000
}

/// Reads the local calendar fields of an instant.
///
/// Relies on `chrono`'s `Local.timestamp_millis_opt(..).single()` and the
/// `Datelike`/`Timelike` field readers of `DateTime<Local>`: the mapping
/// from an instant to local time is single-valued exactly when the
/// millisecond count is in `NaiveDate`'s range; the fields read are the
/// civil fields of the instant shifted by the attached fixed offset, which
/// is strictly within one day of UTC.
#[verifier::external_body]
pub(crate) fn local_decompose(ms: i64) -> (r: Option<(CivilDateTime, i32)>)
    ensures
        r is Some <==> representable_millis(ms as int),
        r matches Some(p) ==> local_rel(ms as int, p.0, p.1 as int),
{
    match chrono::Local.timestamp_millis_opt(ms).single() {
        Some(dt) => {
            let fields = CivilDateTime {
                year: dt.year(),
                month: dt.month(),
                day: dt.day(),
                hour: dt.hour(),
                minute: dt.minute(),
                second: dt.second(),
                millisecond: dt.timestamp_subsec_millis(),
            };
            Some((fields, dt.offset().local_minus_utc()))
        },
        None => None,
    }
}

/// Resolves valid local calendar fields to an instant, rejecting local
/// times that do not exist or are ambiguous under the local DST rules.
///
/// Relies on `chrono`'s `NaiveDate::from_ymd_opt`,
/// `NaiveDate::and_hms_milli_opt` and `Local.from_local_datetime(..).single()`:
/// a valid field tuple always forms the naive date/time with exactly these
/// fields; when resolution yields a single instant, that instant is the
/// civil millisecond count of the fields minus the resolved fixed offset,
/// which is strictly within one day of UTC.
#[verifier::external_body]
pub(crate) fn local_resolve(c: &CivilDateTime) -> (r: Option<(i64, i32)>)
    requires
        c.valid(),
    ensures
        r matches Some(p) ==> {
            &&& -86400 < p.1 < 86400
            &&& p.0 as int == c.spec_millis() - (p.1 as int) * 1000
        },
{
    let date = match chrono::NaiveDate::from_ymd_opt(c.year, c.month, c.day) {
        Some(d) => d,
        None => return None,
    };
    let naive = match date.and_hms_milli_opt(c.hour, c.minute, c.second, c.millisecond) {
        Some(n) => n,
        None => return None,
    };
    match chrono::Local.from_local_datetime(&naive).single() {
        Some(dt) => Some((dt.timestamp_millis(), dt.offset().local_minus_utc())),
        None => None,
    }
}

/// Reads the process clock.
///
/// Relies on `chrono`'s `Local::now()` and
/// `DateTime::timestamp_millis`: any instant `chrono` hands back lies in
/// `NaiveDate`'s range, so its millisecond count is representable.  Nothing
/// else can be promised of a clock reading.
#[verifier::external_body]
pub(crate) fn now_millis() -> (r: i64)
    ensures
        representable_millis(r as int),
{
    chrono::Local::now().timestamp_millis()
}

/// Reads today's local calendar date from the process clock.
///
/// Relies on `chrono`'s `Local::now()` and the `Datelike` readers: the
/// fields form a real calendar date, with the year possibly one outside
/// `NaiveDate`'s range when the clock sits at the very edge of the
/// representable span.
#[verifier::external_body]
pub(crate) fn today_date() -> (r: (i32, u32, u32))
    ensures
        valid_repr_date(r.0 as int, r.1 as int, r.2 as int),
{
    let now = chrono::Local::now();
    (now.year(), now.month(), now.day())
}

} // verus!
