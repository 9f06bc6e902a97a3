//! A millisecond-resolution local timestamp for trading-related tooling.
//!
//! The central type is [`Timestamp`]: an immutable 64-bit signed count of
//! milliseconds since the Unix epoch, interpreted in the process's local
//! timezone for display and calendar extraction.  Construction, parsing of a
//! fixed family of date/time layouts, arithmetic offsets, truncation to the
//! containing minute or day, comparison and formatting are all provided.
//!
//! The calendar arithmetic, the layout grammar and every decision made on
//! plain values are verified.  Only the ambient inputs — the process clock
//! and the local timezone database — are reached through a small set of
//! trusted wrappers around `chrono`, each stating no more than `chrono`'s
//! own source guarantees.

use vstd::prelude::*;

pub mod calendar;
pub mod layout;
pub mod parse;
pub mod timestamp;
pub mod zone;

pub use crate::calendar::CivilDateTime;
pub use crate::parse::ParseTimestampError;
pub use crate::timestamp::Timestamp;

verus! {

/// Sum of two unsigned counters, part of the toolkit's public surface.
pub fn add(left: u64, right: u64) -> (r: u64)
    requires
        left + right <= u64::MAX,
    ensures
        r == left + right,
{
    left + right
}

} // verus!
