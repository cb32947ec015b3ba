//! Calendar dates in the user's local time zone.

use chrono::{Datelike, TimeZone};
use vstd::prelude::*;

verus! {

/// The earliest timestamp the engine handles: 0001-01-01T00:00:00Z.
pub const MIN_TIMESTAMP: i64 = -62135596800;

/// The latest timestamp the engine handles: 9999-12-31T23:59:59Z.
pub const MAX_TIMESTAMP: i64 = 253402300799;

/// A calendar day, as year, month (1 to 12) and day of the month (1 to 31).
#[derive(Debug, Clone, Copy, PartialEq, Eq, Structural)]
pub struct CalendarDate {
    pub year: i32,
    pub month: u32,
    pub day: u32,
}

/// A timestamp that the engine handles.
pub open spec fn timestamp_in_range(ts: i64) -> bool {
    MIN_TIMESTAMP <= ts <= MAX_TIMESTAMP
}

impl CalendarDate {
    /// Month and day lie in their ranges.
    pub open spec fn is_valid(self) -> bool {
        1 <= self.month <= 12 && 1 <= self.day <= 31
    }

    /// `self` is an earlier day than `other`.
    pub open spec fn precedes(self, other: CalendarDate) -> bool {
        self.year < other.year || (self.year == other.year && (self.month < other.month || (
        self.month == other.month && self.day < other.day)))
    }

    /// Whether `self` is an earlier day than `other`.
    pub fn is_before(&self, other: &CalendarDate) -> (r: bool)
        ensures
            r == self.precedes(*other),
    {
        self.year < other.year || (self.year == other.year && (self.month < other.month || (
        self.month == other.month && self.day < other.day)))
    }
}

/// Relies on chrono's `Local.timestamp_opt(ts, 0)`: it gives a single local date-time
/// for every timestamp within chrono's date range (years -262144 to 262143) and
/// none outside it; the date is then read with `Datelike`. The result also depends
/// on the machine's time zone, so nothing more is claimed of it. chrono panics here
/// only when the machine's time-zone data cannot be read at all.
#[verifier::external_body]
pub(crate) fn local_date_of(ts: i64) -> (r: Option<CalendarDate>)
    ensures
        timestamp_in_range(ts) ==> r is Some,
        r matches Some(d) ==> d.is_valid(),
{
    let dt = chrono::Local.timestamp_opt(ts, 0).single()?;
    Some(CalendarDate { year: dt.year(), month: dt.month(), day: dt.day() })
}

} // verus!
