//! The one window onto the outside world: the machine clock and its local
//! time zone, read through chrono. Everything computed from what these
//! wrappers return is verified; the wrappers themselves only promise the
//! field ranges that chrono documents.

use vstd::prelude::*;

verus! {

use chrono::{Datelike, Timelike, Offset};

/// A reading of the local clock: the local civil date and time together
/// with the offset of the local time zone from UTC at that instant.
#[derive(Debug, Clone, Copy)]
pub struct ClockNow {
    pub year: i64,
    pub month: i64,
    pub day: i64,
    pub hour: i64,
    pub minute: i64,
    pub second: i64,
    /// Minutes east of UTC; negative west of it.
    pub tz_offset_minutes: i64,
}

impl ClockNow {
    /// The ranges chrono documents for its date and time accessors, plus a
    /// year range inside this crate's calendar window.
    pub open spec fn wf(self) -> bool {
        &&& 1583 <= self.year <= 9999
        &&& 1 <= self.month <= 12
        &&& 1 <= self.day <= 31
        &&& 0 <= self.hour < 24
        &&& 0 <= self.minute < 60
        &&& 0 <= self.second < 60
        &&& -1440 < self.tz_offset_minutes < 1440
    }
}

/// Relies on chrono: `Local::now` for the current local date and time, the
/// `Datelike` and `Timelike` accessors for its fields (month 1-12, day 1-31,
/// hour below 24, minute and second below 60), and `Offset::fix` for the
/// local offset, which chrono bounds strictly below one day. The year is
/// whatever the clock says; callers must check it against the calendar
/// window themselves. On a machine whose clock reads before the Unix epoch
/// chrono aborts inside this call; no argument exists for a `requires` to
/// rule that out.
#[verifier::external_body]
pub fn now_local() -> (r: ClockNow)
    ensures
        1 <= r.month <= 12,
        1 <= r.day <= 31,
        0 <= r.hour < 24,
        0 <= r.minute < 60,
        0 <= r.second < 60,
        -1440 < r.tz_offset_minutes < 1440,
{
    let now = chrono::Local::now();
    ClockNow {
        year: now.year() as i64,
        month: now.month() as i64,
        day: now.day() as i64,
        hour: now.hour() as i64,
        minute: now.minute() as i64,
        second: now.second() as i64,
        tz_offset_minutes: (now.offset().fix().local_minus_utc() / 60) as i64,
    }
}

} // verus!
