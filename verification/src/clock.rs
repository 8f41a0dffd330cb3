//! The process-local civil time that the schedule rule and new-note
//! timestamps are evaluated against.

use chrono::Datelike;
use vstd::prelude::*;

verus! {

/// One reading of the local clock: the instant as seconds since the Unix
/// epoch, and the civil date it falls on in the local time zone.
#[derive(Clone, Copy, Debug)]
pub struct LocalStamp {
    /// Non-leap seconds since 1970-01-01 00:00:00 UTC.
    pub secs: i64,
    /// Calendar year of the local civil date.
    pub year: i64,
    /// Calendar month, `1..=12`.
    pub month: u8,
    /// Day of month, `1..=31`.
    pub day: u8,
    /// Days since Monday within the week, `0..=6` (Saturday is 5).
    pub weekday: u8,
}

impl LocalStamp {
    /// The ranges every clock reading lies in: calendar fields are in their
    /// calendar ranges, and the instant and year are within the bounded
    /// date range the clock library supports (roughly 262,000 years around
    /// the common era).
    pub open spec fn wf(&self) -> bool {
        &&& 1 <= self.month <= 12
        &&& 1 <= self.day <= 31
        &&& self.weekday <= 6
        &&& -263000 <= self.year <= 263000
        &&& -9_000_000_000_000_000 <= self.secs <= 9_000_000_000_000_000
    }
}

/// Reads the local clock.
///
/// Relies on `chrono::Local::now` and the accessors on its result:
/// `DateTime::timestamp` (seconds since the epoch, bounded because chrono
/// limits dates to years `-262143..=262142`), `Datelike::year`, and
/// `Datelike::month` / `Datelike::day` / `Weekday::num_days_from_monday`,
/// which chrono documents as returning `1..=12`, `1..=31` and `0..=6`.
/// In a degenerate environment — a platform clock reading before the Unix
/// epoch, or an unusable time-zone database — chrono aborts the process
/// inside this call; no input of the library controls that.
#[verifier::external_body]
pub fn now_local() -> (t: LocalStamp)
    ensures
        t.wf(),
{
    let now = chrono::Local::now();
    LocalStamp {
        secs: now.timestamp(),
        year: now.year() as i64,
        month: now.month() as u8,
        day: now.day() as u8,
        weekday: now.weekday().num_days_from_monday() as u8,
    }
}

} // verus!
