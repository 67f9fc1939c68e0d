//! Points in time, as the library keeps them: the time since the Unix epoch,
//! in whole seconds and the nanoseconds above them.

use std::time::{SystemTime, UNIX_EPOCH};
use vstd::prelude::*;

verus! {

/// The number of nanoseconds in a second.
pub const NANOS_PER_SEC: u32 = 1_000_000_000;

/// A point in time: `secs` seconds and `nanos` nanoseconds after the Unix
/// epoch.
#[derive(Clone, Copy, Debug, PartialEq, Eq, Structural)]
pub struct TimePoint {
    pub secs: u64,
    pub nanos: u32,
}

impl TimePoint {
    /// Whether the nanoseconds stay below a full second, so that a point in
    /// time is written in one way only and `precedes` is the order of time.
    pub open spec fn is_normal(self) -> bool {
        self.nanos < NANOS_PER_SEC
    }

    /// Whether `self` lies before `other`: earlier seconds, or the same
    /// second and fewer nanoseconds.
    pub open spec fn precedes(self, other: TimePoint) -> bool {
        self.secs < other.secs || (self.secs == other.secs && self.nanos < other.nanos)
    }

    /// Whether `self` lies before `other`.
    pub fn is_before(&self, other: &TimePoint) -> (before: bool)
        ensures
            before == self.precedes(*other),
    {
        self.secs < other.secs || (self.secs == other.secs && self.nanos < other.nanos)
    }

    /// The current time of the system clock, with its nanoseconds below a
    /// full second.
    pub(crate) fn now() -> (now: TimePoint)
        ensures
            now.is_normal(),
    {
        system_clock()
    }
}

/// `SystemTime::now`, taken as the time passed since `UNIX_EPOCH`; a clock
/// that stands before the epoch reads as the epoch. The result depends on
/// the clock, so the contract claims of it only what holds of every reading:
/// `Duration::subsec_nanos` gives the part of a second, which is less than
/// one billion.
#[verifier::external_body]
fn system_clock() -> (now: TimePoint)
    ensures
        now.is_normal(),
{
    let since_epoch = SystemTime::now().duration_since(UNIX_EPOCH).unwrap_or_default();
    TimePoint { secs: since_epoch.as_secs(), nanos: since_epoch.subsec_nanos() }
}

} // verus!
