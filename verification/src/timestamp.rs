//! Points in time, as seconds and nanoseconds since the Unix epoch.

use crate::interval::NANOS_PER_SEC;
use vstd::prelude::*;

verus! {

/// The seconds of a timestamp keep within this distance of the epoch, which
/// is inside the range of dates that the calendar arithmetic represents.
pub const MAX_TIMESTAMP_SECS: i64 = 8_000_000_000_000;

/// A point in time: non-leap seconds since 1970-01-01T00:00:00 UTC, and the
/// nanoseconds beyond them.
#[derive(Clone, Copy, Debug, PartialEq, Eq, Structural)]
pub struct Timestamp {
    pub secs: i64,
    pub nanos: u32,
}

impl Timestamp {
    /// The seconds are in range and the nanoseconds below one second.
    pub open spec fn wf(&self) -> bool {
        &&& -MAX_TIMESTAMP_SECS <= self.secs <= MAX_TIMESTAMP_SECS
        &&& self.nanos < NANOS_PER_SEC
    }

    /// Nanoseconds since the epoch.
    pub open spec fn total_nanos(&self) -> int {
        self.secs * 1_000_000_000 + self.nanos
    }

    /// The timestamp of the given seconds and nanoseconds, where they are in
    /// range.
    pub fn new(secs: i64, nanos: u32) -> (r: Option<Timestamp>)
        ensures
            r == (if (Timestamp { secs, nanos }).wf() {
                Some(Timestamp { secs, nanos })
            } else {
                None
            }),
    {
        if -MAX_TIMESTAMP_SECS <= secs && secs <= MAX_TIMESTAMP_SECS && nanos < NANOS_PER_SEC {
            Some(Timestamp { secs, nanos })
        } else {
            None
        }
    }
}

} // verus!
