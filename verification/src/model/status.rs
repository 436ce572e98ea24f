//! Track status, lap count, clock and points in time.
use vstd::prelude::*;

verus! {

/// A point in time: seconds since 1970-01-01T00:00:00Z and nanoseconds within the second.
#[derive(Clone, Copy, PartialEq, Eq, Debug, Default, PartialOrd, Ord)]
pub struct Timestamp {
    pub seconds: i64,
    pub nanos: u32,
}

/// The track status that race control publishes.
#[derive(Clone, PartialEq, Eq, Debug, Default)]
pub struct TrackStatus {
    pub status: u8,
    pub message: String,
}

/// The lap count of a race.
#[derive(Clone, Copy, PartialEq, Eq, Debug, Default)]
pub struct Laps {
    pub current: u8,
    pub total: u8,
}

/// The session clock.
#[derive(Clone, Copy, PartialEq, Eq, Debug, Default)]
pub struct Clock {
    /// Time remaining, in seconds.
    pub time_remaining: u64,
    pub updated_at: Timestamp,
    pub extrapolating: bool,
}

} // verus!
