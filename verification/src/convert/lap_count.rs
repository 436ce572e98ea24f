//! From the feed's lap count to the library's.
use vstd::prelude::*;

use crate::model::status::Laps;
use crate::parsing::lap_count::RawLapCount;

verus! {

impl Laps {
    /// The lap count.
    pub fn from_raw(value: &RawLapCount) -> (l: Laps)
        ensures
            l.current == value.CurrentLap,
            l.total == value.TotalLaps,
    {
        Laps { current: value.CurrentLap, total: value.TotalLaps }
    }
}

/// The lap count: the current lap and the laps of the race.
pub fn convert_lap_count(raw: &RawLapCount) -> (l: Laps)
    ensures
        l.current == raw.CurrentLap,
        l.total == raw.TotalLaps,
{
    Laps::from_raw(raw)
}

} // verus!
