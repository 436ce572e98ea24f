//! The `LapCount` topic.
use vstd::prelude::*;

use crate::json::{Json, JsonView};
use crate::parsing::decode::{self, read_req_uint, FeedError};

verus! {

/// The lap count as the feed sends it.
#[allow(non_snake_case)]
#[derive(Clone, Copy, Debug, PartialEq, Eq)]
pub struct RawLapCount {
    pub CurrentLap: u8,
    pub TotalLaps: u8,
}

/// Whether `v` holds both counts as `u8`.
pub open spec fn raw_lap_count_ok(v: JsonView) -> bool {
    &&& decode::req_uint(v, "CurrentLap"@, u8::MAX as nat) is Some
    &&& decode::req_uint(v, "TotalLaps"@, u8::MAX as nat) is Some
}

/// Reads the `LapCount` topic.
pub fn parse_raw_lap_count(val: &Json) -> (r: Result<RawLapCount, FeedError>)
    ensures
        !(val@ is Object) ==> r == Err::<RawLapCount, FeedError>(FeedError::NotAnObject),
        val@ is Object && !raw_lap_count_ok(val@) ==> r == Err::<RawLapCount, FeedError>(
            FeedError::InvalidRecord,
        ),
        val@ is Object && raw_lap_count_ok(val@) ==> r is Ok && decode::req_uint(
            val@,
            "CurrentLap"@,
            u8::MAX as nat,
        ) == Some(r->Ok_0.CurrentLap as nat) && decode::req_uint(val@, "TotalLaps"@, u8::MAX as nat)
            == Some(r->Ok_0.TotalLaps as nat),
{
    if !decode::is_object(val) {
        return Err(FeedError::NotAnObject);
    }
    let current = match read_req_uint(val, "CurrentLap", u8::MAX as u64) {
        Some(n) => n as u8,
        None => {
            return Err(FeedError::InvalidRecord);
        },
    };
    let total = match read_req_uint(val, "TotalLaps", u8::MAX as u64) {
        Some(n) => n as u8,
        None => {
            return Err(FeedError::InvalidRecord);
        },
    };
    Ok(RawLapCount { CurrentLap: current, TotalLaps: total })
}

} // verus!
