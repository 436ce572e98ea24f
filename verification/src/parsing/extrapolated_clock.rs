//! The `ExtrapolatedClock` topic.
use vstd::prelude::*;

use crate::json::{Json, JsonView};
use crate::parsing::decode::{self, read_req_bool, read_req_text, FeedError};

verus! {

/// The session clock as the feed sends it.
#[allow(non_snake_case)]
#[derive(Clone, Debug, PartialEq, Eq)]
pub struct RawExtrapolatedClock {
    pub Extrapolating: bool,
    pub Remaining: String,
    pub Utc: String,
}

/// Whether `v` holds every member of the clock with its type.
pub open spec fn raw_clock_ok(v: JsonView) -> bool {
    &&& decode::req_bool(v, "Extrapolating"@) is Some
    &&& decode::req_text(v, "Remaining"@) is Some
    &&& decode::req_text(v, "Utc"@) is Some
}

/// Whether `r` holds the members of `v`.
pub open spec fn raw_clock_of(v: JsonView, r: RawExtrapolatedClock) -> bool {
    &&& decode::req_bool(v, "Extrapolating"@) == Some(r.Extrapolating)
    &&& decode::req_text(v, "Remaining"@) == Some(r.Remaining@)
    &&& decode::req_text(v, "Utc"@) == Some(r.Utc@)
}

/// Reads the `ExtrapolatedClock` topic.
pub fn parse_extrapolated_clock(val: &Json) -> (r: Result<RawExtrapolatedClock, FeedError>)
    ensures
        !(val@ is Object) ==> r == Err::<RawExtrapolatedClock, FeedError>(FeedError::NotAnObject),
        val@ is Object && !raw_clock_ok(val@) ==> r == Err::<RawExtrapolatedClock, FeedError>(
            FeedError::InvalidRecord,
        ),
        val@ is Object && raw_clock_ok(val@) ==> r is Ok && raw_clock_of(val@, r->Ok_0),
{
    if !decode::is_object(val) {
        return Err(FeedError::NotAnObject);
    }
    let extrapolating = match read_req_bool(val, "Extrapolating") {
        Some(b) => b,
        None => {
            return Err(FeedError::InvalidRecord);
        },
    };
    let remaining = match read_req_text(val, "Remaining") {
        Some(s) => s,
        None => {
            return Err(FeedError::InvalidRecord);
        },
    };
    let utc = match read_req_text(val, "Utc") {
        Some(s) => s,
        None => {
            return Err(FeedError::InvalidRecord);
        },
    };
    Ok(RawExtrapolatedClock { Extrapolating: extrapolating, Remaining: remaining, Utc: utc })
}

} // verus!
