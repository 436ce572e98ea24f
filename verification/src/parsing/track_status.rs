//! The `TrackStatus` topic.
use vstd::prelude::*;

use crate::json::{Json, JsonView};
use crate::parsing::decode::{self, read_req_text, FeedError};

verus! {

/// The track status as the feed sends it.
#[allow(non_snake_case)]
#[derive(Clone, Debug, PartialEq, Eq, Default)]
pub struct RawTrackStatus {
    pub Status: String,
    pub Message: String,
}

/// Whether `v` holds both members as text.
pub open spec fn raw_track_status_ok(v: JsonView) -> bool {
    &&& decode::req_text(v, "Status"@) is Some
    &&& decode::req_text(v, "Message"@) is Some
}

/// Reads the `TrackStatus` topic.
pub fn parse_raw_track_status(val: &Json) -> (r: Result<RawTrackStatus, FeedError>)
    ensures
        !raw_track_status_ok(val@) ==> r == Err::<RawTrackStatus, FeedError>(
            FeedError::InvalidRecord,
        ),
        raw_track_status_ok(val@) ==> r is Ok && decode::req_text(val@, "Status"@) == Some(
            r->Ok_0.Status@,
        ) && decode::req_text(val@, "Message"@) == Some(r->Ok_0.Message@),
{
    let status = match read_req_text(val, "Status") {
        Some(s) => s,
        None => {
            return Err(FeedError::InvalidRecord);
        },
    };
    let message = match read_req_text(val, "Message") {
        Some(s) => s,
        None => {
            return Err(FeedError::InvalidRecord);
        },
    };
    Ok(RawTrackStatus { Status: status, Message: message })
}

} // verus!
