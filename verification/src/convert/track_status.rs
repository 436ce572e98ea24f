//! From the feed's track status to the library's.
use vstd::prelude::*;

use crate::model::status::TrackStatus;
use crate::parsing::decode::FeedError;
use crate::parsing::track_status::RawTrackStatus;
use crate::text::{self, parse_u8};

verus! {

impl TrackStatus {
    /// The track status; a status code that is not an `u8` gives
    /// `InvalidNumber`.
    pub fn try_from_raw(value: &RawTrackStatus) -> (r: Result<TrackStatus, FeedError>)
        ensures
            match text::parse_unsigned(value.Status@, u8::MAX as nat) {
                Some(n) => r matches Ok(t) && t.status as nat == n && t.message@
                    == value.Message@,
                None => r == Err::<TrackStatus, FeedError>(FeedError::InvalidNumber),
            },
    {
        match parse_u8(value.Status.as_str()) {
            Some(n) => Ok(TrackStatus { status: n, message: value.Message.clone() }),
            None => Err(FeedError::InvalidNumber),
        }
    }
}

/// The track status; a status code that is not an `u8` gives
/// `InvalidNumber`.
pub fn convert_track_status(raw: &RawTrackStatus) -> (r: Result<TrackStatus, FeedError>)
    ensures
        match text::parse_unsigned(raw.Status@, u8::MAX as nat) {
            Some(n) => r matches Ok(t) && t.status as nat == n && t.message@ == raw.Message@,
            None => r == Err::<TrackStatus, FeedError>(FeedError::InvalidNumber),
        },
{
    TrackStatus::try_from_raw(raw)
}

} // verus!
