//! From the feed's extrapolated clock to the library's session clock.
use vstd::prelude::*;

use crate::model::status::{Clock, Timestamp};
use crate::parsing::decode::FeedError;
use crate::parsing::extrapolated_clock::RawExtrapolatedClock;
use crate::text::{self, chars_of, parse_u64, split_chars, string_from_chars};
use crate::time::{self, parse_utc};

verus! {

/// The fields of `HH:MM:SS`, each an `u64`, where there are exactly three
/// and each reads.
pub open spec fn hms_fields(s: Seq<char>) -> Option<(nat, nat, nat)> {
    let p = text::split_spec(s, ':');
    if p.len() != 3 {
        None
    } else {
        match (
            text::parse_unsigned(p[0], u64::MAX as nat),
            text::parse_unsigned(p[1], u64::MAX as nat),
            text::parse_unsigned(p[2], u64::MAX as nat),
        ) {
            (Some(h), Some(m), Some(sec)) => Some((h, m, sec)),
            _ => None,
        }
    }
}

/// The seconds that `HH:MM:SS` writes: a count of parts other than three
/// gives `InvalidTime`, a part that is not an `u64` `InvalidNumber`, and
/// minutes or seconds of 60 or more `InvalidTime`.
pub open spec fn remaining_secs_of(s: Seq<char>) -> Result<nat, FeedError> {
    let p = text::split_spec(s, ':');
    if p.len() != 3 {
        Err(FeedError::InvalidTime)
    } else {
        match hms_fields(s) {
            None => Err(FeedError::InvalidNumber),
            Some((h, m, sec)) => if m >= 60 || sec >= 60 {
                Err(FeedError::InvalidTime)
            } else {
                Ok(h * 3600 + m * 60 + sec)
            },
        }
    }
}

/// Whether the seconds of `HH:MM:SS`, once it reads, fit an `u64`.
pub open spec fn remaining_fits(s: Seq<char>) -> bool {
    match remaining_secs_of(s) {
        Ok(n) => n <= u64::MAX,
        Err(_) => true,
    }
}

/// The clock that a remaining time, the instant it was stated at and
/// whether it runs describe.
pub open spec fn clock_from(remaining: Seq<char>, utc: Seq<char>, extrapolating: bool) -> Result<
    Clock,
    FeedError,
> {
    match remaining_secs_of(remaining) {
        Err(e) => Err(e),
        Ok(secs) => match time::utc_instant(utc) {
            None => Err(FeedError::InvalidDate),
            Some(p) => Ok(
                Clock {
                    time_remaining: secs as u64,
                    updated_at: time::instant(p),
                    extrapolating,
                },
            ),
        },
    }
}

/// The clock the feed's describes.
pub open spec fn clock_of(raw: RawExtrapolatedClock) -> Result<Clock, FeedError> {
    clock_from(raw.Remaining@, raw.Utc@, raw.Extrapolating)
}

fn read_hms(s: &str) -> (r: Result<(u64, u64, u64), FeedError>)
    ensures
        match r {
            Ok((h, m, sec)) => text::split_spec(s@, ':').len() == 3 && hms_fields(s@) == Some(
                (h as nat, m as nat, sec as nat),
            ),
            Err(e) => (text::split_spec(s@, ':').len() != 3 && e == FeedError::InvalidTime) || (
            text::split_spec(s@, ':').len() == 3 && hms_fields(s@) is None && e
                == FeedError::InvalidNumber),
        },
{
    let cs = chars_of(s);
    let parts = split_chars(&cs, ':');
    if parts.len() != 3 {
        return Err(FeedError::InvalidTime);
    }
    let hs = string_from_chars(&parts[0]);
    let ms = string_from_chars(&parts[1]);
    let ss = string_from_chars(&parts[2]);
    match (parse_u64(hs.as_str()), parse_u64(ms.as_str()), parse_u64(ss.as_str())) {
        (Some(h), Some(m), Some(sec)) => Ok((h, m, sec)),
        _ => Err(FeedError::InvalidNumber),
    }
}

/// Whether the seconds that `s` writes, where it reads as `HH:MM:SS`, fit
/// in an `u64`.
pub fn remaining_is_in_range(s: &str) -> (r: bool)
    ensures
        r == remaining_fits(s@),
{
    match read_hms(s) {
        Ok((h, m, sec)) => {
            if m >= 60 || sec >= 60 {
                return true;
            }
            let total: u128 = h as u128 * 3600 + m as u128 * 60 + sec as u128;
            total <= u64::MAX as u128
        },
        Err(_) => true,
    }
}

impl Clock {
    /// The session clock. `Remaining` must be `HH:MM:SS` (see
    /// `remaining_secs_of` for its errors); a `Utc` that does not read as a
    /// date gives `InvalidDate`.
    pub fn try_from_raw(value: &RawExtrapolatedClock) -> (r: Result<Clock, FeedError>)
        requires
            remaining_fits(value.Remaining@),
        ensures
            r == clock_of(*value),
    {
        let (hours, minutes, seconds) = match read_hms(value.Remaining.as_str()) {
            Ok(t) => t,
            Err(e) => {
                return Err(e);
            },
        };
        if minutes >= 60 || seconds >= 60 {
            return Err(FeedError::InvalidTime);
        }
        let total_secs = hours * 3600 + minutes * 60 + seconds;
        let updated_at = match parse_utc(value.Utc.as_str()) {
            Some(t) => t,
            None => {
                return Err(FeedError::InvalidDate);
            },
        };
        Ok(Clock { time_remaining: total_secs, updated_at, extrapolating: value.Extrapolating })
    }
}

/// The session clock (see `Clock::try_from_raw`).
pub fn convert_clock(raw: &RawExtrapolatedClock) -> (r: Result<Clock, FeedError>)
    requires
        remaining_fits(raw.Remaining@),
    ensures
        r == clock_of(*raw),
{
    Clock::try_from_raw(raw)
}

} // verus!
