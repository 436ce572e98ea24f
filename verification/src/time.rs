//! Dates and times, read with chrono.
use vstd::prelude::*;

use crate::model::status::Timestamp;

verus! {

/// The instant (seconds and nanoseconds since the Unix epoch) that chrono's
/// `NaiveDateTime::parse_from_str(s, "%Y-%m-%dT%H:%M:%S")` reads from `s`,
/// taken as UTC; `None` where it refuses `s`.
pub uninterp spec fn naive_utc_instant(s: Seq<char>) -> Option<(i64, u32)>;

/// The instant that chrono's `FromStr` for `DateTime<Utc>` (RFC 3339, with
/// some relaxations) reads from `s`; `None` where it refuses `s`.
pub uninterp spec fn utc_instant(s: Seq<char>) -> Option<(i64, u32)>;

/// The calendar year, in the written offset, of the date that chrono's
/// `DateTime::parse_from_rfc3339` reads from `s`; `None` where it refuses `s`.
pub uninterp spec fn rfc3339_year(s: Seq<char>) -> Option<i32>;

/// The calendar year, in UTC, of the instant that chrono's
/// `DateTime::from_timestamp(seconds, nanos)` builds; `None` where chrono
/// builds none (out of its range, or nanoseconds past a leap second).
pub uninterp spec fn utc_year(seconds: i64, nanos: u32) -> Option<i32>;

/// A timestamp from a pair of seconds and nanoseconds.
pub open spec fn instant(p: (i64, u32)) -> Timestamp {
    Timestamp { seconds: p.0, nanos: p.1 }
}

/// Reads `s` as `%Y-%m-%dT%H:%M:%S` in UTC with chrono's
/// `NaiveDateTime::parse_from_str`, then `and_utc`.
/// Trusted: the result is `naive_utc_instant(s)`; what chrono accepts is not
/// restated here.
#[verifier::external_body]
pub(crate) fn parse_naive_utc(s: &str) -> (r: Option<Timestamp>)
    ensures
        r == match naive_utc_instant(s@) {
            Some(p) => Some(instant(p)),
            None => None,
        },
{
    match chrono::NaiveDateTime::parse_from_str(s, "%Y-%m-%dT%H:%M:%S") {
        Ok(dt) => {
            let utc = dt.and_utc();
            Some(Timestamp { seconds: utc.timestamp(), nanos: utc.timestamp_subsec_nanos() })
        },
        Err(_) => None,
    }
}

/// Reads `s` with chrono's `FromStr` for `DateTime<Utc>`.
/// Trusted: the result is `utc_instant(s)`; what chrono accepts is not restated here.
#[verifier::external_body]
pub(crate) fn parse_utc(s: &str) -> (r: Option<Timestamp>)
    ensures
        r == match utc_instant(s@) {
            Some(p) => Some(instant(p)),
            None => None,
        },
{
    match s.parse::<chrono::DateTime<chrono::Utc>>() {
        Ok(dt) => Some(Timestamp { seconds: dt.timestamp(), nanos: dt.timestamp_subsec_nanos() }),
        Err(_) => None,
    }
}

/// The year of the date that chrono's `DateTime::parse_from_rfc3339` reads from `s`.
/// Trusted: the result is `rfc3339_year(s)`; what chrono accepts is not restated here.
#[verifier::external_body]
pub(crate) fn parse_rfc3339_year(s: &str) -> (r: Option<i32>)
    ensures
        r == rfc3339_year(s@),
{
    match chrono::DateTime::parse_from_rfc3339(s) {
        Ok(dt) => Some(chrono::Datelike::year(&dt)),
        Err(_) => None,
    }
}

/// The year, in UTC, of instant `t`, with chrono's `DateTime::from_timestamp`
/// and `Datelike::year`.
/// Trusted: the result is `utc_year(t.seconds, t.nanos)`; the calendar is
/// not restated here.
#[verifier::external_body]
pub(crate) fn year_of(t: Timestamp) -> (r: Option<i32>)
    ensures
        r == utc_year(t.seconds, t.nanos),
{
    match chrono::DateTime::from_timestamp(t.seconds, t.nanos) {
        Some(d) => Some(chrono::Datelike::year(&d)),
        None => None,
    }
}

/// The whole seconds since the Unix epoch that the system clock reads now,
/// by std's `SystemTime::now().duration_since(UNIX_EPOCH)`; `None` where
/// the clock reads before the epoch.
/// Trusted, with nothing claimed: the result depends on the clock.
#[verifier::external_body]
pub(crate) fn seconds_since_epoch() -> (r: Option<u64>) {
    match std::time::SystemTime::now().duration_since(std::time::UNIX_EPOCH) {
        Ok(d) => Some(d.as_secs()),
        Err(_) => None,
    }
}

/// chrono's `FixedOffset::east_opt(secs)`, as its offset in seconds.
/// Trusted: chrono accepts exactly the offsets strictly between -86400 and
/// 86400 seconds, and `local_minus_utc` gives back `secs`.
#[verifier::external_body]
pub(crate) fn east_offset(secs: i32) -> (r: Option<i32>)
    ensures
        -86400 < secs && secs < 86400 ==> r == Some(secs),
        !(-86400 < secs && secs < 86400) ==> r is None,
{
    match chrono::FixedOffset::east_opt(secs) {
        Some(o) => Some(o.local_minus_utc()),
        None => None,
    }
}

} // verus!
