//! The `DriverList` topic.
use vstd::prelude::*;

use crate::json::{self, Json, JsonView, Members};
use crate::parsing::decode::{self, read_req_text, read_req_uint, FeedError};
use crate::text::str_eq;

verus! {

/// A driver as the `DriverList` topic lists them.
#[allow(non_snake_case)]
#[derive(Clone, Debug, PartialEq, Eq)]
pub struct RawDriver {
    pub RacingNumber: String,
    pub FirstName: String,
    pub LastName: String,
    pub FullName: String,
    pub BroadcastName: String,
    pub HeadshotUrl: String,
    pub Line: u8,
    pub PublicIdRight: String,
    pub Tla: String,
    pub TeamName: String,
    pub Reference: String,
    pub TeamColour: String,
}

/// Whether `v` holds every member of a driver with its type.
pub open spec fn raw_driver_ok(v: JsonView) -> bool {
    &&& decode::req_text(v, "RacingNumber"@) is Some
    &&& decode::req_text(v, "FirstName"@) is Some
    &&& decode::req_text(v, "LastName"@) is Some
    &&& decode::req_text(v, "FullName"@) is Some
    &&& decode::req_text(v, "BroadcastName"@) is Some
    &&& decode::req_text(v, "HeadshotUrl"@) is Some
    &&& decode::req_uint(v, "Line"@, u8::MAX as nat) is Some
    &&& decode::req_text(v, "PublicIdRight"@) is Some
    &&& decode::req_text(v, "Tla"@) is Some
    &&& decode::req_text(v, "TeamName"@) is Some
    &&& decode::req_text(v, "Reference"@) is Some
    &&& decode::req_text(v, "TeamColour"@) is Some
}

/// Whether `r` holds the members of `v`.
pub open spec fn raw_driver_of(v: JsonView, r: RawDriver) -> bool {
    &&& decode::req_text(v, "RacingNumber"@) == Some(r.RacingNumber@)
    &&& decode::req_text(v, "FirstName"@) == Some(r.FirstName@)
    &&& decode::req_text(v, "LastName"@) == Some(r.LastName@)
    &&& decode::req_text(v, "FullName"@) == Some(r.FullName@)
    &&& decode::req_text(v, "BroadcastName"@) == Some(r.BroadcastName@)
    &&& decode::req_text(v, "HeadshotUrl"@) == Some(r.HeadshotUrl@)
    &&& decode::req_uint(v, "Line"@, u8::MAX as nat) == Some(r.Line as nat)
    &&& decode::req_text(v, "PublicIdRight"@) == Some(r.PublicIdRight@)
    &&& decode::req_text(v, "Tla"@) == Some(r.Tla@)
    &&& decode::req_text(v, "TeamName"@) == Some(r.TeamName@)
    &&& decode::req_text(v, "Reference"@) == Some(r.Reference@)
    &&& decode::req_text(v, "TeamColour"@) == Some(r.TeamColour@)
}

/// Reads a driver record; `None` where a member is missing or of the wrong type.
pub fn decode_raw_driver(v: &Json) -> (r: Option<RawDriver>)
    ensures
        match r {
            Some(d) => raw_driver_of(v@, d),
            None => !raw_driver_ok(v@),
        },
{
    let racing_number = read_req_text(v, "RacingNumber")?;
    let first_name = read_req_text(v, "FirstName")?;
    let last_name = read_req_text(v, "LastName")?;
    let full_name = read_req_text(v, "FullName")?;
    let broadcast_name = read_req_text(v, "BroadcastName")?;
    let headshot_url = read_req_text(v, "HeadshotUrl")?;
    let line = read_req_uint(v, "Line", u8::MAX as u64)?;
    let public_id_right = read_req_text(v, "PublicIdRight")?;
    let tla = read_req_text(v, "Tla")?;
    let team_name = read_req_text(v, "TeamName")?;
    let reference = read_req_text(v, "Reference")?;
    let team_colour = read_req_text(v, "TeamColour")?;
    Some(
        RawDriver {
            RacingNumber: racing_number,
            FirstName: first_name,
            LastName: last_name,
            FullName: full_name,
            BroadcastName: broadcast_name,
            HeadshotUrl: headshot_url,
            Line: line as u8,
            PublicIdRight: public_id_right,
            Tla: tla,
            TeamName: team_name,
            Reference: reference,
            TeamColour: team_colour,
        },
    )
}

/// The members of the driver list that are cars: not the `_kf` marker, and
/// with every member of a driver (medical and safety cars lack some).
pub open spec fn listed_drivers(m: Members) -> Members {
    decode::keep(m, |e: (Seq<char>, JsonView)| e.0 != "_kf"@ && raw_driver_ok(e.1))
}

/// Reads the `DriverList` topic: the drivers by racing-number key, in key
/// order; members that are not complete drivers are skipped. A value that
/// is not an object is refused.
pub fn parse_driver_list(val: &Json) -> (r: Result<Vec<(String, RawDriver)>, FeedError>)
    ensures
        match val@ {
            JsonView::Object(m) => r is Ok && ({
                let d = r->Ok_0;
                let want = listed_drivers(m);
                &&& d@.len() == want.len()
                &&& forall|i: int|
                    0 <= i < d@.len() ==> (#[trigger] d@[i]).0@ == want[i].0 && raw_driver_of(
                        want[i].1,
                        d@[i].1,
                    )
            }),
            _ => r == Err::<Vec<(String, RawDriver)>, FeedError>(FeedError::NotAnObject),
        },
{
    match val {
        Json::Object(members) => {
            proof {
                json::lemma_object_view(*members);
            }
            let ghost m = json::members_view(members@);
            let ghost pred = |e: (Seq<char>, JsonView)| e.0 != "_kf"@ && raw_driver_ok(e.1);
            let mut out: Vec<(String, RawDriver)> = Vec::new();
            let mut i: usize = 0;
            while i < members.len()
                invariant
                    m == json::members_view(members@),
                    pred == (|e: (Seq<char>, JsonView)| e.0 != "_kf"@ && raw_driver_ok(e.1)),
                    i <= members.len(),
                    out@.len() == decode::keep(m.take(i as int), pred).len(),
                    forall|j: int|
                        0 <= j < out@.len() ==> (#[trigger] out@[j]).0@ == decode::keep(
                            m.take(i as int),
                            pred,
                        )[j].0 && raw_driver_of(decode::keep(m.take(i as int), pred)[j].1, out@[j].1),
                decreases members.len() - i,
            {
                assert(m.take(i + 1).drop_last() =~= m.take(i as int));
                assert(m.take(i + 1).last() == m[i as int]);
                let is_marker = str_eq(members[i].0.as_str(), "_kf");
                if !is_marker {
                    match decode_raw_driver(&members[i].1) {
                        Some(d) => {
                            out.push((members[i].0.clone(), d));
                        },
                        None => {},
                    }
                }
                i = i + 1;
            }
            assert(m.take(members.len() as int) =~= m);
            Ok(out)
        },
        _ => Err(FeedError::NotAnObject),
    }
}

} // verus!
