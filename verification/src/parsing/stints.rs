//! The `TimingAppData` topic: each car's tyre stints.
use vstd::prelude::*;

use crate::json::{self, Json, JsonView, Members};
use crate::parsing::decode::{self, read_def_text, read_def_uint, read_field, FeedError};

verus! {

/// A stint as the feed sends it; every member has a default.
#[allow(non_snake_case)]
#[derive(Clone, Debug, PartialEq, Eq, Default)]
pub struct RawStint {
    pub Compound: String,
    pub LapFlags: u8,
    pub New: String,
    pub StartLaps: u8,
    pub TotalLaps: u8,
    pub TyresNotChanged: String,
}

/// The stints of one car.
#[allow(non_snake_case)]
#[derive(Clone, Debug, PartialEq, Eq, Default)]
pub struct RawDriverStints {
    pub Stints: Vec<RawStint>,
}

pub open spec fn stint_ok(v: JsonView) -> bool {
    &&& v is Object
    &&& decode::def_text(v, "Compound"@) is Some
    &&& decode::def_uint(v, "LapFlags"@, u8::MAX as nat) is Some
    &&& decode::def_text(v, "New"@) is Some
    &&& decode::def_uint(v, "StartLaps"@, u8::MAX as nat) is Some
    &&& decode::def_uint(v, "TotalLaps"@, u8::MAX as nat) is Some
    &&& decode::def_text(v, "TyresNotChanged"@) is Some
}

pub open spec fn stint_of(v: JsonView, r: RawStint) -> bool {
    &&& v is Object
    &&& decode::def_text(v, "Compound"@) == Some(r.Compound@)
    &&& decode::def_uint(v, "LapFlags"@, u8::MAX as nat) == Some(r.LapFlags as nat)
    &&& decode::def_text(v, "New"@) == Some(r.New@)
    &&& decode::def_uint(v, "StartLaps"@, u8::MAX as nat) == Some(r.StartLaps as nat)
    &&& decode::def_uint(v, "TotalLaps"@, u8::MAX as nat) == Some(r.TotalLaps as nat)
    &&& decode::def_text(v, "TyresNotChanged"@) == Some(r.TyresNotChanged@)
}

/// Whether `v` holds a car's stints: an object whose `Stints`, if there,
/// is a list of stints.
pub open spec fn driver_stints_ok(v: JsonView) -> bool {
    &&& v is Object
    &&& decode::items_or_empty(v, "Stints"@) matches Some(items) && decode::all_items(
        items,
        |x: JsonView| stint_ok(x),
    )
}

pub open spec fn driver_stints_of(v: JsonView, r: RawDriverStints) -> bool {
    &&& v is Object
    &&& decode::items_or_empty(v, "Stints"@) matches Some(items) && decode::items_match(
        items,
        r.Stints@,
        |x: JsonView, s: RawStint| stint_of(x, s),
    )
}

/// The cars of `Lines` whose stints read, in key order.
pub open spec fn stinted_cars(m: Members) -> Members {
    decode::keep(m, |e: (Seq<char>, JsonView)| driver_stints_ok(e.1))
}

fn decode_u8(v: &Json, name: &str) -> (r: Option<u8>)
    ensures
        match decode::def_uint(v@, name@, u8::MAX as nat) {
            Some(n) => r == Some(n as u8),
            None => r is None,
        },
{
    match read_def_uint(v, name, u8::MAX as u64) {
        Some(n) => Some(n as u8),
        None => None,
    }
}

fn decode_stint(v: &Json) -> (r: Option<RawStint>)
    ensures
        r is Some <==> stint_ok(v@),
        r matches Some(s) ==> stint_of(v@, s),
{
    if !decode::is_object(v) {
        return None;
    }
    let compound = read_def_text(v, "Compound")?;
    let lap_flags = decode_u8(v, "LapFlags")?;
    let new = read_def_text(v, "New")?;
    let start_laps = decode_u8(v, "StartLaps")?;
    let total_laps = decode_u8(v, "TotalLaps")?;
    let tyres_not_changed = read_def_text(v, "TyresNotChanged")?;
    Some(
        RawStint {
            Compound: compound,
            LapFlags: lap_flags,
            New: new,
            StartLaps: start_laps,
            TotalLaps: total_laps,
            TyresNotChanged: tyres_not_changed,
        },
    )
}

/// Reads one car's stints.
pub fn decode_driver_stints(v: &Json) -> (r: Option<RawDriverStints>)
    ensures
        r is Some <==> driver_stints_ok(v@),
        r matches Some(d) ==> driver_stints_of(v@, d),
{
    if !decode::is_object(v) {
        return None;
    }
    let items = decode::read_items_or_empty(v, "Stints")?;
    let ghost iv = json::items_view(items@);
    let mut out: Vec<RawStint> = Vec::new();
    let mut i: usize = 0;
    while i < items.len()
        invariant
            iv == json::items_view(items@),
            decode::items_or_empty(v@, "Stints"@) == Some(iv),
            v@ is Object,
            i <= items.len(),
            out@.len() == i,
            forall|j: int| 0 <= j < i ==> stint_of(iv[j], #[trigger] out@[j]),
        decreases items.len() - i,
    {
        match decode_stint(&items[i]) {
            Some(s) => out.push(s),
            None => {
                assert(!(|x: JsonView| stint_ok(x))(iv[i as int]));
                return None;
            },
        }
        i = i + 1;
    }
    assert forall|j: int| 0 <= j < iv.len() implies (|x: JsonView| stint_ok(x))(#[trigger] iv[j]) by {
        assert(stint_of(iv[j], out@[j]));
    }
    Some(RawDriverStints { Stints: out })
}

/// Reads the tyre stints of each car of `Lines`, by racing-number key in
/// key order; cars whose stints do not read are skipped. Missing `Lines`
/// gives `MissingMember`, `Lines` that is not an object `NotAnObject`.
pub fn parse_raw_stints(val: &Json) -> (r: Result<Vec<(String, RawDriverStints)>, FeedError>)
    ensures
        decode::field(val@, "Lines"@) is None ==> r == Err::<Vec<(String, RawDriverStints)>, FeedError>(
            FeedError::MissingMember,
        ),
        decode::field(val@, "Lines"@) matches Some(l) && !(l is Object) ==> r == Err::<
            Vec<(String, RawDriverStints)>,
            FeedError,
        >(FeedError::NotAnObject),
        decode::field(val@, "Lines"@) matches Some(JsonView::Object(m)) ==> r is Ok && ({
            let d = r->Ok_0;
            let want = stinted_cars(m);
            &&& d@.len() == want.len()
            &&& forall|i: int|
                0 <= i < d@.len() ==> (#[trigger] d@[i]).0@ == want[i].0 && driver_stints_of(
                    want[i].1,
                    d@[i].1,
                )
        }),
{
    let lines = match read_field(val, "Lines") {
        Some(l) => l,
        None => {
            return Err(FeedError::MissingMember);
        },
    };
    match lines {
        Json::Object(members) => {
            proof {
                json::lemma_object_view(*members);
            }
            let ghost m = json::members_view(members@);
            let ghost pred = |e: (Seq<char>, JsonView)| driver_stints_ok(e.1);
            let mut out: Vec<(String, RawDriverStints)> = Vec::new();
            let mut i: usize = 0;
            while i < members.len()
                invariant
                    m == json::members_view(members@),
                    pred == (|e: (Seq<char>, JsonView)| driver_stints_ok(e.1)),
                    i <= members.len(),
                    out@.len() == decode::keep(m.take(i as int), pred).len(),
                    forall|j: int|
                        0 <= j < out@.len() ==> (#[trigger] out@[j]).0@ == decode::keep(
                            m.take(i as int),
                            pred,
                        )[j].0 && driver_stints_of(decode::keep(m.take(i as int), pred)[j].1, out@[j].1),
                decreases members.len() - i,
            {
                assert(m.take(i + 1).drop_last() =~= m.take(i as int));
                assert(m.take(i + 1).last() == m[i as int]);
                match decode_driver_stints(&members[i].1) {
                    Some(d) => {
                        out.push((members[i].0.clone(), d));
                    },
                    None => {},
                }
                i = i + 1;
            }
            assert(m.take(members.len() as int) =~= m);
            Ok(out)
        },
        _ => Err(FeedError::NotAnObject),
    }
}

} // verus!
