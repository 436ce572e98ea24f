//! The `TimingData` topic. Every member has a default: a missing member reads
//! as empty text, zero, false, an empty list or a record of defaults.
use vstd::prelude::*;

use crate::json::{self, Json, JsonView, Members};
use crate::parsing::decode::{
    self, read_def_bool, read_def_text, read_def_uint, read_field, read_items_or_empty,
    read_opt_bool, read_opt_text, read_opt_uint, read_rec_or_empty, FeedError,
};
use crate::parsing::race_control_messages::{self as messages};

verus! {

#[allow(non_snake_case)]
#[derive(Clone, Debug, PartialEq, Eq, Default)]
pub struct RawBestLapTime {
    pub Value: String,
}

#[allow(non_snake_case)]
#[derive(Clone, Debug, PartialEq, Eq, Default)]
pub struct RawLastLapTime {
    pub OverallFastest: bool,
    pub PersonalFastest: bool,
    pub Status: u32,
    pub Value: String,
}

#[allow(non_snake_case)]
#[derive(Clone, Copy, Debug, PartialEq, Eq, Default)]
pub struct RawSegment {
    pub Status: u32,
}

#[allow(non_snake_case)]
#[derive(Clone, Debug, PartialEq, Eq, Default)]
pub struct RawSector {
    pub OverallFastest: bool,
    pub PersonalFastest: bool,
    pub Segments: Vec<RawSegment>,
    pub Status: u32,
    pub Stopped: bool,
    pub Value: String,
    pub PreviousValue: Option<String>,
}

#[allow(non_snake_case)]
#[derive(Clone, Debug, PartialEq, Eq, Default)]
pub struct RawSpeed {
    pub OverallFastest: bool,
    pub PersonalFastest: bool,
    pub Status: u32,
    pub Value: String,
}

#[allow(non_snake_case)]
#[derive(Clone, Debug, PartialEq, Eq, Default)]
pub struct RawSpeeds {
    pub FL: RawSpeed,
    pub I1: RawSpeed,
    pub I2: RawSpeed,
    pub ST: RawSpeed,
}

#[allow(non_snake_case)]
#[derive(Clone, Debug, PartialEq, Eq, Default)]
pub struct RawStats {
    pub TimeDiffToFastest: String,
    pub TimeDiffToPositionAhead: String,
}

#[allow(non_snake_case)]
#[derive(Clone, Debug, PartialEq, Eq, Default)]
pub struct RawIntervalToPositionAhead {
    pub Catching: bool,
    pub Value: String,
}

/// The timing of one car as the feed sends it.
#[allow(non_snake_case)]
#[derive(Clone, Debug, PartialEq, Eq, Default)]
pub struct RawTimingData {
    pub RacingNumber: String,
    pub BestLapTime: RawBestLapTime,
    pub InPit: bool,
    pub PitOut: bool,
    pub LastLapTime: RawLastLapTime,
    pub Position: String,
    pub Retired: bool,
    pub Status: u32,
    pub Stopped: bool,
    pub TimeDiffToFastest: Option<String>,
    pub TimeDiffToPositionAhead: Option<String>,
    pub Sectors: Vec<RawSector>,
    pub ShowPosition: bool,
    pub Speeds: RawSpeeds,
    pub Cutoff: Option<bool>,
    pub KnockedOut: Option<bool>,
    pub NumberOfLaps: Option<u8>,
    pub NumberOfPitStops: Option<u8>,
    pub Stats: Option<Vec<RawStats>>,
    pub GapToLeader: Option<String>,
    pub IntervalToPositionAhead: Option<RawIntervalToPositionAhead>,
}

// ---------------------------------------------------------------------------
// Relations between JSON values and records
// ---------------------------------------------------------------------------

pub open spec fn best_lap_of(v: JsonView, r: RawBestLapTime) -> bool {
    v is Object && decode::def_text(v, "Value"@) == Some(r.Value@)
}

pub open spec fn best_lap_ok(v: JsonView) -> bool {
    v is Object && decode::def_text(v, "Value"@) is Some
}

pub open spec fn last_lap_of(v: JsonView, r: RawLastLapTime) -> bool {
    &&& v is Object
    &&& decode::def_bool(v, "OverallFastest"@) == Some(r.OverallFastest)
    &&& decode::def_bool(v, "PersonalFastest"@) == Some(r.PersonalFastest)
    &&& decode::def_uint(v, "Status"@, u32::MAX as nat) == Some(r.Status as nat)
    &&& decode::def_text(v, "Value"@) == Some(r.Value@)
}

pub open spec fn last_lap_ok(v: JsonView) -> bool {
    &&& v is Object
    &&& decode::def_bool(v, "OverallFastest"@) is Some
    &&& decode::def_bool(v, "PersonalFastest"@) is Some
    &&& decode::def_uint(v, "Status"@, u32::MAX as nat) is Some
    &&& decode::def_text(v, "Value"@) is Some
}

pub open spec fn segment_of(v: JsonView, r: RawSegment) -> bool {
    v is Object && decode::def_uint(v, "Status"@, u32::MAX as nat) == Some(r.Status as nat)
}

pub open spec fn segment_ok(v: JsonView) -> bool {
    v is Object && decode::def_uint(v, "Status"@, u32::MAX as nat) is Some
}

pub open spec fn sector_of(v: JsonView, r: RawSector) -> bool {
    &&& v is Object
    &&& decode::def_bool(v, "OverallFastest"@) == Some(r.OverallFastest)
    &&& decode::def_bool(v, "PersonalFastest"@) == Some(r.PersonalFastest)
    &&& decode::items_or_empty(v, "Segments"@) matches Some(items) && decode::items_match(
        items,
        r.Segments@,
        |x: JsonView, s: RawSegment| segment_of(x, s),
    )
    &&& decode::def_uint(v, "Status"@, u32::MAX as nat) == Some(r.Status as nat)
    &&& decode::def_bool(v, "Stopped"@) == Some(r.Stopped)
    &&& decode::def_text(v, "Value"@) == Some(r.Value@)
    &&& decode::opt_text(v, "PreviousValue"@) == Some(messages::opt_view(r.PreviousValue))
}

pub open spec fn sector_ok(v: JsonView) -> bool {
    &&& v is Object
    &&& decode::def_bool(v, "OverallFastest"@) is Some
    &&& decode::def_bool(v, "PersonalFastest"@) is Some
    &&& decode::items_or_empty(v, "Segments"@) matches Some(items) && decode::all_items(
        items,
        |x: JsonView| segment_ok(x),
    )
    &&& decode::def_uint(v, "Status"@, u32::MAX as nat) is Some
    &&& decode::def_bool(v, "Stopped"@) is Some
    &&& decode::def_text(v, "Value"@) is Some
    &&& decode::opt_text(v, "PreviousValue"@) is Some
}

pub open spec fn speed_of(v: JsonView, r: RawSpeed) -> bool {
    &&& v is Object
    &&& decode::def_bool(v, "OverallFastest"@) == Some(r.OverallFastest)
    &&& decode::def_bool(v, "PersonalFastest"@) == Some(r.PersonalFastest)
    &&& decode::def_uint(v, "Status"@, u32::MAX as nat) == Some(r.Status as nat)
    &&& decode::def_text(v, "Value"@) == Some(r.Value@)
}

pub open spec fn speed_ok(v: JsonView) -> bool {
    &&& v is Object
    &&& decode::def_bool(v, "OverallFastest"@) is Some
    &&& decode::def_bool(v, "PersonalFastest"@) is Some
    &&& decode::def_uint(v, "Status"@, u32::MAX as nat) is Some
    &&& decode::def_text(v, "Value"@) is Some
}

pub open spec fn speeds_of(v: JsonView, r: RawSpeeds) -> bool {
    &&& v is Object
    &&& speed_of(decode::rec_or_empty(v, "FL"@), r.FL)
    &&& speed_of(decode::rec_or_empty(v, "I1"@), r.I1)
    &&& speed_of(decode::rec_or_empty(v, "I2"@), r.I2)
    &&& speed_of(decode::rec_or_empty(v, "ST"@), r.ST)
}

pub open spec fn speeds_ok(v: JsonView) -> bool {
    &&& v is Object
    &&& speed_ok(decode::rec_or_empty(v, "FL"@))
    &&& speed_ok(decode::rec_or_empty(v, "I1"@))
    &&& speed_ok(decode::rec_or_empty(v, "I2"@))
    &&& speed_ok(decode::rec_or_empty(v, "ST"@))
}

pub open spec fn stats_of(v: JsonView, r: RawStats) -> bool {
    &&& v is Object
    &&& decode::def_text(v, "TimeDiffToFastest"@) == Some(r.TimeDiffToFastest@)
    &&& decode::def_text(v, "TimeDiffToPositionAhead"@) == Some(r.TimeDiffToPositionAhead@)
}

pub open spec fn stats_ok(v: JsonView) -> bool {
    &&& v is Object
    &&& decode::def_text(v, "TimeDiffToFastest"@) is Some
    &&& decode::def_text(v, "TimeDiffToPositionAhead"@) is Some
}

pub open spec fn interval_of(v: JsonView, r: RawIntervalToPositionAhead) -> bool {
    &&& v is Object
    &&& decode::def_bool(v, "Catching"@) == Some(r.Catching)
    &&& decode::def_text(v, "Value"@) == Some(r.Value@)
}

pub open spec fn interval_ok(v: JsonView) -> bool {
    &&& v is Object
    &&& decode::def_bool(v, "Catching"@) is Some
    &&& decode::def_text(v, "Value"@) is Some
}

/// `Stats`: missing or null gives none; otherwise a list of statistics.
pub open spec fn stats_field_of(v: JsonView, r: Option<Vec<RawStats>>) -> bool {
    match decode::field(v, "Stats"@) {
        None => r is None,
        Some(JsonView::Null) => r is None,
        Some(f) => decode::as_items(f) matches Some(items) && r matches Some(rs)
            && decode::items_match(items, rs@, |x: JsonView, s: RawStats| stats_of(x, s)),
    }
}

pub open spec fn stats_field_ok(v: JsonView) -> bool {
    match decode::field(v, "Stats"@) {
        None => true,
        Some(JsonView::Null) => true,
        Some(f) => decode::as_items(f) matches Some(items) && decode::all_items(
            items,
            |x: JsonView| stats_ok(x),
        ),
    }
}

/// `IntervalToPositionAhead`: missing or null gives none.
pub open spec fn interval_field_of(v: JsonView, r: Option<RawIntervalToPositionAhead>) -> bool {
    match decode::field(v, "IntervalToPositionAhead"@) {
        None => r is None,
        Some(JsonView::Null) => r is None,
        Some(f) => r matches Some(x) && interval_of(f, x),
    }
}

pub open spec fn interval_field_ok(v: JsonView) -> bool {
    match decode::field(v, "IntervalToPositionAhead"@) {
        None => true,
        Some(JsonView::Null) => true,
        Some(f) => interval_ok(f),
    }
}

/// Whether `r` holds the members of `v`, a car's timing.
pub open spec fn timing_of(v: JsonView, r: RawTimingData) -> bool {
    &&& v is Object
    &&& decode::def_text(v, "RacingNumber"@) == Some(r.RacingNumber@)
    &&& best_lap_of(decode::rec_or_empty(v, "BestLapTime"@), r.BestLapTime)
    &&& decode::def_bool(v, "InPit"@) == Some(r.InPit)
    &&& decode::def_bool(v, "PitOut"@) == Some(r.PitOut)
    &&& last_lap_of(decode::rec_or_empty(v, "LastLapTime"@), r.LastLapTime)
    &&& decode::def_text(v, "Position"@) == Some(r.Position@)
    &&& decode::def_bool(v, "Retired"@) == Some(r.Retired)
    &&& decode::def_uint(v, "Status"@, u32::MAX as nat) == Some(r.Status as nat)
    &&& decode::def_bool(v, "Stopped"@) == Some(r.Stopped)
    &&& decode::opt_text(v, "TimeDiffToFastest"@) == Some(messages::opt_view(r.TimeDiffToFastest))
    &&& decode::opt_text(v, "TimeDiffToPositionAhead"@) == Some(messages::opt_view(r.TimeDiffToPositionAhead))
    &&& decode::items_or_empty(v, "Sectors"@) matches Some(items) && decode::items_match(
        items,
        r.Sectors@,
        |x: JsonView, s: RawSector| sector_of(x, s),
    )
    &&& decode::def_bool(v, "ShowPosition"@) == Some(r.ShowPosition)
    &&& speeds_of(decode::rec_or_empty(v, "Speeds"@), r.Speeds)
    &&& decode::opt_bool(v, "Cutoff"@) == Some(r.Cutoff)
    &&& decode::opt_bool(v, "KnockedOut"@) == Some(r.KnockedOut)
    &&& decode::opt_uint(v, "NumberOfLaps"@, u8::MAX as nat) == Some(messages::opt_u8_view(r.NumberOfLaps))
    &&& decode::opt_uint(v, "NumberOfPitStops"@, u8::MAX as nat) == Some(
        messages::opt_u8_view(r.NumberOfPitStops),
    )
    &&& stats_field_of(v, r.Stats)
    &&& decode::opt_text(v, "GapToLeader"@) == Some(messages::opt_view(r.GapToLeader))
    &&& interval_field_of(v, r.IntervalToPositionAhead)
}

/// Whether `v` is a car's timing whose members have the right types.
pub open spec fn timing_ok(v: JsonView) -> bool {
    &&& v is Object
    &&& decode::def_text(v, "RacingNumber"@) is Some
    &&& best_lap_ok(decode::rec_or_empty(v, "BestLapTime"@))
    &&& decode::def_bool(v, "InPit"@) is Some
    &&& decode::def_bool(v, "PitOut"@) is Some
    &&& last_lap_ok(decode::rec_or_empty(v, "LastLapTime"@))
    &&& decode::def_text(v, "Position"@) is Some
    &&& decode::def_bool(v, "Retired"@) is Some
    &&& decode::def_uint(v, "Status"@, u32::MAX as nat) is Some
    &&& decode::def_bool(v, "Stopped"@) is Some
    &&& decode::opt_text(v, "TimeDiffToFastest"@) is Some
    &&& decode::opt_text(v, "TimeDiffToPositionAhead"@) is Some
    &&& decode::items_or_empty(v, "Sectors"@) matches Some(items) && decode::all_items(
        items,
        |x: JsonView| sector_ok(x),
    )
    &&& decode::def_bool(v, "ShowPosition"@) is Some
    &&& speeds_ok(decode::rec_or_empty(v, "Speeds"@))
    &&& decode::opt_bool(v, "Cutoff"@) is Some
    &&& decode::opt_bool(v, "KnockedOut"@) is Some
    &&& decode::opt_uint(v, "NumberOfLaps"@, u8::MAX as nat) is Some
    &&& decode::opt_uint(v, "NumberOfPitStops"@, u8::MAX as nat) is Some
    &&& stats_field_ok(v)
    &&& decode::opt_text(v, "GapToLeader"@) is Some
    &&& interval_field_ok(v)
}

// ---------------------------------------------------------------------------
// Readers
// ---------------------------------------------------------------------------

fn decode_best_lap(v: &Json) -> (r: Option<RawBestLapTime>)
    ensures
        match r {
            Some(x) => best_lap_of(v@, x),
            None => !best_lap_ok(v@),
        },
{
    if !decode::is_object(v) {
        return None;
    }
    let value = read_def_text(v, "Value")?;
    Some(RawBestLapTime { Value: value })
}

fn decode_last_lap(v: &Json) -> (r: Option<RawLastLapTime>)
    ensures
        match r {
            Some(x) => last_lap_of(v@, x),
            None => !last_lap_ok(v@),
        },
{
    if !decode::is_object(v) {
        return None;
    }
    let of = read_def_bool(v, "OverallFastest")?;
    let pf = read_def_bool(v, "PersonalFastest")?;
    let status = read_def_uint(v, "Status", u32::MAX as u64)?;
    let value = read_def_text(v, "Value")?;
    Some(
        RawLastLapTime {
            OverallFastest: of,
            PersonalFastest: pf,
            Status: status as u32,
            Value: value,
        },
    )
}

fn decode_segment(v: &Json) -> (r: Option<RawSegment>)
    ensures
        match r {
            Some(x) => segment_of(v@, x),
            None => !segment_ok(v@),
        },
{
    if !decode::is_object(v) {
        return None;
    }
    let status = read_def_uint(v, "Status", u32::MAX as u64)?;
    Some(RawSegment { Status: status as u32 })
}

fn decode_segments(items: &Vec<Json>) -> (r: Option<Vec<RawSegment>>)
    ensures
        r is Some <==> decode::all_items(json::items_view(items@), |x: JsonView| segment_ok(x)),
        match r {
            Some(x) => decode::items_match(
                json::items_view(items@),
                x@,
                |x: JsonView, s: RawSegment| segment_of(x, s),
            ),
            None => !decode::all_items(json::items_view(items@), |x: JsonView| segment_ok(x)),
        },
{
    let ghost iv = json::items_view(items@);
    let mut out: Vec<RawSegment> = Vec::new();
    let mut i: usize = 0;
    while i < items.len()
        invariant
            iv == json::items_view(items@),
            i <= items.len(),
            out@.len() == i,
            forall|j: int| 0 <= j < i ==> segment_of(iv[j], #[trigger] out@[j]),
        decreases items.len() - i,
    {
        match decode_segment(&items[i]) {
            Some(x) => out.push(x),
            None => {
                assert(!(|x: JsonView| segment_ok(x))(iv[i as int]));
                return None;
            },
        }
        i = i + 1;
    }
    assert forall|j: int| 0 <= j < iv.len() implies (|x: JsonView| segment_ok(x))(#[trigger] iv[j]) by {
        assert(segment_of(iv[j], out@[j]));
    }
    Some(out)
}

fn decode_sector(v: &Json) -> (r: Option<RawSector>)
    ensures
        r is Some <==> sector_ok(v@),
        match r {
            Some(x) => sector_of(v@, x),
            None => !sector_ok(v@),
        },
{
    if !decode::is_object(v) {
        return None;
    }
    let of = read_def_bool(v, "OverallFastest")?;
    let pf = read_def_bool(v, "PersonalFastest")?;
    let items = read_items_or_empty(v, "Segments")?;
    let segments = decode_segments(&items)?;
    let status = read_def_uint(v, "Status", u32::MAX as u64)?;
    let stopped = read_def_bool(v, "Stopped")?;
    let value = read_def_text(v, "Value")?;
    let previous = read_opt_text(v, "PreviousValue")?;
    Some(
        RawSector {
            OverallFastest: of,
            PersonalFastest: pf,
            Segments: segments,
            Status: status as u32,
            Stopped: stopped,
            Value: value,
            PreviousValue: previous,
        },
    )
}

proof fn lemma_sector_of_ok(v: JsonView, r: RawSector)
    requires
        sector_of(v, r),
    ensures
        sector_ok(v),
{
    let items = decode::items_or_empty(v, "Segments"@)->Some_0;
    assert forall|j: int| 0 <= j < items.len() implies (|x: JsonView| segment_ok(x))(#[trigger] items[j]) by {
        assert((|x: JsonView, s: RawSegment| segment_of(x, s))(items[j], r.Segments@[j]));
    }
}

fn decode_sectors(items: &Vec<Json>) -> (r: Option<Vec<RawSector>>)
    ensures
        r is Some <==> decode::all_items(json::items_view(items@), |x: JsonView| sector_ok(x)),
        match r {
            Some(x) => decode::items_match(
                json::items_view(items@),
                x@,
                |x: JsonView, s: RawSector| sector_of(x, s),
            ),
            None => !decode::all_items(json::items_view(items@), |x: JsonView| sector_ok(x)),
        },
{
    let ghost iv = json::items_view(items@);
    let mut out: Vec<RawSector> = Vec::new();
    let mut i: usize = 0;
    while i < items.len()
        invariant
            iv == json::items_view(items@),
            i <= items.len(),
            out@.len() == i,
            forall|j: int| 0 <= j < i ==> sector_of(iv[j], #[trigger] out@[j]),
        decreases items.len() - i,
    {
        match decode_sector(&items[i]) {
            Some(x) => out.push(x),
            None => {
                assert(!(|x: JsonView| sector_ok(x))(iv[i as int]));
                return None;
            },
        }
        i = i + 1;
    }
    assert forall|j: int| 0 <= j < iv.len() implies (|x: JsonView| sector_ok(x))(#[trigger] iv[j]) by {
        lemma_sector_of_ok(iv[j], out@[j]);
    }
    Some(out)
}

fn decode_speed(v: &Json) -> (r: Option<RawSpeed>)
    ensures
        match r {
            Some(x) => speed_of(v@, x),
            None => !speed_ok(v@),
        },
{
    if !decode::is_object(v) {
        return None;
    }
    let of = read_def_bool(v, "OverallFastest")?;
    let pf = read_def_bool(v, "PersonalFastest")?;
    let status = read_def_uint(v, "Status", u32::MAX as u64)?;
    let value = read_def_text(v, "Value")?;
    Some(RawSpeed { OverallFastest: of, PersonalFastest: pf, Status: status as u32, Value: value })
}

fn decode_speeds(v: &Json) -> (r: Option<RawSpeeds>)
    ensures
        match r {
            Some(x) => speeds_of(v@, x),
            None => !speeds_ok(v@),
        },
{
    if !decode::is_object(v) {
        return None;
    }
    let fl = decode_speed(&read_rec_or_empty(v, "FL"))?;
    let i1 = decode_speed(&read_rec_or_empty(v, "I1"))?;
    let i2 = decode_speed(&read_rec_or_empty(v, "I2"))?;
    let st = decode_speed(&read_rec_or_empty(v, "ST"))?;
    Some(RawSpeeds { FL: fl, I1: i1, I2: i2, ST: st })
}

fn decode_stats(v: &Json) -> (r: Option<RawStats>)
    ensures
        match r {
            Some(x) => stats_of(v@, x),
            None => !stats_ok(v@),
        },
{
    if !decode::is_object(v) {
        return None;
    }
    let to_fastest = read_def_text(v, "TimeDiffToFastest")?;
    let to_ahead = read_def_text(v, "TimeDiffToPositionAhead")?;
    Some(RawStats { TimeDiffToFastest: to_fastest, TimeDiffToPositionAhead: to_ahead })
}

fn decode_stats_list(items: &Vec<Json>) -> (r: Option<Vec<RawStats>>)
    ensures
        r is Some <==> decode::all_items(json::items_view(items@), |x: JsonView| stats_ok(x)),
        match r {
            Some(x) => decode::items_match(
                json::items_view(items@),
                x@,
                |x: JsonView, s: RawStats| stats_of(x, s),
            ),
            None => !decode::all_items(json::items_view(items@), |x: JsonView| stats_ok(x)),
        },
{
    let ghost iv = json::items_view(items@);
    let mut out: Vec<RawStats> = Vec::new();
    let mut i: usize = 0;
    while i < items.len()
        invariant
            iv == json::items_view(items@),
            i <= items.len(),
            out@.len() == i,
            forall|j: int| 0 <= j < i ==> stats_of(iv[j], #[trigger] out@[j]),
        decreases items.len() - i,
    {
        match decode_stats(&items[i]) {
            Some(x) => out.push(x),
            None => {
                assert(!(|x: JsonView| stats_ok(x))(iv[i as int]));
                return None;
            },
        }
        i = i + 1;
    }
    assert forall|j: int| 0 <= j < iv.len() implies (|x: JsonView| stats_ok(x))(#[trigger] iv[j]) by {
        assert(stats_of(iv[j], out@[j]));
    }
    Some(out)
}

fn decode_interval(v: &Json) -> (r: Option<RawIntervalToPositionAhead>)
    ensures
        match r {
            Some(x) => interval_of(v@, x),
            None => !interval_ok(v@),
        },
{
    if !decode::is_object(v) {
        return None;
    }
    let catching = read_def_bool(v, "Catching")?;
    let value = read_def_text(v, "Value")?;
    Some(RawIntervalToPositionAhead { Catching: catching, Value: value })
}

fn decode_stats_field(v: &Json) -> (r: Option<Option<Vec<RawStats>>>)
    ensures
        r is Some <==> stats_field_ok(v@),
        match r {
            Some(x) => stats_field_of(v@, x),
            None => !stats_field_ok(v@),
        },
{
    match read_field(v, "Stats") {
        None => Some(None),
        Some(f) => {
            if decode::is_null(f) {
                return Some(None);
            }
            match decode::items_of(f) {
                Some(items) => match decode_stats_list(items) {
                    Some(list) => Some(Some(list)),
                    None => None,
                },
                None => None,
            }
        },
    }
}

fn decode_interval_field(v: &Json) -> (r: Option<Option<RawIntervalToPositionAhead>>)
    ensures
        match r {
            Some(x) => interval_field_of(v@, x),
            None => !interval_field_ok(v@),
        },
{
    match read_field(v, "IntervalToPositionAhead") {
        None => Some(None),
        Some(f) => {
            if decode::is_null(f) {
                return Some(None);
            }
            match decode_interval(f) {
                Some(x) => Some(Some(x)),
                None => None,
            }
        },
    }
}

/// Reads one car's timing.
pub fn decode_timing(v: &Json) -> (r: Option<RawTimingData>)
    ensures
        r is Some <==> timing_ok(v@),
        match r {
            Some(x) => timing_of(v@, x),
            None => !timing_ok(v@),
        },
{
    if !decode::is_object(v) {
        return None;
    }
    let racing_number = read_def_text(v, "RacingNumber")?;
    let best = decode_best_lap(&read_rec_or_empty(v, "BestLapTime"))?;
    let in_pit = read_def_bool(v, "InPit")?;
    let pit_out = read_def_bool(v, "PitOut")?;
    let last = decode_last_lap(&read_rec_or_empty(v, "LastLapTime"))?;
    let position = read_def_text(v, "Position")?;
    let retired = read_def_bool(v, "Retired")?;
    let status = read_def_uint(v, "Status", u32::MAX as u64)?;
    let stopped = read_def_bool(v, "Stopped")?;
    let to_fastest = read_opt_text(v, "TimeDiffToFastest")?;
    let to_ahead = read_opt_text(v, "TimeDiffToPositionAhead")?;
    let sector_items = read_items_or_empty(v, "Sectors")?;
    let sectors = decode_sectors(&sector_items)?;
    let show_position = read_def_bool(v, "ShowPosition")?;
    let speeds = decode_speeds(&read_rec_or_empty(v, "Speeds"))?;
    let cutoff = read_opt_bool(v, "Cutoff")?;
    let knocked_out = read_opt_bool(v, "KnockedOut")?;
    let laps = read_opt_uint(v, "NumberOfLaps", u8::MAX as u64)?;
    let stops = read_opt_uint(v, "NumberOfPitStops", u8::MAX as u64)?;
    let stats = decode_stats_field(v)?;
    let gap = read_opt_text(v, "GapToLeader")?;
    let interval = decode_interval_field(v)?;
    let laps = match laps {
        Some(n) => Some(n as u8),
        None => None,
    };
    let stops = match stops {
        Some(n) => Some(n as u8),
        None => None,
    };
    Some(
        RawTimingData {
            RacingNumber: racing_number,
            BestLapTime: best,
            InPit: in_pit,
            PitOut: pit_out,
            LastLapTime: last,
            Position: position,
            Retired: retired,
            Status: status as u32,
            Stopped: stopped,
            TimeDiffToFastest: to_fastest,
            TimeDiffToPositionAhead: to_ahead,
            Sectors: sectors,
            ShowPosition: show_position,
            Speeds: speeds,
            Cutoff: cutoff,
            KnockedOut: knocked_out,
            NumberOfLaps: laps,
            NumberOfPitStops: stops,
            Stats: stats,
            GapToLeader: gap,
            IntervalToPositionAhead: interval,
        },
    )
}

/// The cars of `Lines` whose timing reads, in key order.
pub open spec fn timed_cars(m: Members) -> Members {
    decode::keep(m, |e: (Seq<char>, JsonView)| timing_ok(e.1))
}

/// Reads the `TimingData` topic: the timing of each car of `Lines`, by
/// racing-number key in key order; cars whose timing does not read are
/// skipped. Missing `Lines` and `Lines` that is not an object are refused.
pub fn parse_raw_timing_data(val: &Json) -> (r: Result<Vec<(String, RawTimingData)>, FeedError>)
    ensures
        decode::field(val@, "Lines"@) is None ==> r == Err::<Vec<(String, RawTimingData)>, FeedError>(
            FeedError::MissingMember,
        ),
        decode::field(val@, "Lines"@) matches Some(l) && !(l is Object) ==> r == Err::<
            Vec<(String, RawTimingData)>,
            FeedError,
        >(FeedError::NotAnObject),
        decode::field(val@, "Lines"@) matches Some(JsonView::Object(m)) ==> r is Ok && ({
            let d = r->Ok_0;
            let want = timed_cars(m);
            &&& d@.len() == want.len()
            &&& forall|i: int|
                0 <= i < d@.len() ==> (#[trigger] d@[i]).0@ == want[i].0 && timing_of(
                    want[i].1,
                    d@[i].1,
                )
        }),
{
    let lines = match read_field(val, "Lines") {
        Some(l) => l,
        None => {
            return Err(FeedError::MissingMember);
        },
    };
    match lines {
        Json::Object(members) => {
            proof {
                json::lemma_object_view(*members);
            }
            let ghost m = json::members_view(members@);
            let ghost pred = |e: (Seq<char>, JsonView)| timing_ok(e.1);
            let mut out: Vec<(String, RawTimingData)> = Vec::new();
            let mut i: usize = 0;
            while i < members.len()
                invariant
                    m == json::members_view(members@),
                    pred == (|e: (Seq<char>, JsonView)| timing_ok(e.1)),
                    i <= members.len(),
                    out@.len() == decode::keep(m.take(i as int), pred).len(),
                    forall|j: int|
                        0 <= j < out@.len() ==> (#[trigger] out@[j]).0@ == decode::keep(
                            m.take(i as int),
                            pred,
                        )[j].0 && timing_of(decode::keep(m.take(i as int), pred)[j].1, out@[j].1),
                decreases members.len() - i,
            {
                assert(m.take(i + 1).drop_last() =~= m.take(i as int));
                assert(m.take(i + 1).last() == m[i as int]);
                match decode_timing(&members[i].1) {
                    Some(d) => {
                        out.push((members[i].0.clone(), d));
                    },
                    None => {},
                }
                i = i + 1;
            }
            assert(m.take(members.len() as int) =~= m);
            Ok(out)
        },
        _ => Err(FeedError::NotAnObject),
    }
}

} // verus!
