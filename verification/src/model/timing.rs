//! Live timing of each car.
use vstd::prelude::*;

use crate::model::driver::DriverNumber;
use crate::model::lap_time::LapTime;

verus! {

/// What a mini-sector shows.
#[derive(Clone, Copy, PartialEq, Eq, Debug, Default)]
pub enum SegmentStatus {
    #[default]
    Blank,
    Normal,
    PersonalFastest,
    Unknown,
    OverallFastest,
    Aborted,
    InPit,
}

/// A mini-sector.
#[derive(Clone, Copy, PartialEq, Eq, Debug, Default)]
pub struct Segment {
    pub status: SegmentStatus,
}

/// A sector of the last lap.
#[derive(Clone, PartialEq, Eq, Debug, Default)]
pub struct Sector {
    pub overall_fastest: bool,
    pub personal_fastest: bool,
    pub segments: Vec<Segment>,
    pub status: u32,
    pub stopped: bool,
    pub value: Option<String>,
    pub previous_value: Option<String>,
}

/// A speed trap reading.
#[derive(Clone, PartialEq, Eq, Debug, Default)]
pub struct Speed {
    pub overall_fastest: bool,
    pub personal_fastest: bool,
    pub status: u32,
    pub value: String,
}

/// The speed traps of a lap.
#[derive(Clone, PartialEq, Eq, Debug, Default)]
pub struct Speeds {
    pub fl: Speed,
    pub i1: Speed,
    pub i2: Speed,
    pub st: Speed,
}

/// Gaps to the fastest car and to the car ahead.
#[derive(Clone, PartialEq, Eq, Debug, Default)]
pub struct TimeDiffs {
    pub to_fastest: Option<String>,
    pub to_position_ahead: Option<String>,
}

/// The best lap of a car.
#[derive(Clone, PartialEq, Eq, Debug, Default)]
pub struct BestLap {
    pub time: Option<LapTime>,
    pub overall_fastest: bool,
}

/// The last lap of a car.
#[derive(Clone, PartialEq, Eq, Debug, Default)]
pub struct LastLap {
    pub overall_fastest: bool,
    pub personal_fastest: bool,
    pub status: u32,
    pub time: Option<LapTime>,
    pub sectors: Vec<Sector>,
    pub show_position: bool,
    pub speeds: Speeds,
}

/// Laps of a car.
#[derive(Clone, PartialEq, Eq, Debug, Default)]
pub struct LapData {
    pub best_lap: BestLap,
    pub last_lap: LastLap,
    pub number_of_laps: Option<u8>,
}

/// Pit stops of a car.
#[derive(Clone, Copy, PartialEq, Eq, Debug, Default)]
pub struct PitData {
    pub in_pit: bool,
    pub pit_out: bool,
    pub number_of_pit_stops: Option<u8>,
}

/// Qualifying standing of a car.
#[derive(Clone, PartialEq, Eq, Debug, Default)]
pub struct QualiStats {
    pub cutoff: Option<bool>,
    pub knocked_out: Option<bool>,
    pub q1_diffs: Option<TimeDiffs>,
    pub q2_diffs: Option<TimeDiffs>,
    pub q3_diffs: Option<TimeDiffs>,
}

/// The live timing of one car.
#[derive(Clone, PartialEq, Eq, Debug, Default)]
pub struct LiveTiming {
    pub driver_number: DriverNumber,
    pub position: u8,
    pub status: u32,
    pub retired: bool,
    pub stopped: bool,
    pub time_diffs: TimeDiffs,
    pub lap_data: LapData,
    pub pit_data: PitData,
    pub quali_stats: Option<QualiStats>,
}

} // verus!
