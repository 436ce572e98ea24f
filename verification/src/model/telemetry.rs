//! What one batch of feed messages updates.
use vstd::prelude::*;

use crate::model::circuit::Circuit;
use crate::model::driver::{Driver, DriverNumber};
use crate::model::race_control::RaceControlMessage;
use crate::model::session_info::SessionInfo;
use crate::model::status::{Clock, Laps, TrackStatus};
use crate::model::stint::Stint;
use crate::model::team::Team;
use crate::model::timing::LiveTiming;
use crate::parsing::weather_data::RawWeatherData;

verus! {

/// The telemetry that changed: each part is there only where its topics
/// were updated and it could be read. The weather is handed out as the feed
/// sends it, every reading as text.
#[derive(Clone, Debug, PartialEq, Eq)]
pub struct TelemetryUpdate {
    pub session_info: Option<SessionInfo>,
    pub circuit: Option<Circuit>,
    pub drivers: Option<Vec<(DriverNumber, Driver)>>,
    pub teams: Option<Vec<Team>>,
    pub timing_data: Option<Vec<(DriverNumber, LiveTiming)>>,
    pub stints: Option<Vec<(DriverNumber, Vec<Stint>)>>,
    pub track_status: Option<TrackStatus>,
    pub race_control_messages: Option<Vec<RaceControlMessage>>,
    pub weather: Option<RawWeatherData>,
    pub laps: Option<Laps>,
    pub clock: Option<Clock>,
}

} // verus!
