//! Drivers.
use vstd::prelude::*;

use crate::model::team::TeamName;

verus! {

/// A car's racing number.
#[derive(Clone, Copy, PartialEq, Eq, Debug, Hash, PartialOrd, Ord, Default)]
pub struct DriverNumber {
    pub value: u8,
}

/// A driver of the session.
#[derive(Clone, PartialEq, Eq, Debug)]
pub struct Driver {
    pub number: DriverNumber,
    pub first_name: String,
    pub last_name: String,
    pub full_name: String,
    pub broadcast_name: String,
    pub headshot_url: String,
    pub line: Option<u8>,
    pub public_id_right: String,
    pub tla: String,
    pub team_name: TeamName,
    pub reference: String,
    /// Aggregated from the timing data, not from the driver list.
    pub position: Option<u8>,
}

} // verus!
