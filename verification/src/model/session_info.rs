//! The session: meeting, status, type and dates.
use vstd::prelude::*;

use crate::model::circuit::CircuitKey;
use crate::model::status::Timestamp;

verus! {

/// A country.
#[derive(Clone, PartialEq, Eq, Debug)]
pub struct Country {
    pub key: u32,
    pub code: String,
    pub name: String,
}

/// A meeting (a grand prix weekend).
#[derive(Clone, PartialEq, Eq, Debug)]
pub struct Meeting {
    pub key: u32,
    pub name: String,
    pub official_name: String,
    pub location: String,
    pub number: u8,
    pub country: Country,
    pub circuit_key: CircuitKey,
}

/// Whether the session runs.
#[derive(Clone, Copy, PartialEq, Eq, Debug)]
pub enum SessionStatus {
    Inactive,
    Started,
    Finalised,
}

/// Whether the session's archive is complete.
#[derive(Clone, Copy, PartialEq, Eq, Debug)]
pub enum ArchiveStatus {
    Generating,
    Complete,
}

/// The part of qualifying that runs.
#[derive(Clone, Copy, PartialEq, Eq, Debug)]
pub enum QualiPhase {
    Q1,
    Q2,
    Q3,
}

/// The kind of session.
#[derive(Clone, Copy, PartialEq, Eq, Debug)]
pub enum SessionType {
    Practice,
    Qualifying(Option<QualiPhase>),
    Race,
}

/// The session.
#[derive(Clone, PartialEq, Eq, Debug)]
pub struct SessionInfo {
    pub meeting: Meeting,
    pub session_status: SessionStatus,
    pub archive_status: ArchiveStatus,
    pub key: u32,
    pub type_: SessionType,
    pub number: Option<u8>,
    pub name: String,
    pub start_date: Timestamp,
    pub end_date: Timestamp,
    /// Offset of the local time from UTC, in seconds.
    pub utc_offset: i32,
    pub path: String,
}

} // verus!
