//! Flags and race control messages.
use vstd::prelude::*;

use crate::model::status::Timestamp;

verus! {

/// A flag's colour.
#[derive(Clone, Copy, PartialEq, Eq, Debug)]
pub enum FlagColor {
    Green,
    Yellow,
    DoubleYellow,
    Red,
    Clear,
    Chequered,
    Blue,
    BlackAndWhite,
}

/// Where a flag applies.
#[derive(Clone, Copy, PartialEq, Eq, Debug)]
pub enum FlagScope {
    Track,
    Sector(u8),
}

/// A flag shown by race control.
#[derive(Clone, Copy, PartialEq, Eq, Debug)]
pub struct Flag {
    pub color: FlagColor,
    pub scope: FlagScope,
}

/// What a race control message is about.
#[derive(Clone, Copy, PartialEq, Eq, Debug)]
pub enum MessageCategory {
    Flag(Flag),
    SafetyCar,
    Other,
}

/// A message from race control.
#[derive(Clone, PartialEq, Eq, Debug)]
pub struct RaceControlMessage {
    pub timestamp: Timestamp,
    pub category: MessageCategory,
    pub message: String,
}

} // verus!
