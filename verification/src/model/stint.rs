//! Tyre stints.
use vstd::prelude::*;

verus! {

/// A tyre compound.
#[derive(Clone, Copy, PartialEq, Eq, Debug, Default)]
pub enum Compound {
    Soft,
    Medium,
    Hard,
    Intermediate,
    Wet,
    #[default]
    Unknown,
}

/// One stint on one set of tyres.
#[derive(Clone, Copy, PartialEq, Eq, Debug, Default)]
pub struct Stint {
    pub compound: Compound,
    pub lap_flags: u8,
    pub new: bool,
    pub start_laps: u8,
    pub total_laps: u8,
    pub tires_not_changed: u8,
}

} // verus!
