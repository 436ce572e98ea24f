//! The circuit and its flag status.
use vstd::prelude::*;

verus! {

/// The key of a circuit.
#[derive(Clone, Copy, PartialEq, Eq, Debug, Hash, Default)]
pub struct CircuitKey(pub u32);

/// Where a yellow flag applies.
#[derive(Clone, PartialEq, Eq, Debug)]
pub enum CircuitScope {
    Full,
    /// The track sectors under yellow, ascending.
    Sectors(Vec<u8>),
}

/// The flag status of the whole circuit.
#[derive(Clone, PartialEq, Eq, Debug, Default)]
pub enum CircuitStatus {
    #[default]
    Clear,
    Yellow(CircuitScope),
    Red,
}

/// The circuit of the session.
#[derive(Clone, PartialEq, Eq, Debug)]
pub struct Circuit {
    pub key: CircuitKey,
    pub short_name: String,
    pub year: u32,
    pub status: CircuitStatus,
}

} // verus!
