//! Teams.
use vstd::prelude::*;

verus! {

/// A team's name.
#[derive(Clone, PartialEq, Eq, Debug, Hash, PartialOrd, Ord, Default)]
pub struct TeamName {
    pub value: String,
}

/// A team's colour as `0xRRGGBB`.
#[derive(Clone, Copy, PartialEq, Eq, Debug, Hash, Default)]
pub struct TeamColor {
    pub u32: u32,
}

/// A team.
#[derive(Clone, PartialEq, Eq, Debug)]
pub struct Team {
    pub name: TeamName,
    pub color: TeamColor,
}

} // verus!
