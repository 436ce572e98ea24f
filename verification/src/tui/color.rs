//! The colours of the interface.
use vstd::prelude::*;

verus! {

/// A terminal colour.
#[derive(Clone, Copy, PartialEq, Eq, Structural, Debug, Default)]
pub enum TermColor {
    /// The terminal's own colour.
    #[default]
    Reset,
    Black,
    Red,
    Green,
    Yellow,
    Blue,
    White,
    Gray,
    DarkGray,
    LightRed,
    /// A colour given as `0xRRGGBB`.
    Rgb(u32),
}

/// A segment or lap slower than the driver's best.
pub const COLOR_SLOWER: TermColor = TermColor::Yellow;

/// The colour of the fastest of all.
pub open spec fn color_overall_fastest() -> TermColor {
    TermColor::Rgb(0xB11DFB)
}

/// The colour of a driver's personal best.
pub open spec fn color_personal_fastest() -> TermColor {
    TermColor::Rgb(0x33D176)
}

/// The colour of the fastest of all (`#B11DFB`).
pub fn overall_fastest() -> (c: TermColor)
    ensures
        c == color_overall_fastest(),
{
    TermColor::Rgb(0xB11DFB)
}

/// The colour of a driver's personal best (`#33D176`).
pub fn personal_fastest() -> (c: TermColor)
    ensures
        c == color_personal_fastest(),
{
    TermColor::Rgb(0x33D176)
}

/// A segment in the pit lane.
pub const COLOR_IN_PIT: TermColor = TermColor::Blue;

/// An aborted segment.
pub const COLOR_ABORTED: TermColor = TermColor::Red;

/// Soft tyres.
pub const COLOR_SOFT: TermColor = TermColor::Red;

/// Medium tyres.
pub const COLOR_MEDIUM: TermColor = TermColor::Yellow;

/// Hard tyres.
pub const COLOR_HARD: TermColor = TermColor::White;

/// Wet tyres.
pub const COLOR_WET: TermColor = TermColor::Blue;

/// Intermediate tyres.
pub const COLOR_INTERMEDIATE: TermColor = TermColor::Green;

/// Tyres of an unknown compound.
pub const COLOR_UNKNOWN: TermColor = TermColor::DarkGray;

} // verus!
