//! The state of the interface.
use vstd::prelude::*;

use crate::text::to_owned_string;

verus! {

/// Which gap the timing table shows.
#[derive(Clone, Copy, PartialEq, Eq, Structural, Debug, Default)]
pub enum GapMode {
    /// The gap to the fastest car (the leader).
    #[default]
    ToFastest,
    /// The interval to the car ahead.
    ToPositionAhead,
}

/// The other gap.
pub open spec fn toggled(m: GapMode) -> GapMode {
    match m {
        GapMode::ToFastest => GapMode::ToPositionAhead,
        GapMode::ToPositionAhead => GapMode::ToFastest,
    }
}

/// The column heading of a gap: `Gap` or `Int`.
pub open spec fn gap_label(m: GapMode) -> Seq<char> {
    match m {
        GapMode::ToFastest => "Gap"@,
        GapMode::ToPositionAhead => "Int"@,
    }
}

impl GapMode {
    /// Switches to the other gap.
    pub fn toggle(&mut self)
        ensures
            *final(self) == toggled(*old(self)),
    {
        *self = match self {
            GapMode::ToFastest => GapMode::ToPositionAhead,
            GapMode::ToPositionAhead => GapMode::ToFastest,
        };
    }

    /// The column heading: `Gap` for the gap to the fastest, `Int` for the
    /// interval to the car ahead.
    pub fn to_string(&self) -> (s: String)
        ensures
            s@ == gap_label(*self),
    {
        match self {
            GapMode::ToFastest => to_owned_string("Gap"),
            GapMode::ToPositionAhead => to_owned_string("Int"),
        }
    }
}

/// Toggling twice gives back the same gap, and toggling always changes it.
pub proof fn lemma_toggle_involution(m: GapMode)
    ensures
        toggled(toggled(m)) == m,
        toggled(m) != m,
{
}

/// The two gaps have different headings.
pub proof fn lemma_gap_labels_differ()
    ensures
        gap_label(GapMode::ToFastest) != gap_label(GapMode::ToPositionAhead),
{
    reveal_strlit("Gap");
    reveal_strlit("Int");
    assert("Gap"@[0] != "Int"@[0]);
}

/// The state of the interface.
#[derive(Clone, Copy, PartialEq, Eq, Structural, Debug)]
pub struct AppState {
    pub exit: bool,
    pub gap_mode: GapMode,
}

impl AppState {
    /// The state at start: running, showing the gap to the fastest.
    pub fn new() -> (s: AppState)
        ensures
            !s.exit,
            s.gap_mode == GapMode::ToFastest,
    {
        AppState { exit: false, gap_mode: GapMode::ToFastest }
    }
}

impl Default for AppState {
    fn default() -> (s: AppState)
        ensures
            !s.exit,
            s.gap_mode == GapMode::ToFastest,
    {
        AppState::new()
    }
}

} // verus!
