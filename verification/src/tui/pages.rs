//! The pages of the interface.
use vstd::prelude::*;

verus! {

/// The page on screen.
#[derive(Clone, Copy, PartialEq, Eq, Structural, Debug, Default)]
pub enum ActivePage {
    #[default]
    LiveTiming,
    Stints,
}

} // verus!
