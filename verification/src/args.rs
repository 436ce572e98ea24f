//! The command line.
use vstd::prelude::*;

use crate::text::str_eq;

verus! {

/// The options of the command line.
#[derive(Clone, Copy, PartialEq, Eq, Structural, Debug)]
pub struct Args {
    /// Whether to replay a recorded session from a local server.
    pub replay: bool,
}

impl Args {
    /// The options that the arguments give (the program's name first, as
    /// `std::env::args` has it): `--replay` anywhere after it asks for a
    /// replay.
    pub fn from_args(args: &Vec<String>) -> (a: Args)
        ensures
            a.replay == exists|i: int| 1 <= i < args@.len() && args@[i]@ == "--replay"@,
    {
        let mut replay = false;
        let mut i: usize = 1;
        while i < args.len()
            invariant
                1 <= i,
                i <= args@.len() || args@.len() == 0,
                replay == exists|k: int| 1 <= k < i && k < args@.len() && args@[k]@ == "--replay"@,
            decreases args@.len() - i,
        {
            if str_eq(args[i].as_str(), "--replay") {
                replay = true;
            }
            i = i + 1;
        }
        Args { replay }
    }
}

} // verus!
