use vstd::prelude::*;

pub mod args;
pub mod client;
pub mod convert;
pub mod extract;
pub mod json;
pub mod logger;
pub mod merge_patch;
pub mod model;
pub mod parsing;
pub mod text;
pub mod time;
pub mod topic;
pub mod tui;
pub mod url;

verus! {
}
