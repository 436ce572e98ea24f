//! The bottom bar: how to get help.
use vstd::prelude::*;

use crate::text::to_owned_string;
use crate::tui::color::TermColor;

verus! {

/// A piece of text with its look.
#[derive(Clone, Debug, PartialEq, Eq)]
pub struct SpanView {
    pub text: String,
    pub color: TermColor,
    pub bold: bool,
    pub dim: bool,
}

/// The bottom bar.
#[derive(Clone, Copy, Debug, PartialEq, Eq, Default)]
pub struct BottomBar;

impl BottomBar {
    /// What the bar shows, right-aligned: `<?>` in bold red, then ` Help  `
    /// dimmed.
    pub fn spans(&self) -> (r: Vec<SpanView>)
        ensures
            r@.len() == 2,
            r@[0].text@ == "<?>"@ && r@[0].color == TermColor::Red && r@[0].bold && !r@[0].dim,
            r@[1].text@ == " Help  "@ && r@[1].color == TermColor::Reset && !r@[1].bold
                && r@[1].dim,
    {
        let mut r: Vec<SpanView> = Vec::new();
        r.push(SpanView { text: to_owned_string("<?>"), color: TermColor::Red, bold: true, dim: false });
        r.push(
            SpanView {
                text: to_owned_string(" Help  "),
                color: TermColor::Reset,
                bold: false,
                dim: true,
            },
        );
        r
    }
}

} // verus!
