//! The circuit map: the colour of each piece of the track outline under the
//! flags, and the corner numbers that `n` shows or hides. The outline's
//! coordinates are the application's to draw.
use vstd::prelude::*;

use crate::convert::circuit::{status_view, FlagView};
use crate::model::circuit::{CircuitScope, CircuitStatus};
use crate::tui::action::{Action, KeyInput};
use crate::tui::color::TermColor;

verus! {

/// Whether index `i` lies in the half-open range `r` (`r.0 <= i < r.1`).
pub open spec fn in_range(r: (usize, usize), i: int) -> bool {
    r.0 <= i && i < r.1
}

/// Whether sector `s` (counted from 1; 0 is taken as 1) covers the piece
/// `i` of the outline: the mini-sector range of index `s - 1` exists and
/// holds `i`.
pub open spec fn sector_covers(mini_sectors: Option<Seq<(usize, usize)>>, s: u8, i: int) -> bool {
    match mini_sectors {
        Some(m) => {
            let idx: int = if s == 0 {
                0
            } else {
                s - 1
            };
            idx < m.len() && in_range(m[idx], i)
        },
        None => false,
    }
}

/// Whether one of the sectors `s` covers piece `i`.
pub open spec fn any_sector_covers(s: Seq<u8>, mini_sectors: Option<Seq<(usize, usize)>>, i: int) -> bool {
    exists|k: int| 0 <= k < s.len() && #[trigger] sector_covers(mini_sectors, s[k], i)
}

/// The colour of piece `i` of the outline: white when clear, red under a
/// red flag, yellow under a full yellow, and under sector yellows yellow
/// where one of the sectors covers it, white elsewhere.
pub open spec fn piece_color(f: FlagView, mini_sectors: Option<Seq<(usize, usize)>>, i: int) -> TermColor {
    match f {
        FlagView::Clear => TermColor::White,
        FlagView::Red => TermColor::Red,
        FlagView::YellowFull => TermColor::Yellow,
        FlagView::YellowSectors(s) => if any_sector_covers(s, mini_sectors, i) {
            TermColor::Yellow
        } else {
            TermColor::White
        },
    }
}

/// The mini-sector ranges, as a sequence.
pub open spec fn ranges_view(m: Option<&Vec<(usize, usize)>>) -> Option<Seq<(usize, usize)>> {
    match m {
        Some(v) => Some(v@),
        None => None,
    }
}

fn covers(mini_sectors: Option<&Vec<(usize, usize)>>, s: u8, i: usize) -> (r: bool)
    ensures
        r == sector_covers(ranges_view(mini_sectors), s, i as int),
{
    match mini_sectors {
        Some(m) => {
            let idx: usize = if s == 0 {
                0
            } else {
                (s - 1) as usize
            };
            idx < m.len() && m[idx].0 <= i && i < m[idx].1
        },
        None => false,
    }
}

/// The colour of piece `i` of the outline (see `piece_color`).
pub fn segment_color(i: usize, status: &CircuitStatus, mini_sectors: Option<&Vec<(usize, usize)>>) -> (c:
    TermColor)
    ensures
        c == piece_color(status_view(*status), ranges_view(mini_sectors), i as int),
{
    match status {
        CircuitStatus::Clear => TermColor::White,
        CircuitStatus::Red => TermColor::Red,
        CircuitStatus::Yellow(CircuitScope::Full) => TermColor::Yellow,
        CircuitStatus::Yellow(CircuitScope::Sectors(sectors)) => {
            let mut k: usize = 0;
            while k < sectors.len()
                invariant
                    k <= sectors@.len(),
                    status_view(*status) == FlagView::YellowSectors(sectors@),
                    forall|j: int|
                        0 <= j < k ==> !sector_covers(ranges_view(mini_sectors), sectors@[j], i as int),
                decreases sectors@.len() - k,
            {
                if covers(mini_sectors, sectors[k], i) {
                    assert(sector_covers(ranges_view(mini_sectors), sectors@[k as int], i as int));
                    assert(any_sector_covers(sectors@, ranges_view(mini_sectors), i as int));
                    return TermColor::Yellow;
                }
                k = k + 1;
            }
            TermColor::White
        },
    }
}

/// The colours of the pieces between consecutive points of an outline of
/// `n_points` points: `n_points - 1` pieces, none for fewer than two points.
pub fn segment_colors(n_points: usize, status: &CircuitStatus, mini_sectors: Option<
    &Vec<(usize, usize)>,
>) -> (r: Vec<TermColor>)
    ensures
        r@.len() == if n_points == 0 {
            0
        } else {
            n_points - 1
        },
        forall|i: int|
            0 <= i < r@.len() ==> #[trigger] r@[i] == piece_color(
                status_view(*status),
                ranges_view(mini_sectors),
                i,
            ),
{
    let n: usize = if n_points == 0 {
        0
    } else {
        n_points - 1
    };
    let mut out: Vec<TermColor> = Vec::new();
    let mut i: usize = 0;
    while i < n
        invariant
            i <= n,
            out@.len() == i,
            forall|j: int|
                0 <= j < i ==> #[trigger] out@[j] == piece_color(
                    status_view(*status),
                    ranges_view(mini_sectors),
                    j,
                ),
        decreases n - i,
    {
        out.push(segment_color(i, status, mini_sectors));
        i = i + 1;
    }
    out
}

/// The circuit map's own state: whether the corner numbers are shown.
#[derive(Clone, Copy, PartialEq, Eq, Structural, Debug, Default)]
pub struct CircuitCanvas {
    pub show_corners: bool,
}

impl CircuitCanvas {
    /// Shows the corner numbers where they are hidden, hides them where
    /// they are shown.
    pub fn toggle_show_curve_numbers(&mut self)
        ensures
            final(self).show_corners == !old(self).show_corners,
    {
        self.show_corners = !self.show_corners;
    }

    /// A key: `n` shows or hides the corner numbers; every key asks for a
    /// render.
    pub fn handle_key(&mut self, key: KeyInput) -> (r: Option<Action>)
        ensures
            r == Some(Action::Render),
            final(self).show_corners == if key == KeyInput::Char('n') {
                !old(self).show_corners
            } else {
                old(self).show_corners
            },
    {
        if key == KeyInput::Char('n') {
            self.toggle_show_curve_numbers();
        }
        Some(Action::Render)
    }
}

} // verus!
