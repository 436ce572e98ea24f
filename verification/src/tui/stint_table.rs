//! The stint table: one row per driver with the number of stints.
use vstd::prelude::*;

use crate::model::driver::DriverNumber;
use crate::model::stint::Stint;
use crate::text::{self, format_u64};
use crate::tui::color::TermColor;
use crate::tui::timing_table::{self, CellView};

verus! {

/// What the stint table shows of one driver.
#[derive(Clone, Debug, PartialEq, Eq, Default)]
pub struct StintTableData {
    pub driver_tla: String,
    pub driver_number: DriverNumber,
    pub team_color: TermColor,
    pub stints: Vec<Stint>,
}

impl StintTableData {
    /// The position.
    pub fn position_cell(&self, pos: usize) -> (c: CellView)
        ensures
            timing_table::cell(c) == (text::decimal(pos as nat), TermColor::Reset, false),
    {
        CellView { text: format_u64(pos as u64), color: TermColor::Reset, bold: false }
    }

    /// The driver's three letters, bold, in the team's colour.
    pub fn tla_cell(&self) -> (c: CellView)
        ensures
            timing_table::cell(c) == (self.driver_tla@, self.team_color, true),
    {
        CellView { text: self.driver_tla.clone(), color: self.team_color, bold: true }
    }

    /// The racing number.
    pub fn driver_number_cell(&self) -> (c: CellView)
        ensures
            timing_table::cell(c) == (
                text::decimal(self.driver_number.value as nat),
                TermColor::Reset,
                false,
            ),
    {
        CellView {
            text: format_u64(self.driver_number.value as u64),
            color: TermColor::Reset,
            bold: false,
        }
    }

    /// The number of stints so far.
    pub fn stint_cell(&self) -> (c: CellView)
        ensures
            timing_table::cell(c) == (text::decimal(self.stints@.len()), TermColor::Reset, false),
    {
        CellView {
            text: format_u64(self.stints.len() as u64),
            color: TermColor::Reset,
            bold: false,
        }
    }
}

/// The stint table.
#[derive(Clone, Debug, PartialEq, Eq, Default)]
pub struct StintTable {
    pub data: Vec<StintTableData>,
}

impl StintTable {
    /// The rows: position (from 1), driver, number and stints of each
    /// driver, in order.
    pub fn rows(&self) -> (r: Vec<Vec<CellView>>)
        requires
            self.data@.len() < usize::MAX,
        ensures
            r@.len() == self.data@.len(),
            forall|i: int|
                0 <= i < r@.len() ==> {
                    let d = self.data@[i];
                    let row = (#[trigger] r@[i])@;
                    &&& row.len() == 4
                    &&& timing_table::cell(row[0]) == (
                        text::decimal((i + 1) as nat),
                        TermColor::Reset,
                        false,
                    )
                    &&& timing_table::cell(row[1]) == (d.driver_tla@, d.team_color, true)
                    &&& timing_table::cell(row[2]) == (
                        text::decimal(d.driver_number.value as nat),
                        TermColor::Reset,
                        false,
                    )
                    &&& timing_table::cell(row[3]) == (
                        text::decimal(d.stints@.len()),
                        TermColor::Reset,
                        false,
                    )
                },
    {
        let mut out: Vec<Vec<CellView>> = Vec::new();
        let mut i: usize = 0;
        while i < self.data.len()
            invariant
                i <= self.data@.len(),
                self.data@.len() < usize::MAX,
                out@.len() == i,
                forall|k: int|
                    0 <= k < i ==> {
                        let d = self.data@[k];
                        let row = (#[trigger] out@[k])@;
                        &&& row.len() == 4
                        &&& timing_table::cell(row[0]) == (
                            text::decimal((k + 1) as nat),
                            TermColor::Reset,
                            false,
                        )
                        &&& timing_table::cell(row[1]) == (d.driver_tla@, d.team_color, true)
                        &&& timing_table::cell(row[2]) == (
                            text::decimal(d.driver_number.value as nat),
                            TermColor::Reset,
                            false,
                        )
                        &&& timing_table::cell(row[3]) == (
                            text::decimal(d.stints@.len()),
                            TermColor::Reset,
                            false,
                        )
                    },
            decreases self.data@.len() - i,
        {
            let d = &self.data[i];
            let mut row: Vec<CellView> = Vec::new();
            row.push(d.position_cell(i + 1));
            row.push(d.tla_cell());
            row.push(d.driver_number_cell());
            row.push(d.stint_cell());
            out.push(row);
            i = i + 1;
        }
        out
    }
}

} // verus!
