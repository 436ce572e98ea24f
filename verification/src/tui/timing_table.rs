//! The timing table: one row per driver, with position, driver, tyre,
//! status, lap times, gap and sectors.
use vstd::prelude::*;

use crate::model::driver::Driver;
use crate::model::lap_time::{self, LapTime};
use crate::model::stint::{Compound, Stint};
use crate::model::team::Team;
use crate::model::timing::{LiveTiming, Sector, Segment, SegmentStatus};
use crate::text::{self, concat, format_u64, pad_left_string, to_owned_string};
use crate::tui::action::{Action, KeyInput};
use crate::tui::color::{
    self, overall_fastest, personal_fastest, TermColor, COLOR_ABORTED, COLOR_HARD, COLOR_IN_PIT,
    COLOR_INTERMEDIATE, COLOR_MEDIUM, COLOR_SLOWER, COLOR_SOFT, COLOR_UNKNOWN, COLOR_WET,
};
use crate::tui::state::{self, GapMode};

verus! {

/// A table cell: its text, its colour and whether it is bold.
#[derive(Clone, Debug, PartialEq, Eq)]
pub struct CellView {
    pub text: String,
    pub color: TermColor,
    pub bold: bool,
}

/// The view of a cell.
pub open spec fn cell(c: CellView) -> (Seq<char>, TermColor, bool) {
    (c.text@, c.color, c.bold)
}

fn plain(text: &str, color: TermColor) -> (c: CellView)
    ensures
        cell(c) == (text@, color, false),
{
    CellView { text: to_owned_string(text), color, bold: false }
}

/// The view of a sector: everything it holds, its texts as characters.
pub open spec fn sector_view(s: Sector) -> (
    bool,
    bool,
    Seq<Segment>,
    u32,
    bool,
    Option<Seq<char>>,
    Option<Seq<char>>,
) {
    (
        s.overall_fastest,
        s.personal_fastest,
        s.segments@,
        s.status,
        s.stopped,
        opt_text(s.value),
        opt_text(s.previous_value),
    )
}

pub open spec fn opt_text(o: Option<String>) -> Option<Seq<char>> {
    match o {
        Some(s) => Some(s@),
        None => None,
    }
}

pub open spec fn sectors_view(v: Seq<Sector>) -> Seq<(
    bool,
    bool,
    Seq<Segment>,
    u32,
    bool,
    Option<Seq<char>>,
    Option<Seq<char>>,
)> {
    v.map_values(|s: Sector| sector_view(s))
}

/// What the table shows of one driver.
#[derive(Clone, Debug, PartialEq, Eq, Default)]
pub struct TimingTableData {
    pub driver_tla: String,
    pub driver_number: String,
    pub team_color: TermColor,
    pub tire_compound: Option<Compound>,
    pub tire_laps: Option<u8>,
    pub retired: bool,
    pub stopped: bool,
    pub in_pit: bool,
    pub best_lap_time: Option<LapTime>,
    pub best_lap_overall_fastest: bool,
    pub last_lap_time: Option<LapTime>,
    pub last_lap_overall_fastest: bool,
    pub last_lap_personal_fastest: bool,
    pub sectors: Vec<Sector>,
    pub time_diff_to_fastest: Option<String>,
    pub time_diff_to_position_ahead: Option<String>,
}

/// What a row is made from: the driver, the team, the timing and the
/// stints where there are any, and the gaps to show.
pub struct TimingTableDataArgs<'a> {
    pub driver: &'a Driver,
    pub team: &'a Team,
    pub live_timing: Option<&'a LiveTiming>,
    pub stints: Option<&'a Vec<Stint>>,
    pub time_diff_to_fastest: Option<String>,
    pub time_diff_to_position_ahead: Option<String>,
}

/// The last stint, if any.
pub open spec fn last_stint(stints: Option<&Vec<Stint>>) -> Option<Stint> {
    match stints {
        Some(v) => if v@.len() > 0 {
            Some(v@.last())
        } else {
            None
        },
        None => None,
    }
}

/// Whether `d` shows what `args` describe.
pub open spec fn data_from(args: TimingTableDataArgs, d: TimingTableData) -> bool {
    &&& d.driver_tla@ == args.driver.tla@
    &&& d.driver_number@ == text::decimal(args.driver.number.value as nat)
    &&& d.team_color == TermColor::Rgb(args.team.color.u32)
    &&& d.tire_compound == match last_stint(args.stints) {
        Some(s) => Some(s.compound),
        None => None,
    }
    &&& d.tire_laps == match last_stint(args.stints) {
        Some(s) => Some(s.total_laps),
        None => None,
    }
    &&& match args.live_timing {
        Some(lt) => {
            &&& d.retired == lt.retired
            &&& d.stopped == lt.stopped
            &&& d.in_pit == lt.pit_data.in_pit
            &&& d.best_lap_time == lt.lap_data.best_lap.time
            &&& d.best_lap_overall_fastest == lt.lap_data.best_lap.overall_fastest
            &&& d.last_lap_time == lt.lap_data.last_lap.time
            &&& d.last_lap_overall_fastest == lt.lap_data.last_lap.overall_fastest
            &&& d.last_lap_personal_fastest == lt.lap_data.last_lap.personal_fastest
            &&& sectors_view(d.sectors@) == sectors_view(lt.lap_data.last_lap.sectors@)
        },
        None => {
            &&& !d.retired && !d.stopped && !d.in_pit
            &&& d.best_lap_time is None && !d.best_lap_overall_fastest
            &&& d.last_lap_time is None && !d.last_lap_overall_fastest
                && !d.last_lap_personal_fastest
            &&& d.sectors@.len() == 0
        },
    }
    &&& opt_text(d.time_diff_to_fastest) == opt_text(args.time_diff_to_fastest)
    &&& opt_text(d.time_diff_to_position_ahead) == opt_text(args.time_diff_to_position_ahead)
}

fn copy_text(o: &Option<String>) -> (r: Option<String>)
    ensures
        opt_text(r) == opt_text(*o),
{
    match o {
        Some(s) => Some(s.clone()),
        None => None,
    }
}

fn copy_sector(s: &Sector) -> (r: Sector)
    ensures
        sector_view(r) == sector_view(*s),
{
    let mut segments: Vec<Segment> = Vec::new();
    let mut i: usize = 0;
    while i < s.segments.len()
        invariant
            i <= s.segments@.len(),
            segments@ == s.segments@.take(i as int),
        decreases s.segments@.len() - i,
    {
        segments.push(s.segments[i]);
        i = i + 1;
        assert(segments@ =~= s.segments@.take(i as int));
    }
    assert(s.segments@.take(s.segments@.len() as int) =~= s.segments@);
    Sector {
        overall_fastest: s.overall_fastest,
        personal_fastest: s.personal_fastest,
        segments,
        status: s.status,
        stopped: s.stopped,
        value: copy_text(&s.value),
        previous_value: copy_text(&s.previous_value),
    }
}

fn copy_sectors(v: &Vec<Sector>) -> (r: Vec<Sector>)
    ensures
        sectors_view(r@) == sectors_view(v@),
{
    let mut out: Vec<Sector> = Vec::new();
    let mut i: usize = 0;
    while i < v.len()
        invariant
            i <= v@.len(),
            out@.len() == i,
            forall|k: int| 0 <= k < i ==> sector_view(#[trigger] out@[k]) == sector_view(v@[k]),
        decreases v@.len() - i,
    {
        out.push(copy_sector(&v[i]));
        i = i + 1;
    }
    assert(sectors_view(out@) =~= sectors_view(v@));
    out
}

fn empty_cell() -> (c: CellView)
    ensures
        cell(c) == (Seq::<char>::empty(), TermColor::Reset, false),
{
    CellView { text: String::new(), color: TermColor::Reset, bold: false }
}

/// The letter and colour of a compound.
pub open spec fn compound_letter(c: Compound) -> (Seq<char>, TermColor) {
    match c {
        Compound::Soft => ("S"@, COLOR_SOFT),
        Compound::Medium => ("M"@, COLOR_MEDIUM),
        Compound::Hard => ("H"@, COLOR_HARD),
        Compound::Wet => ("W"@, COLOR_WET),
        Compound::Intermediate => ("I"@, COLOR_INTERMEDIATE),
        Compound::Unknown => ("?"@, COLOR_UNKNOWN),
    }
}

/// The colour of a mini-sector.
pub open spec fn segment_color(s: SegmentStatus) -> TermColor {
    match s {
        SegmentStatus::Blank => TermColor::DarkGray,
        SegmentStatus::InPit => COLOR_IN_PIT,
        SegmentStatus::OverallFastest => color::color_overall_fastest(),
        SegmentStatus::PersonalFastest => color::color_personal_fastest(),
        SegmentStatus::Aborted => COLOR_ABORTED,
        SegmentStatus::Normal => COLOR_SLOWER,
        SegmentStatus::Unknown => TermColor::White,
    }
}

/// The text and colour of a sector: its time, else its previous time,
/// else nothing; grey without a time of its own, else by how fast it was.
pub open spec fn sector_cell_spec(s: Sector) -> (Seq<char>, TermColor, bool) {
    let text = match s.value {
        Some(v) => v@,
        None => match s.previous_value {
            Some(p) => p@,
            None => Seq::empty(),
        },
    };
    let c = if s.value is None {
        TermColor::DarkGray
    } else if s.overall_fastest {
        color::color_overall_fastest()
    } else if s.personal_fastest {
        color::color_personal_fastest()
    } else {
        COLOR_SLOWER
    };
    (text, c, false)
}

/// The tyre cell: the compound's letter and the laps on the tyres, in the
/// compound's colour; empty where either is unknown.
pub open spec fn tire_cell_spec(d: TimingTableData) -> (Seq<char>, TermColor, bool) {
    match (d.tire_compound, d.tire_laps) {
        (Some(k), Some(laps)) => (
            compound_letter(k).0 + " ("@ + text::decimal(laps as nat) + ")"@,
            compound_letter(k).1,
            false,
        ),
        _ => (Seq::empty(), TermColor::Reset, false),
    }
}

/// The status cell: `Out` for a car that retired or stopped, `Pit` in the
/// pit, else nothing.
pub open spec fn pit_cell_spec(d: TimingTableData) -> (Seq<char>, TermColor, bool) {
    if d.retired || d.stopped {
        ("Out"@, TermColor::DarkGray, false)
    } else if d.in_pit {
        ("Pit"@, TermColor::Blue, false)
    } else {
        (Seq::empty(), TermColor::Reset, false)
    }
}

/// The best lap cell.
pub open spec fn best_lap_cell_spec(d: TimingTableData) -> (Seq<char>, TermColor, bool) {
    match d.best_lap_time {
        Some(t) => (
            lap_time::format_lap_time(t),
            if d.best_lap_overall_fastest {
                color::color_overall_fastest()
            } else {
                color::color_personal_fastest()
            },
            false,
        ),
        None => ("-:--.---"@, TermColor::Reset, false),
    }
}

/// The last lap cell.
pub open spec fn last_lap_cell_spec(d: TimingTableData) -> (Seq<char>, TermColor, bool) {
    match d.last_lap_time {
        Some(t) => (
            lap_time::format_lap_time(t),
            if d.last_lap_overall_fastest {
                color::color_overall_fastest()
            } else if d.last_lap_personal_fastest {
                color::color_personal_fastest()
            } else {
                COLOR_SLOWER
            },
            false,
        ),
        None => ("-:--.---"@, TermColor::Reset, false),
    }
}

/// The gap cell.
pub open spec fn gap_cell_spec(d: TimingTableData, is_leader: bool, gap_mode: GapMode) -> (
    Seq<char>,
    TermColor,
    bool,
) {
    if is_leader {
        ("------"@, TermColor::Reset, false)
    } else {
        let diff = match gap_mode {
            GapMode::ToFastest => d.time_diff_to_fastest,
            GapMode::ToPositionAhead => d.time_diff_to_position_ahead,
        };
        match diff {
            Some(t) => (t@, TermColor::Reset, false),
            None => (" -.---"@, TermColor::Reset, false),
        }
    }
}

impl TimingTableData {
    /// Takes over what `args` describe.
    pub fn update_from(&mut self, args: &TimingTableDataArgs)
        ensures
            data_from(*args, *final(self)),
    {
        self.driver_tla = args.driver.tla.clone();
        self.driver_number = format_u64(args.driver.number.value as u64);
        self.team_color = TermColor::Rgb(args.team.color.u32);
        let last = match args.stints {
            Some(s) => if s.len() > 0 {
                Some(s[s.len() - 1])
            } else {
                None
            },
            None => None,
        };
        match last {
            Some(stint) => {
                self.tire_compound = Some(stint.compound);
                self.tire_laps = Some(stint.total_laps);
            },
            None => {
                self.tire_compound = None;
                self.tire_laps = None;
            },
        }
        match args.live_timing {
            Some(lt) => {
                self.retired = lt.retired;
                self.stopped = lt.stopped;
                self.in_pit = lt.pit_data.in_pit;
                self.best_lap_time = lt.lap_data.best_lap.time;
                self.best_lap_overall_fastest = lt.lap_data.best_lap.overall_fastest;
                self.last_lap_time = lt.lap_data.last_lap.time;
                self.last_lap_overall_fastest = lt.lap_data.last_lap.overall_fastest;
                self.last_lap_personal_fastest = lt.lap_data.last_lap.personal_fastest;
                self.sectors = copy_sectors(&lt.lap_data.last_lap.sectors);
            },
            None => {
                self.retired = false;
                self.stopped = false;
                self.in_pit = false;
                self.best_lap_time = None;
                self.best_lap_overall_fastest = false;
                self.last_lap_time = None;
                self.last_lap_overall_fastest = false;
                self.last_lap_personal_fastest = false;
                self.sectors = Vec::new();
            },
        }
        self.time_diff_to_fastest = copy_text(&args.time_diff_to_fastest);
        self.time_diff_to_position_ahead = copy_text(&args.time_diff_to_position_ahead);
    }

    /// The position, right-aligned in three columns; grey for a car that
    /// is out.
    pub fn position_cell(&self, pos: usize) -> (c: CellView)
        ensures
            cell(c) == (
                text::pad_left(text::decimal(pos as nat), 3),
                if self.retired || self.stopped {
                    TermColor::DarkGray
                } else {
                    TermColor::Reset
                },
                false,
            ),
    {
        let color = if self.retired || self.stopped {
            TermColor::DarkGray
        } else {
            TermColor::Reset
        };
        let digits = format_u64(pos as u64);
        CellView { text: pad_left_string(digits.as_str(), 3), color, bold: false }
    }

    /// The driver's three letters, bold, in the team's colour.
    pub fn driver_tla_cell(&self) -> (c: CellView)
        ensures
            cell(c) == (self.driver_tla@, self.team_color, true),
    {
        CellView { text: self.driver_tla.clone(), color: self.team_color, bold: true }
    }

    /// The racing number.
    pub fn number_cell(&self) -> (c: CellView)
        ensures
            cell(c) == (self.driver_number@, TermColor::Reset, false),
    {
        CellView { text: self.driver_number.clone(), color: TermColor::Reset, bold: false }
    }

    /// The compound's letter and the laps on the tyres, in the compound's
    /// colour; empty where either is unknown.
    pub fn tire_cell(&self) -> (c: CellView)
        ensures
            cell(c) == tire_cell_spec(*self),
    {
        match (self.tire_compound, self.tire_laps) {
            (Some(k), Some(laps)) => {
                let (letter, color) = match k {
                    Compound::Soft => ("S", COLOR_SOFT),
                    Compound::Medium => ("M", COLOR_MEDIUM),
                    Compound::Hard => ("H", COLOR_HARD),
                    Compound::Wet => ("W", COLOR_WET),
                    Compound::Intermediate => ("I", COLOR_INTERMEDIATE),
                    Compound::Unknown => ("?", COLOR_UNKNOWN),
                };
                let a = concat(letter, " (");
                let b = concat(a.as_str(), format_u64(laps as u64).as_str());
                CellView { text: concat(b.as_str(), ")"), color, bold: false }
            },
            _ => empty_cell(),
        }
    }

    /// `Out`, grey, for a car that retired or stopped; else `Pit`, blue, in
    /// the pit; else nothing.
    pub fn pit_cell(&self) -> (c: CellView)
        ensures
            cell(c) == pit_cell_spec(*self),
    {
        if self.retired || self.stopped {
            plain("Out", TermColor::DarkGray)
        } else if self.in_pit {
            plain("Pit", TermColor::Blue)
        } else {
            empty_cell()
        }
    }

    /// The best lap, purple where it is the fastest of all, else green;
    /// `-:--.---` without one.
    pub fn best_lap_cell(&self) -> (c: CellView)
        ensures
            cell(c) == best_lap_cell_spec(*self),
    {
        match &self.best_lap_time {
            Some(t) => {
                let color = if self.best_lap_overall_fastest {
                    overall_fastest()
                } else {
                    personal_fastest()
                };
                CellView { text: t.to_string(), color, bold: false }
            },
            None => plain("-:--.---", TermColor::Reset),
        }
    }

    /// The last lap, purple where it is the fastest of all, green where it
    /// is the driver's best, else yellow; `-:--.---` without one.
    pub fn last_lap_cell(&self) -> (c: CellView)
        ensures
            cell(c) == last_lap_cell_spec(*self),
    {
        match &self.last_lap_time {
            Some(t) => {
                let color = if self.last_lap_overall_fastest {
                    overall_fastest()
                } else if self.last_lap_personal_fastest {
                    personal_fastest()
                } else {
                    COLOR_SLOWER
                };
                CellView { text: t.to_string(), color, bold: false }
            },
            None => plain("-:--.---", TermColor::Reset),
        }
    }

    /// The gap the mode shows: `------` for the leader, ` -.---` where
    /// there is none.
    pub fn gap_cell(&self, is_leader: bool, gap_mode: GapMode) -> (c: CellView)
        ensures
            cell(c) == gap_cell_spec(*self, is_leader, gap_mode),
    {
        if is_leader {
            plain("------", TermColor::Reset)
        } else {
            let diff = match gap_mode {
                GapMode::ToFastest => &self.time_diff_to_fastest,
                GapMode::ToPositionAhead => &self.time_diff_to_position_ahead,
            };
            match diff {
                Some(t) => plain(t.as_str(), TermColor::Reset),
                None => plain(" -.---", TermColor::Reset),
            }
        }
    }

    /// Sector `sector` of the last lap (see `sector_cell_spec`); empty where
    /// there is no such sector.
    pub fn sector_cell(&self, sector: usize) -> (c: CellView)
        ensures
            cell(c) == if sector < self.sectors@.len() {
                sector_cell_spec(self.sectors@[sector as int])
            } else {
                (Seq::empty(), TermColor::Reset, false)
            },
    {
        if sector < self.sectors.len() {
            sector_cell(&self.sectors[sector])
        } else {
            empty_cell()
        }
    }

    /// The colours of the mini-sectors of sector `sector`; none where there
    /// is no such sector.
    pub fn segment_cell(&self, sector: usize) -> (r: Vec<TermColor>)
        ensures
            r@ == if sector < self.sectors@.len() {
                self.sectors@[sector as int].segments@.map_values(
                    |s: Segment| segment_color(s.status),
                )
            } else {
                Seq::empty()
            },
    {
        if sector < self.sectors.len() {
            segment_colors(&self.sectors[sector].segments)
        } else {
            Vec::new()
        }
    }
}

/// The cell of a sector (see `sector_cell_spec`).
pub fn sector_cell(sector: &Sector) -> (c: CellView)
    ensures
        cell(c) == sector_cell_spec(*sector),
{
    let text = match &sector.value {
        Some(v) => v.clone(),
        None => match &sector.previous_value {
            Some(p) => p.clone(),
            None => String::new(),
        },
    };
    let color = if sector.value.is_none() {
        TermColor::DarkGray
    } else if sector.overall_fastest {
        overall_fastest()
    } else if sector.personal_fastest {
        personal_fastest()
    } else {
        COLOR_SLOWER
    };
    CellView { text, color, bold: false }
}

/// The colour of a mini-sector.
pub fn segment_status_color(s: SegmentStatus) -> (c: TermColor)
    ensures
        c == segment_color(s),
{
    match s {
        SegmentStatus::Blank => TermColor::DarkGray,
        SegmentStatus::InPit => COLOR_IN_PIT,
        SegmentStatus::OverallFastest => overall_fastest(),
        SegmentStatus::PersonalFastest => personal_fastest(),
        SegmentStatus::Aborted => COLOR_ABORTED,
        SegmentStatus::Normal => COLOR_SLOWER,
        SegmentStatus::Unknown => TermColor::White,
    }
}

/// The colours of mini-sectors, in order.
pub fn segment_colors(segments: &Vec<Segment>) -> (r: Vec<TermColor>)
    ensures
        r@ == segments@.map_values(|s: Segment| segment_color(s.status)),
{
    let mut out: Vec<TermColor> = Vec::new();
    let mut i: usize = 0;
    while i < segments.len()
        invariant
            i <= segments@.len(),
            out@ == segments@.take(i as int).map_values(|s: Segment| segment_color(s.status)),
        decreases segments@.len() - i,
    {
        out.push(segment_status_color(segments[i].status));
        i = i + 1;
        assert(out@ =~= segments@.take(i as int).map_values(|s: Segment| segment_color(s.status)));
    }
    assert(segments@.take(segments@.len() as int) =~= segments@);
    out
}

/// The timing table: its rows, the selected row and the gap it shows.
#[derive(Debug, Default)]
pub struct TimingTable {
    pub items: Vec<TimingTableData>,
    pub selected: Option<usize>,
    pub gap_mode: GapMode,
}

/// Whether moving the selection cannot step outside the rows: a selected
/// row means there is a row.
pub open spec fn selection_ok(t: TimingTable) -> bool {
    t.selected is Some ==> t.items@.len() > 0
}

/// The row after row `i` of `n`, from the last back to the first.
pub open spec fn next_row(i: int, n: int) -> int {
    if i >= n - 1 {
        0
    } else {
        i + 1
    }
}

/// The row before row `i` of `n`, from the first back to the last.
pub open spec fn previous_row(i: int, n: int) -> int {
    if i == 0 {
        n - 1
    } else {
        i - 1
    }
}

/// Moving down then up, or up then down, comes back to the same row.
pub proof fn lemma_previous_undoes_next(i: int, n: int)
    requires
        0 <= i < n,
    ensures
        previous_row(next_row(i, n), n) == i,
        next_row(previous_row(i, n), n) == i,
        0 <= next_row(i, n) < n,
        0 <= previous_row(i, n) < n,
{
}

impl TimingTable {
    /// Selects the next row, from the last back to the first; the first
    /// where none is selected.
    pub fn next(&mut self)
        requires
            selection_ok(*old(self)),
        ensures
            final(self).selected == Some(
                match old(self).selected {
                    Some(i) => next_row(i as int, old(self).items@.len() as int) as usize,
                    None => 0usize,
                },
            ),
            final(self).items == old(self).items,
            final(self).gap_mode == old(self).gap_mode,
    {
        let i = match self.selected {
            Some(i) => if i >= self.items.len() - 1 {
                0
            } else {
                i + 1
            },
            None => 0,
        };
        self.selected = Some(i);
    }

    /// Selects the previous row, from the first back to the last; the first
    /// where none is selected.
    pub fn previous(&mut self)
        requires
            selection_ok(*old(self)),
        ensures
            final(self).selected == Some(
                match old(self).selected {
                    Some(i) => previous_row(i as int, old(self).items@.len() as int) as usize,
                    None => 0usize,
                },
            ),
            final(self).items == old(self).items,
            final(self).gap_mode == old(self).gap_mode,
    {
        let i = match self.selected {
            Some(i) => if i == 0 {
                self.items.len() - 1
            } else {
                i - 1
            },
            None => 0,
        };
        self.selected = Some(i);
    }

    /// Selects no row.
    pub fn deselect(&mut self)
        ensures
            final(self).selected is None,
            final(self).items == old(self).items,
            final(self).gap_mode == old(self).gap_mode,
    {
        self.selected = None;
    }

    /// The gap column's heading.
    pub fn gap_heading(&self) -> (s: String)
        ensures
            s@ == state::gap_label(self.gap_mode),
    {
        self.gap_mode.to_string()
    }

    /// A key: down or `j` selects the next row, up or `k` the previous, `g`
    /// switches the gap, escape deselects; each asks for a render. Other
    /// keys do nothing.
    pub fn handle_key(&mut self, key: KeyInput) -> (r: Option<Action>)
        requires
            selection_ok(*old(self)),
        ensures
            match key {
                KeyInput::Down | KeyInput::Char('j') | KeyInput::Up | KeyInput::Char('k')
                | KeyInput::Esc => r == Some(Action::Render) && final(self).gap_mode == old(
                    self,
                ).gap_mode,
                KeyInput::Char('g') => r == Some(Action::Render) && final(self).gap_mode
                    == state::toggled(old(self).gap_mode) && final(self).selected == old(
                    self,
                ).selected,
                _ => r is None && final(self).selected == old(self).selected && final(self).gap_mode
                    == old(self).gap_mode,
            },
            key matches KeyInput::Esc ==> final(self).selected is None,
            (key matches KeyInput::Down || key == KeyInput::Char('j')) ==> final(self).selected
                == Some(
                match old(self).selected {
                    Some(i) => next_row(i as int, old(self).items@.len() as int) as usize,
                    None => 0usize,
                },
            ),
            (key matches KeyInput::Up || key == KeyInput::Char('k')) ==> final(self).selected
                == Some(
                match old(self).selected {
                    Some(i) => previous_row(i as int, old(self).items@.len() as int) as usize,
                    None => 0usize,
                },
            ),
            final(self).items == old(self).items,
    {
        match key {
            KeyInput::Down | KeyInput::Char('j') => {
                self.next();
                Some(Action::Render)
            },
            KeyInput::Up | KeyInput::Char('k') => {
                self.previous();
                Some(Action::Render)
            },
            KeyInput::Char('g') => {
                self.gap_mode.toggle();
                Some(Action::Render)
            },
            KeyInput::Esc => {
                self.deselect();
                Some(Action::Render)
            },
            _ => None,
        }
    }
}

/// A row of the timing table: its text cells (position, driver, number,
/// tyre, status, best lap, gap, last lap and the three sectors) and the
/// mini-sector colours of the three sectors.
#[derive(Clone, Debug, PartialEq, Eq)]
pub struct TimingRow {
    pub cells: Vec<CellView>,
    pub segments: Vec<Vec<TermColor>>,
}

/// Whether `r` is the row of `d` at index `i`, with gap mode `m`.
pub open spec fn row_of(d: TimingTableData, i: int, m: GapMode, r: TimingRow) -> bool {
    &&& r.cells@.len() == 11
    &&& r.segments@.len() == 3
    &&& cell(r.cells@[0]) == (
        text::pad_left(text::decimal((i + 1) as nat), 3),
        if d.retired || d.stopped {
            TermColor::DarkGray
        } else {
            TermColor::Reset
        },
        false,
    )
    &&& cell(r.cells@[1]) == (d.driver_tla@, d.team_color, true)
    &&& cell(r.cells@[2]) == (d.driver_number@, TermColor::Reset, false)
    &&& forall|k: int|
        0 <= k < 3 ==> cell(#[trigger] r.cells@[8 + k]) == if k < d.sectors@.len() {
            sector_cell_spec(d.sectors@[k])
        } else {
            (Seq::empty(), TermColor::Reset, false)
        }
    &&& forall|k: int|
        0 <= k < 3 ==> (#[trigger] r.segments@[k])@ == if k < d.sectors@.len() {
            d.sectors@[k].segments@.map_values(|s: Segment| segment_color(s.status))
        } else {
            Seq::empty()
        }
}

impl TimingTable {
    /// The rows, in order; only the first row is the leader's.
    pub fn rows(&self) -> (r: Vec<TimingRow>)
        requires
            self.items@.len() < usize::MAX,
        ensures
            r@.len() == self.items@.len(),
            forall|i: int|
                0 <= i < r@.len() ==> row_of(self.items@[i], i, self.gap_mode, #[trigger] r@[i]),
            forall|i: int|
                0 <= i < r@.len() ==> {
                    let d = self.items@[i];
                    let cs = (#[trigger] r@[i]).cells@;
                    &&& cell(cs[3]) == tire_cell_spec(d)
                    &&& cell(cs[4]) == pit_cell_spec(d)
                    &&& cell(cs[5]) == best_lap_cell_spec(d)
                    &&& cell(cs[6]) == gap_cell_spec(d, i == 0, self.gap_mode)
                    &&& cell(cs[7]) == last_lap_cell_spec(d)
                },
    {
        let mut out: Vec<TimingRow> = Vec::new();
        let mut i: usize = 0;
        while i < self.items.len()
            invariant
                i <= self.items@.len(),
                self.items@.len() < usize::MAX,
                out@.len() == i,
                forall|k: int|
                    0 <= k < i ==> row_of(self.items@[k], k, self.gap_mode, #[trigger] out@[k]),
                forall|k: int|
                    0 <= k < i ==> {
                        let d = self.items@[k];
                        let cs = (#[trigger] out@[k]).cells@;
                        &&& cell(cs[3]) == tire_cell_spec(d)
                        &&& cell(cs[4]) == pit_cell_spec(d)
                        &&& cell(cs[5]) == best_lap_cell_spec(d)
                        &&& cell(cs[6]) == gap_cell_spec(d, k == 0, self.gap_mode)
                        &&& cell(cs[7]) == last_lap_cell_spec(d)
                    },
            decreases self.items@.len() - i,
        {
            let d = &self.items[i];
            let mut cells: Vec<CellView> = Vec::new();
            cells.push(d.position_cell(i + 1));
            cells.push(d.driver_tla_cell());
            cells.push(d.number_cell());
            cells.push(d.tire_cell());
            cells.push(d.pit_cell());
            cells.push(d.best_lap_cell());
            cells.push(d.gap_cell(i == 0, self.gap_mode));
            cells.push(d.last_lap_cell());
            cells.push(d.sector_cell(0));
            cells.push(d.sector_cell(1));
            cells.push(d.sector_cell(2));
            let mut segments: Vec<Vec<TermColor>> = Vec::new();
            segments.push(d.segment_cell(0));
            segments.push(d.segment_cell(1));
            segments.push(d.segment_cell(2));
            let row = TimingRow { cells, segments };
            assert(row_of(*d, i as int, self.gap_mode, row)) by {
                assert forall|k: int| 0 <= k < 3 implies cell(#[trigger] row.cells@[8 + k]) == if k
                    < d.sectors@.len() {
                    sector_cell_spec(d.sectors@[k])
                } else {
                    (Seq::empty(), TermColor::Reset, false)
                } by {
                    if k == 0 {
                    } else if k == 1 {
                    } else {
                    }
                }
                assert forall|k: int| 0 <= k < 3 implies (#[trigger] row.segments@[k])@ == if k
                    < d.sectors@.len() {
                    d.sectors@[k].segments@.map_values(|s: Segment| segment_color(s.status))
                } else {
                    Seq::empty()
                } by {
                    if k == 0 {
                    } else if k == 1 {
                    } else {
                    }
                }
            }
            out.push(row);
            i = i + 1;
        }
        out
    }
}

} // verus!
