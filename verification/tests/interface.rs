use f1_term::model::circuit::{CircuitScope, CircuitStatus};
use f1_term::model::driver::DriverNumber;
use f1_term::model::lap_time::LapTime;
use f1_term::model::stint::{Compound, Stint};
use f1_term::tui::action::{Action, KeyInput};
use f1_term::tui::circuit_canvas::{segment_colors, CircuitCanvas};
use f1_term::tui::color::{TermColor, COLOR_SLOWER};
use f1_term::tui::help_popup::{help_lines, HelpPopup};
use f1_term::tui::state::GapMode;
use f1_term::tui::stint_table::StintTableData;
use f1_term::tui::timing_table::{CellView, TimingTable, TimingTableData};

fn cell(text: &str, color: TermColor) -> CellView {
    CellView { text: text.to_string(), color, bold: false }
}

const COLOR_OVERALL_FASTEST: TermColor = TermColor::Rgb(0xB11DFB);
const COLOR_PERSONAL_FASTEST: TermColor = TermColor::Rgb(0x33D176);

#[test]
fn test_gap_mode_toggle() {
    let mut mode = GapMode::ToFastest;
    assert_eq!(mode.to_string(), "Gap");

    mode.toggle();
    assert_eq!(mode, GapMode::ToPositionAhead);
    assert_eq!(mode.to_string(), "Int");

    mode.toggle();
    assert_eq!(mode, GapMode::ToFastest);
}

#[test]
fn test_pit_cell() {
    let mut data = TimingTableData::default();

    assert_eq!(data.pit_cell(), cell("", TermColor::Reset));

    data.in_pit = true;
    assert_eq!(data.pit_cell(), cell("Pit", TermColor::Blue));

    data.retired = true;
    assert_eq!(data.pit_cell(), cell("Out", TermColor::DarkGray));
}

#[test]
fn test_tire_cell() {
    let mut data = TimingTableData::default();
    assert_eq!(data.tire_cell(), cell("", TermColor::Reset));

    data.tire_compound = Some(Compound::Soft);
    data.tire_laps = Some(5);
    assert_eq!(data.tire_cell(), cell("S (5)", TermColor::Red));

    data.tire_compound = Some(Compound::Medium);
    data.tire_laps = Some(12);
    assert_eq!(data.tire_cell(), cell("M (12)", TermColor::Yellow));
}

#[test]
fn test_gap_cell() {
    let mut data = TimingTableData {
        time_diff_to_fastest: Some("+1.234".to_string()),
        time_diff_to_position_ahead: Some("+0.500".to_string()),
        ..Default::default()
    };

    assert_eq!(data.gap_cell(true, GapMode::ToFastest), cell("------", TermColor::Reset));
    assert_eq!(data.gap_cell(true, GapMode::ToPositionAhead), cell("------", TermColor::Reset));

    assert_eq!(data.gap_cell(false, GapMode::ToFastest), cell("+1.234", TermColor::Reset));

    assert_eq!(data.gap_cell(false, GapMode::ToPositionAhead), cell("+0.500", TermColor::Reset));

    data.time_diff_to_fastest = None;
    assert_eq!(data.gap_cell(false, GapMode::ToFastest), cell(" -.---", TermColor::Reset));
}

#[test]
fn test_lap_time_cells() {
    let mut data = TimingTableData::default();

    assert_eq!(data.best_lap_cell(), cell("-:--.---", TermColor::default()));
    assert_eq!(data.last_lap_cell(), cell("-:--.---", TermColor::default()));

    data.best_lap_time = Some(LapTime::new(1, 20, 0));
    data.last_lap_time = Some(LapTime::new(1, 21, 0));

    assert_eq!(data.best_lap_cell(), cell("1:20.000", COLOR_PERSONAL_FASTEST));

    assert_eq!(data.last_lap_cell(), cell("1:21.000", COLOR_SLOWER));

    data.last_lap_personal_fastest = true;
    assert_eq!(data.last_lap_cell(), cell("1:21.000", COLOR_PERSONAL_FASTEST));

    data.last_lap_overall_fastest = true;
    assert_eq!(data.last_lap_cell(), cell("1:21.000", COLOR_OVERALL_FASTEST));
}

fn stint_data() -> StintTableData {
    StintTableData {
        driver_tla: "ALO".to_string(),
        driver_number: DriverNumber { value: 14 },
        team_color: TermColor::Red,
        stints: vec![Stint {
            compound: Compound::Soft,
            lap_flags: 1,
            new: false,
            start_laps: 8,
            total_laps: 10,
            tires_not_changed: 2,
        }],
    }
}

#[test]
fn test_position_cell() {
    let data = stint_data();
    let c = data.position_cell(1);
    assert_eq!(c, cell("1", TermColor::Reset));
}

#[test]
fn test_driver_number_cell() {
    let data = stint_data();
    let c = data.driver_number_cell();
    assert_eq!(c, cell("14", TermColor::Reset));
}

#[test]
fn test_tla_cell() {
    let data = stint_data();
    let c = data.tla_cell();
    assert_eq!(c, CellView { text: "ALO".to_string(), color: TermColor::Red, bold: true });
}

#[test]
fn stint_cell_counts_stints() {
    let data = stint_data();
    assert_eq!(data.stint_cell(), cell("1", TermColor::Reset));
}

#[test]
fn timing_position_cell_is_right_aligned() {
    let mut data = TimingTableData::default();
    assert_eq!(data.position_cell(7), cell("  7", TermColor::Reset));
    assert_eq!(data.position_cell(1234), cell("1234", TermColor::Reset));
    data.stopped = true;
    assert_eq!(data.position_cell(12), cell(" 12", TermColor::DarkGray));
}

#[test]
fn table_selection_wraps_around() {
    let mut t = TimingTable::default();
    t.items = vec![TimingTableData::default(), TimingTableData::default(), TimingTableData::default()];
    t.next();
    assert_eq!(t.selected, Some(0));
    t.previous();
    assert_eq!(t.selected, Some(2));
    t.next();
    assert_eq!(t.selected, Some(0));
    t.next();
    t.next();
    assert_eq!(t.selected, Some(2));
    t.deselect();
    assert_eq!(t.selected, None);
}

#[test]
fn table_keys() {
    let mut t = TimingTable::default();
    t.items = vec![TimingTableData::default(), TimingTableData::default()];
    assert_eq!(t.handle_key(KeyInput::Char('j')), Some(Action::Render));
    assert_eq!(t.selected, Some(0));
    assert_eq!(t.handle_key(KeyInput::Down), Some(Action::Render));
    assert_eq!(t.selected, Some(1));
    assert_eq!(t.handle_key(KeyInput::Char('g')), Some(Action::Render));
    assert_eq!(t.gap_mode, GapMode::ToPositionAhead);
    assert_eq!(t.gap_heading(), "Int");
    assert_eq!(t.handle_key(KeyInput::Esc), Some(Action::Render));
    assert_eq!(t.selected, None);
    assert_eq!(t.handle_key(KeyInput::Char('x')), None);
}

#[test]
fn help_popup_keys() {
    let mut p = HelpPopup::default();
    assert_eq!(p.handle_key(KeyInput::Esc), None);
    assert_eq!(p.handle_key(KeyInput::Char('?')), Some(Action::Render));
    assert!(p.visible);
    assert_eq!(p.handle_key(KeyInput::Esc), Some(Action::Render));
    assert!(!p.visible);
    assert_eq!(p.handle_key(KeyInput::Char('a')), None);
}

#[test]
fn help_lines_are_aligned() {
    let lines = help_lines();
    assert_eq!(lines.len(), 12);
    assert_eq!(lines[0][0].text, "    Q  ");
    assert_eq!(lines[0][2].text, "Quit");
    assert_eq!(lines[4][0].text, "    ←  ");
    assert!(lines[6].is_empty());
    assert_eq!(lines[7][0].text, "     ▮ ");
    assert_eq!(lines[7][0].color, COLOR_SLOWER);
    assert_eq!(lines[11][2].text, "Aborted");
}

#[test]
fn render_triggers() {
    assert!(!Action::Tick.should_trigger_render());
    assert!(Action::Render.should_trigger_render());
    assert!(Action::Resize(1, 2).should_trigger_render());
    assert!(!Action::KeyPress(KeyInput::Esc).should_trigger_render());
    assert!(Action::StateUpdate.should_trigger_render());
    assert!(!Action::Quit.should_trigger_render());
}

#[test]
fn circuit_outline_colours() {
    let minis = vec![(0usize, 2usize), (2, 4), (4, 6)];
    let yellow = CircuitStatus::Yellow(CircuitScope::Sectors(vec![2]));
    assert_eq!(
        segment_colors(6, &yellow, Some(&minis)),
        vec![TermColor::White, TermColor::White, TermColor::Yellow, TermColor::Yellow, TermColor::White]
    );
    assert_eq!(segment_colors(3, &yellow, None), vec![TermColor::White, TermColor::White]);
    assert_eq!(segment_colors(3, &CircuitStatus::Red, None), vec![TermColor::Red, TermColor::Red]);
    assert_eq!(
        segment_colors(2, &CircuitStatus::Yellow(CircuitScope::Full), None),
        vec![TermColor::Yellow]
    );
    assert!(segment_colors(0, &CircuitStatus::Clear, None).is_empty());
    assert!(segment_colors(1, &CircuitStatus::Clear, None).is_empty());

    let mut canvas = CircuitCanvas::default();
    assert_eq!(canvas.handle_key(KeyInput::Char('x')), Some(Action::Render));
    assert!(!canvas.show_corners);
    assert_eq!(canvas.handle_key(KeyInput::Char('n')), Some(Action::Render));
    assert!(canvas.show_corners);
}
