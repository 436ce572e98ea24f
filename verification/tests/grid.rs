use f1_term::convert::session::convert_session_info;
use f1_term::model::driver::{Driver, DriverNumber};
use f1_term::parsing::session_info::{
    RawArchiveStatus, RawCircuit, RawCountry, RawMeeting, RawSessionInfo,
};
use f1_term::model::status::Laps;
use f1_term::model::team::{Team, TeamColor, TeamName};
use f1_term::model::telemetry::TelemetryUpdate;
use f1_term::model::telemetry_state::{ParticipantRef, TelemetryState};
use f1_term::model::timing::{LiveTiming, QualiStats, TimeDiffs};
use f1_term::model::session_info::{QualiPhase, SessionType};

fn driver(n: u8, tla: &str, team: &str, line: Option<u8>) -> (DriverNumber, Driver) {
    let number = DriverNumber { value: n };
    (
        number,
        Driver {
            number,
            first_name: String::new(),
            last_name: String::new(),
            full_name: String::new(),
            broadcast_name: String::new(),
            headshot_url: String::new(),
            line,
            public_id_right: String::new(),
            tla: tla.to_string(),
            team_name: TeamName { value: team.to_string() },
            reference: String::new(),
            position: None,
        },
    )
}

fn team(name: &str, color: u32) -> Team {
    Team { name: TeamName { value: name.to_string() }, color: TeamColor { u32: color } }
}

fn timing(n: u8, position: u8, gap: &str) -> (DriverNumber, LiveTiming) {
    let number = DriverNumber { value: n };
    let mut t = LiveTiming::default();
    t.driver_number = number;
    t.position = position;
    t.time_diffs = TimeDiffs { to_fastest: Some(gap.to_string()), to_position_ahead: None };
    (number, t)
}

fn empty_update() -> TelemetryUpdate {
    TelemetryUpdate {
        session_info: None,
        circuit: None,
        drivers: None,
        teams: None,
        timing_data: None,
        stints: None,
        track_status: None,
        race_control_messages: None,
        weather: None,
        laps: None,
        clock: None,
    }
}

#[test]
fn updates_replace_only_what_they_carry() {
    let mut s = TelemetryState::new();
    assert_eq!(s.update_version, 0);
    let mut u = empty_update();
    u.laps = Some(Laps { current: 1, total: 50 });
    u.teams = Some(vec![team("Ferrari", 0xF91536)]);
    s.apply(u);
    assert_eq!(s.update_version, 1);
    assert_eq!(s.laps, Some(Laps { current: 1, total: 50 }));
    assert_eq!(s.teams.len(), 1);

    let mut u = empty_update();
    u.laps = Some(Laps { current: 2, total: 50 });
    s.apply(u);
    assert_eq!(s.update_version, 2);
    assert_eq!(s.laps, Some(Laps { current: 2, total: 50 }));
    assert_eq!(s.teams, vec![team("Ferrari", 0xF91536)]);

    s.update_version = u64::MAX;
    s.apply(empty_update());
    assert_eq!(s.update_version, 0);
}

#[test]
fn grid_is_in_running_order() {
    let mut s = TelemetryState::new();
    s.drivers = vec![
        driver(1, "VER", "Red Bull Racing", Some(3)),
        driver(16, "LEC", "Ferrari", Some(1)),
        driver(44, "HAM", "Ferrari", Some(2)),
        driver(99, "XXX", "Nobody", Some(4)),
        driver(4, "NOR", "McLaren", None),
        driver(81, "PIA", "McLaren", Some(9)),
    ];
    s.teams = vec![team("Red Bull Racing", 0x3671C6), team("Ferrari", 0xF91536), team("McLaren", 1), team("McLaren", 2)];
    s.timing_data = vec![timing(16, 2, "+0.5"), timing(1, 1, ""), timing(44, 0, "")];
    s.stints = vec![(DriverNumber { value: 44 }, Vec::new())];

    let grid = s.participants();
    let order: Vec<usize> = grid.iter().map(|p| p.driver).collect();
    // VER and LEC by timing position; HAM (position 0) and PIA by line;
    // NOR without line last; the driver without a known team is left out.
    assert_eq!(order, vec![0, 1, 2, 5, 4]);
    assert_eq!(grid[0], ParticipantRef { driver: 0, team: 0, timing: Some(1), stints: None });
    assert_eq!(grid[2], ParticipantRef { driver: 2, team: 1, timing: Some(2), stints: Some(0) });
    assert_eq!(grid[3].team, 2);

    let diffs = s.shown_diffs_of(&grid[1]).unwrap();
    assert_eq!(diffs.to_fastest, Some("+0.5".to_string()));
    assert_eq!(s.shown_diffs_of(&grid[3]), None);
}

#[test]
fn qualifying_gaps_are_those_of_the_phase() {
    let mut s = TelemetryState::new();
    s.drivers = vec![driver(16, "LEC", "Ferrari", Some(1))];
    s.teams = vec![team("Ferrari", 0xF91536)];
    let (n, mut t) = timing(16, 1, "+9.9");
    t.quali_stats = Some(QualiStats {
        cutoff: None,
        knocked_out: None,
        q1_diffs: Some(TimeDiffs { to_fastest: Some("+0.1".into()), to_position_ahead: None }),
        q2_diffs: Some(TimeDiffs { to_fastest: Some("+0.2".into()), to_position_ahead: None }),
        q3_diffs: None,
    });
    s.timing_data = vec![(n, t)];
    let p = s.participants()[0];
    assert_eq!(s.shown_diffs_of(&p).unwrap().to_fastest, Some("+9.9".to_string()));

    let mut u = empty_update();
    u.session_info = Some(convert_session_info(&raw_qualifying(), Some(2)).unwrap());
    s.apply(u);
    assert_eq!(s.info.as_ref().unwrap().type_, SessionType::Qualifying(Some(QualiPhase::Q2)));
    assert_eq!(s.shown_diffs_of(&p).unwrap().to_fastest, Some("+0.2".to_string()));

    let mut u = empty_update();
    u.session_info = Some(convert_session_info(&raw_qualifying(), Some(3)).unwrap());
    s.apply(u);
    assert_eq!(s.shown_diffs_of(&p).unwrap().to_fastest, Some("+9.9".to_string()));
}

fn raw_qualifying() -> RawSessionInfo {
    RawSessionInfo {
        Meeting: RawMeeting {
            Key: 1,
            Name: "Grand Prix".into(),
            OfficialName: "Official".into(),
            Location: "Somewhere".into(),
            Number: 1,
            Country: RawCountry { Key: 1, Code: "C".into(), Name: "Country".into() },
            Circuit: RawCircuit { Key: 1, ShortName: "Circuit".into() },
        },
        SessionStatus: "Started".into(),
        ArchiveStatus: RawArchiveStatus { Status: "Generating".into() },
        Key: 1,
        Type: "Qualifying".into(),
        Number: None,
        Name: "Qualifying".into(),
        StartDate: "2024-07-06T15:00:00".into(),
        EndDate: "2024-07-06T16:00:00".into(),
        GmtOffset: "01:00:00".into(),
        Path: "path".into(),
    }
}
