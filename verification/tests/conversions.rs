use f1_term::convert::circuit::{compute_circuit_status, convert_circuit};
use f1_term::convert::clock::convert_clock;
use f1_term::convert::driver::convert_drivers;
use f1_term::convert::lap_count::convert_lap_count;
use f1_term::convert::race_control_message::convert_race_control_messages;
use f1_term::convert::stint::convert_stints;
use f1_term::convert::timing::convert_timing_data;
use f1_term::model::circuit::{CircuitScope, CircuitStatus};
use f1_term::model::driver::DriverNumber;
use f1_term::model::lap_time::LapTime;
use f1_term::model::race_control::{Flag, FlagColor, FlagScope, MessageCategory};
use f1_term::model::status::Timestamp;
use f1_term::model::stint::Compound;
use f1_term::parsing::driver_list::RawDriver;
use f1_term::parsing::extrapolated_clock::RawExtrapolatedClock;
use f1_term::parsing::lap_count::RawLapCount;
use f1_term::parsing::race_control_messages::{RawRaceControlMessage, RawRaceControlMessages};
use f1_term::parsing::session_info::{
    RawArchiveStatus, RawCircuit, RawCountry, RawMeeting, RawSessionInfo,
};
use f1_term::parsing::stints::{RawDriverStints, RawStint};
use f1_term::parsing::timing_data::{
    RawBestLapTime, RawLastLapTime, RawSector, RawSegment, RawSpeed, RawSpeeds, RawTimingData,
};

use chrono::{TimeZone, Timelike};

fn utc(y: i32, mo: u32, d: u32, h: u32, mi: u32, s: u32) -> Timestamp {
    let t = chrono::Utc.with_ymd_and_hms(y, mo, d, h, mi, s).unwrap();
    Timestamp { seconds: t.timestamp(), nanos: 0 }
}

fn session_info() -> RawSessionInfo {
    RawSessionInfo {
        Meeting: RawMeeting {
            Key: 1,
            Name: "Meeting".into(),
            OfficialName: "Official".into(),
            Location: "Location".into(),
            Number: 1,
            Country: RawCountry { Key: 1, Code: "C".into(), Name: "Country".into() },
            Circuit: RawCircuit { Key: 42, ShortName: "Silverstone".into() },
        },
        SessionStatus: "Active".into(),
        ArchiveStatus: RawArchiveStatus { Status: "Archived".into() },
        Key: 1,
        Type: "Race".into(),
        Number: None,
        Name: "Race".into(),
        StartDate: "2024-07-07T14:00:00Z".into(),
        EndDate: "2024-07-07T16:00:00Z".into(),
        GmtOffset: "+01:00".into(),
        Path: "path".into(),
    }
}

#[test]
fn test_convert_circuit() {
    let raw_info = session_info();

    let circuit = convert_circuit(&raw_info, None);
    assert_eq!(circuit.key.0, 42);
    assert_eq!(circuit.short_name, "Silverstone");
    assert_eq!(circuit.year, 2024);
    assert!(matches!(circuit.status, CircuitStatus::Clear));
}

fn message(utc: &str, category: &str, msg: &str, flag: Option<&str>, scope: Option<&str>, sector: Option<u8>) -> RawRaceControlMessage {
    RawRaceControlMessage {
        Utc: utc.into(),
        Category: category.into(),
        Message: msg.into(),
        Flag: flag.map(|s| s.to_string()),
        Scope: scope.map(|s| s.to_string()),
        Sector: sector,
    }
}

#[test]
fn test_track_status_green() {
    let rcm = RawRaceControlMessages {
        Messages: vec![message("time", "Flag", "GREEN LIGHT", Some("GREEN"), Some("Track"), None)],
    };
    let status = compute_circuit_status(Some(&rcm));
    assert!(matches!(status, CircuitStatus::Clear));
}

#[test]
fn test_track_status_red() {
    let rcm = RawRaceControlMessages {
        Messages: vec![message("time", "Flag", "RED FLAG", Some("RED"), Some("Track"), None)],
    };
    let status = compute_circuit_status(Some(&rcm));
    assert!(matches!(status, CircuitStatus::Red));
}

#[test]
fn test_track_status_sector_yellows() {
    let rcm = RawRaceControlMessages {
        Messages: vec![
            message("time", "Flag", "YELLOW IN TRACK SECTOR 11", Some("YELLOW"), Some("Sector"), Some(11)),
            message("time2", "Flag", "YELLOW IN TRACK SECTOR 12", Some("DOUBLE YELLOW"), Some("Sector"), Some(12)),
        ],
    };
    let status = compute_circuit_status(Some(&rcm));
    if let CircuitStatus::Yellow(CircuitScope::Sectors(sectors)) = status {
        assert_eq!(sectors, vec![11, 12]);
    } else {
        panic!("Expected Yellow with sectors 11 and 12");
    }
}

#[test]
fn test_clock_conversion() {
    let raw = RawExtrapolatedClock {
        Extrapolating: true,
        Remaining: "01:02:05".to_string(),
        Utc: "2026-03-13T03:39:11.337Z".to_string(),
    };

    let clock = convert_clock(&raw).unwrap();
    assert_eq!(clock.time_remaining, 3725);
    let expected = chrono::Utc
        .with_ymd_and_hms(2026, 3, 13, 3, 39, 11)
        .unwrap()
        .with_nanosecond(337_000_000)
        .unwrap();
    assert_eq!(
        clock.updated_at,
        Timestamp { seconds: expected.timestamp(), nanos: expected.timestamp_subsec_nanos() }
    );
}

#[test]
fn test_clock_conversion_invalid_time() {
    let raw = RawExtrapolatedClock {
        Extrapolating: true,
        Remaining: "01:60:05".to_string(),
        Utc: "2026-03-13T03:39:11.337Z".to_string(),
    };
    assert!(convert_clock(&raw).is_err());
}

#[test]
fn test_clock_conversion_invalid_date() {
    let raw = RawExtrapolatedClock {
        Extrapolating: true,
        Remaining: "01:02:05".to_string(),
        Utc: "invalid-date".to_string(),
    };
    assert!(convert_clock(&raw).is_err());
}

#[test]
fn test_convert_drivers() {
    let raw_drivers = vec![(
        "1".to_string(),
        RawDriver {
            RacingNumber: "1".to_string(),
            FirstName: "Max".to_string(),
            LastName: "Verstappen".to_string(),
            FullName: "Max VERSTAPPEN".to_string(),
            BroadcastName: "M VERSTAPPEN".to_string(),
            HeadshotUrl: "url".to_string(),
            Line: 1,
            PublicIdRight: "id".to_string(),
            Tla: "VER".to_string(),
            TeamName: "Red Bull Racing".to_string(),
            Reference: "ref".to_string(),
            TeamColour: "3671C6".to_string(),
        },
    )];

    let drivers = convert_drivers(&raw_drivers);
    assert_eq!(drivers.len(), 1);

    let driver = &drivers.iter().find(|d| d.0 == DriverNumber { value: 1 }).unwrap().1;
    assert_eq!(driver.first_name, "Max");
    assert_eq!(driver.last_name, "Verstappen");
    assert_eq!(driver.tla, "VER");
    assert_eq!(driver.team_name.value, "Red Bull Racing");
}

#[test]
fn test_convert_lap_count() {
    let raw = RawLapCount { CurrentLap: 5, TotalLaps: 50 };

    let laps = convert_lap_count(&raw);

    assert_eq!(laps.current, 5);
    assert_eq!(laps.total, 50);
}

#[test]
fn test_convert_other_message() {
    let raw = vec![message("2026-02-20T06:48:12", "Other", "PINK HEAD PADDING MATERIAL MUST BE USED", None, None, None)];

    let parsed = convert_race_control_messages(&raw).unwrap();
    assert_eq!(parsed.len(), 1);
    assert_eq!(parsed[0].timestamp, utc(2026, 2, 20, 6, 48, 12));
    assert_eq!(parsed[0].category, MessageCategory::Other);
    assert_eq!(parsed[0].message, "PINK HEAD PADDING MATERIAL MUST BE USED");
}

#[test]
fn test_convert_green_track_flag() {
    let raw = vec![message("2026-02-20T07:00:00", "Flag", "GREEN LIGHT - PIT EXIT OPEN", Some("GREEN"), Some("Track"), None)];

    let parsed = convert_race_control_messages(&raw).unwrap();
    assert_eq!(parsed.len(), 1);
    assert_eq!(parsed[0].timestamp, utc(2026, 2, 20, 7, 0, 0));
    assert_eq!(
        parsed[0].category,
        MessageCategory::Flag(Flag { color: FlagColor::Green, scope: FlagScope::Track })
    );
    assert_eq!(parsed[0].message, "GREEN LIGHT - PIT EXIT OPEN");
}

#[test]
fn test_convert_yellow_sector_flag() {
    let raw = vec![message("2026-02-20T09:11:03", "Flag", "YELLOW IN TRACK SECTOR 11", Some("YELLOW"), Some("Sector"), Some(11))];

    let parsed = convert_race_control_messages(&raw).unwrap();
    assert_eq!(parsed.len(), 1);
    assert_eq!(parsed[0].timestamp, utc(2026, 2, 20, 9, 11, 3));
    assert_eq!(
        parsed[0].category,
        MessageCategory::Flag(Flag { color: FlagColor::Yellow, scope: FlagScope::Sector(11) })
    );
    assert_eq!(parsed[0].message, "YELLOW IN TRACK SECTOR 11");
}

#[test]
fn test_convert_red_flag_other_category() {
    let raw = vec![message("2026-02-20T09:11:25", "Other", "RED FLAG - RACE SUSPENDED", None, None, None)];

    let parsed = convert_race_control_messages(&raw).unwrap();
    assert_eq!(parsed.len(), 1);
    assert_eq!(parsed[0].timestamp, utc(2026, 2, 20, 9, 11, 25));
    assert_eq!(
        parsed[0].category,
        MessageCategory::Flag(Flag { color: FlagColor::Red, scope: FlagScope::Track })
    );
    assert_eq!(parsed[0].message, "RED FLAG - RACE SUSPENDED");
}

#[test]
fn test_convert_double_yellow_sector_flag() {
    let raw = vec![message("2026-02-20T11:01:46", "Flag", "DOUBLE YELLOW IN TRACK SECTOR 2", Some("DOUBLE YELLOW"), Some("Sector"), Some(2))];

    let parsed = convert_race_control_messages(&raw).unwrap();
    assert_eq!(parsed.len(), 1);
    assert_eq!(parsed[0].timestamp, utc(2026, 2, 20, 11, 1, 46));
    assert_eq!(
        parsed[0].category,
        MessageCategory::Flag(Flag { color: FlagColor::DoubleYellow, scope: FlagScope::Sector(2) })
    );
    assert_eq!(parsed[0].message, "DOUBLE YELLOW IN TRACK SECTOR 2");
}

#[test]
fn test_convert_clear_track_flag() {
    let raw = vec![message("2026-02-20T09:13:18", "Flag", "TRACK CLEAR", Some("CLEAR"), Some("Track"), None)];

    let parsed = convert_race_control_messages(&raw).unwrap();
    assert_eq!(parsed.len(), 1);
    assert_eq!(parsed[0].timestamp, utc(2026, 2, 20, 9, 13, 18));
    assert_eq!(
        parsed[0].category,
        MessageCategory::Flag(Flag { color: FlagColor::Clear, scope: FlagScope::Track })
    );
    assert_eq!(parsed[0].message, "TRACK CLEAR");
}

#[test]
fn test_convert_stints() {
    let raw = vec![(
        "1".to_string(),
        RawDriverStints {
            Stints: vec![
                RawStint {
                    Compound: "SOFT".to_string(),
                    LapFlags: 0,
                    New: "true".to_string(),
                    StartLaps: 0,
                    TotalLaps: 15,
                    TyresNotChanged: "0".to_string(),
                },
                RawStint {
                    Compound: "MEDIUM".to_string(),
                    LapFlags: 0,
                    New: "false".to_string(),
                    StartLaps: 3,
                    TotalLaps: 25,
                    TyresNotChanged: "0".to_string(),
                },
            ],
        },
    )];

    let stints_map = convert_stints(&raw);
    assert_eq!(stints_map.len(), 1);

    let driver_number = DriverNumber { value: 1 };
    let stints = &stints_map.iter().find(|e| e.0 == driver_number).unwrap().1;

    assert_eq!(stints.len(), 2);

    assert!(matches!(stints[0].compound, Compound::Soft));
    assert!(stints[0].new);
    assert_eq!(stints[0].start_laps, 0);
    assert_eq!(stints[0].total_laps, 15);

    assert!(matches!(stints[1].compound, Compound::Medium));
    assert!(!stints[1].new);
    assert_eq!(stints[1].start_laps, 3);
    assert_eq!(stints[1].total_laps, 25);
}

#[test]
fn stint_test_stints_missing_fields() {
    let raw = vec![(
        "44".to_string(),
        RawDriverStints {
            Stints: vec![RawStint {
                Compound: "SOFT".to_string(),
                New: "true".to_string(),
                StartLaps: 0,
                TotalLaps: 5,
                ..Default::default()
            }],
        },
    )];

    let map = convert_stints(&raw);
    let stints = &map.iter().find(|e| e.0 == DriverNumber { value: 44 }).unwrap().1;

    assert_eq!(stints.len(), 1);
    assert_eq!(stints[0].tires_not_changed, 0);
    assert_eq!(stints[0].lap_flags, 0);
}

#[test]
fn test_convert_timing_data() {
    let raw = vec![(
        "1".to_string(),
        RawTimingData {
            RacingNumber: "1".to_string(),
            BestLapTime: RawBestLapTime { Value: "1:23.456".to_string() },
            InPit: false,
            PitOut: false,
            LastLapTime: RawLastLapTime {
                OverallFastest: false,
                PersonalFastest: true,
                Status: 0,
                Value: "1:24.000".to_string(),
            },
            Position: "1".to_string(),
            Retired: false,
            Status: 0,
            Stopped: false,
            TimeDiffToFastest: Some("".to_string()),
            TimeDiffToPositionAhead: Some("".to_string()),
            GapToLeader: None,
            IntervalToPositionAhead: None,
            Sectors: vec![RawSector {
                OverallFastest: false,
                PersonalFastest: true,
                Segments: vec![RawSegment { Status: 0 }],
                Status: 0,
                Stopped: false,
                Value: "25.1".to_string(),
                PreviousValue: Some("25.6".to_string()),
            }],
            ShowPosition: true,
            Speeds: RawSpeeds {
                FL: RawSpeed {
                    OverallFastest: false,
                    PersonalFastest: false,
                    Status: 0,
                    Value: "320".to_string(),
                },
                I1: RawSpeed::default(),
                I2: RawSpeed::default(),
                ST: RawSpeed::default(),
            },
            Cutoff: None,
            KnockedOut: None,
            NumberOfLaps: None,
            NumberOfPitStops: None,
            Stats: None,
        },
    )];

    let data = convert_timing_data(&raw);
    assert_eq!(data.len(), 1);

    let driver_number = DriverNumber { value: 1 };
    let timing = &data.iter().find(|e| e.0 == driver_number).unwrap().1;

    assert_eq!(timing.position, 1);
    assert_eq!(timing.lap_data.best_lap.time, Some(LapTime::new(1, 23, 456)));
    assert!(timing.lap_data.best_lap.overall_fastest);
    assert_eq!(timing.lap_data.last_lap.time, Some(LapTime::new(1, 24, 0)));
    assert!(timing.lap_data.last_lap.personal_fastest);

    assert_eq!(timing.lap_data.last_lap.sectors.len(), 1);
    assert_eq!(timing.lap_data.last_lap.sectors[0].value.as_deref(), Some("25.1"));
    assert!(timing.lap_data.last_lap.sectors[0].personal_fastest);

    assert_eq!(timing.lap_data.last_lap.speeds.fl.value, "320");
}

#[test]
fn timing_test_timing_data_missing_fields() {
    let raw = vec![(
        "44".to_string(),
        RawTimingData {
            RacingNumber: "44".to_string(),
            Position: "1".to_string(),
            InPit: false,
            PitOut: false,
            Retired: false,
            Status: 0,
            Stopped: false,
            ShowPosition: true,
            Sectors: vec![],
            Speeds: RawSpeeds {
                FL: RawSpeed { Status: 0, ..Default::default() },
                I1: RawSpeed { Status: 0, ..Default::default() },
                I2: RawSpeed { Status: 0, ..Default::default() },
                ST: RawSpeed { Status: 0, ..Default::default() },
            },
            ..Default::default()
        },
    )];

    let map = convert_timing_data(&raw);
    let driver_timing = &map.iter().find(|e| e.0 == DriverNumber { value: 44 }).unwrap().1;

    assert_eq!(driver_timing.lap_data.best_lap.time, None);
    assert!(!driver_timing.lap_data.best_lap.overall_fastest);
    assert_eq!(driver_timing.lap_data.last_lap.time, None);
    assert_eq!(driver_timing.time_diffs.to_fastest, None);
}

#[test]
fn circuit_year_falls_back_to_the_clock() {
    let mut raw_info = session_info();
    raw_info.StartDate = "not a date".into();
    let circuit = convert_circuit(&raw_info, None);
    let now_year = chrono::Utc::now().format("%Y").to_string().parse::<u32>().unwrap();
    assert_eq!(circuit.year, now_year);
}
