use f1_term::convert::driver::convert_drivers;
use f1_term::convert::race_control_message::convert_race_control_messages;
use f1_term::convert::stint::convert_stints;
use f1_term::convert::team::convert_teams;
use f1_term::convert::track_status::convert_track_status;
use f1_term::json::{object_from, Json, JsonNumber};
use f1_term::model::driver::DriverNumber;
use f1_term::model::race_control::{Flag, FlagColor, FlagScope, MessageCategory};
use f1_term::model::status::Timestamp;
use f1_term::model::stint::Compound;
use f1_term::parsing::decode::FeedError;
use f1_term::parsing::driver_list::parse_driver_list;
use f1_term::parsing::extrapolated_clock::parse_extrapolated_clock;
use f1_term::parsing::race_control_messages::parse_raw_race_control_messages;
use f1_term::parsing::session_info::parse_raw_session_info;
use f1_term::parsing::stints::parse_raw_stints;
use f1_term::parsing::teams::parse_teams;
use f1_term::parsing::timing_data::parse_raw_timing_data;
use f1_term::parsing::track_status::parse_raw_track_status;
use f1_term::parsing::weather_data::parse_raw_weather_data;

use chrono::TimeZone;

fn to_json(v: &serde_json::Value) -> Json {
    match v {
        serde_json::Value::Null => Json::Null,
        serde_json::Value::Bool(b) => Json::Bool(*b),
        serde_json::Value::Number(n) => {
            if let Some(u) = n.as_u64() {
                Json::Number(JsonNumber::PosInt(u))
            } else if let Some(i) = n.as_i64() {
                Json::Number(JsonNumber::NegInt(i))
            } else {
                Json::Number(JsonNumber::Float(n.as_f64().unwrap().to_bits()))
            }
        }
        serde_json::Value::String(s) => Json::Str(s.clone()),
        serde_json::Value::Array(a) => Json::Array(a.iter().map(to_json).collect()),
        serde_json::Value::Object(m) => {
            object_from(m.iter().map(|(k, v)| (k.clone(), to_json(v))).collect())
        }
    }
}

fn parse(s: &str) -> Json {
    to_json(&serde_json::from_str(s).unwrap())
}

fn utc(y: i32, mo: u32, d: u32, h: u32, mi: u32, s: u32) -> Timestamp {
    let t = chrono::Utc.with_ymd_and_hms(y, mo, d, h, mi, s).unwrap();
    Timestamp { seconds: t.timestamp(), nanos: 0 }
}

const DRIVER_1: &str = r#"{
    "RacingNumber": "1",
    "FirstName": "Max",
    "LastName": "Verstappen",
    "FullName": "Max VERSTAPPEN",
    "BroadcastName": "M VERSTAPPEN",
    "HeadshotUrl": "https://example.com/max.png",
    "Line": 1,
    "PublicIdRight": "something",
    "Tla": "VER",
    "TeamName": "Red Bull Racing",
    "Reference": "MAXVER01",
    "TeamColour": "3671C6"
}"#;

const DRIVER_2: &str = r#"{
    "RacingNumber": "16",
    "FirstName": "Charles",
    "LastName": "Leclerc",
    "FullName": "Charles LECLERC",
    "BroadcastName": "C LECLERC",
    "HeadshotUrl": "https://example.com/charles.png",
    "Line": 2,
    "PublicIdRight": "something_else",
    "Tla": "LEC",
    "TeamName": "Ferrari",
    "Reference": "CHALEC01",
    "TeamColour": "F91536"
}"#;

#[test]
fn test_parse_drivers() {
    let text = format!(
        r#"{{"1": {}, "16": {}, "SC": {{"RacingNumber": "SC", "SomeOtherField": "Medical Car"}}}}"#,
        DRIVER_1, DRIVER_2
    );
    let val = parse(&text);

    let raw_drivers = parse_driver_list(&val).unwrap();
    let drivers = convert_drivers(&raw_drivers);

    assert_eq!(drivers.len(), 2);

    let driver_1 = &drivers.iter().find(|d| d.0 == DriverNumber { value: 1 }).unwrap().1;
    assert_eq!(driver_1.first_name, "Max");
    assert_eq!(driver_1.last_name, "Verstappen");
    assert_eq!(driver_1.tla, "VER");
    assert_eq!(driver_1.team_name.value, "Red Bull Racing");

    let driver_16 = &drivers.iter().find(|d| d.0 == DriverNumber { value: 16 }).unwrap().1;
    assert_eq!(driver_16.first_name, "Charles");
    assert_eq!(driver_16.last_name, "Leclerc");
    assert_eq!(driver_16.tla, "LEC");
    assert_eq!(driver_16.team_name.value, "Ferrari");
}

#[test]
fn test_parse_drivers_invalid() {
    let val = parse(r#""invalid""#);
    let result = parse_driver_list(&val);
    assert!(result.is_err());
}

#[test]
fn driver_list_test_parse_teams() {
    let text = format!(
        r#"{{"1": {}, "16": {}, "invalid": {{"NotATeam": "Something"}}}}"#,
        DRIVER_1, DRIVER_2
    );
    let json = parse(&text);

    let raw_drivers = parse_driver_list(&json).unwrap();
    let teams = convert_teams(&raw_drivers);
    assert_eq!(teams.len(), 2);

    let rb = teams.iter().find(|t| t.name.value == "Red Bull Racing").unwrap();
    assert_eq!(rb.color.u32, 0x3671C6);

    let ferrari = teams.iter().find(|t| t.name.value == "Ferrari").unwrap();
    assert_eq!(ferrari.color.u32, 0xF91536);
}

#[test]
fn teams_test_parse_teams() {
    let json = parse(
        r#"{
            "1": {"TeamName": "Red Bull Racing", "TeamColour": "3671C6"},
            "2": {"TeamName": "Ferrari", "TeamColour": "F91536"},
            "invalid": {"NotATeam": "Something"}
        }"#,
    );

    let teams = parse_teams(&json).unwrap();
    assert_eq!(teams.len(), 2);

    let rb = teams.iter().find(|t| t.name.value == "Red Bull Racing").unwrap();
    assert_eq!(rb.color.u32, 0x3671C6);

    let ferrari = teams.iter().find(|t| t.name.value == "Ferrari").unwrap();
    assert_eq!(ferrari.color.u32, 0xF91536);
}

#[test]
fn test_parse_extrapolated_clock() {
    let json_data = parse(
        r#"{
            "Extrapolating": true,
            "Remaining": "00:22:01",
            "Utc": "2026-03-13T03:39:11.3375981Z",
            "_kf": true
        }"#,
    );

    let result = parse_extrapolated_clock(&json_data).expect("Failed to parse raw extrapolated clock");

    assert!(result.Extrapolating);
    assert_eq!(result.Remaining, "00:22:01");
}

fn messages(one: &str) -> Json {
    parse(&format!(r#"{{"Messages": [{}], "_kf": true}}"#, one))
}

#[test]
fn test_parse_other_message() {
    let json_data = messages(
        r#"{"Utc": "2026-02-20T06:48:12", "Category": "Other", "Message": "PINK HEAD PADDING MATERIAL MUST BE USED"}"#,
    );

    let raw = parse_raw_race_control_messages(&json_data).unwrap();
    let parsed = convert_race_control_messages(&raw.Messages).unwrap();
    assert_eq!(parsed.len(), 1);
    assert_eq!(parsed[0].timestamp, utc(2026, 2, 20, 6, 48, 12));
    assert_eq!(parsed[0].category, MessageCategory::Other);
    assert_eq!(parsed[0].message, "PINK HEAD PADDING MATERIAL MUST BE USED");
}

#[test]
fn test_parse_green_track_flag() {
    let json_data = messages(
        r#"{"Utc": "2026-02-20T07:00:00", "Category": "Flag", "Flag": "GREEN", "Scope": "Track", "Message": "GREEN LIGHT - PIT EXIT OPEN"}"#,
    );

    let raw = parse_raw_race_control_messages(&json_data).unwrap();
    let parsed = convert_race_control_messages(&raw.Messages).unwrap();
    assert_eq!(parsed.len(), 1);
    assert_eq!(parsed[0].timestamp, utc(2026, 2, 20, 7, 0, 0));
    assert_eq!(
        parsed[0].category,
        MessageCategory::Flag(Flag { color: FlagColor::Green, scope: FlagScope::Track })
    );
    assert_eq!(parsed[0].message, "GREEN LIGHT - PIT EXIT OPEN");
}

#[test]
fn test_parse_yellow_sector_flag() {
    let json_data = messages(
        r#"{"Utc": "2026-02-20T09:11:03", "Category": "Flag", "Flag": "YELLOW", "Scope": "Sector", "Sector": 11, "Message": "YELLOW IN TRACK SECTOR 11"}"#,
    );

    let raw = parse_raw_race_control_messages(&json_data).unwrap();
    let parsed = convert_race_control_messages(&raw.Messages).unwrap();
    assert_eq!(parsed.len(), 1);
    assert_eq!(parsed[0].timestamp, utc(2026, 2, 20, 9, 11, 3));
    assert_eq!(
        parsed[0].category,
        MessageCategory::Flag(Flag { color: FlagColor::Yellow, scope: FlagScope::Sector(11) })
    );
    assert_eq!(parsed[0].message, "YELLOW IN TRACK SECTOR 11");
}

#[test]
fn test_parse_red_flag_other_category() {
    let json_data = messages(
        r#"{"Utc": "2026-02-20T09:11:25", "Category": "Other", "Message": "RED FLAG - RACE SUSPENDED"}"#,
    );

    let raw = parse_raw_race_control_messages(&json_data).unwrap();
    let parsed = convert_race_control_messages(&raw.Messages).unwrap();
    assert_eq!(parsed.len(), 1);
    assert_eq!(parsed[0].timestamp, utc(2026, 2, 20, 9, 11, 25));
    assert_eq!(
        parsed[0].category,
        MessageCategory::Flag(Flag { color: FlagColor::Red, scope: FlagScope::Track })
    );
    assert_eq!(parsed[0].message, "RED FLAG - RACE SUSPENDED");
}

#[test]
fn test_parse_double_yellow_sector_flag() {
    let json_data = messages(
        r#"{"Utc": "2026-02-20T11:01:46", "Category": "Flag", "Flag": "DOUBLE YELLOW", "Scope": "Sector", "Sector": 2, "Message": "DOUBLE YELLOW IN TRACK SECTOR 2"}"#,
    );

    let raw = parse_raw_race_control_messages(&json_data).unwrap();
    let parsed = convert_race_control_messages(&raw.Messages).unwrap();
    assert_eq!(parsed.len(), 1);
    assert_eq!(parsed[0].timestamp, utc(2026, 2, 20, 11, 1, 46));
    assert_eq!(
        parsed[0].category,
        MessageCategory::Flag(Flag { color: FlagColor::DoubleYellow, scope: FlagScope::Sector(2) })
    );
    assert_eq!(parsed[0].message, "DOUBLE YELLOW IN TRACK SECTOR 2");
}

#[test]
fn test_parse_clear_track_flag() {
    let json_data = messages(
        r#"{"Utc": "2026-02-20T09:13:18", "Category": "Flag", "Flag": "CLEAR", "Scope": "Track", "Message": "TRACK CLEAR"}"#,
    );

    let raw = parse_raw_race_control_messages(&json_data).unwrap();
    let parsed = convert_race_control_messages(&raw.Messages).unwrap();
    assert_eq!(parsed.len(), 1);
    assert_eq!(parsed[0].timestamp, utc(2026, 2, 20, 9, 13, 18));
    assert_eq!(
        parsed[0].category,
        MessageCategory::Flag(Flag { color: FlagColor::Clear, scope: FlagScope::Track })
    );
    assert_eq!(parsed[0].message, "TRACK CLEAR");
}

#[test]
fn test_parse_raw_session_info() {
    let json_data = parse(
        r#"{
            "Meeting": {
                "Key": 1234,
                "Name": "Bahrain Grand Prix",
                "OfficialName": "FORMULA 1 GULF AIR BAHRAIN GRAND PRIX 2024",
                "Location": "Sakhir",
                "Number": 1,
                "Country": {"Key": 36, "Code": "BRN", "Name": "Bahrain"},
                "Circuit": {"Key": 3, "ShortName": "Bahrain International Circuit"}
            },
            "SessionStatus": "Active",
            "ArchiveStatus": {"Status": "Generating"},
            "Key": 9123,
            "Type": "Practice",
            "Number": 1,
            "Name": "Practice 1",
            "StartDate": "2024-03-02T15:00:00Z",
            "EndDate": "2024-03-02T17:00:00Z",
            "GmtOffset": "03:00:00",
            "Path": "2024/2024-03-02_Race",
            "_kf": true
        }"#,
    );

    let result = parse_raw_session_info(&json_data).expect("Failed to parse raw session info");

    assert_eq!(result.Key, 9123);
    assert_eq!(result.Type, "Practice");
    assert_eq!(result.Number, Some(1));
    assert_eq!(result.Name, "Practice 1");
    assert_eq!(result.StartDate, "2024-03-02T15:00:00Z");
    assert_eq!(result.EndDate, "2024-03-02T17:00:00Z");
    assert_eq!(result.GmtOffset, "03:00:00");
    assert_eq!(result.Path, "2024/2024-03-02_Race");
    assert_eq!(result.SessionStatus, "Active");
    assert_eq!(result.ArchiveStatus.Status, "Generating");
    assert_eq!(result.Meeting.Key, 1234);
    assert_eq!(result.Meeting.Name, "Bahrain Grand Prix");
    assert_eq!(result.Meeting.OfficialName, "FORMULA 1 GULF AIR BAHRAIN GRAND PRIX 2024");
    assert_eq!(result.Meeting.Location, "Sakhir");
    assert_eq!(result.Meeting.Number, 1);
    assert_eq!(result.Meeting.Country.Key, 36);
    assert_eq!(result.Meeting.Country.Code, "BRN");
    assert_eq!(result.Meeting.Country.Name, "Bahrain");
    assert_eq!(result.Meeting.Circuit.Key, 3);
    assert_eq!(result.Meeting.Circuit.ShortName, "Bahrain International Circuit");
}

#[test]
fn test_parse_stints() {
    let json = parse(
        r#"{
            "Lines": {
                "1": {
                    "Stints": [
                        {"Compound": "SOFT", "LapFlags": 0, "New": "true", "StartLaps": 0, "TotalLaps": 15, "TyresNotChanged": "0"},
                        {"Compound": "MEDIUM", "LapFlags": 0, "New": "false", "StartLaps": 3, "TotalLaps": 25, "TyresNotChanged": "0"}
                    ]
                }
            }
        }"#,
    );

    let raw = parse_raw_stints(&json).unwrap();
    let stints_map = convert_stints(&raw);
    assert_eq!(stints_map.len(), 1);

    let driver_number = DriverNumber { value: 1 };
    let stints = &stints_map.iter().find(|e| e.0 == driver_number).unwrap().1;

    assert_eq!(stints.len(), 2);

    assert!(matches!(stints[0].compound, Compound::Soft));
    assert!(stints[0].new);
    assert_eq!(stints[0].start_laps, 0);
    assert_eq!(stints[0].total_laps, 15);

    assert!(matches!(stints[1].compound, Compound::Medium));
    assert!(!stints[1].new);
    assert_eq!(stints[1].start_laps, 3);
    assert_eq!(stints[1].total_laps, 25);
}

#[test]
fn stints_test_stints_missing_fields() {
    let raw_payload = parse(
        r#"{
            "Lines": {
                "44": {
                    "Stints": [
                        {"Compound": "SOFT", "New": "true", "StartLaps": 0, "TotalLaps": 5}
                    ]
                }
            }
        }"#,
    );

    let result = parse_raw_stints(&raw_payload);
    assert!(result.is_ok(), "Failed to parse stints missing optional fields: {:?}", result.err());

    let raw = result.unwrap();
    let map = convert_stints(&raw);
    let stints = &map.iter().find(|e| e.0 == DriverNumber { value: 44 }).unwrap().1;

    assert_eq!(stints.len(), 1);
    assert_eq!(stints[0].tires_not_changed, 0);
    assert_eq!(stints[0].lap_flags, 0);
}

const SPEEDS: &str = r#"{
    "FL": { "OverallFastest": false, "PersonalFastest": false, "Status": 0, "Value": "320" },
    "I1": { "OverallFastest": false, "PersonalFastest": false, "Status": 0, "Value": "" },
    "I2": { "OverallFastest": false, "PersonalFastest": false, "Status": 0, "Value": "" },
    "ST": { "OverallFastest": false, "PersonalFastest": false, "Status": 0, "Value": "" }
}"#;

#[test]
fn test_parse_timing_data() {
    let json = parse(&format!(
        r#"{{
            "Lines": {{
                "1": {{
                    "RacingNumber": "1",
                    "BestLapTime": {{"Value": "1:23.456"}},
                    "InPit": false,
                    "PitOut": false,
                    "LastLapTime": {{"OverallFastest": false, "PersonalFastest": true, "Status": 0, "Value": "1:24.000"}},
                    "Position": "1",
                    "Retired": false,
                    "Status": 0,
                    "Stopped": false,
                    "TimeDiffToFastest": "",
                    "TimeDiffToPositionAhead": "",
                    "Sectors": [
                        {{"OverallFastest": false, "PersonalFastest": true, "Segments": [{{"Status": 0}}], "Status": 0, "Stopped": false, "Value": "25.1", "PreviousValue": "25.6"}}
                    ],
                    "ShowPosition": true,
                    "Speeds": {}
                }}
            }}
        }}"#,
        SPEEDS
    ));

    let raw = parse_raw_timing_data(&json).unwrap();
    assert_eq!(raw.len(), 1);

    let timing = &raw.iter().find(|e| e.0 == "1").unwrap().1;

    assert_eq!(timing.Position, "1");
    assert_eq!(timing.BestLapTime.Value, "1:23.456");
    assert_eq!(timing.LastLapTime.Value, "1:24.000");
    assert!(timing.LastLapTime.PersonalFastest);

    assert_eq!(timing.Sectors.len(), 1);
    assert_eq!(timing.Sectors[0].Value, "25.1");
    assert!(timing.Sectors[0].PersonalFastest);

    assert_eq!(timing.Speeds.FL.Value, "320");
}

#[test]
fn timing_data_test_timing_data_missing_fields() {
    let raw_payload = parse(
        r#"{
            "Lines": {
                "44": {
                    "RacingNumber": "44",
                    "Position": "1",
                    "InPit": false,
                    "PitOut": false,
                    "Retired": false,
                    "Status": 0,
                    "Stopped": false,
                    "ShowPosition": true,
                    "Sectors": [],
                    "Speeds": {
                        "FL": { "Status": 0 },
                        "I1": { "Status": 0 },
                        "I2": { "Status": 0 },
                        "ST": { "Status": 0 }
                    }
                }
            }
        }"#,
    );

    let result = parse_raw_timing_data(&raw_payload);
    assert!(result.is_ok(), "Failed to parse payload missing optional fields: {:?}", result.err());

    let raw = result.unwrap();
    let driver_timing = &raw.iter().find(|e| e.0 == "44").unwrap().1;

    assert_eq!(driver_timing.BestLapTime.Value, "");
    assert_eq!(driver_timing.LastLapTime.Value, "");
    assert_eq!(driver_timing.TimeDiffToFastest, None);
}

#[test]
fn test_parse_timing_data_quali_stats() {
    let json = parse(&format!(
        r#"{{
            "Lines": {{
                "1": {{
                    "RacingNumber": "1",
                    "Stats": [{{"TimeDiffToFastest": "+0.123", "TimeDiffToPositionAhead": "+0.050"}}],
                    "BestLapTime": {{"Value": "1:23.456"}},
                    "LastLapTime": {{"OverallFastest": false, "PersonalFastest": true, "Status": 0, "Value": "1:24.000"}},
                    "Position": "1",
                    "Status": 0,
                    "Stopped": false,
                    "ShowPosition": true,
                    "Sectors": [],
                    "Speeds": {}
                }}
            }}
        }}"#,
        SPEEDS
    ));

    let raw = parse_raw_timing_data(&json).unwrap();
    let timing = &raw.iter().find(|e| e.0 == "1").unwrap().1;

    let stats = timing.Stats.as_ref().unwrap();
    assert_eq!(stats.len(), 1);
    assert_eq!(stats[0].TimeDiffToFastest, "+0.123");
    assert_eq!(stats[0].TimeDiffToPositionAhead, "+0.050");
}

#[test]
fn test_parse_track_status_valid() {
    let json_val = parse(r#"{"Status": "1", "Message": "AllClear"}"#);

    let raw = parse_raw_track_status(&json_val).unwrap();
    let status = convert_track_status(&raw).unwrap();
    assert_eq!(status.status, 1);
    assert_eq!(status.message, "AllClear");
}

#[test]
fn test_parse_track_status_invalid_status_type() {
    let json_val = parse(r#"{"Status": "not_a_number", "Message": "Clear"}"#);

    let raw = parse_raw_track_status(&json_val).unwrap();
    let result = convert_track_status(&raw);
    assert!(result.is_err());
    assert_eq!(result.unwrap_err(), FeedError::InvalidNumber);
}

#[test]
fn parse_weather_data_from_json() {
    let json_data = parse(
        r#"{
            "AirTemp": "23.5",
            "Humidity": "34.3",
            "Pressure": "1018.2",
            "Rainfall": "0",
            "TrackTemp": "25.8",
            "WindDirection": "353",
            "WindSpeed": "2.0",
            "_kf": true
        }"#,
    );

    let raw = parse_raw_weather_data(&json_data).expect("Failed to parse raw weather data");

    assert_eq!(raw.AirTemp.parse::<f64>().unwrap(), 23.5);
    assert_eq!(raw.Humidity.parse::<f64>().unwrap(), 34.3);
    assert_eq!(raw.Pressure.parse::<f64>().unwrap(), 1018.2);
    assert_eq!(raw.Rainfall.parse::<f64>().unwrap(), 0.0);
    assert_eq!(raw.TrackTemp.parse::<f64>().unwrap(), 25.8);
    assert_eq!(raw.WindDirection.parse::<f64>().unwrap(), 353.0);
    assert_eq!(raw.WindSpeed.parse::<f64>().unwrap(), 2.0);
}

#[test]
fn refused_topics() {
    assert_eq!(parse_teams(&parse("[1, 2]")), Err(FeedError::NotAnObject));
    assert_eq!(parse_driver_list(&parse("\"x\"")).err(), Some(FeedError::NotAnObject));
    assert_eq!(parse_raw_stints(&parse("{}")).err(), Some(FeedError::MissingMember));
    assert_eq!(parse_raw_stints(&parse(r#"{"Lines": 3}"#)).err(), Some(FeedError::NotAnObject));
    assert_eq!(
        parse_raw_track_status(&parse(r#"{"Status": "1"}"#)).err(),
        Some(FeedError::InvalidRecord)
    );
    assert_eq!(parse_raw_session_info(&parse("null")).err(), Some(FeedError::NotAnObject));
    assert_eq!(
        parse_raw_session_info(&parse(r#"{"Key": 1}"#)).err(),
        Some(FeedError::InvalidRecord)
    );
    assert_eq!(parse_extrapolated_clock(&parse("[]")).err(), Some(FeedError::NotAnObject));
}

#[test]
fn flag_without_scope_is_refused() {
    let raw = parse_raw_race_control_messages(&parse(
        r#"{"Messages": [{"Utc": "2026-02-20T07:00:00", "Category": "Flag", "Flag": "GREEN", "Message": "GREEN LIGHT"}]}"#,
    ))
    .unwrap();
    assert_eq!(convert_race_control_messages(&raw.Messages).err(), Some(FeedError::MissingMember));
}
