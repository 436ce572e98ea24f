use f1_term::args::Args;
use f1_term::client::{
    find_cookie, handshake_message, handshake_refused, is_local, message_in_range_exec,
    negotiate_post_url, negotiate_url, split_records, strip_record_separators, websocket_url,
    SignalRF1Client,
};
use f1_term::extract::{extract_updates, updates_convertible};
use f1_term::json::{deep_copy, get, object_from, Json, JsonNumber};
use f1_term::logger::{log_dir_source, LogDirSource};
use f1_term::topic::Topic;

fn to_json(v: &serde_json::Value) -> Json {
    match v {
        serde_json::Value::Null => Json::Null,
        serde_json::Value::Bool(b) => Json::Bool(*b),
        serde_json::Value::Number(n) => {
            if let Some(u) = n.as_u64() {
                Json::Number(JsonNumber::PosInt(u))
            } else if let Some(i) = n.as_i64() {
                Json::Number(JsonNumber::NegInt(i))
            } else {
                Json::Number(JsonNumber::Float(n.as_f64().unwrap().to_bits()))
            }
        }
        serde_json::Value::String(s) => Json::Str(s.clone()),
        serde_json::Value::Array(a) => Json::Array(a.iter().map(to_json).collect()),
        serde_json::Value::Object(m) => {
            object_from(m.iter().map(|(k, v)| (k.clone(), to_json(v))).collect())
        }
    }
}

fn parse(s: &str) -> Json {
    to_json(&serde_json::from_str(s).unwrap())
}

#[test]
fn topic_names_round_trip() {
    let all = Topic::all();
    assert_eq!(all.len(), 10);
    for t in all {
        assert_eq!(Topic::try_from_name(t.name()), Some(t));
        assert_eq!(t.to_string(), t.name());
    }
    assert_eq!(Topic::try_from_name("WeatherDataSeries"), None);
    assert_eq!(Topic::TimingData.name(), "TimingData");
}

#[test]
fn completion_replaces_state_and_marks_topics() {
    let mut client = SignalRF1Client::new();
    let mut updated = Vec::new();
    let msg = parse(r#"{"type":3,"result":{"LapCount":{"CurrentLap":3,"TotalLaps":57},"Unknown":{},"TrackStatus":{"Status":"1","Message":"AllClear"}}}"#);
    assert!(message_in_range_exec(&msg));
    let logs = client.process_signalr_message(&msg, &mut updated);
    assert!(logs.is_empty());
    assert_eq!(updated, vec![Topic::LapCount, Topic::TrackStatus]);
    assert_eq!(
        get(&client.canonical_state, "LapCount"),
        Some(&parse(r#"{"CurrentLap":3,"TotalLaps":57}"#))
    );
}

#[test]
fn feed_invocation_merges_into_topic() {
    let mut client = SignalRF1Client::new().with_log_dir("/tmp/logs/".to_string());
    let mut updated = Vec::new();
    let first = parse(r#"{"type":1,"target":"feed","arguments":["LapCount",{"CurrentLap":1,"TotalLaps":57},"2024-01-01T00:00:00Z"]}"#);
    let logs = client.process_signalr_message(&first, &mut updated);
    assert_eq!(logs, vec![("LapCount".to_string(), parse(r#"{"CurrentLap":1,"TotalLaps":57}"#))]);
    let second = parse(r#"{"type":1,"target":"feed","arguments":["LapCount",{"CurrentLap":2}]}"#);
    client.process_signalr_message(&second, &mut updated);
    assert_eq!(updated, vec![Topic::LapCount]);
    assert_eq!(
        get(&client.canonical_state, "LapCount"),
        Some(&parse(r#"{"CurrentLap":2,"TotalLaps":57}"#))
    );

    // Another target, an unknown topic or another type changes nothing.
    let before = deep_copy(&client.canonical_state);
    for other in [
        r#"{"type":1,"target":"other","arguments":["LapCount",{"CurrentLap":9}]}"#,
        r#"{"type":1,"target":"feed","arguments":["Nothing",{"CurrentLap":9}]}"#,
        r#"{"type":6}"#,
        r#"{"target":"feed"}"#,
    ] {
        let logs = client.process_signalr_message(&parse(other), &mut updated);
        assert!(logs.is_empty());
    }
    assert_eq!(client.canonical_state, before);
    assert_eq!(updated, vec![Topic::LapCount]);
}

#[test]
fn patch_with_impossible_index_is_out_of_range() {
    let msg = parse(r#"{"type":1,"target":"feed","arguments":["TimingData",{"Lines":{"18446744073709551615":{}}}]}"#);
    assert!(!message_in_range_exec(&msg));
    let ok = parse(r#"{"type":1,"target":"feed","arguments":["TimingData",{"Lines":{"1":{}}}]}"#);
    assert!(message_in_range_exec(&ok));
}

#[test]
fn log_directory_follows_session_path() {
    let mut client = SignalRF1Client::new();
    assert_eq!(client.session_log_dir(), None);
    client = client.with_log_dir("/var/log/".to_string());
    assert_eq!(client.session_log_dir(), Some("/var/log/unknown_session".to_string()));
    let mut updated = Vec::new();
    let msg = parse(r#"{"type":3,"result":{"SessionInfo":{"Path":"/2024/monza/"}}}"#);
    client.process_signalr_message(&msg, &mut updated);
    assert_eq!(client.session_log_dir(), Some("/var/log/2024/monza/".to_string()));
    assert_eq!(
        SignalRF1Client::log_file_name("/var/log/2024/monza/", "TimingData"),
        "/var/log/2024/monza/TimingData.log"
    );
}

#[test]
fn subscription_names_every_topic() {
    let client = SignalRF1Client::new();
    let msg = client.subscribe_message();
    assert!(msg.starts_with(
        "{\"type\":1,\"invocationId\":\"1\",\"target\":\"Subscribe\",\"arguments\":[[\"DriverList\",\"ExtrapolatedClock\",\""
    ));
    assert!(msg.ends_with("\"]]}\u{1e}"));
    assert!(msg.contains("\"TimingAppData\",\"TimingData\""));
}

#[test]
fn handshake_frames() {
    assert_eq!(handshake_message(), "{\"protocol\":\"json\",\"version\":1}\u{1e}");
    assert_eq!(strip_record_separators("{}\u{1e}\u{1e}"), "{}");
    assert!(handshake_refused(&parse(r#"{"error":"no"}"#)));
    assert!(!handshake_refused(&parse(r#"{}"#)));
}

#[test]
fn records_are_split_and_trimmed() {
    assert_eq!(
        split_records(" {\"a\":1}\u{1e}\u{1e}  {\"b\":2} \u{1e}"),
        vec!["{\"a\":1}".to_string(), "{\"b\":2}".to_string()]
    );
    assert!(split_records("\u{1e}  \u{1e}").is_empty());
}

#[test]
fn load_balancer_cookie_is_found() {
    let headers = vec![
        None,
        Some("AWSALB=abc; Path=/".to_string()),
        Some(" AWSALBCORS=xyz; Path=/; SameSite=None".to_string()),
    ];
    assert_eq!(find_cookie(&headers), "AWSALBCORS=xyz");
    assert_eq!(find_cookie(&vec![Some("other=1".to_string())]), "");
}

#[test]
fn negotiation_addresses() {
    assert!(is_local("localhost:5000"));
    assert!(is_local("127.0.0.1:5000"));
    assert!(!is_local("livetiming.formula1.com/signalrcore"));
    assert_eq!(negotiate_url("localhost:5000"), "http://localhost:5000/negotiate");
    assert_eq!(
        negotiate_url("livetiming.formula1.com/signalrcore"),
        "https://livetiming.formula1.com/signalrcore/negotiate"
    );
    assert_eq!(
        negotiate_post_url("livetiming.formula1.com/signalrcore"),
        Some("https://livetiming.formula1.com/signalrcore/negotiate?negotiateVersion=1".to_string())
    );
}

#[test]
fn websocket_addresses() {
    assert_eq!(
        websocket_url("livetiming.formula1.com/signalrcore", Some("a b&c")),
        Some("wss://livetiming.formula1.com/signalrcore?id=a+b%26c".to_string())
    );
    assert_eq!(websocket_url("localhost:5000", None), Some("ws://localhost:5000/".to_string()));
    assert_eq!(websocket_url("local host", None), None);
}

#[test]
fn state_ranges_are_checked() {
    let ok = parse(r#"{"ExtrapolatedClock":{"Utc":"2024-01-01T00:00:00Z","Remaining":"01:00:00","Extrapolating":true}}"#);
    assert!(updates_convertible(&ok));
    let huge = parse(r#"{"ExtrapolatedClock":{"Utc":"2024-01-01T00:00:00Z","Remaining":"18446744073709551615:00:00","Extrapolating":true}}"#);
    assert!(!updates_convertible(&huge));
    // A remaining time that is not HH:MM:SS is refused, not out of range.
    let bad = parse(r#"{"ExtrapolatedClock":{"Utc":"x","Remaining":"1:2","Extrapolating":true}}"#);
    assert!(updates_convertible(&bad));
    assert!(updates_convertible(&parse("{}")));
}

#[test]
fn updates_follow_the_updated_topics() {
    let state = parse(
        r#"{"LapCount":{"CurrentLap":3,"TotalLaps":57},
            "ExtrapolatedClock":{"Utc":"2024-01-01T00:00:00Z","Remaining":"00:01:05","Extrapolating":false},
            "TrackStatus":{"Status":"1","Message":"AllClear"}}"#,
    );
    let u = extract_updates(&state, &[Topic::LapCount, Topic::ExtrapolatedClock]);
    let laps = u.laps.unwrap();
    assert_eq!((laps.current, laps.total), (3, 57));
    let clock = u.clock.unwrap();
    assert_eq!(clock.time_remaining, 65);
    assert!(!clock.extrapolating);
    assert_eq!(clock.updated_at.seconds, 1704067200);
    assert!(u.track_status.is_none());
    assert!(u.session_info.is_none());
    assert!(u.drivers.is_none());
}

#[test]
fn replay_flag() {
    let args = |v: &[&str]| Args::from_args(&v.iter().map(|s| s.to_string()).collect());
    assert!(args(&["f1-term", "--replay"]).replay);
    assert!(!args(&["f1-term"]).replay);
    assert!(!args(&["--replay"]).replay);
    assert!(!args(&[]).replay);
}

#[test]
fn log_directory_sources() {
    assert_eq!(log_dir_source(true, true, true), LogDirSource::XdgStateHome);
    assert_eq!(log_dir_source(false, true, true), LogDirSource::LocalAppData);
    assert_eq!(log_dir_source(false, false, true), LogDirSource::HomeState);
    assert_eq!(log_dir_source(false, false, false), LogDirSource::CurrentDir);
}
