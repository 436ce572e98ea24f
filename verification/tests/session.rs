use f1_term::convert::clock::remaining_is_in_range;
use f1_term::convert::session::{convert_session_info, offset_is_computable, utc_offset};
use f1_term::model::session_info::{ArchiveStatus, QualiPhase, SessionStatus, SessionType};
use f1_term::model::status::{Clock, Laps, Timestamp, TrackStatus};
use f1_term::parsing::decode::FeedError;
use f1_term::parsing::session_info::{
    RawArchiveStatus, RawCircuit, RawCountry, RawMeeting, RawSessionInfo,
};
use f1_term::tui::app::{
    any_render, due_count, next_delay, state_changed, AppControl, AppStep, EngineCommand,
};
use f1_term::tui::action::{Action, KeyInput};
use f1_term::tui::color::TermColor;
use f1_term::tui::message_log::format_time_of_day;
use f1_term::tui::pages::ActivePage;
use f1_term::tui::title_bar::{clock_text, session_type_text, TitleBar};

fn raw_session() -> RawSessionInfo {
    RawSessionInfo {
        Meeting: RawMeeting {
            Key: 1229,
            Name: "British Grand Prix".into(),
            OfficialName: "Official".into(),
            Location: "Silverstone".into(),
            Number: 12,
            Country: RawCountry { Key: 2, Code: "GBR".into(), Name: "Great Britain".into() },
            Circuit: RawCircuit { Key: 2, ShortName: "Silverstone".into() },
        },
        SessionStatus: "Started".into(),
        ArchiveStatus: RawArchiveStatus { Status: "Generating".into() },
        Key: 9558,
        Type: "Qualifying".into(),
        Number: Some(1),
        Name: "Qualifying".into(),
        StartDate: "2024-07-06T15:00:00".into(),
        EndDate: "2024-07-06T16:00:00".into(),
        GmtOffset: "01:00:00".into(),
        Path: "2024/2024-07-07_British_Grand_Prix/2024-07-06_Qualifying/".into(),
    }
}

#[test]
fn session_converts() {
    let info = convert_session_info(&raw_session(), Some(2)).unwrap();
    assert_eq!(info.session_status, SessionStatus::Started);
    assert_eq!(info.archive_status, ArchiveStatus::Generating);
    assert_eq!(info.type_, SessionType::Qualifying(Some(QualiPhase::Q2)));
    assert_eq!(info.utc_offset, 3600);
    assert_eq!(info.start_date, Timestamp { seconds: 1720278000, nanos: 0 });
    assert_eq!(info.end_date.seconds, 1720281600);
    assert_eq!(info.meeting.number, 12);
    assert_eq!(info.meeting.circuit_key.0, 2);
    assert_eq!(session_type_text(info.type_), "Qualifying (Q2)");
}

#[test]
fn session_errors() {
    let mut raw = raw_session();
    raw.SessionStatus = "Paused".into();
    assert_eq!(convert_session_info(&raw, None), Err(FeedError::UnknownValue));

    let mut raw = raw_session();
    raw.Type = "Sprint".into();
    assert_eq!(convert_session_info(&raw, None), Err(FeedError::UnknownValue));

    let mut raw = raw_session();
    raw.GmtOffset = "one:00:00".into();
    assert_eq!(convert_session_info(&raw, None), Err(FeedError::InvalidNumber));

    let mut raw = raw_session();
    raw.GmtOffset = "30:00:00".into();
    assert_eq!(convert_session_info(&raw, None), Err(FeedError::InvalidTime));

    let mut raw = raw_session();
    raw.Meeting.Number = 300;
    assert_eq!(convert_session_info(&raw, None), Err(FeedError::InvalidNumber));

    let mut raw = raw_session();
    raw.StartDate = "2024-07-06T15:00:00Z".into();
    assert_eq!(convert_session_info(&raw, None), Err(FeedError::InvalidDate));
}

#[test]
fn offsets() {
    assert_eq!(utc_offset("-05:30:00"), Ok(-16200));
    assert_eq!(utc_offset("00:00:00"), Ok(0));
    assert!(offset_is_computable("01:00:00"));
    assert!(offset_is_computable("x:00"));
    assert!(!offset_is_computable("01:00"));
    assert!(!offset_is_computable("999999:00:00"));
    assert!(remaining_is_in_range("01:02:03"));
    assert!(!remaining_is_in_range("18446744073709551615:00:00"));
    assert!(remaining_is_in_range("18446744073709551615:99:00"));
}

#[test]
fn time_of_day() {
    assert_eq!(format_time_of_day(Timestamp { seconds: 1720278000 + 59, nanos: 0 }), "15:00:59");
    assert_eq!(format_time_of_day(Timestamp { seconds: -1, nanos: 0 }), "23:59:59");
}

#[test]
fn title_bar_texts() {
    let info = convert_session_info(&raw_session(), Some(3)).unwrap();
    let mut bar = TitleBar::default();
    assert_eq!(bar.status_text(), "UNKNOWN");
    assert_eq!(bar.status_color(), TermColor::White);
    let status = TrackStatus { status: 4, message: "SCDeployed".into() };
    let r = bar.update_data(Some(&info), None, Some(&status), Some(Laps { current: 3, total: 52 }), None);
    assert_eq!(r, Some(Action::Render));
    assert_eq!(bar.grand_prix_name, "British Grand Prix");
    assert_eq!(bar.session_name, "Qualifying (Q3)");
    assert_eq!(bar.country_name, "Great Britain");
    assert_eq!(bar.title_text(), "British Grand Prix 2024");
    assert_eq!(bar.status_text(), "SCDEPLOYED");
    assert_eq!(bar.status_color(), TermColor::Yellow);
    assert_eq!(bar.laps_text(), Some("Lap 3/52".to_string()));

    let clear = TrackStatus { status: 1, message: "AllClear".into() };
    bar.update_data(None, None, Some(&clear), None, None);
    assert_eq!(bar.status_color(), TermColor::Green);
    assert_eq!(bar.laps_text(), Some("Lap 3/52".to_string()));
    assert_eq!(bar.grand_prix_name, "British Grand Prix");
    let red = TrackStatus { status: 5, message: "Red".into() };
    bar.update_data(None, None, Some(&red), None, None);
    assert_eq!(bar.status_color(), TermColor::Red);
}

#[test]
fn application_control() {
    let mut c = AppControl::new();
    assert_eq!(c.active_page, ActivePage::LiveTiming);
    assert_eq!(c.update(Action::KeyPress(KeyInput::Char('q'))), AppStep::Done(Some(Action::Quit)));
    assert!(!c.exit);
    assert_eq!(
        c.update(Action::KeyPress(KeyInput::Left)),
        AppStep::Dispatch(Some(EngineCommand::IncreaseDelay(1)))
    );
    assert_eq!(
        c.update(Action::KeyPress(KeyInput::Right)),
        AppStep::Dispatch(Some(EngineCommand::DecreaseDelay(1)))
    );
    assert_eq!(c.update(Action::Tick), AppStep::Dispatch(None));
    assert_eq!(c.update(Action::Navigate(ActivePage::Stints)), AppStep::Done(Some(Action::Render)));
    assert_eq!(c.active_page, ActivePage::Stints);
    assert_eq!(c.update(Action::Quit), AppStep::Done(None));
    assert!(c.exit);

    assert_eq!(state_changed(u64::MAX, 0), (true, 0));
    assert_eq!(state_changed(4, 4), (false, 4));
    assert_eq!(any_render(&vec![None, Some(Action::Tick), Some(Action::Render)]), Some(Action::Render));
    assert_eq!(any_render(&vec![None, Some(Action::Tick)]), None);
}

#[test]
fn clock_runs_down_while_extrapolating() {
    let start = Timestamp { seconds: 1000, nanos: 0 };
    let running = Clock { time_remaining: 3725, updated_at: start, extrapolating: true };
    assert_eq!(clock_text(&running, 1000), "01:02:05");
    assert_eq!(clock_text(&running, 1065), "01:01:00");
    assert_eq!(clock_text(&running, 900), "01:02:05");
    assert_eq!(clock_text(&running, 100000), "00:00:00");
    let stopped = Clock { extrapolating: false, ..running };
    assert_eq!(clock_text(&stopped, 100000), "01:02:05");
    let long = Clock { time_remaining: 360000, updated_at: start, extrapolating: false };
    assert_eq!(clock_text(&long, 0), "100:00:00");
}

#[test]
fn live_delay() {
    assert_eq!(next_delay(0, EngineCommand::IncreaseDelay(1)), 1);
    assert_eq!(next_delay(5, EngineCommand::DecreaseDelay(1)), 4);
    assert_eq!(next_delay(0, EngineCommand::DecreaseDelay(1)), 0);
    assert_eq!(next_delay(u64::MAX, EngineCommand::IncreaseDelay(1)), u64::MAX);

    let arrivals = vec![1000u64, 1500, 2600, 2700];
    assert_eq!(due_count(&arrivals, 2600, 0), 3);
    assert_eq!(due_count(&arrivals, 2600, 1), 2);
    assert_eq!(due_count(&arrivals, 2000, 1), 1);
    assert_eq!(due_count(&arrivals, 1999, 1), 0);
    assert_eq!(due_count(&arrivals, 10000, 2), 4);
    assert_eq!(due_count(&Vec::new(), 0, 0), 0);
    assert_eq!(due_count(&vec![100], 50, 0), 0);
}
