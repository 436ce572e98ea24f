//! What changed in the canonical state, read for the topics that a batch of
//! messages updated.
use vstd::prelude::*;

use crate::convert::circuit::{self, convert_circuit};
use crate::convert::clock::{self, convert_clock};
use crate::convert::driver::{self, convert_drivers};
use crate::convert::lap_count::convert_lap_count;
use crate::convert::race_control_message::{self, convert_race_control_messages};
use crate::convert::session::{self, convert_session_info};
use crate::convert::stint::{self, convert_stints};
use crate::convert::team::{self, convert_teams};
use crate::convert::timing::{self, convert_timing_data};
use crate::convert::track_status::convert_track_status;
use crate::json::{Json, JsonView};
use crate::model::circuit::Circuit;
use crate::model::driver::{Driver, DriverNumber};
use crate::model::race_control::RaceControlMessage;
use crate::model::session_info::SessionInfo;
use crate::model::status::{Clock, Laps, TrackStatus};
use crate::model::stint::Stint;
use crate::model::team::Team;
use crate::model::telemetry::TelemetryUpdate;
use crate::model::timing::LiveTiming;
use crate::parsing::decode::{self, read_field};
use crate::parsing::driver_list::{self, parse_driver_list, RawDriver};
use crate::parsing::extrapolated_clock::{self, parse_extrapolated_clock};
use crate::parsing::lap_count::{self, parse_raw_lap_count};
use crate::parsing::race_control_messages::{
    self as messages, parse_raw_race_control_messages, RawRaceControlMessages,
};
use crate::parsing::session_data::{self, qualifying_part};
use crate::parsing::session_info::{self as info, parse_raw_session_info, RawSessionInfo};
use crate::parsing::stints::{self as stint_parsing, parse_raw_stints, RawDriverStints};
use crate::parsing::timing_data::{self as timing_parsing, parse_raw_timing_data, RawTimingData};
use crate::parsing::track_status::{self as track_parsing, parse_raw_track_status};
use crate::parsing::weather_data::{self, parse_raw_weather_data, RawWeatherData};
use crate::text;
use crate::topic::{self, Topic};

verus! {

/// The state's member for topic `t`.
pub open spec fn member_of(state: JsonView, t: Topic) -> Option<JsonView> {
    decode::field(state, topic::topic_name(t))
}

fn topic_member<'a>(state: &'a Json, t: Topic) -> (r: Option<&'a Json>)
    ensures
        match member_of(state@, t) {
            Some(v) => r matches Some(x) && x@ == v,
            None => r is None,
        },
{
    read_field(state, t.name())
}

fn was_updated(topics: &[Topic], t: Topic) -> (r: bool)
    ensures
        r == topics@.contains(t),
{
    let mut i: usize = 0;
    while i < topics.len()
        invariant
            i <= topics@.len(),
            forall|j: int| 0 <= j < i ==> topics@[j] != t,
        decreases topics@.len() - i,
    {
        if topics[i] == t {
            assert(topics@[i as int] == t);
            return true;
        }
        i = i + 1;
    }
    false
}

// ---------------------------------------------------------------------------
// What each part of an update is
// ---------------------------------------------------------------------------

/// The session: where `SessionInfo` or `SessionData` was updated and the
/// session information reads and converts, with the qualifying part that
/// the session data names.
pub open spec fn quali_part_of(state: JsonView) -> Option<u8> {
    match member_of(state, Topic::SessionData) {
        Some(d) => match session_data::qualifying_part_of(d) {
            Some(n) => Some(n as u8),
            None => None,
        },
        None => None,
    }
}

pub open spec fn session_update(state: JsonView, topics: Seq<Topic>, r: Option<SessionInfo>) -> bool {
    if !(topics.contains(Topic::SessionInfo) || topics.contains(Topic::SessionData)) {
        r is None
    } else {
        match member_of(state, Topic::SessionInfo) {
            None => r is None,
            Some(v) => if !(v is Object) || !info::session_info_ok(v) {
                r is None
            } else {
                exists|raw: RawSessionInfo|
                    #![trigger info::session_info_of(v, raw)]
                    info::session_info_of(v, raw) && match session::session_error(
                        raw,
                        quali_part_of(state),
                    ) {
                        Some(_) => r is None,
                        None => r matches Some(s) && session::session_from(
                            raw,
                            quali_part_of(state),
                            s,
                        ),
                    }
            },
        }
    }
}

/// Whether the session converts without a panic: the offset computes
/// wherever the checks before it pass.
pub open spec fn session_convertible(state: JsonView) -> bool {
    member_of(state, Topic::SessionInfo) matches Some(v) ==> forall|raw: RawSessionInfo|
        #![trigger info::session_info_of(v, raw)]
        info::session_info_of(v, raw) ==> (session::session_status_of(raw.SessionStatus@) is Some
            && session::archive_status_of(raw.ArchiveStatus.Status@) is Some
            && session::session_type_of(raw.Type@, quali_part_of(state)) is Some
            ==> session::offset_computable(raw.GmtOffset@))
}

/// The race control messages of the state, where they read.
pub open spec fn rcm_of(state: JsonView, rcm: Option<RawRaceControlMessages>) -> bool {
    match member_of(state, Topic::RaceControlMessages) {
        Some(v) => if v is Object && messages::raw_messages_ok(v) {
            rcm matches Some(m) && messages::raw_messages_of(v, m)
        } else {
            rcm is None
        },
        None => rcm is None,
    }
}

/// The circuit: where `SessionInfo` or `RaceControlMessages` was updated and
/// the session information reads.
pub open spec fn circuit_update(state: JsonView, topics: Seq<Topic>, r: Option<Circuit>) -> bool {
    if !(topics.contains(Topic::SessionInfo) || topics.contains(Topic::RaceControlMessages)) {
        r is None
    } else {
        match member_of(state, Topic::SessionInfo) {
            None => r is None,
            Some(v) => if !(v is Object) || !info::session_info_ok(v) {
                r is None
            } else {
                r matches Some(c) && exists|raw: RawSessionInfo, rcm: Option<RawRaceControlMessages>|
                    #![trigger info::session_info_of(v, raw), rcm_of(state, rcm)]
                    info::session_info_of(v, raw) && rcm_of(state, rcm) && c.key
                        == crate::model::circuit::CircuitKey(raw.Meeting.Circuit.Key)
                        && c.short_name@ == raw.Meeting.Circuit.ShortName@ && (circuit::start_year(
                        raw,
                    ) matches Some(y) ==> c.year == y) && circuit::status_view(c.status)
                        == circuit::circuit_status_of(
                        match rcm {
                            Some(m) => Some(&m),
                            None => None,
                        },
                    )
            },
        }
    }
}

/// The drivers: where `DriverList` was updated and is an object.
pub open spec fn drivers_update(
    state: JsonView,
    topics: Seq<Topic>,
    r: Option<Vec<(DriverNumber, Driver)>>,
) -> bool {
    if !topics.contains(Topic::DriverList) {
        r is None
    } else {
        match member_of(state, Topic::DriverList) {
            Some(JsonView::Object(m)) => r matches Some(d) && exists|raw: Seq<(String, RawDriver)>|
                #![trigger driver_list_read(m, raw)]
                driver_list_read(m, raw) && crate::convert::keyed::entry_keys(d@)
                    == crate::convert::keyed::first_keys(driver::driver_keys(raw)) && forall|j: int|
                    0 <= j < d@.len() ==> driver::driver_from(
                        raw[crate::convert::keyed::last_with(
                            driver::driver_keys(raw),
                            d@[j].0.value as nat,
                        )].1,
                        (#[trigger] d@[j]).1,
                    ),
            _ => r is None,
        }
    }
}

/// Whether `raw` holds the drivers listed in `m`.
pub open spec fn driver_list_read(m: crate::json::Members, raw: Seq<(String, RawDriver)>) -> bool {
    let want = driver_list::listed_drivers(m);
    &&& raw.len() == want.len()
    &&& forall|i: int|
        0 <= i < raw.len() ==> (#[trigger] raw[i]).0@ == want[i].0 && driver_list::raw_driver_of(
            want[i].1,
            raw[i].1,
        )
}

/// The teams: where `DriverList` was updated and is an object.
pub open spec fn teams_update(state: JsonView, topics: Seq<Topic>, r: Option<Vec<Team>>) -> bool {
    if !topics.contains(Topic::DriverList) {
        r is None
    } else {
        match member_of(state, Topic::DriverList) {
            Some(JsonView::Object(m)) => r matches Some(t) && exists|raw: Seq<(String, RawDriver)>|
                #![trigger driver_list_read(m, raw)]
                driver_list_read(m, raw) && t@.map_values(
                    |x: Team| crate::parsing::teams::team_view(x),
                ) == crate::parsing::teams::gather_teams(team::line_teams(raw)),
            _ => r is None,
        }
    }
}

/// Whether `raw` holds the timing of the cars of `Lines` of `v`.
pub open spec fn timing_read(v: JsonView, raw: Seq<(String, RawTimingData)>) -> bool {
    decode::field(v, "Lines"@) matches Some(JsonView::Object(m)) && ({
        let want = timing_parsing::timed_cars(m);
        &&& raw.len() == want.len()
        &&& forall|i: int|
            0 <= i < raw.len() ==> (#[trigger] raw[i]).0@ == want[i].0 && timing_parsing::timing_of(
                want[i].1,
                raw[i].1,
            )
    })
}

/// Whether a topic's `Lines` member is an object.
pub open spec fn has_lines(v: JsonView) -> bool {
    decode::field(v, "Lines"@) matches Some(l) && l is Object
}

/// The timing: where `TimingData` was updated and its `Lines` is an object.
pub open spec fn timing_update(
    state: JsonView,
    topics: Seq<Topic>,
    r: Option<Vec<(DriverNumber, LiveTiming)>>,
) -> bool {
    if !topics.contains(Topic::TimingData) {
        r is None
    } else {
        match member_of(state, Topic::TimingData) {
            Some(v) => if has_lines(v) {
                r matches Some(d) && exists|raw: Seq<(String, RawTimingData)>|
                    #![trigger timing_read(v, raw)]
                    timing_read(v, raw) && d@.len() == timing::timing_keys(raw).len() && forall|
                        j: int,
                    |
                        0 <= j < d@.len() ==> {
                            let k = timing::timing_keys(raw)[j];
                            &&& (#[trigger] d@[j]).0.value as nat == k
                            &&& timing::live_timing_from(raw[timing::source_of(raw, k)].1, d@[j].1)
                            &&& d@[j].1.lap_data.best_lap.overall_fastest == (
                            d@[j].1.lap_data.best_lap.time == Some(timing::fastest_best(raw)))
                        }
            } else {
                r is None
            },
            None => r is None,
        }
    }
}

/// Whether `raw` holds the stints of the cars of `Lines` of `v`.
pub open spec fn stints_read(v: JsonView, raw: Seq<(String, RawDriverStints)>) -> bool {
    decode::field(v, "Lines"@) matches Some(JsonView::Object(m)) && ({
        let want = stint_parsing::stinted_cars(m);
        &&& raw.len() == want.len()
        &&& forall|i: int|
            0 <= i < raw.len() ==> (#[trigger] raw[i]).0@ == want[i].0
                && stint_parsing::driver_stints_of(want[i].1, raw[i].1)
    })
}

/// The stints: where `TimingAppData` was updated and its `Lines` is an object.
pub open spec fn stints_update(
    state: JsonView,
    topics: Seq<Topic>,
    r: Option<Vec<(DriverNumber, Vec<Stint>)>>,
) -> bool {
    if !topics.contains(Topic::TimingAppData) {
        r is None
    } else {
        match member_of(state, Topic::TimingAppData) {
            Some(v) => if has_lines(v) {
                r matches Some(d) && exists|raw: Seq<(String, RawDriverStints)>|
                    #![trigger stints_read(v, raw)]
                    stints_read(v, raw) && crate::convert::keyed::entry_keys(d@)
                        == crate::convert::keyed::first_keys(stint::stint_keys(raw)) && forall|
                        j: int,
                    |
                        0 <= j < d@.len() ==> (#[trigger] d@[j]).1@ == stint::stints_of(
                            raw[crate::convert::keyed::last_with(
                                stint::stint_keys(raw),
                                d@[j].0.value as nat,
                            )].1,
                        )
            } else {
                r is None
            },
            None => r is None,
        }
    }
}

/// The track status: where `TrackStatus` was updated, reads, and its status
/// code is an `u8`.
pub open spec fn track_status_update(state: JsonView, topics: Seq<Topic>, r: Option<TrackStatus>) -> bool {
    if !topics.contains(Topic::TrackStatus) {
        r is None
    } else {
        match member_of(state, Topic::TrackStatus) {
            Some(v) => if track_parsing::raw_track_status_ok(v) {
                match text::parse_unsigned(
                    decode::req_text(v, "Status"@)->Some_0,
                    u8::MAX as nat,
                ) {
                    Some(n) => r matches Some(t) && t.status as nat == n && Some(t.message@)
                        == decode::req_text(v, "Message"@),
                    None => r is None,
                }
            } else {
                r is None
            },
            None => r is None,
        }
    }
}

/// The race control messages: where `RaceControlMessages` was updated,
/// reads, and every message converts.
pub open spec fn messages_update(
    state: JsonView,
    topics: Seq<Topic>,
    r: Option<Vec<RaceControlMessage>>,
) -> bool {
    if !topics.contains(Topic::RaceControlMessages) {
        r is None
    } else {
        match member_of(state, Topic::RaceControlMessages) {
            Some(v) => if v is Object && messages::raw_messages_ok(v) {
                exists|raw: RawRaceControlMessages|
                    #![trigger messages::raw_messages_of(v, raw)]
                    messages::raw_messages_of(v, raw) && match race_control_message::first_failure(
                        raw.Messages@,
                    ) {
                        Some(_) => r is None,
                        None => r matches Some(ms) && ms@.len() == raw.Messages@.len() && forall|
                            i: int,
                        |
                            0 <= i < ms@.len() ==> race_control_message::converted(
                                raw.Messages@[i],
                                Ok(#[trigger] ms@[i]),
                            ),
                    }
            } else {
                r is None
            },
            None => r is None,
        }
    }
}

/// The weather, as the feed sends it: where `WeatherData` was updated and
/// reads.
pub open spec fn weather_update(state: JsonView, topics: Seq<Topic>, r: Option<RawWeatherData>) -> bool {
    if !topics.contains(Topic::WeatherData) {
        r is None
    } else {
        match member_of(state, Topic::WeatherData) {
            Some(v) => if weather_data::raw_weather_ok(v) {
                r matches Some(w) && weather_data::raw_weather_of(v, w)
            } else {
                r is None
            },
            None => r is None,
        }
    }
}

/// The lap count: where `LapCount` was updated and reads.
pub open spec fn laps_update(state: JsonView, topics: Seq<Topic>, r: Option<Laps>) -> bool {
    if !topics.contains(Topic::LapCount) {
        r is None
    } else {
        match member_of(state, Topic::LapCount) {
            Some(v) => if v is Object && lap_count::raw_lap_count_ok(v) {
                r matches Some(l) && decode::req_uint(v, "CurrentLap"@, u8::MAX as nat) == Some(
                    l.current as nat,
                ) && decode::req_uint(v, "TotalLaps"@, u8::MAX as nat) == Some(l.total as nat)
            } else {
                r is None
            },
            None => r is None,
        }
    }
}

/// The clock: where `ExtrapolatedClock` was updated, reads and converts.
pub open spec fn clock_update(state: JsonView, topics: Seq<Topic>, r: Option<Clock>) -> bool {
    if !topics.contains(Topic::ExtrapolatedClock) {
        r is None
    } else {
        match member_of(state, Topic::ExtrapolatedClock) {
            Some(v) => if v is Object && extrapolated_clock::raw_clock_ok(v) {
                match clock::clock_from(
                    decode::req_text(v, "Remaining"@)->Some_0,
                    decode::req_text(v, "Utc"@)->Some_0,
                    decode::req_bool(v, "Extrapolating"@)->Some_0,
                ) {
                    Ok(c) => r == Some(c),
                    Err(_) => r is None,
                }
            } else {
                r is None
            },
            None => r is None,
        }
    }
}

/// Whether the clock converts without overflow.
pub open spec fn clock_convertible(state: JsonView) -> bool {
    match member_of(state, Topic::ExtrapolatedClock) {
        Some(v) => v is Object && extrapolated_clock::raw_clock_ok(v) ==> clock::remaining_fits(
            decode::req_text(v, "Remaining"@)->Some_0,
        ),
        None => true,
    }
}

// ---------------------------------------------------------------------------
// Executable
// ---------------------------------------------------------------------------

fn extract_session_info_update(canonical_state: &Json, updated_topics: &[Topic]) -> (r: Option<
    SessionInfo,
>)
    requires
        session_convertible(canonical_state@),
    ensures
        session_update(canonical_state@, updated_topics@, r),
{
    if !(was_updated(updated_topics, Topic::SessionInfo) || was_updated(
        updated_topics,
        Topic::SessionData,
    )) {
        return None;
    }
    let info_data = topic_member(canonical_state, Topic::SessionInfo)?;
    match parse_raw_session_info(info_data) {
        Ok(raw_info) => {
            let quali_part = match topic_member(canonical_state, Topic::SessionData) {
                Some(d) => qualifying_part(d),
                None => None,
            };
            assert(info::session_info_of(info_data@, raw_info));
            match convert_session_info(&raw_info, quali_part) {
                Ok(info) => Some(info),
                Err(_) => None,
            }
        },
        Err(_) => None,
    }
}

fn read_rcm(canonical_state: &Json) -> (r: Option<RawRaceControlMessages>)
    ensures
        rcm_of(canonical_state@, r),
{
    match topic_member(canonical_state, Topic::RaceControlMessages) {
        Some(data) => match parse_raw_race_control_messages(data) {
            Ok(m) => Some(m),
            Err(_) => None,
        },
        None => None,
    }
}

fn extract_circuit_update(canonical_state: &Json, updated_topics: &[Topic]) -> (r: Option<Circuit>)
    ensures
        circuit_update(canonical_state@, updated_topics@, r),
{
    if !(was_updated(updated_topics, Topic::SessionInfo) || was_updated(
        updated_topics,
        Topic::RaceControlMessages,
    )) {
        return None;
    }
    let info_data = topic_member(canonical_state, Topic::SessionInfo)?;
    let rcm = read_rcm(canonical_state);
    match parse_raw_session_info(info_data) {
        Ok(raw_info) => {
            let c = match &rcm {
                Some(m) => convert_circuit(&raw_info, Some(m)),
                None => convert_circuit(&raw_info, None),
            };
            assert(info::session_info_of(info_data@, raw_info) && rcm_of(canonical_state@, rcm));
            Some(c)
        },
        Err(_) => None,
    }
}

fn extract_drivers_update(canonical_state: &Json, updated_topics: &[Topic]) -> (r: Option<
    Vec<(DriverNumber, Driver)>,
>)
    ensures
        drivers_update(canonical_state@, updated_topics@, r),
{
    if !was_updated(updated_topics, Topic::DriverList) {
        return None;
    }
    let topic_data = topic_member(canonical_state, Topic::DriverList)?;
    match parse_driver_list(topic_data) {
        Ok(raw_drivers) => {
            let d = convert_drivers(&raw_drivers);
            proof {
                if let JsonView::Object(m) = topic_data@ {
                    assert(driver_list_read(m, raw_drivers@));
                }
            }
            Some(d)
        },
        Err(_) => None,
    }
}

fn extract_teams_update(canonical_state: &Json, updated_topics: &[Topic]) -> (r: Option<Vec<Team>>)
    ensures
        teams_update(canonical_state@, updated_topics@, r),
{
    if !was_updated(updated_topics, Topic::DriverList) {
        return None;
    }
    let topic_data = topic_member(canonical_state, Topic::DriverList)?;
    match parse_driver_list(topic_data) {
        Ok(raw_drivers) => {
            let t = convert_teams(&raw_drivers);
            proof {
                if let JsonView::Object(m) = topic_data@ {
                    assert(driver_list_read(m, raw_drivers@));
                }
            }
            Some(t)
        },
        Err(_) => None,
    }
}

fn extract_timing_data_update(canonical_state: &Json, updated_topics: &[Topic]) -> (r: Option<
    Vec<(DriverNumber, LiveTiming)>,
>)
    ensures
        timing_update(canonical_state@, updated_topics@, r),
{
    if !was_updated(updated_topics, Topic::TimingData) {
        return None;
    }
    let topic_data = topic_member(canonical_state, Topic::TimingData)?;
    match parse_raw_timing_data(topic_data) {
        Ok(raw_timing) => {
            let d = convert_timing_data(&raw_timing);
            assert(timing_read(topic_data@, raw_timing@));
            Some(d)
        },
        Err(_) => None,
    }
}

fn extract_stints_update(canonical_state: &Json, updated_topics: &[Topic]) -> (r: Option<
    Vec<(DriverNumber, Vec<Stint>)>,
>)
    ensures
        stints_update(canonical_state@, updated_topics@, r),
{
    if !was_updated(updated_topics, Topic::TimingAppData) {
        return None;
    }
    let topic_data = topic_member(canonical_state, Topic::TimingAppData)?;
    match parse_raw_stints(topic_data) {
        Ok(raw_stints) => {
            let d = convert_stints(&raw_stints);
            assert(stints_read(topic_data@, raw_stints@));
            Some(d)
        },
        Err(_) => None,
    }
}

fn extract_track_status_update(canonical_state: &Json, updated_topics: &[Topic]) -> (r: Option<
    TrackStatus,
>)
    ensures
        track_status_update(canonical_state@, updated_topics@, r),
{
    if !was_updated(updated_topics, Topic::TrackStatus) {
        return None;
    }
    let topic_data = topic_member(canonical_state, Topic::TrackStatus)?;
    match parse_raw_track_status(topic_data) {
        Ok(raw_status) => match convert_track_status(&raw_status) {
            Ok(t) => Some(t),
            Err(_) => None,
        },
        Err(_) => None,
    }
}

fn extract_race_control_messages_update(
    canonical_state: &Json,
    updated_topics: &[Topic],
) -> (r: Option<Vec<RaceControlMessage>>)
    ensures
        messages_update(canonical_state@, updated_topics@, r),
{
    if !was_updated(updated_topics, Topic::RaceControlMessages) {
        return None;
    }
    let topic_data = topic_member(canonical_state, Topic::RaceControlMessages)?;
    match parse_raw_race_control_messages(topic_data) {
        Ok(raw_messages) => {
            let converted = convert_race_control_messages(raw_messages.Messages.as_slice());
            assert(messages::raw_messages_of(topic_data@, raw_messages));
            match converted {
                Ok(ms) => Some(ms),
                Err(_) => None,
            }
        },
        Err(_) => None,
    }
}

fn extract_weather_update(canonical_state: &Json, updated_topics: &[Topic]) -> (r: Option<
    RawWeatherData,
>)
    ensures
        weather_update(canonical_state@, updated_topics@, r),
{
    if !was_updated(updated_topics, Topic::WeatherData) {
        return None;
    }
    let topic_data = topic_member(canonical_state, Topic::WeatherData)?;
    match parse_raw_weather_data(topic_data) {
        Ok(w) => Some(w),
        Err(_) => None,
    }
}

fn extract_lap_count_update(canonical_state: &Json, updated_topics: &[Topic]) -> (r: Option<Laps>)
    ensures
        laps_update(canonical_state@, updated_topics@, r),
{
    if !was_updated(updated_topics, Topic::LapCount) {
        return None;
    }
    let topic_data = topic_member(canonical_state, Topic::LapCount)?;
    match parse_raw_lap_count(topic_data) {
        Ok(raw_laps) => Some(convert_lap_count(&raw_laps)),
        Err(_) => None,
    }
}

fn extract_clock_update(canonical_state: &Json, updated_topics: &[Topic]) -> (r: Option<Clock>)
    requires
        clock_convertible(canonical_state@),
    ensures
        clock_update(canonical_state@, updated_topics@, r),
{
    if !was_updated(updated_topics, Topic::ExtrapolatedClock) {
        return None;
    }
    let topic_data = topic_member(canonical_state, Topic::ExtrapolatedClock)?;
    match parse_extrapolated_clock(topic_data) {
        Ok(raw_clock) => match convert_clock(&raw_clock) {
            Ok(c) => Some(c),
            Err(_) => None,
        },
        Err(_) => None,
    }
}

/// Whether the state can be read without overflow: the session's offset
/// and the clock's remaining time, where they read, are in range.
pub fn updates_convertible(canonical_state: &Json) -> (r: bool)
    ensures
        r == (session_convertible(canonical_state@) && clock_convertible(canonical_state@)),
{
    let session_ok = match topic_member(canonical_state, Topic::SessionInfo) {
        None => true,
        Some(info_data) => match parse_raw_session_info(info_data) {
            Err(_) => {
                assert forall|raw: RawSessionInfo|
                    #![trigger info::session_info_of(info_data@, raw)]
                    !info::session_info_of(info_data@, raw) by {
                    if info::session_info_of(info_data@, raw) {
                        let m = decode::field(info_data@, "Meeting"@)->Some_0;
                        assert(info::country_of(
                            decode::field(m, "Country"@)->Some_0,
                            raw.Meeting.Country,
                        ));
                    }
                }
                true
            },
            Ok(raw_info) => {
                let quali_part = match topic_member(canonical_state, Topic::SessionData) {
                    Some(d) => qualifying_part(d),
                    None => None,
                };
                let applies = session::session_status(raw_info.SessionStatus.as_str()).is_some()
                    && session::archive_status(raw_info.ArchiveStatus.Status.as_str()).is_some()
                    && session::session_type(raw_info.Type.as_str(), quali_part).is_some();
                !applies || session::offset_is_computable(raw_info.GmtOffset.as_str())
            },
        },
    };
    let clock_ok = match topic_member(canonical_state, Topic::ExtrapolatedClock) {
        None => true,
        Some(data) => match parse_extrapolated_clock(data) {
            Ok(raw_clock) => clock::remaining_is_in_range(raw_clock.Remaining.as_str()),
            Err(_) => true,
        },
    };
    session_ok && clock_ok
}

/// Whether `u` is what the canonical state gives for the updated topics.
pub open spec fn update_of(state: JsonView, topics: Seq<Topic>, u: TelemetryUpdate) -> bool {
    &&& session_update(state, topics, u.session_info)
    &&& circuit_update(state, topics, u.circuit)
    &&& drivers_update(state, topics, u.drivers)
    &&& teams_update(state, topics, u.teams)
    &&& timing_update(state, topics, u.timing_data)
    &&& stints_update(state, topics, u.stints)
    &&& track_status_update(state, topics, u.track_status)
    &&& messages_update(state, topics, u.race_control_messages)
    &&& weather_update(state, topics, u.weather)
    &&& laps_update(state, topics, u.laps)
    &&& clock_update(state, topics, u.clock)
}

/// Reads, for the topics that were updated, what changed in the canonical
/// state. A part is there only where one of its topics was updated and its
/// member of the state reads and converts.
pub fn extract_updates(canonical_state: &Json, updated_topics: &[Topic]) -> (u: TelemetryUpdate)
    requires
        session_convertible(canonical_state@),
        clock_convertible(canonical_state@),
    ensures
        update_of(canonical_state@, updated_topics@, u),
{
    TelemetryUpdate {
        session_info: extract_session_info_update(canonical_state, updated_topics),
        circuit: extract_circuit_update(canonical_state, updated_topics),
        drivers: extract_drivers_update(canonical_state, updated_topics),
        teams: extract_teams_update(canonical_state, updated_topics),
        timing_data: extract_timing_data_update(canonical_state, updated_topics),
        stints: extract_stints_update(canonical_state, updated_topics),
        track_status: extract_track_status_update(canonical_state, updated_topics),
        race_control_messages: extract_race_control_messages_update(canonical_state, updated_topics),
        weather: extract_weather_update(canonical_state, updated_topics),
        laps: extract_lap_count_update(canonical_state, updated_topics),
        clock: extract_clock_update(canonical_state, updated_topics),
    }
}

} // verus!
