//! The telemetry kept between updates, and the grid that the tables show:
//! each driver with their team, timing and stints, in running order.
use vstd::prelude::*;

use crate::model::circuit::Circuit;
use crate::model::driver::{Driver, DriverNumber};
use crate::model::race_control::RaceControlMessage;
use crate::model::session_info::{QualiPhase, SessionInfo, SessionType};
use crate::model::status::{Clock, Laps, TrackStatus};
use crate::model::stint::Stint;
use crate::model::team::Team;
use crate::model::telemetry::TelemetryUpdate;
use crate::model::timing::{LiveTiming, TimeDiffs};
use crate::parsing::weather_data::RawWeatherData;
use crate::text::str_eq;

verus! {

/// Everything the feed has told so far. `update_version` changes with each
/// update, so that a reader knows when to look again.
#[derive(Debug)]
pub struct TelemetryState {
    pub update_version: u64,
    pub info: Option<SessionInfo>,
    pub circuit: Option<Circuit>,
    pub drivers: Vec<(DriverNumber, Driver)>,
    pub teams: Vec<Team>,
    pub timing_data: Vec<(DriverNumber, LiveTiming)>,
    pub stints: Vec<(DriverNumber, Vec<Stint>)>,
    pub track_status: Option<TrackStatus>,
    pub race_control_messages: Vec<RaceControlMessage>,
    pub weather: Option<RawWeatherData>,
    pub laps: Option<Laps>,
    pub clock: Option<Clock>,
}

/// Whether `s` is the state `old` becomes with update `u`: each part that
/// the update carries replaces the one kept, the others stay, and the
/// version moves on by one (wrapping).
pub open spec fn applied(old: TelemetryState, u: TelemetryUpdate, s: TelemetryState) -> bool {
    &&& s.update_version == (if old.update_version == u64::MAX {
        0
    } else {
        old.update_version + 1
    })
    &&& s.info == (if u.session_info is Some {
        u.session_info
    } else {
        old.info
    })
    &&& s.circuit == (if u.circuit is Some {
        u.circuit
    } else {
        old.circuit
    })
    &&& s.drivers == (if u.drivers is Some {
        u.drivers->Some_0
    } else {
        old.drivers
    })
    &&& s.teams == (if u.teams is Some {
        u.teams->Some_0
    } else {
        old.teams
    })
    &&& s.timing_data == (if u.timing_data is Some {
        u.timing_data->Some_0
    } else {
        old.timing_data
    })
    &&& s.stints == (if u.stints is Some {
        u.stints->Some_0
    } else {
        old.stints
    })
    &&& s.track_status == (if u.track_status is Some {
        u.track_status
    } else {
        old.track_status
    })
    &&& s.race_control_messages == (if u.race_control_messages is Some {
        u.race_control_messages->Some_0
    } else {
        old.race_control_messages
    })
    &&& s.weather == (if u.weather is Some {
        u.weather
    } else {
        old.weather
    })
    &&& s.laps == (if u.laps is Some {
        u.laps
    } else {
        old.laps
    })
    &&& s.clock == (if u.clock is Some {
        u.clock
    } else {
        old.clock
    })
}

/// Where a driver of the grid finds what is known of them: the places of
/// the driver, their team, their timing and their stints in the state.
#[derive(Clone, Copy, PartialEq, Eq, Structural, Debug)]
pub struct ParticipantRef {
    pub driver: usize,
    pub team: usize,
    pub timing: Option<usize>,
    pub stints: Option<usize>,
}

/// Whether team `i` is the first team named `name`.
pub open spec fn is_first_team(teams: Seq<Team>, name: Seq<char>, i: int) -> bool {
    &&& 0 <= i < teams.len()
    &&& teams[i].name.value@ == name
    &&& forall|j: int| 0 <= j < i ==> (#[trigger] teams[j]).name.value@ != name
}

/// Whether some team is named `name`.
pub open spec fn has_team(teams: Seq<Team>, name: Seq<char>) -> bool {
    exists|i: int| 0 <= i < teams.len() && (#[trigger] teams[i]).name.value@ == name
}

/// Where the entries keyed by car number hold car `n`: the first entry
/// for it, or `None` where there is none.
pub open spec fn is_first_entry<X>(entries: Seq<(DriverNumber, X)>, n: DriverNumber, r: Option<usize>) -> bool {
    match r {
        Some(i) => 0 <= i < entries.len() && entries[i as int].0 == n && forall|j: int|
            0 <= j < i ==> (#[trigger] entries[j]).0 != n,
        None => forall|j: int| 0 <= j < entries.len() ==> (#[trigger] entries[j]).0 != n,
    }
}

/// Whether `p` points at a driver of the state and at what is known of
/// them: the first team of their team's name, and the first timing and
/// stints of their car number.
pub open spec fn ref_of(s: TelemetryState, p: ParticipantRef) -> bool {
    let d = s.drivers@[p.driver as int].1;
    &&& p.driver < s.drivers@.len()
    &&& is_first_team(s.teams@, d.team_name.value@, p.team as int)
    &&& is_first_entry(s.timing_data@, d.number, p.timing)
    &&& is_first_entry(s.stints@, d.number, p.stints)
}

/// The running order of a participant: cars with a timing position come
/// first, by that position; the others after them, by their line in the
/// driver list (those without one last).
pub open spec fn rank(s: TelemetryState, p: ParticipantRef) -> (int, int) {
    match p.timing {
        Some(i) if s.timing_data@[i as int].1.position > 0 => (0, s.timing_data@[i as int].1.position as int),
        _ => (1, match s.drivers@[p.driver as int].1.line {
            Some(l) => l as int,
            None => 256,
        }),
    }
}

/// Whether `p` runs ahead of `q`: by rank, then by the order of the driver
/// list.
pub open spec fn ahead(s: TelemetryState, p: ParticipantRef, q: ParticipantRef) -> bool {
    let a = rank(s, p);
    let b = rank(s, q);
    a.0 < b.0 || (a.0 == b.0 && a.1 < b.1) || (a.0 == b.0 && a.1 == b.1 && p.driver < q.driver)
}

/// Whether `g` is the grid of `s`: every driver whose team is known, each
/// once, with what is known of them, in running order.
pub open spec fn grid_of(s: TelemetryState, g: Seq<ParticipantRef>) -> bool {
    &&& forall|k: int| 0 <= k < g.len() ==> ref_of(s, #[trigger] g[k])
    &&& forall|i: int|
        0 <= i < s.drivers@.len() ==> (has_team(s.teams@, (#[trigger] s.drivers@[i]).1.team_name.value@)
            <==> exists|k: int| 0 <= k < g.len() && g[k].driver == i)
    &&& forall|a: int, b: int| 0 <= a < b < g.len() ==> ahead(s, #[trigger] g[a], #[trigger] g[b])
}

/// The gaps of a qualifying phase, where the session is in one and the car
/// has them.
pub open spec fn quali_diffs_of(t: LiveTiming, session_type: Option<SessionType>) -> Option<TimeDiffs> {
    match (t.quali_stats, session_type) {
        (Some(q), Some(SessionType::Qualifying(Some(QualiPhase::Q1)))) => q.q1_diffs,
        (Some(q), Some(SessionType::Qualifying(Some(QualiPhase::Q2)))) => q.q2_diffs,
        (Some(q), Some(SessionType::Qualifying(Some(QualiPhase::Q3)))) => q.q3_diffs,
        _ => None,
    }
}

/// The texts of a pair of gaps.
pub open spec fn diffs_view(d: TimeDiffs) -> (Option<Seq<char>>, Option<Seq<char>>) {
    (text_view(d.to_fastest), text_view(d.to_position_ahead))
}

/// The text of an optional string.
pub open spec fn text_view(o: Option<String>) -> Option<Seq<char>> {
    match o {
        Some(s) => Some(s@),
        None => None,
    }
}

fn copy_text(o: &Option<String>) -> (r: Option<String>)
    ensures
        text_view(r) == text_view(*o),
{
    match o {
        Some(s) => Some(s.clone()),
        None => None,
    }
}

fn copy_diffs(d: &TimeDiffs) -> (r: TimeDiffs)
    ensures
        diffs_view(r) == diffs_view(*d),
{
    TimeDiffs { to_fastest: copy_text(&d.to_fastest), to_position_ahead: copy_text(&d.to_position_ahead) }
}

/// The gaps that a car shows: those of the qualifying phase where there
/// are any, the race gaps otherwise.
pub open spec fn shown_diffs(t: LiveTiming, session_type: Option<SessionType>) -> TimeDiffs {
    match quali_diffs_of(t, session_type) {
        Some(d) => d,
        None => t.time_diffs,
    }
}

fn first_team(teams: &Vec<Team>, name: &str) -> (r: Option<usize>)
    ensures
        match r {
            Some(i) => is_first_team(teams@, name@, i as int),
            None => !has_team(teams@, name@),
        },
{
    let mut i: usize = 0;
    while i < teams.len()
        invariant
            i <= teams@.len(),
            forall|j: int| 0 <= j < i ==> (#[trigger] teams@[j]).name.value@ != name@,
        decreases teams@.len() - i,
    {
        if str_eq(teams[i].name.value.as_str(), name) {
            return Some(i);
        }
        i = i + 1;
    }
    None
}

fn first_entry<X>(entries: &Vec<(DriverNumber, X)>, n: DriverNumber) -> (r: Option<usize>)
    ensures
        is_first_entry(entries@, n, r),
{
    let mut i: usize = 0;
    while i < entries.len()
        invariant
            i <= entries@.len(),
            forall|j: int| 0 <= j < i ==> (#[trigger] entries@[j]).0 != n,
        decreases entries@.len() - i,
    {
        if entries[i].0.value == n.value {
            return Some(i);
        }
        i = i + 1;
    }
    None
}

impl TelemetryState {
    /// The state before any update: nothing known, version 0.
    pub fn new() -> (s: TelemetryState)
        ensures
            s.update_version == 0,
            s.info is None && s.circuit is None && s.track_status is None,
            s.weather is None && s.laps is None && s.clock is None,
            s.drivers@.len() == 0 && s.teams@.len() == 0 && s.timing_data@.len() == 0,
            s.stints@.len() == 0 && s.race_control_messages@.len() == 0,
    {
        TelemetryState {
            update_version: 0,
            info: None,
            circuit: None,
            drivers: Vec::new(),
            teams: Vec::new(),
            timing_data: Vec::new(),
            stints: Vec::new(),
            track_status: None,
            race_control_messages: Vec::new(),
            weather: None,
            laps: None,
            clock: None,
        }
    }

    /// Takes over each part that the update carries (see `applied`).
    pub fn apply(&mut self, u: TelemetryUpdate)
        ensures
            applied(*old(self), u, *final(self)),
    {
        let ghost u0 = u;
        let TelemetryUpdate {
            session_info,
            circuit,
            drivers,
            teams,
            timing_data,
            stints,
            track_status,
            race_control_messages,
            weather,
            laps,
            clock,
        } = u;
        if session_info.is_some() {
            self.info = session_info;
        }
        if circuit.is_some() {
            self.circuit = circuit;
        }
        if let Some(d) = drivers {
            self.drivers = d;
        }
        if let Some(t) = teams {
            self.teams = t;
        }
        if let Some(t) = timing_data {
            self.timing_data = t;
        }
        if let Some(s) = stints {
            self.stints = s;
        }
        if track_status.is_some() {
            self.track_status = track_status;
        }
        if let Some(m) = race_control_messages {
            self.race_control_messages = m;
        }
        if weather.is_some() {
            self.weather = weather;
        }
        if laps.is_some() {
            self.laps = laps;
        }
        if clock.is_some() {
            self.clock = clock;
        }
        self.update_version = self.update_version.wrapping_add(1);
        assert(applied(*old(self), u0, *self));
    }

    /// The running order of participant `p` (see `rank`).
    fn rank_of(&self, p: &ParticipantRef) -> (r: (u8, u16))
        requires
            p.driver < self.drivers@.len(),
            p.timing matches Some(i) ==> i < self.timing_data@.len(),
        ensures
            (r.0 as int, r.1 as int) == rank(*self, *p),
    {
        if let Some(i) = p.timing {
            let pos = self.timing_data[i].1.position;
            if pos > 0 {
                return (0, pos as u16);
            }
        }
        match self.drivers[p.driver].1.line {
            Some(l) => (1, l as u16),
            None => (1, 256),
        }
    }

    /// Whether `p` runs ahead of `q` (see `ahead`).
    fn is_ahead(&self, p: &ParticipantRef, q: &ParticipantRef) -> (r: bool)
        requires
            p.driver < self.drivers@.len(),
            q.driver < self.drivers@.len(),
            p.timing matches Some(i) ==> i < self.timing_data@.len(),
            q.timing matches Some(i) ==> i < self.timing_data@.len(),
        ensures
            r == ahead(*self, *p, *q),
    {
        let a = self.rank_of(p);
        let b = self.rank_of(q);
        a.0 < b.0 || (a.0 == b.0 && a.1 < b.1) || (a.0 == b.0 && a.1 == b.1 && p.driver < q.driver)
    }

    /// The grid (see `grid_of`).
    pub fn participants(&self) -> (g: Vec<ParticipantRef>)
        ensures
            grid_of(*self, g@),
    {
        let mut out: Vec<ParticipantRef> = Vec::new();
        let mut i: usize = 0;
        while i < self.drivers.len()
            invariant
                i <= self.drivers@.len(),
                forall|k: int| 0 <= k < out@.len() ==> ref_of(*self, #[trigger] out@[k]),
                forall|k: int| 0 <= k < out@.len() ==> (#[trigger] out@[k]).driver < i,
                forall|j: int|
                    0 <= j < i ==> (has_team(self.teams@, (#[trigger] self.drivers@[j]).1.team_name.value@)
                        <==> exists|k: int| 0 <= k < out@.len() && out@[k].driver == j),
                forall|a: int, b: int|
                    0 <= a < b < out@.len() ==> ahead(*self, #[trigger] out@[a], #[trigger] out@[b]),
            decreases self.drivers@.len() - i,
        {
            let d = &self.drivers[i].1;
            match first_team(&self.teams, d.team_name.value.as_str()) {
                None => {},
                Some(t) => {
                    let p = ParticipantRef {
                        driver: i,
                        team: t,
                        timing: first_entry(&self.timing_data, d.number),
                        stints: first_entry(&self.stints, d.number),
                    };
                    assert(ref_of(*self, p));
                    let mut k: usize = 0;
                    while k < out.len() && !self.is_ahead(&p, &out[k])
                        invariant
                            k <= out@.len(),
                            ref_of(*self, p),
                            p.driver == i,
                            i < self.drivers@.len(),
                            forall|m: int| 0 <= m < out@.len() ==> ref_of(*self, #[trigger] out@[m]),
                            forall|m: int| 0 <= m < out@.len() ==> (#[trigger] out@[m]).driver < i,
                            forall|m: int| 0 <= m < k ==> ahead(*self, #[trigger] out@[m], p),
                        decreases out@.len() - k,
                    {
                        k = k + 1;
                    }
                    let ghost before = out@;
                    proof {
                        if k < before.len() {
                            assert(ahead(*self, p, before[k as int]));
                            assert forall|m: int| k <= m < before.len() implies ahead(
                                *self,
                                p,
                                #[trigger] before[m],
                            ) by {
                                if m > k {
                                    assert(ahead(*self, before[k as int], before[m]));
                                }
                            }
                        }
                    }
                    out.insert(k, p);
                    proof {
                        assert forall|j: int|
                            0 <= j <= i implies (has_team(
                            self.teams@,
                            (#[trigger] self.drivers@[j]).1.team_name.value@,
                        ) <==> exists|m: int| 0 <= m < out@.len() && out@[m].driver == j) by {
                            if j < i {
                                if exists|m: int| 0 <= m < before.len() && before[m].driver == j {
                                    let m = choose|m: int| 0 <= m < before.len() && before[m].driver == j;
                                    if m < k {
                                        assert(out@[m] == before[m]);
                                    } else {
                                        assert(out@[m + 1] == before[m]);
                                    }
                                }
                                if exists|m: int| 0 <= m < out@.len() && out@[m].driver == j {
                                    let m = choose|m: int| 0 <= m < out@.len() && out@[m].driver == j;
                                    if m < k {
                                        assert(before[m] == out@[m]);
                                    } else if m > k {
                                        assert(before[m - 1] == out@[m]);
                                    }
                                }
                            } else {
                                assert(out@[k as int].driver == i);
                                assert(has_team(self.teams@, d.team_name.value@));
                            }
                        }
                    }
                },
            }
            i = i + 1;
        }
        out
    }

    /// The gaps that participant `p`'s car shows (see `shown_diffs`);
    /// `None` where the car has no timing.
    pub fn shown_diffs_of(&self, p: &ParticipantRef) -> (r: Option<TimeDiffs>)
        requires
            p.timing matches Some(i) ==> i < self.timing_data@.len(),
        ensures
            match p.timing {
                Some(i) => r matches Some(d) && diffs_view(d) == diffs_view(
                    shown_diffs(
                        self.timing_data@[i as int].1,
                        match self.info {
                            Some(info) => Some(info.type_),
                            None => None,
                        },
                    ),
                ),
                None => r is None,
            },
    {
        let t = match p.timing {
            Some(i) => &self.timing_data[i].1,
            None => {
                return None;
            },
        };
        let phase = match &self.info {
            Some(info) => match info.type_ {
                SessionType::Qualifying(Some(q)) => Some(q),
                _ => None,
            },
            None => None,
        };
        let q = match (&t.quali_stats, phase) {
            (Some(s), Some(QualiPhase::Q1)) => &s.q1_diffs,
            (Some(s), Some(QualiPhase::Q2)) => &s.q2_diffs,
            (Some(s), Some(QualiPhase::Q3)) => &s.q3_diffs,
            _ => &None,
        };
        match q {
            Some(d) => Some(copy_diffs(d)),
            None => Some(copy_diffs(&t.time_diffs)),
        }
    }
}

} // verus!
