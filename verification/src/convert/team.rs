//! The teams of the drivers of the driver list.
use vstd::prelude::*;

use crate::model::team::{Team, TeamColor, TeamName};
use crate::parsing::decode::FeedError;
use crate::parsing::driver_list::RawDriver;
use crate::parsing::teams::{self, upsert_team, TeamEntry};
use crate::text::{self, parse_hex_u32_str};

verus! {

/// The team a driver names, where its colour reads as hexadecimal.
pub open spec fn raw_team_entry(p: RawDriver) -> Option<TeamEntry> {
    match text::parse_hex_u32(p.TeamColour@) {
        Some(c) => Some((p.TeamName@, c)),
        None => None,
    }
}

impl Team {
    /// The team a driver record names; a colour that is not hexadecimal
    /// `RRGGBB` within 32 bits gives `InvalidNumber`.
    pub fn try_from_raw(payload: &RawDriver) -> (r: Result<Team, FeedError>)
        ensures
            match raw_team_entry(*payload) {
                Some(t) => r matches Ok(x) && teams::team_view(x) == t,
                None => r == Err::<Team, FeedError>(FeedError::InvalidNumber),
            },
    {
        match parse_hex_u32_str(payload.TeamColour.as_str()) {
            Some(c) => Ok(
                Team {
                    name: TeamName { value: payload.TeamName.clone() },
                    color: TeamColor { u32: c },
                },
            ),
            None => Err(FeedError::InvalidNumber),
        }
    }
}

/// The team each line names.
pub open spec fn line_teams(lines: Seq<(String, RawDriver)>) -> Seq<Option<TeamEntry>> {
    lines.map_values(|e: (String, RawDriver)| raw_team_entry(e.1))
}

/// The teams of the drivers, each once, in order of first mention, with
/// the colour of the last driver that names it; drivers whose colour does
/// not read are skipped.
pub fn convert_teams(raw_drivers: &Vec<(String, RawDriver)>) -> (r: Vec<Team>)
    ensures
        r@.map_values(|x: Team| teams::team_view(x)) == teams::gather_teams(line_teams(raw_drivers@)),
{
    let ghost es = line_teams(raw_drivers@);
    let mut out: Vec<Team> = Vec::new();
    let mut i: usize = 0;
    assert(out@.map_values(|x: Team| teams::team_view(x)) =~= teams::gather_teams(es.take(0)));
    while i < raw_drivers.len()
        invariant
            es == line_teams(raw_drivers@),
            i <= raw_drivers@.len(),
            out@.map_values(|x: Team| teams::team_view(x)) == teams::gather_teams(es.take(i as int)),
        decreases raw_drivers@.len() - i,
    {
        assert(es.take(i + 1).drop_last() =~= es.take(i as int));
        assert(es.take(i + 1).last() == raw_team_entry(raw_drivers@[i as int].1));
        match Team::try_from_raw(&raw_drivers[i].1) {
            Ok(t) => {
                proof {
                    teams::lemma_teams_unique(es.take(i as int));
                }
                upsert_team(&mut out, t);
            },
            Err(_) => {},
        }
        i = i + 1;
    }
    assert(es.take(raw_drivers@.len() as int) =~= es);
    out
}

} // verus!
