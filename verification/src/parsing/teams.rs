//! Teams, read from the `DriverList` topic: each driver entry names its
//! team and the team's colour.
use vstd::prelude::*;

use crate::json::{self, Json, JsonView, Members};
use crate::model::team::{Team, TeamColor, TeamName};
use crate::parsing::decode::{self, read_req_text, FeedError};
use crate::text::{self, parse_hex_u32_str, str_eq};

verus! {

/// A team as a name and a colour.
pub type TeamEntry = (Seq<char>, nat);

/// The team that a driver entry names, if it names one with a colour that
/// reads as hexadecimal. Entries such as the medical car's do not.
pub open spec fn team_entry(v: JsonView) -> Option<TeamEntry> {
    match (decode::req_text(v, "TeamName"@), decode::req_text(v, "TeamColour"@)) {
        (Some(name), Some(colour)) => match text::parse_hex_u32(colour) {
            Some(c) => Some((name, c)),
            None => None,
        },
        _ => None,
    }
}

/// Where a team of that name stands in `teams`.
pub open spec fn team_index(teams: Seq<TeamEntry>, name: Seq<char>) -> Option<int>
    decreases teams.len(),
{
    if teams.len() == 0 {
        None
    } else if teams.last().0 == name {
        Some(teams.len() - 1)
    } else {
        team_index(teams.drop_last(), name)
    }
}

/// `teams` with `t` in place of the team of its name, or added at the end.
pub open spec fn upsert(teams: Seq<TeamEntry>, t: TeamEntry) -> Seq<TeamEntry> {
    match team_index(teams, t.0) {
        Some(i) => teams.update(i, t),
        None => teams.push(t),
    }
}

/// The teams named, in order of first mention; a later mention of the
/// same team gives its colour. `None` stands for an entry that names none.
pub open spec fn gather_teams(es: Seq<Option<TeamEntry>>) -> Seq<TeamEntry>
    decreases es.len(),
{
    if es.len() == 0 {
        Seq::empty()
    } else {
        let r = gather_teams(es.drop_last());
        match es.last() {
            Some(t) => upsert(r, t),
            None => r,
        }
    }
}

/// The team each driver entry names.
pub open spec fn member_entries(m: Members) -> Seq<Option<TeamEntry>> {
    m.map_values(|e: (Seq<char>, JsonView)| team_entry(e.1))
}

/// The teams of the driver entries.
pub open spec fn teams_of(m: Members) -> Seq<TeamEntry> {
    gather_teams(member_entries(m))
}

/// The view of a team.
pub open spec fn team_view(t: Team) -> TeamEntry {
    (t.name.value@, t.color.u32 as nat)
}

/// No two teams share a name.
pub open spec fn names_unique(teams: Seq<TeamEntry>) -> bool {
    forall|i: int, j: int| 0 <= i < j < teams.len() ==> teams[i].0 != teams[j].0
}

proof fn lemma_team_index(teams: Seq<TeamEntry>, name: Seq<char>)
    ensures
        match team_index(teams, name) {
            Some(i) => 0 <= i < teams.len() && teams[i].0 == name,
            None => forall|j: int| 0 <= j < teams.len() ==> teams[j].0 != name,
        },
    decreases teams.len(),
{
    if teams.len() > 0 && teams.last().0 != name {
        let d = teams.drop_last();
        lemma_team_index(d, name);
        match team_index(d, name) {
            Some(i) => {
                assert(d[i] == teams[i]);
            },
            None => {
                assert forall|j: int| 0 <= j < teams.len() implies teams[j].0 != name by {
                    if j < teams.len() - 1 {
                        assert(d[j] == teams[j]);
                    }
                }
            },
        }
    }
}

proof fn lemma_team_index_unique(teams: Seq<TeamEntry>, name: Seq<char>, k: int)
    requires
        names_unique(teams),
        0 <= k < teams.len(),
        teams[k].0 == name,
    ensures
        team_index(teams, name) == Some(k),
    decreases teams.len(),
{
    if k < teams.len() - 1 {
        lemma_team_index_unique(teams.drop_last(), name, k);
    }
}

/// The teams stay unique by name however the entries run.
pub proof fn lemma_teams_unique(es: Seq<Option<TeamEntry>>)
    ensures
        names_unique(gather_teams(es)),
    decreases es.len(),
{
    if es.len() > 0 {
        lemma_teams_unique(es.drop_last());
        let r = gather_teams(es.drop_last());
        match es.last() {
            Some(t) => {
                lemma_team_index(r, t.0);
            },
            None => {},
        }
    }
}

fn decode_team(v: &Json) -> (r: Option<Team>)
    ensures
        match team_entry(v@) {
            Some(t) => r matches Some(x) && team_view(x) == t,
            None => r is None,
        },
{
    let name = read_req_text(v, "TeamName")?;
    let colour = read_req_text(v, "TeamColour")?;
    let c = parse_hex_u32_str(colour.as_str())?;
    Some(Team { name: TeamName { value: name }, color: TeamColor { u32: c } })
}

pub(crate) fn upsert_team(teams: &mut Vec<Team>, t: Team)
    requires
        names_unique(old(teams)@.map_values(|x: Team| team_view(x))),
    ensures
        final(teams)@.map_values(|x: Team| team_view(x)) == upsert(
            old(teams)@.map_values(|x: Team| team_view(x)),
            team_view(t),
        ),
{
    let ghost tv = teams@.map_values(|x: Team| team_view(x));
    let mut i: usize = 0;
    while i < teams.len()
        invariant
            tv == teams@.map_values(|x: Team| team_view(x)),
            names_unique(tv),
            teams@ == old(teams)@,
            i <= teams.len(),
            forall|j: int| 0 <= j < i ==> tv[j].0 != t.name.value@,
        decreases teams.len() - i,
    {
        if str_eq(teams[i].name.value.as_str(), t.name.value.as_str()) {
            proof {
                lemma_team_index_unique(tv, t.name.value@, i as int);
            }
            teams.set(i, t);
            proof {
                assert(teams@.map_values(|x: Team| team_view(x)) =~= tv.update(i as int, team_view(t)));
            }
            return;
        }
        i = i + 1;
    }
    proof {
        lemma_team_index(tv, t.name.value@);
        assert(team_index(tv, t.name.value@) is None);
    }
    teams.push(t);
    proof {
        assert(teams@.map_values(|x: Team| team_view(x)) =~= tv.push(team_view(t)));
    }
}

/// Reads the teams out of the driver entries of `val`, in order of first
/// mention; each team once, with the colour of its last entry. Entries
/// that name no team, or a colour that does not read, are skipped. A value
/// that is not an object gives `NotAnObject`.
pub fn parse_teams(val: &Json) -> (r: Result<Vec<Team>, FeedError>)
    ensures
        match val@ {
            JsonView::Object(m) => r is Ok && r->Ok_0@.map_values(|x: Team| team_view(x))
                == teams_of(m),
            _ => r == Err::<Vec<Team>, FeedError>(FeedError::NotAnObject),
        },
{
    match val {
        Json::Object(members) => {
            proof {
                json::lemma_object_view(*members);
            }
            let ghost m = json::members_view(members@);
            let ghost es = member_entries(m);
            let mut out: Vec<Team> = Vec::new();
            let mut i: usize = 0;
            assert(out@.map_values(|x: Team| team_view(x)) =~= gather_teams(es.take(0)));
            while i < members.len()
                invariant
                    m == json::members_view(members@),
                    es == member_entries(m),
                    i <= members.len(),
                    out@.map_values(|x: Team| team_view(x)) == gather_teams(es.take(i as int)),
                decreases members.len() - i,
            {
                assert(es.take(i + 1).drop_last() =~= es.take(i as int));
                assert(es.take(i + 1).last() == team_entry(m[i as int].1));
                match decode_team(&members[i].1) {
                    Some(t) => {
                        proof {
                            lemma_teams_unique(es.take(i as int));
                        }
                        upsert_team(&mut out, t);
                    },
                    None => {},
                }
                i = i + 1;
            }
            assert(es.take(members.len() as int) =~= es);
            Ok(out)
        },
        _ => Err(FeedError::NotAnObject),
    }
}

} // verus!
