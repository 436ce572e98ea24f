//! From the feed's tyre stints to the library's.
use vstd::prelude::*;

use crate::convert::keyed::{self, upsert};
use crate::model::driver::DriverNumber;
use crate::model::stint::{Compound, Stint};
use crate::parsing::stints::{RawDriverStints, RawStint};
use crate::text::{self, parse_u8, str_eq};

verus! {

/// The compound a text names; unknown texts give `Unknown`.
pub open spec fn compound_of(s: Seq<char>) -> Compound {
    if s == "SOFT"@ {
        Compound::Soft
    } else if s == "MEDIUM"@ {
        Compound::Medium
    } else if s == "HARD"@ {
        Compound::Hard
    } else if s == "INTERMEDIATE"@ {
        Compound::Intermediate
    } else if s == "WET"@ {
        Compound::Wet
    } else {
        Compound::Unknown
    }
}

/// The stint a record of the feed gives: `New` is true only as the text
/// `true`; a count of unchanged tyres that does not read as an `u8` is 0.
pub open spec fn stint_of(p: RawStint) -> Stint {
    Stint {
        compound: compound_of(p.Compound@),
        lap_flags: p.LapFlags,
        new: p.New@ == "true"@,
        start_laps: p.StartLaps,
        total_laps: p.TotalLaps,
        tires_not_changed: match text::parse_unsigned(p.TyresNotChanged@, u8::MAX as nat) {
            Some(n) => n as u8,
            None => 0,
        },
    }
}

impl Stint {
    /// The stint a record of the feed gives.
    pub fn from_raw(payload: &RawStint) -> (s: Stint)
        ensures
            s == stint_of(*payload),
    {
        let c = payload.Compound.as_str();
        let compound = if str_eq(c, "SOFT") {
            Compound::Soft
        } else if str_eq(c, "MEDIUM") {
            Compound::Medium
        } else if str_eq(c, "HARD") {
            Compound::Hard
        } else if str_eq(c, "INTERMEDIATE") {
            Compound::Intermediate
        } else if str_eq(c, "WET") {
            Compound::Wet
        } else {
            Compound::Unknown
        };
        let tires_not_changed = match parse_u8(payload.TyresNotChanged.as_str()) {
            Some(n) => n,
            None => 0,
        };
        Stint {
            compound,
            lap_flags: payload.LapFlags,
            new: str_eq(payload.New.as_str(), "true"),
            start_laps: payload.StartLaps,
            total_laps: payload.TotalLaps,
            tires_not_changed,
        }
    }
}

/// The stints of one car, in order.
pub open spec fn stints_of(p: RawDriverStints) -> Seq<Stint> {
    p.Stints@.map_values(|x: RawStint| stint_of(x))
}

/// The driver number of each line, where it reads as an `u8`.
pub open spec fn stint_keys(lines: Seq<(String, RawDriverStints)>) -> Seq<Option<nat>> {
    lines.map_values(|e: (String, RawDriverStints)| text::parse_unsigned(e.0@, u8::MAX as nat))
}

fn convert_driver_stints(p: &RawDriverStints) -> (r: Vec<Stint>)
    ensures
        r@ == stints_of(*p),
{
    let mut out: Vec<Stint> = Vec::new();
    let mut i: usize = 0;
    while i < p.Stints.len()
        invariant
            i <= p.Stints@.len(),
            out@ == p.Stints@.take(i as int).map_values(|x: RawStint| stint_of(x)),
        decreases p.Stints@.len() - i,
    {
        out.push(Stint::from_raw(&p.Stints[i]));
        i = i + 1;
        assert(out@ =~= p.Stints@.take(i as int).map_values(|x: RawStint| stint_of(x)));
    }
    assert(p.Stints@.take(p.Stints@.len() as int) =~= p.Stints@);
    out
}

/// The stints of each car, by driver number: lines whose key is not an
/// `u8` are skipped; where two lines give the same number the later one's
/// stints stand. The cars come in order of first appearance.
pub fn convert_stints(raw_stints_map: &Vec<(String, RawDriverStints)>) -> (r: Vec<(DriverNumber, Vec<Stint>)>)
    ensures
        keyed::entry_keys(r@) == keyed::first_keys(stint_keys(raw_stints_map@)),
        forall|j: int|
            0 <= j < r@.len() ==> (#[trigger] r@[j]).1@ == stints_of(
                raw_stints_map@[keyed::last_with(stint_keys(raw_stints_map@), r@[j].0.value as nat)].1,
            ),
{
    let ghost lines = raw_stints_map@;
    let ghost ks = stint_keys(lines);
    let mut out: Vec<(DriverNumber, Vec<Stint>)> = Vec::new();
    let mut i: usize = 0;
    assert(keyed::entry_keys(out@) =~= keyed::first_keys(ks.take(0)));
    while i < raw_stints_map.len()
        invariant
            lines == raw_stints_map@,
            ks == stint_keys(lines),
            i <= lines.len(),
            keyed::entry_keys(out@) == keyed::first_keys(ks.take(i as int)),
            forall|j: int|
                0 <= j < out@.len() ==> (#[trigger] out@[j]).1@ == stints_of(
                    lines[keyed::last_with(ks.take(i as int), out@[j].0.value as nat)].1,
                ),
        decreases lines.len() - i,
    {
        proof {
            keyed::lemma_first_keys_step(ks, i as int);
            keyed::lemma_first_keys_unique(ks.take(i as int));
        }
        let ghost pre = ks.take(i as int);
        let ghost old_out = out@;
        match parse_u8(raw_stints_map[i].0.as_str()) {
            Some(k) => {
                let stints = convert_driver_stints(&raw_stints_map[i].1);
                upsert(&mut out, k, stints);
                proof {
                    assert forall|j: int| 0 <= j < out@.len() implies (#[trigger] out@[j]).1@
                        == stints_of(
                        lines[keyed::last_with(ks.take(i + 1), out@[j].0.value as nat)].1,
                    ) by {
                        if out@[j].0.value != k {
                            let kk = out@[j].0.value as nat;
                            assert(old_out[j] == out@[j]);
                            assert(keyed::entry_keys(old_out)[j] == kk);
                            assert(keyed::first_keys(pre).contains(kk));
                            keyed::lemma_last_with_in_range(pre, kk);
                            assert(keyed::last_with(ks.take(i + 1), kk) == keyed::last_with(pre, kk));
                        } else {
                            assert(keyed::last_with(ks.take(i + 1), k as nat) == i);
                        }
                    }
                }
            },
            None => {
                proof {
                    assert(ks[i as int] is None);
                    assert forall|j: int| 0 <= j < out@.len() implies (#[trigger] out@[j]).1@
                        == stints_of(
                        lines[keyed::last_with(ks.take(i + 1), out@[j].0.value as nat)].1,
                    ) by {
                        let kk = out@[j].0.value as nat;
                        assert(keyed::last_with(ks.take(i + 1), kk) == keyed::last_with(pre, kk));
                    }
                }
            },
        }
        i = i + 1;
    }
    assert(ks.take(lines.len() as int) =~= ks);
    out
}

/// The feed's name of a compound; the unknown compound has none.
pub open spec fn compound_name(c: Compound) -> Option<Seq<char>> {
    match c {
        Compound::Soft => Some("SOFT"@),
        Compound::Medium => Some("MEDIUM"@),
        Compound::Hard => Some("HARD"@),
        Compound::Intermediate => Some("INTERMEDIATE"@),
        Compound::Wet => Some("WET"@),
        Compound::Unknown => None,
    }
}

/// The compound names of the feed are told apart by their first letter.
proof fn lemma_compound_names_differ()
    ensures
        forall|a: Compound, b: Compound|
            a != b && #[trigger] compound_name(a) is Some && #[trigger] compound_name(b) is Some
                ==> compound_name(a) != compound_name(b),
{
    reveal_strlit("SOFT");
    reveal_strlit("MEDIUM");
    reveal_strlit("HARD");
    reveal_strlit("INTERMEDIATE");
    reveal_strlit("WET");
    assert forall|a: Compound, b: Compound|
        a != b && #[trigger] compound_name(a) is Some && #[trigger] compound_name(b) is Some
            implies compound_name(a) != compound_name(b) by {
        assert(compound_name(a)->Some_0[0] != compound_name(b)->Some_0[0]);
    }
}

/// Each compound is named by exactly its own name in the feed: a stint
/// whose compound text is a compound's name has that compound, each named
/// compound is read back from its name, and any other text gives the
/// unknown compound. So SOFT, MEDIUM, HARD, INTERMEDIATE and WET give five
/// distinct compounds.
pub proof fn lemma_compound_names(p: RawStint, c: Compound)
    ensures
        compound_name(c) == Some(p.Compound@) ==> stint_of(p).compound == c,
        compound_name(stint_of(p).compound) is Some ==> compound_name(stint_of(p).compound)
            == Some(p.Compound@),
        stint_of(p).compound == Compound::Unknown <==> forall|d: Compound|
            #[trigger] compound_name(d) != Some(p.Compound@),
{
    lemma_compound_names_differ();
    let s = p.Compound@;
    if compound_name(c) == Some(s) {
        assert(compound_name(compound_of(s)) == Some(s) || compound_of(s) == Compound::Unknown);
    }
    assert(compound_name(Compound::Soft) == Some("SOFT"@));
    assert(compound_name(Compound::Medium) == Some("MEDIUM"@));
    assert(compound_name(Compound::Hard) == Some("HARD"@));
    assert(compound_name(Compound::Intermediate) == Some("INTERMEDIATE"@));
    assert(compound_name(Compound::Wet) == Some("WET"@));
}

} // verus!
