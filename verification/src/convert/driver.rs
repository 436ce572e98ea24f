//! From the feed's driver list to the library's drivers.
use vstd::prelude::*;

use crate::convert::keyed::{self, upsert};
use crate::model::driver::{Driver, DriverNumber};
use crate::model::team::TeamName;
use crate::parsing::decode::FeedError;
use crate::parsing::driver_list::RawDriver;
use crate::text::{self, parse_u8};

verus! {

/// Whether `d` is the driver `p` describes: its number that of the
/// racing number, its texts those of the record, its line the record's,
/// and no position yet (that comes from the timing).
pub open spec fn driver_from(p: RawDriver, d: Driver) -> bool {
    &&& text::parse_unsigned(p.RacingNumber@, u8::MAX as nat) == Some(d.number.value as nat)
    &&& d.first_name@ == p.FirstName@
    &&& d.last_name@ == p.LastName@
    &&& d.full_name@ == p.FullName@
    &&& d.broadcast_name@ == p.BroadcastName@
    &&& d.headshot_url@ == p.HeadshotUrl@
    &&& d.line == Some(p.Line)
    &&& d.public_id_right@ == p.PublicIdRight@
    &&& d.tla@ == p.Tla@
    &&& d.team_name.value@ == p.TeamName@
    &&& d.reference@ == p.Reference@
    &&& d.position is None
}

impl Driver {
    /// The driver a record of the driver list describes; a racing number
    /// that is not an `u8` gives `InvalidNumber`.
    pub fn try_from_raw(payload: &RawDriver) -> (r: Result<Driver, FeedError>)
        ensures
            text::parse_unsigned(payload.RacingNumber@, u8::MAX as nat) is None ==> r == Err::<
                Driver,
                FeedError,
            >(FeedError::InvalidNumber),
            text::parse_unsigned(payload.RacingNumber@, u8::MAX as nat) is Some ==> (r matches Ok(
                d,
            ) && driver_from(*payload, d)),
    {
        let number = match parse_u8(payload.RacingNumber.as_str()) {
            Some(n) => n,
            None => {
                return Err(FeedError::InvalidNumber);
            },
        };
        Ok(
            Driver {
                number: DriverNumber { value: number },
                first_name: payload.FirstName.clone(),
                last_name: payload.LastName.clone(),
                full_name: payload.FullName.clone(),
                broadcast_name: payload.BroadcastName.clone(),
                headshot_url: payload.HeadshotUrl.clone(),
                line: Some(payload.Line),
                public_id_right: payload.PublicIdRight.clone(),
                tla: payload.Tla.clone(),
                team_name: TeamName { value: payload.TeamName.clone() },
                reference: payload.Reference.clone(),
                position: None,
            },
        )
    }
}

/// The driver number of each line, where both its key and its racing
/// number read as an `u8`.
pub open spec fn driver_keys(lines: Seq<(String, RawDriver)>) -> Seq<Option<nat>> {
    lines.map_values(
        |e: (String, RawDriver)|
            if text::parse_unsigned(e.1.RacingNumber@, u8::MAX as nat) is Some {
                text::parse_unsigned(e.0@, u8::MAX as nat)
            } else {
                None
            },
    )
}

/// The drivers, by the number their line is keyed by: lines whose key or
/// racing number is not an `u8` are skipped; where two lines give the same
/// number the later one's driver stands. The drivers come in order of
/// first appearance.
pub fn convert_drivers(raw_drivers: &Vec<(String, RawDriver)>) -> (r: Vec<(DriverNumber, Driver)>)
    ensures
        keyed::entry_keys(r@) == keyed::first_keys(driver_keys(raw_drivers@)),
        forall|j: int|
            0 <= j < r@.len() ==> driver_from(
                raw_drivers@[keyed::last_with(driver_keys(raw_drivers@), r@[j].0.value as nat)].1,
                (#[trigger] r@[j]).1,
            ),
{
    let ghost lines = raw_drivers@;
    let ghost ks = driver_keys(lines);
    let mut out: Vec<(DriverNumber, Driver)> = Vec::new();
    let mut i: usize = 0;
    assert(keyed::entry_keys(out@) =~= keyed::first_keys(ks.take(0)));
    while i < raw_drivers.len()
        invariant
            lines == raw_drivers@,
            ks == driver_keys(lines),
            i <= lines.len(),
            keyed::entry_keys(out@) == keyed::first_keys(ks.take(i as int)),
            forall|j: int|
                0 <= j < out@.len() ==> driver_from(
                    lines[keyed::last_with(ks.take(i as int), out@[j].0.value as nat)].1,
                    (#[trigger] out@[j]).1,
                ),
        decreases lines.len() - i,
    {
        proof {
            keyed::lemma_first_keys_step(ks, i as int);
            keyed::lemma_first_keys_unique(ks.take(i as int));
        }
        let ghost pre = ks.take(i as int);
        let ghost old_out = out@;
        let key = parse_u8(raw_drivers[i].0.as_str());
        let driver = Driver::try_from_raw(&raw_drivers[i].1);
        match (key, driver) {
            (Some(k), Ok(d)) => {
                assert(ks[i as int] == Some(k as nat));
                upsert(&mut out, k, d);
                proof {
                    assert forall|j: int| 0 <= j < out@.len() implies driver_from(
                        lines[keyed::last_with(ks.take(i + 1), out@[j].0.value as nat)].1,
                        (#[trigger] out@[j]).1,
                    ) by {
                        if out@[j].0.value != k {
                            let kk = out@[j].0.value as nat;
                            assert(old_out[j] == out@[j]);
                            assert(keyed::entry_keys(old_out)[j] == kk);
                            assert(keyed::first_keys(pre).contains(kk));
                            keyed::lemma_last_with_in_range(pre, kk);
                            assert(keyed::last_with(ks.take(i + 1), kk) == keyed::last_with(pre, kk));
                        } else {
                            assert(keyed::last_with(ks.take(i + 1), k as nat) == i);
                        }
                    }
                }
            },
            _ => {
                proof {
                    assert(ks[i as int] is None);
                    assert forall|j: int| 0 <= j < out@.len() implies driver_from(
                        lines[keyed::last_with(ks.take(i + 1), out@[j].0.value as nat)].1,
                        (#[trigger] out@[j]).1,
                    ) by {
                        let kk = out@[j].0.value as nat;
                        assert(keyed::last_with(ks.take(i + 1), kk) == keyed::last_with(pre, kk));
                    }
                }
            },
        }
        i = i + 1;
    }
    assert(ks.take(lines.len() as int) =~= ks);
    out
}

} // verus!
