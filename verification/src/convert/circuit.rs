//! The circuit of the session and its flag status, from the session
//! information and the race control messages.
use vstd::prelude::*;

use crate::model::circuit::{Circuit, CircuitKey, CircuitScope, CircuitStatus};
use crate::parsing::race_control_messages::{
    self as messages, RawRaceControlMessage, RawRaceControlMessages,
};
use crate::parsing::session_info::RawSessionInfo;
use crate::text::{self, str_contains, str_eq};
use crate::model::status::Timestamp;
use crate::time::{self, parse_rfc3339_year, seconds_since_epoch, year_of};

verus! {

broadcast use vstd::seq_lib::group_filter_ensures;

/// The flag status of the circuit, with the yellow sectors in ascending
/// order.
pub enum FlagView {
    Clear,
    YellowFull,
    YellowSectors(Seq<u8>),
    Red,
}

/// What a status shows.
pub open spec fn status_view(c: CircuitStatus) -> FlagView {
    match c {
        CircuitStatus::Clear => FlagView::Clear,
        CircuitStatus::Yellow(CircuitScope::Full) => FlagView::YellowFull,
        CircuitStatus::Yellow(CircuitScope::Sectors(v)) => FlagView::YellowSectors(v@),
        CircuitStatus::Red => FlagView::Red,
    }
}

/// The sectors under yellow.
pub open spec fn yellow_sectors(f: FlagView) -> Seq<u8> {
    match f {
        FlagView::YellowSectors(s) => s,
        _ => Seq::empty(),
    }
}

/// Strictly ascending.
pub open spec fn ascending(s: Seq<u8>) -> bool {
    forall|i: int, j: int| 0 <= i < j < s.len() ==> s[i] < s[j]
}

pub open spec fn below(x: u8) -> spec_fn(u8) -> bool {
    |y: u8| y < x
}

pub open spec fn above(x: u8) -> spec_fn(u8) -> bool {
    |y: u8| y > x
}

pub open spec fn other_than(x: u8) -> spec_fn(u8) -> bool {
    |y: u8| y != x
}

/// `s` with `x` put in its place (and not twice).
pub open spec fn with_sector(s: Seq<u8>, x: u8) -> Seq<u8> {
    s.filter(below(x)).push(x) + s.filter(above(x))
}

/// `s` without `x`.
pub open spec fn without_sector(s: Seq<u8>, x: u8) -> Seq<u8> {
    s.filter(other_than(x))
}

pub open spec fn is_text(o: Option<String>, t: Seq<char>) -> bool {
    messages::opt_view(o) == Some(t)
}

/// The status after one race control message.
pub open spec fn flag_step(f: FlagView, m: RawRaceControlMessage) -> FlagView {
    if m.Category@ == "Flag"@ {
        if is_text(m.Flag, "GREEN"@) || is_text(m.Flag, "CLEAR"@) {
            if is_text(m.Scope, "Sector"@) {
                match m.Sector {
                    Some(x) => {
                        let s = without_sector(yellow_sectors(f), x);
                        if s.len() == 0 {
                            FlagView::Clear
                        } else {
                            FlagView::YellowSectors(s)
                        }
                    },
                    None => f,
                }
            } else {
                FlagView::Clear
            }
        } else if is_text(m.Flag, "YELLOW"@) || is_text(m.Flag, "DOUBLE YELLOW"@) {
            if is_text(m.Scope, "Sector"@) {
                match m.Sector {
                    Some(x) => FlagView::YellowSectors(with_sector(yellow_sectors(f), x)),
                    None => f,
                }
            } else if is_text(m.Scope, "Track"@) {
                FlagView::YellowFull
            } else {
                f
            }
        } else if is_text(m.Flag, "RED"@) {
            FlagView::Red
        } else {
            f
        }
    } else if text::contains_seq(m.Message@, "RED FLAG"@) {
        FlagView::Red
    } else {
        f
    }
}

/// The status after the messages, oldest first, from a clear track.
pub open spec fn flags_after(ms: Seq<RawRaceControlMessage>) -> FlagView
    decreases ms.len(),
{
    if ms.len() == 0 {
        FlagView::Clear
    } else {
        flag_step(flags_after(ms.drop_last()), ms.last())
    }
}

/// The status after the messages, if there are any.
pub open spec fn circuit_status_of(rcm: Option<&RawRaceControlMessages>) -> FlagView {
    match rcm {
        Some(r) => flags_after(r.Messages@),
        None => FlagView::Clear,
    }
}

// ---------------------------------------------------------------------------
// Laws of the yellow sectors
// ---------------------------------------------------------------------------

proof fn lemma_filter_below<P>(s: Seq<u8>, p: spec_fn(u8) -> bool, b: u8)
    requires
        forall|i: int| 0 <= i < s.len() ==> s[i] < b,
    ensures
        forall|i: int| 0 <= i < s.filter(p).len() ==> s.filter(p)[i] < b,
    decreases s.len(),
{
    reveal(Seq::filter);
    if s.len() > 0 {
        let d = s.drop_last();
        assert forall|i: int| 0 <= i < d.len() implies d[i] < b by {
            assert(d[i] == s[i]);
        }
        lemma_filter_below::<P>(d, p, b);
        let fd = d.filter(p);
        assert(s.filter(p) == if p(s.last()) { fd.push(s.last()) } else { fd });
        assert(s.last() < b);
    }
}

proof fn lemma_filter_ascending(s: Seq<u8>, p: spec_fn(u8) -> bool)
    requires
        ascending(s),
    ensures
        ascending(s.filter(p)),
    decreases s.len(),
{
    reveal(Seq::filter);
    if s.len() > 0 {
        let d = s.drop_last();
        assert(ascending(d)) by {
            assert forall|i: int, j: int| 0 <= i < j < d.len() implies d[i] < d[j] by {
                assert(d[i] == s[i] && d[j] == s[j]);
            }
        }
        lemma_filter_ascending(d, p);
        assert forall|i: int| 0 <= i < d.len() implies d[i] < s.last() by {
            assert(d[i] == s[i]);
        }
        lemma_filter_below::<u8>(d, p, s.last());
    }
}

proof fn lemma_filter_all<P>(s: Seq<u8>, p: spec_fn(u8) -> bool)
    ensures
        forall|i: int| 0 <= i < s.filter(p).len() ==> p(s.filter(p)[i]),
{
    assert forall|i: int| 0 <= i < s.filter(p).len() implies p(s.filter(p)[i]) by {
        s.lemma_filter_pred(p, i);
    }
}

/// Putting a sector under yellow keeps the sectors strictly ascending.
pub proof fn lemma_with_sector_ascending(s: Seq<u8>, x: u8)
    requires
        ascending(s),
    ensures
        ascending(with_sector(s, x)),
        with_sector(s, x).contains(x),
{
    let lo = s.filter(below(x));
    let hi = s.filter(above(x));
    lemma_filter_ascending(s, below(x));
    lemma_filter_ascending(s, above(x));
    lemma_filter_all::<u8>(s, below(x));
    lemma_filter_all::<u8>(s, above(x));
    let r = lo.push(x) + hi;
    assert(r[lo.len() as int] == x);
    assert forall|i: int, j: int| 0 <= i < j < r.len() implies r[i] < r[j] by {
        if j < lo.len() {
        } else if j == lo.len() {
            assert(below(x)(lo[i]));
        } else if i < lo.len() {
            assert(below(x)(lo[i]));
            assert(above(x)(hi[j - lo.len() - 1]));
        } else if i == lo.len() {
            assert(above(x)(hi[j - lo.len() - 1]));
        } else {
            assert(hi[i - lo.len() - 1] < hi[j - lo.len() - 1]);
        }
    }
}

/// Clearing a sector keeps the sectors strictly ascending, and it is then
/// no longer under yellow.
pub proof fn lemma_without_sector_ascending(s: Seq<u8>, x: u8)
    requires
        ascending(s),
    ensures
        ascending(without_sector(s, x)),
        !without_sector(s, x).contains(x),
{
    lemma_filter_ascending(s, other_than(x));
    lemma_filter_all::<u8>(s, other_than(x));
    if without_sector(s, x).contains(x) {
        let i = without_sector(s, x).index_of(x);
        assert(other_than(x)(without_sector(s, x)[i]));
    }
}

/// Whether the status shows its yellow sectors strictly ascending.
pub open spec fn flag_wf(f: FlagView) -> bool {
    ascending(yellow_sectors(f))
}

/// Whatever messages come, the yellow sectors stay strictly ascending.
pub proof fn lemma_flags_wf(ms: Seq<RawRaceControlMessage>)
    ensures
        flag_wf(flags_after(ms)),
    decreases ms.len(),
{
    if ms.len() > 0 {
        lemma_flags_wf(ms.drop_last());
        let f = flags_after(ms.drop_last());
        let m = ms.last();
        if let Some(x) = m.Sector {
            lemma_with_sector_ascending(yellow_sectors(f), x);
            lemma_without_sector_ascending(yellow_sectors(f), x);
        }
    }
}

/// A red flag, or a message that says "RED FLAG", stops the session
/// whatever the status was.
pub proof fn lemma_red_flag_stops(f: FlagView, m: RawRaceControlMessage)
    requires
        (m.Category@ == "Flag"@ && is_text(m.Flag, "RED"@)) || (m.Category@ != "Flag"@
            && text::contains_seq(m.Message@, "RED FLAG"@)),
    ensures
        flag_step(f, m) == FlagView::Red,
{
    if m.Category@ == "Flag"@ {
        assert("RED"@ != "GREEN"@) by {
            reveal_strlit("RED");
            reveal_strlit("GREEN");
            assert("RED"@[0] != "GREEN"@[0]);
        }
        assert("RED"@ != "CLEAR"@) by {
            reveal_strlit("RED");
            reveal_strlit("CLEAR");
            assert("RED"@[0] != "CLEAR"@[0]);
        }
        assert("RED"@ != "YELLOW"@) by {
            reveal_strlit("RED");
            reveal_strlit("YELLOW");
            assert("RED"@[0] != "YELLOW"@[0]);
        }
        assert("RED"@ != "DOUBLE YELLOW"@) by {
            reveal_strlit("RED");
            reveal_strlit("DOUBLE YELLOW");
            assert("RED"@[0] != "DOUBLE YELLOW"@[0]);
        }
    }
}

/// The flag and scope texts of the feed are told apart by their first
/// letter.
proof fn lemma_flag_texts_differ()
    ensures
        "YELLOW"@ != "GREEN"@,
        "YELLOW"@ != "CLEAR"@,
        "DOUBLE YELLOW"@ != "GREEN"@,
        "DOUBLE YELLOW"@ != "CLEAR"@,
        "Track"@ != "Sector"@,
{
    reveal_strlit("YELLOW");
    reveal_strlit("DOUBLE YELLOW");
    reveal_strlit("GREEN");
    reveal_strlit("CLEAR");
    reveal_strlit("Track");
    reveal_strlit("Sector");
    assert("YELLOW"@[0] != "GREEN"@[0]);
    assert("YELLOW"@[0] != "CLEAR"@[0]);
    assert("DOUBLE YELLOW"@[0] != "GREEN"@[0]);
    assert("DOUBLE YELLOW"@[0] != "CLEAR"@[0]);
    assert("Track"@[0] != "Sector"@[0]);
}

/// A yellow or double yellow flag for the whole track puts the whole
/// circuit under yellow, whatever the status was and whatever messages came
/// before: the status after them ends as a full yellow with no sectors.
pub proof fn lemma_track_yellow_is_full(ms: Seq<RawRaceControlMessage>, m: RawRaceControlMessage)
    requires
        m.Category@ == "Flag"@,
        is_text(m.Flag, "YELLOW"@) || is_text(m.Flag, "DOUBLE YELLOW"@),
        is_text(m.Scope, "Track"@),
    ensures
        flags_after(ms.push(m)) == FlagView::YellowFull,
        yellow_sectors(flags_after(ms.push(m))).len() == 0,
{
    lemma_flag_texts_differ();
    assert(ms.push(m).drop_last() =~= ms);
}

/// A green or clear flag for the whole track clears every yellow.
pub proof fn lemma_track_green_clears(f: FlagView, m: RawRaceControlMessage)
    requires
        m.Category@ == "Flag"@,
        is_text(m.Flag, "GREEN"@) || is_text(m.Flag, "CLEAR"@),
        !is_text(m.Scope, "Sector"@),
    ensures
        flag_step(f, m) == FlagView::Clear,
{
}

// ---------------------------------------------------------------------------
// Executable
// ---------------------------------------------------------------------------

fn sectors_below(v: &Vec<u8>, x: u8, out: &mut Vec<u8>)
    ensures
        final(out)@ == old(out)@ + v@.filter(below(x)),
{
    let ghost start = out@;
    let mut i: usize = 0;
    while i < v.len()
        invariant
            i <= v@.len(),
            out@ == start + v@.take(i as int).filter(below(x)),
        decreases v@.len() - i,
    {
        proof {
            reveal(Seq::filter);
            assert(v@.take(i + 1).drop_last() =~= v@.take(i as int));
        }
        if v[i] < x {
            out.push(v[i]);
        }
        i = i + 1;
    }
    assert(v@.take(v@.len() as int) =~= v@);
}

fn sectors_above(v: &Vec<u8>, x: u8, out: &mut Vec<u8>)
    ensures
        final(out)@ == old(out)@ + v@.filter(above(x)),
{
    let ghost start = out@;
    let mut i: usize = 0;
    while i < v.len()
        invariant
            i <= v@.len(),
            out@ == start + v@.take(i as int).filter(above(x)),
        decreases v@.len() - i,
    {
        proof {
            reveal(Seq::filter);
            assert(v@.take(i + 1).drop_last() =~= v@.take(i as int));
        }
        if v[i] > x {
            out.push(v[i]);
        }
        i = i + 1;
    }
    assert(v@.take(v@.len() as int) =~= v@);
}

fn sectors_without(v: &Vec<u8>, x: u8) -> (r: Vec<u8>)
    ensures
        r@ == without_sector(v@, x),
{
    let mut out: Vec<u8> = Vec::new();
    let mut i: usize = 0;
    while i < v.len()
        invariant
            i <= v@.len(),
            out@ == v@.take(i as int).filter(other_than(x)),
        decreases v@.len() - i,
    {
        proof {
            reveal(Seq::filter);
            assert(v@.take(i + 1).drop_last() =~= v@.take(i as int));
        }
        if v[i] != x {
            out.push(v[i]);
        }
        i = i + 1;
    }
    assert(v@.take(v@.len() as int) =~= v@);
    out
}

fn sectors_with(v: &Vec<u8>, x: u8) -> (r: Vec<u8>)
    ensures
        r@ == with_sector(v@, x),
{
    let mut out: Vec<u8> = Vec::new();
    sectors_below(v, x, &mut out);
    out.push(x);
    sectors_above(v, x, &mut out);
    assert(out@ =~= with_sector(v@, x));
    out
}

fn copy_sectors(v: &Vec<u8>) -> (r: Vec<u8>)
    ensures
        r@ == v@,
{
    let mut out: Vec<u8> = Vec::new();
    let mut i: usize = 0;
    while i < v.len()
        invariant
            i <= v@.len(),
            out@ == v@.take(i as int),
        decreases v@.len() - i,
    {
        out.push(v[i]);
        i = i + 1;
        assert(out@ =~= v@.take(i as int));
    }
    assert(v@.take(v@.len() as int) =~= v@);
    out
}

fn text_is(o: &Option<String>, t: &str) -> (r: bool)
    ensures
        r == is_text(*o, t@),
{
    match o {
        Some(s) => str_eq(s.as_str(), t),
        None => false,
    }
}

/// The status after one message; `yellow` holds the yellow sectors.
fn apply_message(status: &mut CircuitStatus, yellow: &mut Vec<u8>, msg: &RawRaceControlMessage)
    requires
        yellow_sectors(status_view(*old(status))) == old(yellow)@,
    ensures
        status_view(*final(status)) == flag_step(status_view(*old(status)), *msg),
        yellow_sectors(status_view(*final(status))) == final(yellow)@,
{
    if str_eq(msg.Category.as_str(), "Flag") {
        if text_is(&msg.Flag, "GREEN") || text_is(&msg.Flag, "CLEAR") {
            if text_is(&msg.Scope, "Sector") {
                if let Some(x) = msg.Sector {
                    let rest = sectors_without(yellow, x);
                    *yellow = rest;
                    if yellow.len() == 0 {
                        *status = CircuitStatus::Clear;
                        assert(yellow@ =~= Seq::<u8>::empty());
                    } else {
                        *status = CircuitStatus::Yellow(CircuitScope::Sectors(copy_sectors(yellow)));
                    }
                }
            } else {
                *status = CircuitStatus::Clear;
                *yellow = Vec::new();
            }
        } else if text_is(&msg.Flag, "YELLOW") || text_is(&msg.Flag, "DOUBLE YELLOW") {
            if text_is(&msg.Scope, "Sector") {
                if let Some(x) = msg.Sector {
                    let more = sectors_with(yellow, x);
                    *yellow = more;
                    *status = CircuitStatus::Yellow(CircuitScope::Sectors(copy_sectors(yellow)));
                }
            } else if text_is(&msg.Scope, "Track") {
                *status = CircuitStatus::Yellow(CircuitScope::Full);
                *yellow = Vec::new();
            }
        } else if text_is(&msg.Flag, "RED") {
            *status = CircuitStatus::Red;
            *yellow = Vec::new();
        }
    } else if str_contains(msg.Message.as_str(), "RED FLAG") {
        *status = CircuitStatus::Red;
        *yellow = Vec::new();
    }
}

/// The flag status of the circuit after the race control messages, oldest
/// first, from a clear track: a red flag (or a message saying "RED FLAG")
/// stops the session; a yellow for the track, or for sectors that gather
/// one by one; a green or clear flag clears a sector, or the whole track.
/// With no messages the track is clear.
pub fn compute_circuit_status(rcm: Option<&RawRaceControlMessages>) -> (r: CircuitStatus)
    ensures
        status_view(r) == circuit_status_of(rcm),
        flag_wf(status_view(r)),
{
    let mut status = CircuitStatus::Clear;
    let mut yellow: Vec<u8> = Vec::new();
    assert(yellow@ =~= Seq::<u8>::empty());
    if let Some(msgs) = rcm {
        let ghost ms = msgs.Messages@;
        let mut i: usize = 0;
        while i < msgs.Messages.len()
            invariant
                ms == msgs.Messages@,
                i <= ms.len(),
                status_view(status) == flags_after(ms.take(i as int)),
                yellow_sectors(status_view(status)) == yellow@,
            decreases ms.len() - i,
        {
            assert(ms.take(i + 1).drop_last() =~= ms.take(i as int));
            assert(ms.take(i + 1).last() == ms[i as int]);
            apply_message(&mut status, &mut yellow, &msgs.Messages[i]);
            i = i + 1;
        }
        assert(ms.take(ms.len() as int) =~= ms);
        proof {
            lemma_flags_wf(ms);
        }
    }
    status
}

/// The year a start date written in RFC 3339 falls in, if chrono reads it.
pub open spec fn start_year(raw_info: RawSessionInfo) -> Option<u32> {
    match time::rfc3339_year(raw_info.StartDate@) {
        Some(y) => Some(y as u32),
        None => None,
    }
}

/// The circuit of the session, its year taken from the start date, or
/// `fallback_year` where the start date does not read.
pub fn convert_circuit_in_year(
    raw_info: &RawSessionInfo,
    rcm: Option<&RawRaceControlMessages>,
    fallback_year: u32,
) -> (c: Circuit)
    ensures
        c.key == CircuitKey(raw_info.Meeting.Circuit.Key),
        c.short_name@ == raw_info.Meeting.Circuit.ShortName@,
        c.year == match start_year(*raw_info) {
            Some(y) => y,
            None => fallback_year,
        },
        status_view(c.status) == circuit_status_of(rcm),
        flag_wf(status_view(c.status)),
{
    let year = match parse_rfc3339_year(raw_info.StartDate.as_str()) {
        Some(y) => y as u32,
        None => fallback_year,
    };
    Circuit {
        key: CircuitKey(raw_info.Meeting.Circuit.Key),
        short_name: raw_info.Meeting.Circuit.ShortName.clone(),
        year,
        status: compute_circuit_status(rcm),
    }
}

/// The year that the epoch falls in: the year taken where the clock reads
/// before the epoch, or reads a time that has no year.
pub const EPOCH_YEAR: u32 = 1970;

/// Whether `y` is a year the clock can give: `EPOCH_YEAR`, or the UTC year
/// of some whole number of seconds since the epoch.
pub open spec fn clock_year(y: u32) -> bool {
    y == EPOCH_YEAR || exists|s: i64|
        0 <= s && (#[trigger] time::utc_year(s, 0)) is Some && y == time::utc_year(s, 0)->Some_0 as u32
}

/// The current year in UTC, as the system clock reads it: the year of the
/// whole seconds since the epoch, or `EPOCH_YEAR` where the clock reads
/// before the epoch or a time that has no year.
fn current_year() -> (y: u32)
    ensures
        clock_year(y),
{
    match seconds_since_epoch() {
        Some(secs) => {
            if secs > i64::MAX as u64 {
                return EPOCH_YEAR;
            }
            let s = secs as i64;
            match year_of(Timestamp { seconds: s, nanos: 0 }) {
                Some(n) => {
                    assert(time::utc_year(s, 0) == Some(n));
                    n as u32
                },
                None => EPOCH_YEAR,
            }
        },
        None => EPOCH_YEAR,
    }
}

/// The circuit of the session. Its year is that of the start date, or,
/// where the start date does not read, the current year (see
/// `current_year`).
pub fn convert_circuit(raw_info: &RawSessionInfo, rcm: Option<&RawRaceControlMessages>) -> (c: Circuit)
    ensures
        c.key == CircuitKey(raw_info.Meeting.Circuit.Key),
        c.short_name@ == raw_info.Meeting.Circuit.ShortName@,
        start_year(*raw_info) matches Some(y) ==> c.year == y,
        start_year(*raw_info) is None ==> clock_year(c.year),
        status_view(c.status) == circuit_status_of(rcm),
        flag_wf(status_view(c.status)),
{
    match parse_rfc3339_year(raw_info.StartDate.as_str()) {
        Some(_) => convert_circuit_in_year(raw_info, rcm, 0),
        None => {
            let now = current_year();
            convert_circuit_in_year(raw_info, rcm, now)
        },
    }
}


/// Yellow flags for sectors gather: after a yellow for sector `x`, `x` is
/// under yellow, and so is every sector that was before.
pub proof fn lemma_yellow_sectors_gather(f: FlagView, m: RawRaceControlMessage, x: u8, y: u8)
    requires
        m.Category@ == "Flag"@,
        is_text(m.Flag, "YELLOW"@) || is_text(m.Flag, "DOUBLE YELLOW"@),
        is_text(m.Scope, "Sector"@),
        m.Sector == Some(x),
    ensures
        flag_step(f, m) matches FlagView::YellowSectors(s) && s.contains(x) && (yellow_sectors(
            f,
        ).contains(y) ==> s.contains(y)),
{
    reveal_strlit("YELLOW");
    reveal_strlit("DOUBLE YELLOW");
    reveal_strlit("GREEN");
    reveal_strlit("CLEAR");
    assert("YELLOW"@[0] != "GREEN"@[0] && "YELLOW"@[0] != "CLEAR"@[0]);
    assert("DOUBLE YELLOW"@[0] != "GREEN"@[0] && "DOUBLE YELLOW"@[0] != "CLEAR"@[0]);
    assert(!is_text(m.Flag, "GREEN"@) && !is_text(m.Flag, "CLEAR"@));
    let s = yellow_sectors(f);
    let lo = s.filter(below(x));
    let hi = s.filter(above(x));
    let r = lo.push(x) + hi;
    assert(r[lo.len() as int] == x);
    if s.contains(y) {
        let j = s.index_of(y);
        if y < x {
            s.lemma_filter_contains(below(x), j);
            let k = lo.index_of(y);
            assert(r[k] == y);
        } else if y > x {
            s.lemma_filter_contains(above(x), j);
            let k = hi.index_of(y);
            assert(r[lo.len() + 1 + k] == y);
        }
    }
    assert(flag_step(f, m) == FlagView::YellowSectors(r));
}

/// A green or clear flag for a sector takes it out of the yellow sectors
/// and keeps every other one.
pub proof fn lemma_green_sector_clears_it(f: FlagView, m: RawRaceControlMessage, x: u8, y: u8)
    requires
        m.Category@ == "Flag"@,
        is_text(m.Flag, "GREEN"@) || is_text(m.Flag, "CLEAR"@),
        is_text(m.Scope, "Sector"@),
        m.Sector == Some(x),
    ensures
        !yellow_sectors(flag_step(f, m)).contains(x),
        y != x && yellow_sectors(f).contains(y) ==> yellow_sectors(flag_step(f, m)).contains(y),
{
    let s = yellow_sectors(f);
    let r = without_sector(s, x);
    lemma_filter_all::<u8>(s, other_than(x));
    if r.contains(x) {
        let i = r.index_of(x);
        assert(other_than(x)(r[i]));
    }
    if y != x && s.contains(y) {
        let j = s.index_of(y);
        s.lemma_filter_contains(other_than(x), j);
    }
}

} // verus!
