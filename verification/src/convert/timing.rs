//! From the timing records of the feed to the live timing of each car.
use vstd::prelude::*;

use crate::model::driver::DriverNumber;
use crate::model::lap_time::{self, LapTime};
use crate::model::timing::{
    BestLap, LapData, LastLap, LiveTiming, PitData, QualiStats, Sector, Segment, SegmentStatus,
    Speed, Speeds, TimeDiffs,
};
use crate::parsing::decode::FeedError;
use crate::parsing::race_control_messages::{self as messages};
use crate::parsing::timing_data::{
    RawIntervalToPositionAhead, RawSector, RawSegment, RawSpeed, RawSpeeds, RawStats,
    RawTimingData,
};
use crate::text::{self, parse_u8};

verus! {

// ---------------------------------------------------------------------------
// Specifications
// ---------------------------------------------------------------------------

/// What a segment status code shows; unknown codes show nothing.
pub open spec fn segment_status_of(code: u32) -> SegmentStatus {
    if code == 2048 {
        SegmentStatus::Normal
    } else if code == 2049 {
        SegmentStatus::PersonalFastest
    } else if code == 2050 {
        SegmentStatus::Unknown
    } else if code == 2051 {
        SegmentStatus::OverallFastest
    } else if code == 2052 {
        SegmentStatus::Aborted
    } else if code == 2064 {
        SegmentStatus::InPit
    } else {
        SegmentStatus::Blank
    }
}

/// A text, or none where it is empty (the feed sends empty texts for
/// values it does not have).
pub open spec fn nonempty(s: Seq<char>) -> Option<Seq<char>> {
    if s.len() == 0 {
        None
    } else {
        Some(s)
    }
}

/// An optional text without the empty one.
pub open spec fn filter_nonempty(o: Option<Seq<char>>) -> Option<Seq<char>> {
    match o {
        Some(s) => nonempty(s),
        None => None,
    }
}

/// `a`, or `b` where `a` is none.
pub open spec fn or_else(a: Option<Seq<char>>, b: Option<Seq<char>>) -> Option<Seq<char>> {
    match a {
        Some(s) => Some(s),
        None => b,
    }
}

pub open spec fn sector_from(p: RawSector, s: Sector) -> bool {
    &&& s.overall_fastest == p.OverallFastest
    &&& s.personal_fastest == p.PersonalFastest
    &&& s.segments@.len() == p.Segments@.len()
    &&& forall|i: int|
        0 <= i < s.segments@.len() ==> (#[trigger] s.segments@[i]).status == segment_status_of(
            p.Segments@[i].Status,
        )
    &&& s.status == p.Status
    &&& s.stopped == p.Stopped
    &&& messages::opt_view(s.value) == nonempty(p.Value@)
    &&& messages::opt_view(s.previous_value) == messages::opt_view(p.PreviousValue)
}

pub open spec fn sectors_from(p: Seq<RawSector>, s: Seq<Sector>) -> bool {
    s.len() == p.len() && forall|i: int| 0 <= i < s.len() ==> sector_from(p[i], #[trigger] s[i])
}

pub open spec fn speed_from(p: RawSpeed, s: Speed) -> bool {
    &&& s.overall_fastest == p.OverallFastest
    &&& s.personal_fastest == p.PersonalFastest
    &&& s.status == p.Status
    &&& s.value@ == p.Value@
}

pub open spec fn speeds_from(p: RawSpeeds, s: Speeds) -> bool {
    &&& speed_from(p.FL, s.fl)
    &&& speed_from(p.I1, s.i1)
    &&& speed_from(p.I2, s.i2)
    &&& speed_from(p.ST, s.st)
}

pub open spec fn time_diffs_from(p: RawStats, t: TimeDiffs) -> bool {
    &&& messages::opt_view(t.to_fastest) == nonempty(p.TimeDiffToFastest@)
    &&& messages::opt_view(t.to_position_ahead) == nonempty(p.TimeDiffToPositionAhead@)
}

/// The `i`-th qualifying gaps: from the `i`-th statistics where there are
/// that many.
pub open spec fn stats_at(stats: Option<Vec<RawStats>>, i: int, d: Option<TimeDiffs>) -> bool {
    match stats {
        Some(v) => if 0 <= i < v@.len() {
            d matches Some(t) && time_diffs_from(v@[i], t)
        } else {
            d is None
        },
        None => d is None,
    }
}

/// A lap time field: empty gives none; otherwise it must read.
pub open spec fn lap_time_field(s: Seq<char>) -> Option<Option<LapTime>> {
    if s.len() == 0 {
        Some(None)
    } else {
        match lap_time::parse_lap_time(s) {
            Some(t) => Some(Some(t)),
            None => None,
        }
    }
}

/// The gap to the fastest car: the stated one, else the gap to the leader.
pub open spec fn gap_to_fastest(p: RawTimingData) -> Option<Seq<char>> {
    or_else(
        filter_nonempty(messages::opt_view(p.TimeDiffToFastest)),
        filter_nonempty(messages::opt_view(p.GapToLeader)),
    )
}

pub open spec fn interval_text(i: Option<RawIntervalToPositionAhead>) -> Option<Seq<char>> {
    match i {
        Some(x) => nonempty(x.Value@),
        None => None,
    }
}

/// The gap to the car ahead: the stated one, else the interval.
pub open spec fn gap_to_ahead(p: RawTimingData) -> Option<Seq<char>> {
    or_else(
        filter_nonempty(messages::opt_view(p.TimeDiffToPositionAhead)),
        interval_text(p.IntervalToPositionAhead),
    )
}

/// The running order position, 0 where it does not read.
pub open spec fn position_of(p: RawTimingData) -> nat {
    match text::parse_unsigned(p.Position@, u8::MAX as nat) {
        Some(n) => n,
        None => 0,
    }
}

/// Whether a car's timing converts: its racing number reads as an `u8`,
/// and its best and last lap times are empty or read.
pub open spec fn live_timing_ok(p: RawTimingData) -> bool {
    &&& text::parse_unsigned(p.RacingNumber@, u8::MAX as nat) is Some
    &&& lap_time_field(p.BestLapTime.Value@) is Some
    &&& lap_time_field(p.LastLapTime.Value@) is Some
}

/// Whether `lt` is the timing `p` converts to, but for whether its best
/// lap is the fastest of all, which `p` alone cannot say.
pub open spec fn live_timing_from(p: RawTimingData, lt: LiveTiming) -> bool {
    &&& text::parse_unsigned(p.RacingNumber@, u8::MAX as nat) == Some(
        lt.driver_number.value as nat,
    )
    &&& lt.position as nat == position_of(p)
    &&& lt.status == p.Status
    &&& lt.retired == p.Retired
    &&& lt.stopped == p.Stopped
    &&& messages::opt_view(lt.time_diffs.to_fastest) == gap_to_fastest(p)
    &&& messages::opt_view(lt.time_diffs.to_position_ahead) == gap_to_ahead(p)
    &&& lap_time_field(p.BestLapTime.Value@) == Some(lt.lap_data.best_lap.time)
    &&& lt.lap_data.last_lap.overall_fastest == p.LastLapTime.OverallFastest
    &&& lt.lap_data.last_lap.personal_fastest == p.LastLapTime.PersonalFastest
    &&& lt.lap_data.last_lap.status == p.LastLapTime.Status
    &&& lap_time_field(p.LastLapTime.Value@) == Some(lt.lap_data.last_lap.time)
    &&& sectors_from(p.Sectors@, lt.lap_data.last_lap.sectors@)
    &&& lt.lap_data.last_lap.show_position == p.ShowPosition
    &&& speeds_from(p.Speeds, lt.lap_data.last_lap.speeds)
    &&& lt.lap_data.number_of_laps == p.NumberOfLaps
    &&& lt.pit_data.in_pit == p.InPit
    &&& lt.pit_data.pit_out == p.PitOut
    &&& lt.pit_data.number_of_pit_stops == p.NumberOfPitStops
    &&& if p.Cutoff is Some || p.KnockedOut is Some || p.Stats is Some {
        lt.quali_stats matches Some(q) && q.cutoff == p.Cutoff && q.knocked_out == p.KnockedOut
            && stats_at(p.Stats, 0, q.q1_diffs) && stats_at(p.Stats, 1, q.q2_diffs) && stats_at(
            p.Stats,
            2,
            q.q3_diffs,
        )
    } else {
        lt.quali_stats is None
    }
}

// ---------------------------------------------------------------------------
// Conversions of the parts
// ---------------------------------------------------------------------------

fn clone_opt_text(o: &Option<String>) -> (r: Option<String>)
    ensures
        messages::opt_view(r) == messages::opt_view(*o),
{
    match o {
        Some(s) => Some(s.clone()),
        None => None,
    }
}

fn nonempty_text(s: &String) -> (r: Option<String>)
    ensures
        messages::opt_view(r) == nonempty(s@),
{
    if s.as_str().is_empty() {
        None
    } else {
        Some(s.clone())
    }
}

fn filter_nonempty_text(o: &Option<String>) -> (r: Option<String>)
    ensures
        messages::opt_view(r) == filter_nonempty(messages::opt_view(*o)),
{
    match o {
        Some(s) => nonempty_text(s),
        None => None,
    }
}

impl Segment {
    /// The mini-sector a status code shows.
    pub fn from_raw(p: &RawSegment) -> (s: Segment)
        ensures
            s.status == segment_status_of(p.Status),
    {
        let status = match p.Status {
            2048 => SegmentStatus::Normal,
            2049 => SegmentStatus::PersonalFastest,
            2050 => SegmentStatus::Unknown,
            2051 => SegmentStatus::OverallFastest,
            2052 => SegmentStatus::Aborted,
            2064 => SegmentStatus::InPit,
            _ => SegmentStatus::Blank,
        };
        Segment { status }
    }
}

impl Sector {
    /// A sector of the last lap; an empty time gives none.
    pub fn from_raw(p: &RawSector) -> (s: Sector)
        ensures
            sector_from(*p, s),
    {
        let mut segments: Vec<Segment> = Vec::new();
        let mut i: usize = 0;
        while i < p.Segments.len()
            invariant
                i <= p.Segments@.len(),
                segments@.len() == i,
                forall|j: int|
                    0 <= j < i ==> (#[trigger] segments@[j]).status == segment_status_of(
                        p.Segments@[j].Status,
                    ),
            decreases p.Segments@.len() - i,
        {
            segments.push(Segment::from_raw(&p.Segments[i]));
            i = i + 1;
        }
        Sector {
            overall_fastest: p.OverallFastest,
            personal_fastest: p.PersonalFastest,
            segments,
            status: p.Status,
            stopped: p.Stopped,
            value: nonempty_text(&p.Value),
            previous_value: clone_opt_text(&p.PreviousValue),
        }
    }
}

impl Speed {
    /// A speed trap reading.
    pub fn from_raw(p: &RawSpeed) -> (s: Speed)
        ensures
            speed_from(*p, s),
    {
        Speed {
            overall_fastest: p.OverallFastest,
            personal_fastest: p.PersonalFastest,
            status: p.Status,
            value: p.Value.clone(),
        }
    }
}

impl Speeds {
    /// The speed traps of a lap.
    pub fn from_raw(p: &RawSpeeds) -> (s: Speeds)
        ensures
            speeds_from(*p, s),
    {
        Speeds {
            fl: Speed::from_raw(&p.FL),
            i1: Speed::from_raw(&p.I1),
            i2: Speed::from_raw(&p.I2),
            st: Speed::from_raw(&p.ST),
        }
    }
}

impl TimeDiffs {
    /// Qualifying gaps; empty texts give none.
    pub fn from_raw(p: &RawStats) -> (t: TimeDiffs)
        ensures
            time_diffs_from(*p, t),
    {
        TimeDiffs {
            to_fastest: nonempty_text(&p.TimeDiffToFastest),
            to_position_ahead: nonempty_text(&p.TimeDiffToPositionAhead),
        }
    }
}

fn sectors_from_raw(p: &Vec<RawSector>) -> (s: Vec<Sector>)
    ensures
        sectors_from(p@, s@),
{
    let mut out: Vec<Sector> = Vec::new();
    let mut i: usize = 0;
    while i < p.len()
        invariant
            i <= p@.len(),
            out@.len() == i,
            forall|j: int| 0 <= j < i ==> sector_from(p@[j], #[trigger] out@[j]),
        decreases p@.len() - i,
    {
        out.push(Sector::from_raw(&p[i]));
        i = i + 1;
    }
    out
}

fn stats_diffs(stats: &Option<Vec<RawStats>>, i: usize) -> (d: Option<TimeDiffs>)
    ensures
        stats_at(*stats, i as int, d),
{
    match stats {
        Some(v) => if i < v.len() {
            Some(TimeDiffs::from_raw(&v[i]))
        } else {
            None
        },
        None => None,
    }
}

fn read_lap_time(s: &String) -> (r: Option<Option<LapTime>>)
    ensures
        r == lap_time_field(s@),
{
    if s.as_str().is_empty() {
        Some(None)
    } else {
        match LapTime::parse(s.as_str()) {
            Some(t) => Some(Some(t)),
            None => None,
        }
    }
}

fn interval_value(i: &Option<RawIntervalToPositionAhead>) -> (r: Option<String>)
    ensures
        messages::opt_view(r) == interval_text(*i),
{
    match i {
        Some(x) => nonempty_text(&x.Value),
        None => None,
    }
}

impl LiveTiming {
    /// The live timing of a car. A racing number that is not an `u8` gives
    /// `InvalidNumber`; a best or last lap time that is neither empty nor
    /// `M:SS.mmm` gives `InvalidTime`. Whether the best lap is the fastest
    /// of all is left false: that takes every car's timing.
    pub fn try_from_raw(payload: &RawTimingData) -> (r: Result<LiveTiming, FeedError>)
        ensures
            text::parse_unsigned(payload.RacingNumber@, u8::MAX as nat) is None ==> r == Err::<
                LiveTiming,
                FeedError,
            >(FeedError::InvalidNumber),
            text::parse_unsigned(payload.RacingNumber@, u8::MAX as nat) is Some && !live_timing_ok(
                *payload,
            ) ==> r == Err::<LiveTiming, FeedError>(FeedError::InvalidTime),
            live_timing_ok(*payload) ==> (r matches Ok(lt) && live_timing_from(*payload, lt)
                && !lt.lap_data.best_lap.overall_fastest),
    {
        let number = match parse_u8(payload.RacingNumber.as_str()) {
            Some(n) => n,
            None => {
                return Err(FeedError::InvalidNumber);
            },
        };
        let best_lap_time = match read_lap_time(&payload.BestLapTime.Value) {
            Some(t) => t,
            None => {
                return Err(FeedError::InvalidTime);
            },
        };
        let last_lap_time = match read_lap_time(&payload.LastLapTime.Value) {
            Some(t) => t,
            None => {
                return Err(FeedError::InvalidTime);
            },
        };
        let to_fastest = match filter_nonempty_text(&payload.TimeDiffToFastest) {
            Some(s) => Some(s),
            None => filter_nonempty_text(&payload.GapToLeader),
        };
        let to_ahead = match filter_nonempty_text(&payload.TimeDiffToPositionAhead) {
            Some(s) => Some(s),
            None => interval_value(&payload.IntervalToPositionAhead),
        };
        let last_lap = LastLap {
            overall_fastest: payload.LastLapTime.OverallFastest,
            personal_fastest: payload.LastLapTime.PersonalFastest,
            status: payload.LastLapTime.Status,
            time: last_lap_time,
            sectors: sectors_from_raw(&payload.Sectors),
            show_position: payload.ShowPosition,
            speeds: Speeds::from_raw(&payload.Speeds),
        };
        let quali_stats = if payload.Cutoff.is_some() || payload.KnockedOut.is_some()
            || payload.Stats.is_some() {
            Some(
                QualiStats {
                    cutoff: payload.Cutoff,
                    knocked_out: payload.KnockedOut,
                    q1_diffs: stats_diffs(&payload.Stats, 0),
                    q2_diffs: stats_diffs(&payload.Stats, 1),
                    q3_diffs: stats_diffs(&payload.Stats, 2),
                },
            )
        } else {
            None
        };
        let position = match parse_u8(payload.Position.as_str()) {
            Some(n) => n,
            None => 0,
        };
        Ok(
            LiveTiming {
                driver_number: DriverNumber { value: number },
                position,
                status: payload.Status,
                retired: payload.Retired,
                stopped: payload.Stopped,
                time_diffs: TimeDiffs { to_fastest, to_position_ahead: to_ahead },
                lap_data: LapData {
                    best_lap: BestLap { time: best_lap_time, overall_fastest: false },
                    last_lap,
                    number_of_laps: payload.NumberOfLaps,
                },
                pit_data: PitData {
                    in_pit: payload.InPit,
                    pit_out: payload.PitOut,
                    number_of_pit_stops: payload.NumberOfPitStops,
                },
                quali_stats,
            },
        )
    }
}

// ---------------------------------------------------------------------------
// All cars
// ---------------------------------------------------------------------------

/// The driver number a timing line is keyed by.
pub open spec fn line_key(e: (String, RawTimingData)) -> Option<nat> {
    text::parse_unsigned(e.0@, u8::MAX as nat)
}

/// Whether a timing line converts: its key and its timing read.
pub open spec fn line_ok(e: (String, RawTimingData)) -> bool {
    line_key(e) is Some && live_timing_ok(e.1)
}

/// The driver numbers of the lines that convert, each once, in order of
/// first appearance.
pub open spec fn timing_keys(lines: Seq<(String, RawTimingData)>) -> Seq<nat>
    decreases lines.len(),
{
    if lines.len() == 0 {
        Seq::empty()
    } else {
        let r = timing_keys(lines.drop_last());
        let e = lines.last();
        if line_ok(e) && !r.contains(line_key(e)->Some_0) {
            r.push(line_key(e)->Some_0)
        } else {
            r
        }
    }
}

/// The line whose timing a driver number gets: the last line with that
/// number that converts (-1 where none does).
pub open spec fn source_of(lines: Seq<(String, RawTimingData)>, k: nat) -> int
    decreases lines.len(),
{
    if lines.len() == 0 {
        -1
    } else if line_ok(lines.last()) && line_key(lines.last()) == Some(k) {
        lines.len() - 1
    } else {
        source_of(lines.drop_last(), k)
    }
}

/// The best lap time that converting a line gives, if any.
pub open spec fn best_time(p: RawTimingData) -> Option<LapTime> {
    match lap_time_field(p.BestLapTime.Value@) {
        Some(t) => t,
        None => None,
    }
}

/// Where the search for the fastest lap starts: slower than any lap.
pub open spec fn slowest_lap() -> LapTime {
    LapTime { minutes: u32::MAX, seconds: 0, milliseconds: 0 }
}

/// The fastest best lap among the lines that convert (duplicates of a
/// number included), or `slowest_lap()` if none is faster.
pub open spec fn fastest_best(lines: Seq<(String, RawTimingData)>) -> LapTime
    decreases lines.len(),
{
    if lines.len() == 0 {
        slowest_lap()
    } else {
        let f = fastest_best(lines.drop_last());
        let e = lines.last();
        match best_time(e.1) {
            Some(t) => if line_ok(e) && lap_time::lap_time_lt(t, f) {
                t
            } else {
                f
            },
            None => f,
        }
    }
}

proof fn lemma_source_in_range(lines: Seq<(String, RawTimingData)>, k: nat)
    requires
        timing_keys(lines).contains(k),
    ensures
        0 <= source_of(lines, k) < lines.len(),
        line_ok(lines[source_of(lines, k)]),
        line_key(lines[source_of(lines, k)]) == Some(k),
    decreases lines.len(),
{
    let d = lines.drop_last();
    if !(line_ok(lines.last()) && line_key(lines.last()) == Some(k)) {
        if !timing_keys(d).contains(k) {
            let r = timing_keys(d);
            assert(timing_keys(lines) == r);
        }
        lemma_source_in_range(d, k);
        assert(lines[source_of(d, k)] == d[source_of(d, k)]);
    }
}

proof fn lemma_keys_unique(lines: Seq<(String, RawTimingData)>)
    ensures
        timing_keys(lines).no_duplicates(),
    decreases lines.len(),
{
    if lines.len() > 0 {
        lemma_keys_unique(lines.drop_last());
    }
}

/// The timing of every car: each line whose number reads as an `u8` and
/// whose timing converts gives the timing of that driver number; where two
/// lines give the same number, the later one's timing stands. The cars come
/// in order of first appearance. A car's best lap is marked the fastest
/// where it equals the fastest best lap of all the lines that convert.
pub fn convert_timing_data(raw_timing_data: &Vec<(String, RawTimingData)>) -> (r: Vec<(DriverNumber, LiveTiming)>)
    ensures
        r@.len() == timing_keys(raw_timing_data@).len(),
        forall|j: int|
            0 <= j < r@.len() ==> {
                let k = timing_keys(raw_timing_data@)[j];
                let p = raw_timing_data@[source_of(raw_timing_data@, k)].1;
                &&& (#[trigger] r@[j]).0.value as nat == k
                &&& live_timing_from(p, r@[j].1)
                &&& r@[j].1.lap_data.best_lap.overall_fastest == (r@[j].1.lap_data.best_lap.time
                    == Some(fastest_best(raw_timing_data@)))
            },
{
    let ghost lines = raw_timing_data@;
    let mut out: Vec<(DriverNumber, LiveTiming)> = Vec::new();
    let mut fastest = LapTime { minutes: u32::MAX, seconds: 0, milliseconds: 0 };
    let mut i: usize = 0;
    while i < raw_timing_data.len()
        invariant
            lines == raw_timing_data@,
            i <= lines.len(),
            fastest == fastest_best(lines.take(i as int)),
            out@.len() == timing_keys(lines.take(i as int)).len(),
            forall|j: int|
                0 <= j < out@.len() ==> {
                    let pre = lines.take(i as int);
                    let k = timing_keys(pre)[j];
                    &&& (#[trigger] out@[j]).0.value as nat == k
                    &&& live_timing_from(pre[source_of(pre, k)].1, out@[j].1)
                    &&& !out@[j].1.lap_data.best_lap.overall_fastest
                },
        decreases lines.len() - i,
    {
        let ghost pre = lines.take(i as int);
        let ghost next = lines.take(i + 1);
        assert(next.drop_last() =~= pre);
        assert(next.last() == lines[i as int]);
        let key = parse_u8(raw_timing_data[i].0.as_str());
        let conv = LiveTiming::try_from_raw(&raw_timing_data[i].1);
        match (key, conv) {
            (Some(k), Ok(lt)) => {
                proof {
                    lemma_keys_unique(pre);
                }
                let ghost old_out = out@;
                let better = match &lt.lap_data.best_lap.time {
                    Some(t) => t.lt(&fastest),
                    None => false,
                };
                if better {
                    fastest = lt.lap_data.best_lap.time.unwrap();
                }
                let mut j: usize = 0;
                let mut found = false;
                while j < out.len()
                    invariant_except_break
                        !found,
                    invariant
                        j <= out@.len(),
                        out@ == old_out,
                        old_out.len() == timing_keys(pre).len(),
                        forall|m: int| 0 <= m < old_out.len() ==> (#[trigger] old_out[m]).0.value as nat == timing_keys(pre)[m],
                        forall|m: int| 0 <= m < j ==> (#[trigger] old_out[m]).0.value != k,
                    ensures
                        j <= out@.len(),
                        out@ == old_out,
                        found ==> j < out@.len() && old_out[j as int].0.value == k,
                        !found ==> forall|m: int| 0 <= m < old_out.len() ==> (#[trigger] old_out[m]).0.value != k,
                    decreases out@.len() - j,
                {
                    if out[j].0.value == k {
                        found = true;
                        break;
                    }
                    j = j + 1;
                }
                proof {
                    assert(line_ok(lines[i as int]));
                    assert(best_time(lines[i as int].1) == lt.lap_data.best_lap.time);
                    assert(fastest == fastest_best(next));
                }
                if found {
                    proof {
                        assert(timing_keys(pre)[j as int] == k as nat);
                        assert(timing_keys(pre).contains(k as nat));
                        assert(timing_keys(next) == timing_keys(pre));
                    }
                    out.set(j, (DriverNumber { value: k }, lt));
                    proof {
                        assert forall|m: int| 0 <= m < out@.len() implies {
                            let kk = timing_keys(next)[m];
                            &&& (#[trigger] out@[m]).0.value as nat == kk
                            &&& live_timing_from(next[source_of(next, kk)].1, out@[m].1)
                            &&& !out@[m].1.lap_data.best_lap.overall_fastest
                        } by {
                            if m != j {
                                let kk = timing_keys(pre)[m];
                                assert(kk != k as nat);
                                assert(timing_keys(pre).contains(kk));
                                lemma_source_in_range(pre, kk);
                                assert(next[source_of(pre, kk)] == pre[source_of(pre, kk)]);
                            }
                        }
                    }
                } else {
                    proof {
                        assert(!timing_keys(pre).contains(k as nat)) by {
                            if timing_keys(pre).contains(k as nat) {
                                let m = timing_keys(pre).index_of(k as nat);
                                assert(old_out[m].0.value != k);
                            }
                        }
                        assert(timing_keys(next) == timing_keys(pre).push(k as nat));
                    }
                    out.push((DriverNumber { value: k }, lt));
                    proof {
                        assert forall|m: int| 0 <= m < out@.len() implies {
                            let kk = timing_keys(next)[m];
                            &&& (#[trigger] out@[m]).0.value as nat == kk
                            &&& live_timing_from(next[source_of(next, kk)].1, out@[m].1)
                            &&& !out@[m].1.lap_data.best_lap.overall_fastest
                        } by {
                            if m < old_out.len() {
                                let kk = timing_keys(pre)[m];
                                assert(kk != k as nat);
                                assert(timing_keys(pre).contains(kk));
                                lemma_source_in_range(pre, kk);
                                assert(next[source_of(pre, kk)] == pre[source_of(pre, kk)]);
                            }
                        }
                    }
                }
            },
            _ => {
                proof {
                    assert(!line_ok(lines[i as int]));
                    assert(timing_keys(next) == timing_keys(pre));
                    assert forall|k: nat| source_of(next, k) == source_of(pre, k) by {}
                    assert(fastest_best(next) == fastest_best(pre));
                    assert forall|j: int| 0 <= j < out@.len() implies {
                        let k = #[trigger] timing_keys(next)[j];
                        next[source_of(next, k)] == pre[source_of(pre, k)]
                    } by {
                        let k = timing_keys(pre)[j];
                        assert(timing_keys(pre).contains(k));
                        lemma_source_in_range(pre, k);
                    }
                }
            },
        }
        i = i + 1;
    }
    assert(lines.take(lines.len() as int) =~= lines);
    let ghost keys = timing_keys(lines);
    let ghost stage = out@;
    let mut res: Vec<(DriverNumber, LiveTiming)> = Vec::new();
    let mut rest = out;
    while rest.len() > 0
        invariant
            lines == raw_timing_data@,
            keys == timing_keys(lines),
            fastest == fastest_best(lines),
            stage.len() == keys.len(),
            forall|j: int|
                0 <= j < stage.len() ==> {
                    &&& (#[trigger] stage[j]).0.value as nat == keys[j]
                    &&& live_timing_from(lines[source_of(lines, keys[j])].1, stage[j].1)
                },
            res@.len() + rest@.len() == stage.len(),
            rest@ == stage.skip(res@.len() as int),
            forall|j: int|
                0 <= j < res@.len() ==> {
                    &&& (#[trigger] res@[j]).0.value as nat == keys[j]
                    &&& live_timing_from(lines[source_of(lines, keys[j])].1, res@[j].1)
                    &&& res@[j].1.lap_data.best_lap.overall_fastest == (
                    res@[j].1.lap_data.best_lap.time == Some(fastest))
                },
        decreases rest@.len(),
    {
        let ghost done = res@.len() as int;
        assert(rest@[0] == stage[done]);
        let (num, mut lt) = rest.remove(0);
        assert(rest@ =~= stage.skip(done + 1));
        let is_fastest = match &lt.lap_data.best_lap.time {
            Some(t) => t.same(&fastest),
            None => false,
        };
        lt.lap_data.best_lap.overall_fastest = is_fastest;
        res.push((num, lt));
    }
    res
}


/// No line that converts has a best lap faster than the fastest best lap.
pub proof fn lemma_fastest_best_is_fastest(lines: Seq<(String, RawTimingData)>, i: int)
    requires
        0 <= i < lines.len(),
        line_ok(lines[i]),
        best_time(lines[i].1) is Some,
    ensures
        !lap_time::lap_time_lt(best_time(lines[i].1)->Some_0, fastest_best(lines)),
    decreases lines.len(),
{
    let d = lines.drop_last();
    if i < lines.len() - 1 {
        assert(d[i] == lines[i]);
        lemma_fastest_best_is_fastest(d, i);
    }
}

/// The fastest best lap is that of a line that converts, unless no line
/// has one faster than `slowest_lap()`.
pub proof fn lemma_fastest_best_attained(lines: Seq<(String, RawTimingData)>)
    ensures
        fastest_best(lines) == slowest_lap() || exists|i: int|
            0 <= i < lines.len() && line_ok(#[trigger] lines[i]) && best_time(lines[i].1) == Some(
                fastest_best(lines),
            ),
    decreases lines.len(),
{
    if lines.len() > 0 {
        let d = lines.drop_last();
        lemma_fastest_best_attained(d);
        if fastest_best(lines) != fastest_best(d) {
            let i = lines.len() - 1;
            assert(line_ok(lines[i]) && best_time(lines[i].1) == Some(fastest_best(lines)));
        } else if fastest_best(d) != slowest_lap() {
            let i = choose|i: int|
                0 <= i < d.len() && line_ok(#[trigger] d[i]) && best_time(d[i].1) == Some(
                    fastest_best(d),
                );
            assert(lines[i] == d[i]);
        }
    }
}

/// The fastest of all: where some line that converts has a best lap faster
/// than `slowest_lap()`, the fastest best lap, the one that marks a line as
/// overall fastest, is the best lap of a line that converts, and no line
/// that converts has a faster one.
pub proof fn lemma_fastest_best_is_minimum(lines: Seq<(String, RawTimingData)>, k: int)
    requires
        0 <= k < lines.len(),
        line_ok(lines[k]),
        best_time(lines[k].1) is Some,
        lap_time::lap_time_lt(best_time(lines[k].1)->Some_0, slowest_lap()),
    ensures
        exists|i: int|
            0 <= i < lines.len() && line_ok(#[trigger] lines[i]) && best_time(lines[i].1) == Some(
                fastest_best(lines),
            ),
        forall|j: int|
            0 <= j < lines.len() && line_ok(#[trigger] lines[j]) && best_time(lines[j].1) is Some
                ==> !lap_time::lap_time_lt(best_time(lines[j].1)->Some_0, fastest_best(lines)),
{
    lemma_fastest_best_attained(lines);
    lemma_fastest_best_is_fastest(lines, k);
    assert forall|j: int|
        0 <= j < lines.len() && line_ok(#[trigger] lines[j]) && best_time(lines[j].1) is Some
            implies !lap_time::lap_time_lt(best_time(lines[j].1)->Some_0, fastest_best(lines)) by {
        lemma_fastest_best_is_fastest(lines, j);
    }
}

/// The feed's code of a mini-sector status: 2048 a segment slower than the
/// driver's best, 2049 a personal best, 2050 a state the feed does not
/// name, 2051 the best of all, 2052 an aborted lap, 2064 the pit lane. A
/// blank segment has no code of its own.
pub open spec fn feed_code(s: SegmentStatus) -> Option<u32> {
    match s {
        SegmentStatus::Normal => Some(2048),
        SegmentStatus::PersonalFastest => Some(2049),
        SegmentStatus::Unknown => Some(2050),
        SegmentStatus::OverallFastest => Some(2051),
        SegmentStatus::Aborted => Some(2052),
        SegmentStatus::InPit => Some(2064),
        SegmentStatus::Blank => None,
    }
}

/// Each status of a mini-sector comes from exactly its code in the feed's
/// table: a code gives the status whose code it is, every status but the
/// blank one is given by its own code, and a code outside the table gives
/// a blank segment. So a personal best (2049) is never shown as the best
/// of all (2051), nor the other way round.
pub proof fn lemma_segment_codes(code: u32, st: SegmentStatus)
    ensures
        segment_status_of(code) == st <==> (feed_code(st) == Some(code) || (st
            == SegmentStatus::Blank && feed_code(segment_status_of(code)) is None)),
        feed_code(st) matches Some(c) ==> segment_status_of(c) == st,
        feed_code(segment_status_of(code)) is None <==> (code != 2048 && code != 2049 && code
            != 2050 && code != 2051 && code != 2052 && code != 2064),
{
}

} // verus!
