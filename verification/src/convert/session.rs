//! From the feed's session information to the library's.
use vstd::prelude::*;

use crate::model::circuit::CircuitKey;
use crate::model::session_info::{
    ArchiveStatus, Country, Meeting, QualiPhase, SessionInfo, SessionStatus, SessionType,
};
use crate::model::status::Timestamp;
use crate::parsing::decode::FeedError;
use crate::parsing::session_info::{RawCountry, RawMeeting, RawSessionInfo};
use crate::text::{self, chars_of, parse_i32, split_chars, str_eq, string_from_chars};
use crate::time::{self, east_offset, parse_naive_utc};

verus! {

pub open spec fn session_status_of(s: Seq<char>) -> Option<SessionStatus> {
    if s == "Inactive"@ {
        Some(SessionStatus::Inactive)
    } else if s == "Started"@ || s == "Finished"@ {
        Some(SessionStatus::Started)
    } else if s == "Finalised"@ {
        Some(SessionStatus::Finalised)
    } else {
        None
    }
}

pub open spec fn archive_status_of(s: Seq<char>) -> Option<ArchiveStatus> {
    if s == "Generating"@ {
        Some(ArchiveStatus::Generating)
    } else if s == "Complete"@ {
        Some(ArchiveStatus::Complete)
    } else {
        None
    }
}

pub open spec fn quali_phase_of(part: Option<u8>) -> Option<QualiPhase> {
    match part {
        Some(1) => Some(QualiPhase::Q1),
        Some(2) => Some(QualiPhase::Q2),
        Some(3) => Some(QualiPhase::Q3),
        _ => None,
    }
}

/// The kind of session; for qualifying, the phase that `quali_part` names.
pub open spec fn session_type_of(s: Seq<char>, quali_part: Option<u8>) -> Option<SessionType> {
    if s == "Practice"@ {
        Some(SessionType::Practice)
    } else if s == "Qualifying"@ {
        Some(SessionType::Qualifying(quali_phase_of(quali_part)))
    } else if s == "Race"@ {
        Some(SessionType::Race)
    } else {
        None
    }
}

/// The `:`-separated fields of an offset, each an `i32`; `None` where one
/// does not read.
pub open spec fn offset_fields(parts: Seq<Seq<char>>) -> Option<Seq<int>>
    decreases parts.len(),
{
    if parts.len() == 0 {
        Some(Seq::empty())
    } else {
        match offset_fields(parts.drop_last()) {
            None => None,
            Some(r) => match text::parse_signed(parts.last(), i32::MIN as int, i32::MAX as int) {
                Some(v) => Some(r.push(v)),
                None => None,
            },
        }
    }
}

pub open spec fn in_i32(x: int) -> bool {
    i32::MIN <= x <= i32::MAX
}

/// Whether the offset `h:m:s`, once its fields read, has three fields and
/// `h * 3600 + m * 60 + s` computes within `i32`.
pub open spec fn offset_computable(s: Seq<char>) -> bool {
    match offset_fields(text::split_spec(s, ':')) {
        None => true,
        Some(f) => f.len() >= 3 && in_i32(f[0] * 3600) && in_i32(f[1] * 60) && in_i32(
            f[0] * 3600 + f[1] * 60,
        ) && in_i32(f[0] * 3600 + f[1] * 60 + f[2]),
    }
}

/// The offset in seconds that `h:m:s` writes (fields past the third are
/// read but not used); `InvalidNumber` where a field does not read.
pub open spec fn offset_seconds_of(s: Seq<char>) -> Result<int, FeedError> {
    match offset_fields(text::split_spec(s, ':')) {
        None => Err(FeedError::InvalidNumber),
        Some(f) => Ok(f[0] * 3600 + f[1] * 60 + f[2]),
    }
}

/// The UTC offset: the seconds of `GmtOffset`, which chrono takes as a
/// fixed offset only strictly within a day (else `InvalidTime`).
pub open spec fn utc_offset_of(s: Seq<char>) -> Result<i32, FeedError> {
    match offset_seconds_of(s) {
        Err(e) => Err(e),
        Ok(secs) => if -86400 < secs < 86400 {
            Ok(secs as i32)
        } else {
            Err(FeedError::InvalidTime)
        },
    }
}

/// Whether `m` is the meeting `p` describes; its number must fit an `u8`.
pub open spec fn meeting_from(p: RawMeeting, m: Meeting) -> bool {
    &&& m.key == p.Key
    &&& m.name@ == p.Name@
    &&& m.official_name@ == p.OfficialName@
    &&& m.location@ == p.Location@
    &&& m.number as u32 == p.Number
    &&& m.country.key == p.Country.Key
    &&& m.country.code@ == p.Country.Code@
    &&& m.country.name@ == p.Country.Name@
    &&& m.circuit_key == CircuitKey(p.Circuit.Key)
}

pub open spec fn date_of(s: Seq<char>) -> Option<Timestamp> {
    match time::naive_utc_instant(s) {
        Some(p) => Some(time::instant(p)),
        None => None,
    }
}

/// Why the session does not convert, if it does not, in the order the
/// checks run: the session status, the archive status, the session type,
/// the offset, the meeting number, the start date, the end date.
pub open spec fn session_error(raw: RawSessionInfo, quali_part: Option<u8>) -> Option<FeedError> {
    if session_status_of(raw.SessionStatus@) is None {
        Some(FeedError::UnknownValue)
    } else if archive_status_of(raw.ArchiveStatus.Status@) is None {
        Some(FeedError::UnknownValue)
    } else if session_type_of(raw.Type@, quali_part) is None {
        Some(FeedError::UnknownValue)
    } else if utc_offset_of(raw.GmtOffset@) is Err {
        Some(utc_offset_of(raw.GmtOffset@)->Err_0)
    } else if raw.Meeting.Number > u8::MAX {
        Some(FeedError::InvalidNumber)
    } else if date_of(raw.StartDate@) is None {
        Some(FeedError::InvalidDate)
    } else if date_of(raw.EndDate@) is None {
        Some(FeedError::InvalidDate)
    } else {
        None
    }
}

/// Whether `info` is the session `raw` describes.
pub open spec fn session_from(raw: RawSessionInfo, quali_part: Option<u8>, info: SessionInfo) -> bool {
    &&& meeting_from(raw.Meeting, info.meeting)
    &&& session_status_of(raw.SessionStatus@) == Some(info.session_status)
    &&& archive_status_of(raw.ArchiveStatus.Status@) == Some(info.archive_status)
    &&& info.key == raw.Key
    &&& session_type_of(raw.Type@, quali_part) == Some(info.type_)
    &&& info.number == raw.Number
    &&& info.name@ == raw.Name@
    &&& date_of(raw.StartDate@) == Some(info.start_date)
    &&& date_of(raw.EndDate@) == Some(info.end_date)
    &&& utc_offset_of(raw.GmtOffset@) == Ok::<i32, FeedError>(info.utc_offset)
    &&& info.path@ == raw.Path@
}

impl Country {
    /// A country from the feed's.
    pub fn from_raw(value: &RawCountry) -> (c: Country)
        ensures
            c.key == value.Key,
            c.code@ == value.Code@,
            c.name@ == value.Name@,
    {
        Country { key: value.Key, code: value.Code.clone(), name: value.Name.clone() }
    }
}

impl Meeting {
    /// A meeting from the feed's; a number above 255 gives `InvalidNumber`.
    pub fn try_from_raw(value: &RawMeeting) -> (r: Result<Meeting, FeedError>)
        ensures
            value.Number > u8::MAX ==> r == Err::<Meeting, FeedError>(FeedError::InvalidNumber),
            value.Number <= u8::MAX ==> (r matches Ok(m) && meeting_from(*value, m)),
    {
        if value.Number > u8::MAX as u32 {
            return Err(FeedError::InvalidNumber);
        }
        Ok(
            Meeting {
                key: value.Key,
                name: value.Name.clone(),
                official_name: value.OfficialName.clone(),
                location: value.Location.clone(),
                number: value.Number as u8,
                country: Country::from_raw(&value.Country),
                circuit_key: CircuitKey(value.Circuit.Key),
            },
        )
    }
}

fn read_offset_fields(s: &str) -> (r: Option<Vec<i32>>)
    ensures
        match offset_fields(text::split_spec(s@, ':')) {
            Some(f) => r matches Some(v) && v@.len() == f.len() && forall|i: int|
                0 <= i < f.len() ==> f[i] == #[trigger] v@[i] as int,
            None => r is None,
        },
{
    let cs = chars_of(s);
    let parts = split_chars(&cs, ':');
    let ghost ps = text::split_spec(s@, ':');
    let mut out: Vec<i32> = Vec::new();
    let mut i: usize = 0;
    while i < parts.len()
        invariant
            ps == text::split_spec(s@, ':'),
            parts@.len() == ps.len(),
            forall|k: int| 0 <= k < parts@.len() ==> #[trigger] parts@[k]@ == ps[k],
            i <= parts@.len(),
            offset_fields(ps.take(i as int)) matches Some(f) && f.len() == out@.len() && forall|
                k: int,
            |
                0 <= k < f.len() ==> f[k] == #[trigger] out@[k] as int,
        decreases parts@.len() - i,
    {
        assert(ps.take(i + 1).drop_last() =~= ps.take(i as int));
        assert(ps.take(i + 1).last() == parts@[i as int]@);
        let piece = string_from_chars(&parts[i]);
        match parse_i32(piece.as_str()) {
            Some(v) => {
                out.push(v);
            },
            None => {
                proof {
                    lemma_offset_fields_prefix_none(ps, i as int + 1);
                }
                return None;
            },
        }
        i = i + 1;
    }
    assert(ps.take(ps.len() as int) =~= ps);
    Some(out)
}

proof fn lemma_offset_fields_prefix_none(ps: Seq<Seq<char>>, n: int)
    requires
        0 <= n <= ps.len(),
        offset_fields(ps.take(n)) is None,
    ensures
        offset_fields(ps) is None,
    decreases ps.len() - n,
{
    if n < ps.len() {
        assert(ps.take(n + 1).drop_last() =~= ps.take(n));
        lemma_offset_fields_prefix_none(ps, n + 1);
    } else {
        assert(ps.take(n) =~= ps);
    }
}

/// Whether the offset of `s` can be computed: it has at least three
/// fields, where they all read, and its seconds fit in an `i32`.
pub fn offset_is_computable(s: &str) -> (r: bool)
    ensures
        r == offset_computable(s@),
{
    let fields = match read_offset_fields(s) {
        Some(f) => f,
        None => {
            return true;
        },
    };
    if fields.len() < 3 {
        return false;
    }
    let h: i64 = fields[0] as i64 * 3600;
    let m: i64 = fields[1] as i64 * 60;
    let lo: i64 = i32::MIN as i64;
    let hi: i64 = i32::MAX as i64;
    if h < lo || h > hi || m < lo || m > hi {
        return false;
    }
    let hm: i64 = h + m;
    if hm < lo || hm > hi {
        return false;
    }
    let total: i64 = hm + fields[2] as i64;
    lo <= total && total <= hi
}

/// The UTC offset in seconds that `GmtOffset` (`h:m:s`) gives.
pub fn utc_offset(s: &str) -> (r: Result<i32, FeedError>)
    requires
        offset_computable(s@),
    ensures
        r == utc_offset_of(s@),
{
    let fields = match read_offset_fields(s) {
        Some(f) => f,
        None => {
            return Err(FeedError::InvalidNumber);
        },
    };
    let secs = fields[0] * 3600 + fields[1] * 60 + fields[2];
    match east_offset(secs) {
        Some(o) => Ok(o),
        None => Err(FeedError::InvalidTime),
    }
}

pub(crate) fn session_status(s: &str) -> (r: Option<SessionStatus>)
    ensures
        r == session_status_of(s@),
{
    if str_eq(s, "Inactive") {
        Some(SessionStatus::Inactive)
    } else if str_eq(s, "Started") || str_eq(s, "Finished") {
        Some(SessionStatus::Started)
    } else if str_eq(s, "Finalised") {
        Some(SessionStatus::Finalised)
    } else {
        None
    }
}

pub(crate) fn archive_status(s: &str) -> (r: Option<ArchiveStatus>)
    ensures
        r == archive_status_of(s@),
{
    if str_eq(s, "Generating") {
        Some(ArchiveStatus::Generating)
    } else if str_eq(s, "Complete") {
        Some(ArchiveStatus::Complete)
    } else {
        None
    }
}

pub(crate) fn session_type(s: &str, quali_part: Option<u8>) -> (r: Option<SessionType>)
    ensures
        r == session_type_of(s@, quali_part),
{
    if str_eq(s, "Practice") {
        Some(SessionType::Practice)
    } else if str_eq(s, "Qualifying") {
        let phase = match quali_part {
            Some(1) => Some(QualiPhase::Q1),
            Some(2) => Some(QualiPhase::Q2),
            Some(3) => Some(QualiPhase::Q3),
            _ => None,
        };
        Some(SessionType::Qualifying(phase))
    } else if str_eq(s, "Race") {
        Some(SessionType::Race)
    } else {
        None
    }
}

/// The session, with the part of qualifying that is running (see
/// `qualifying_part` of the `SessionData` topic). Unknown status, archive
/// status or session type give `UnknownValue`; an offset field that does
/// not read, or a meeting number above 255, `InvalidNumber`; an offset not
/// strictly within a day `InvalidTime`; a date that does not read
/// `InvalidDate`.
pub fn convert_session_info(raw_info: &RawSessionInfo, quali_part: Option<u8>) -> (r: Result<
    SessionInfo,
    FeedError,
>)
    requires
        session_status_of(raw_info.SessionStatus@) is Some && archive_status_of(
            raw_info.ArchiveStatus.Status@,
        ) is Some && session_type_of(raw_info.Type@, quali_part) is Some ==> offset_computable(
            raw_info.GmtOffset@,
        ),
    ensures
        match session_error(*raw_info, quali_part) {
            Some(e) => r == Err::<SessionInfo, FeedError>(e),
            None => r matches Ok(info) && session_from(*raw_info, quali_part, info),
        },
{
    let session_status = match session_status(raw_info.SessionStatus.as_str()) {
        Some(s) => s,
        None => {
            return Err(FeedError::UnknownValue);
        },
    };
    let archive_status = match archive_status(raw_info.ArchiveStatus.Status.as_str()) {
        Some(s) => s,
        None => {
            return Err(FeedError::UnknownValue);
        },
    };
    let type_ = match session_type(raw_info.Type.as_str(), quali_part) {
        Some(t) => t,
        None => {
            return Err(FeedError::UnknownValue);
        },
    };
    let utc_offset = match utc_offset(raw_info.GmtOffset.as_str()) {
        Ok(o) => o,
        Err(e) => {
            return Err(e);
        },
    };
    let meeting = match Meeting::try_from_raw(&raw_info.Meeting) {
        Ok(m) => m,
        Err(e) => {
            return Err(e);
        },
    };
    let start_date = match parse_naive_utc(raw_info.StartDate.as_str()) {
        Some(t) => t,
        None => {
            return Err(FeedError::InvalidDate);
        },
    };
    let end_date = match parse_naive_utc(raw_info.EndDate.as_str()) {
        Some(t) => t,
        None => {
            return Err(FeedError::InvalidDate);
        },
    };
    Ok(
        SessionInfo {
            meeting,
            session_status,
            archive_status,
            key: raw_info.Key,
            type_,
            number: raw_info.Number,
            name: raw_info.Name.clone(),
            start_date,
            end_date,
            utc_offset,
            path: raw_info.Path.clone(),
        },
    )
}

/// The number of a qualifying phase: 1 for Q1, 2 for Q2, 3 for Q3.
pub open spec fn phase_number(q: QualiPhase) -> nat {
    match q {
        QualiPhase::Q1 => 1,
        QualiPhase::Q2 => 2,
        QualiPhase::Q3 => 3,
    }
}

/// A qualifying session is in the phase that the session data numbers: it
/// has a phase exactly when the part is 1, 2 or 3, and then the phase's
/// number is the part; any other part, or none, gives no phase. Other
/// session kinds do not depend on the part.
pub proof fn lemma_qualifying_phase(part: Option<u8>, other: Option<u8>)
    ensures
        session_type_of("Qualifying"@, part) matches Some(SessionType::Qualifying(_)),
        session_type_of("Qualifying"@, part) matches Some(SessionType::Qualifying(Some(q))) ==> (
        part matches Some(n) && phase_number(q) == n),
        (part matches Some(n) && 1 <= n <= 3) ==> (session_type_of(
            "Qualifying"@,
            part,
        ) matches Some(SessionType::Qualifying(Some(q))) && part == Some(phase_number(q) as u8)),
        !(part matches Some(n) && 1 <= n <= 3) ==> session_type_of("Qualifying"@, part) == Some(
            SessionType::Qualifying(None),
        ),
        session_type_of("Practice"@, part) == session_type_of("Practice"@, other),
        session_type_of("Race"@, part) == session_type_of("Race"@, other),
{
    reveal_strlit("Qualifying");
    reveal_strlit("Practice");
    reveal_strlit("Race");
    assert("Qualifying"@[0] != "Practice"@[0]);
    assert("Race"@[0] != "Practice"@[0]);
    assert("Race"@[0] != "Qualifying"@[0]);
}

} // verus!
