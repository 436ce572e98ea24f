//! The `SessionInfo` topic.
use vstd::prelude::*;

use crate::json::{Json, JsonView};
use crate::parsing::decode::{self, read_field, read_opt_uint, read_req_text, read_req_uint, FeedError};

verus! {

/// The session as the feed describes it.
#[allow(non_snake_case)]
#[derive(Clone, Debug, PartialEq, Eq)]
pub struct RawSessionInfo {
    pub Meeting: RawMeeting,
    pub SessionStatus: String,
    pub ArchiveStatus: RawArchiveStatus,
    pub Key: u32,
    pub Type: String,
    pub Number: Option<u8>,
    pub Name: String,
    pub StartDate: String,
    pub EndDate: String,
    pub GmtOffset: String,
    pub Path: String,
}

/// The meeting (race weekend) a session belongs to.
#[allow(non_snake_case)]
#[derive(Clone, Debug, PartialEq, Eq)]
pub struct RawMeeting {
    pub Key: u32,
    pub Name: String,
    pub OfficialName: String,
    pub Location: String,
    pub Number: u32,
    pub Country: RawCountry,
    pub Circuit: RawCircuit,
}

/// Whether the session's data has been archived.
#[allow(non_snake_case)]
#[derive(Clone, Debug, PartialEq, Eq)]
pub struct RawArchiveStatus {
    pub Status: String,
}

/// The country of a meeting.
#[allow(non_snake_case)]
#[derive(Clone, Debug, PartialEq, Eq)]
pub struct RawCountry {
    pub Key: u32,
    pub Code: String,
    pub Name: String,
}

/// The circuit of a meeting.
#[allow(non_snake_case)]
#[derive(Clone, Debug, PartialEq, Eq)]
pub struct RawCircuit {
    pub Key: u32,
    pub ShortName: String,
}

pub open spec fn u32_max() -> nat {
    u32::MAX as nat
}

pub open spec fn country_ok(v: JsonView) -> bool {
    &&& v is Object
    &&& decode::req_uint(v, "Key"@, u32_max()) is Some
    &&& decode::req_text(v, "Code"@) is Some
    &&& decode::req_text(v, "Name"@) is Some
}

pub open spec fn country_of(v: JsonView, r: RawCountry) -> bool {
    &&& v is Object
    &&& decode::req_uint(v, "Key"@, u32_max()) == Some(r.Key as nat)
    &&& decode::req_text(v, "Code"@) == Some(r.Code@)
    &&& decode::req_text(v, "Name"@) == Some(r.Name@)
}

pub open spec fn circuit_ok(v: JsonView) -> bool {
    &&& v is Object
    &&& decode::req_uint(v, "Key"@, u32_max()) is Some
    &&& decode::req_text(v, "ShortName"@) is Some
}

pub open spec fn circuit_of(v: JsonView, r: RawCircuit) -> bool {
    &&& v is Object
    &&& decode::req_uint(v, "Key"@, u32_max()) == Some(r.Key as nat)
    &&& decode::req_text(v, "ShortName"@) == Some(r.ShortName@)
}

pub open spec fn archive_ok(v: JsonView) -> bool {
    v is Object && decode::req_text(v, "Status"@) is Some
}

pub open spec fn archive_of(v: JsonView, r: RawArchiveStatus) -> bool {
    v is Object && decode::req_text(v, "Status"@) == Some(r.Status@)
}

pub open spec fn meeting_ok(v: JsonView) -> bool {
    &&& v is Object
    &&& decode::req_uint(v, "Key"@, u32_max()) is Some
    &&& decode::req_text(v, "Name"@) is Some
    &&& decode::req_text(v, "OfficialName"@) is Some
    &&& decode::req_text(v, "Location"@) is Some
    &&& decode::req_uint(v, "Number"@, u32_max()) is Some
    &&& decode::field(v, "Country"@) matches Some(c) && country_ok(c)
    &&& decode::field(v, "Circuit"@) matches Some(c) && circuit_ok(c)
}

pub open spec fn meeting_of(v: JsonView, r: RawMeeting) -> bool {
    &&& v is Object
    &&& decode::req_uint(v, "Key"@, u32_max()) == Some(r.Key as nat)
    &&& decode::req_text(v, "Name"@) == Some(r.Name@)
    &&& decode::req_text(v, "OfficialName"@) == Some(r.OfficialName@)
    &&& decode::req_text(v, "Location"@) == Some(r.Location@)
    &&& decode::req_uint(v, "Number"@, u32_max()) == Some(r.Number as nat)
    &&& decode::field(v, "Country"@) matches Some(c) && country_of(c, r.Country)
    &&& decode::field(v, "Circuit"@) matches Some(c) && circuit_of(c, r.Circuit)
}

pub open spec fn opt_u8(o: Option<u8>) -> Option<nat> {
    match o {
        Some(n) => Some(n as nat),
        None => None,
    }
}

/// Whether `v` holds every member of the session with its type.
pub open spec fn session_info_ok(v: JsonView) -> bool {
    &&& v is Object
    &&& decode::field(v, "Meeting"@) matches Some(m) && meeting_ok(m)
    &&& decode::req_text(v, "SessionStatus"@) is Some
    &&& decode::field(v, "ArchiveStatus"@) matches Some(a) && archive_ok(a)
    &&& decode::req_uint(v, "Key"@, u32_max()) is Some
    &&& decode::req_text(v, "Type"@) is Some
    &&& decode::opt_uint(v, "Number"@, u8::MAX as nat) is Some
    &&& decode::req_text(v, "Name"@) is Some
    &&& decode::req_text(v, "StartDate"@) is Some
    &&& decode::req_text(v, "EndDate"@) is Some
    &&& decode::req_text(v, "GmtOffset"@) is Some
    &&& decode::req_text(v, "Path"@) is Some
}

/// Whether `r` holds the members of `v`.
pub open spec fn session_info_of(v: JsonView, r: RawSessionInfo) -> bool {
    &&& v is Object
    &&& decode::field(v, "Meeting"@) matches Some(m) && meeting_of(m, r.Meeting)
    &&& decode::req_text(v, "SessionStatus"@) == Some(r.SessionStatus@)
    &&& decode::field(v, "ArchiveStatus"@) matches Some(a) && archive_of(a, r.ArchiveStatus)
    &&& decode::req_uint(v, "Key"@, u32_max()) == Some(r.Key as nat)
    &&& decode::req_text(v, "Type"@) == Some(r.Type@)
    &&& decode::opt_uint(v, "Number"@, u8::MAX as nat) == Some(opt_u8(r.Number))
    &&& decode::req_text(v, "Name"@) == Some(r.Name@)
    &&& decode::req_text(v, "StartDate"@) == Some(r.StartDate@)
    &&& decode::req_text(v, "EndDate"@) == Some(r.EndDate@)
    &&& decode::req_text(v, "GmtOffset"@) == Some(r.GmtOffset@)
    &&& decode::req_text(v, "Path"@) == Some(r.Path@)
}

fn decode_u32(v: &Json, name: &str) -> (r: Option<u32>)
    ensures
        match decode::req_uint(v@, name@, u32_max()) {
            Some(n) => r == Some(n as u32),
            None => r is None,
        },
{
    match read_req_uint(v, name, u32::MAX as u64) {
        Some(n) => Some(n as u32),
        None => None,
    }
}

fn decode_country(v: &Json) -> (r: Option<RawCountry>)
    ensures
        r is Some <==> country_ok(v@),
        r matches Some(c) ==> country_of(v@, c),
{
    if !decode::is_object(v) {
        return None;
    }
    let key = decode_u32(v, "Key")?;
    let code = read_req_text(v, "Code")?;
    let name = read_req_text(v, "Name")?;
    Some(RawCountry { Key: key, Code: code, Name: name })
}

fn decode_circuit(v: &Json) -> (r: Option<RawCircuit>)
    ensures
        r is Some <==> circuit_ok(v@),
        r matches Some(c) ==> circuit_of(v@, c),
{
    if !decode::is_object(v) {
        return None;
    }
    let key = decode_u32(v, "Key")?;
    let short_name = read_req_text(v, "ShortName")?;
    Some(RawCircuit { Key: key, ShortName: short_name })
}

fn decode_archive(v: &Json) -> (r: Option<RawArchiveStatus>)
    ensures
        r is Some <==> archive_ok(v@),
        r matches Some(a) ==> archive_of(v@, a),
{
    if !decode::is_object(v) {
        return None;
    }
    let status = read_req_text(v, "Status")?;
    Some(RawArchiveStatus { Status: status })
}

fn decode_meeting(v: &Json) -> (r: Option<RawMeeting>)
    ensures
        r is Some <==> meeting_ok(v@),
        r matches Some(m) ==> meeting_of(v@, m),
{
    if !decode::is_object(v) {
        return None;
    }
    let key = decode_u32(v, "Key")?;
    let name = read_req_text(v, "Name")?;
    let official_name = read_req_text(v, "OfficialName")?;
    let location = read_req_text(v, "Location")?;
    let number = decode_u32(v, "Number")?;
    let country = decode_country(read_field(v, "Country")?)?;
    let circuit = decode_circuit(read_field(v, "Circuit")?)?;
    Some(
        RawMeeting {
            Key: key,
            Name: name,
            OfficialName: official_name,
            Location: location,
            Number: number,
            Country: country,
            Circuit: circuit,
        },
    )
}

fn decode_session_info(v: &Json) -> (r: Option<RawSessionInfo>)
    requires
        v@ is Object,
    ensures
        r is Some <==> session_info_ok(v@),
        r matches Some(s) ==> session_info_of(v@, s),
{
    let meeting = decode_meeting(read_field(v, "Meeting")?)?;
    let session_status = read_req_text(v, "SessionStatus")?;
    let archive_status = decode_archive(read_field(v, "ArchiveStatus")?)?;
    let key = decode_u32(v, "Key")?;
    let session_type = read_req_text(v, "Type")?;
    let number = match read_opt_uint(v, "Number", u8::MAX as u64)? {
        Some(n) => Some(n as u8),
        None => None,
    };
    let name = read_req_text(v, "Name")?;
    let start_date = read_req_text(v, "StartDate")?;
    let end_date = read_req_text(v, "EndDate")?;
    let gmt_offset = read_req_text(v, "GmtOffset")?;
    let path = read_req_text(v, "Path")?;
    Some(
        RawSessionInfo {
            Meeting: meeting,
            SessionStatus: session_status,
            ArchiveStatus: archive_status,
            Key: key,
            Type: session_type,
            Number: number,
            Name: name,
            StartDate: start_date,
            EndDate: end_date,
            GmtOffset: gmt_offset,
            Path: path,
        },
    )
}

/// Reads the `SessionInfo` topic: a value that is not an object is
/// refused with `NotAnObject`, one whose members do not read with
/// `InvalidRecord`.
pub fn parse_raw_session_info(info_val: &Json) -> (r: Result<RawSessionInfo, FeedError>)
    ensures
        !(info_val@ is Object) ==> r == Err::<RawSessionInfo, FeedError>(FeedError::NotAnObject),
        info_val@ is Object && !session_info_ok(info_val@) ==> r == Err::<
            RawSessionInfo,
            FeedError,
        >(FeedError::InvalidRecord),
        info_val@ is Object && session_info_ok(info_val@) ==> r is Ok && session_info_of(
            info_val@,
            r->Ok_0,
        ),
{
    if !decode::is_object(info_val) {
        return Err(FeedError::NotAnObject);
    }
    match decode_session_info(info_val) {
        Some(s) => Ok(s),
        None => Err(FeedError::InvalidRecord),
    }
}

} // verus!
