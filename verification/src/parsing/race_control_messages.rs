//! The `RaceControlMessages` topic.
use vstd::prelude::*;

use crate::json::{self, Json, JsonView};
use crate::parsing::decode::{
    self, read_field, read_opt_text, read_opt_uint, read_req_text, FeedError,
};

verus! {

/// All race control messages so far, oldest first.
#[allow(non_snake_case)]
#[derive(Clone, Debug, PartialEq, Eq)]
pub struct RawRaceControlMessages {
    pub Messages: Vec<RawRaceControlMessage>,
}

/// A race control message as the feed sends it.
#[allow(non_snake_case)]
#[derive(Clone, Debug, PartialEq, Eq)]
pub struct RawRaceControlMessage {
    pub Utc: String,
    pub Category: String,
    pub Message: String,
    pub Flag: Option<String>,
    pub Scope: Option<String>,
    pub Sector: Option<u8>,
}

/// The view of an optional text.
pub open spec fn opt_view(o: Option<String>) -> Option<Seq<char>> {
    match o {
        Some(s) => Some(s@),
        None => None,
    }
}

/// The view of an optional `u8`.
pub open spec fn opt_u8_view(o: Option<u8>) -> Option<nat> {
    match o {
        Some(n) => Some(n as nat),
        None => None,
    }
}

/// Whether `v` holds a message with its members' types.
pub open spec fn raw_message_ok(v: JsonView) -> bool {
    &&& decode::req_text(v, "Utc"@) is Some
    &&& decode::req_text(v, "Category"@) is Some
    &&& decode::req_text(v, "Message"@) is Some
    &&& decode::opt_text(v, "Flag"@) is Some
    &&& decode::opt_text(v, "Scope"@) is Some
    &&& decode::opt_uint(v, "Sector"@, u8::MAX as nat) is Some
}

/// Whether `r` holds the members of `v`.
pub open spec fn raw_message_of(v: JsonView, r: RawRaceControlMessage) -> bool {
    &&& decode::req_text(v, "Utc"@) == Some(r.Utc@)
    &&& decode::req_text(v, "Category"@) == Some(r.Category@)
    &&& decode::req_text(v, "Message"@) == Some(r.Message@)
    &&& decode::opt_text(v, "Flag"@) == Some(opt_view(r.Flag))
    &&& decode::opt_text(v, "Scope"@) == Some(opt_view(r.Scope))
    &&& decode::opt_uint(v, "Sector"@, u8::MAX as nat) == Some(opt_u8_view(r.Sector))
}

/// Reads one race control message.
pub fn decode_raw_message(v: &Json) -> (r: Option<RawRaceControlMessage>)
    ensures
        match r {
            Some(m) => raw_message_of(v@, m),
            None => !raw_message_ok(v@),
        },
{
    let utc = read_req_text(v, "Utc")?;
    let category = read_req_text(v, "Category")?;
    let message = read_req_text(v, "Message")?;
    let flag = read_opt_text(v, "Flag")?;
    let scope = read_opt_text(v, "Scope")?;
    let sector = read_opt_uint(v, "Sector", u8::MAX as u64)?;
    let sector = match sector {
        Some(n) => Some(n as u8),
        None => None,
    };
    Some(
        RawRaceControlMessage {
            Utc: utc,
            Category: category,
            Message: message,
            Flag: flag,
            Scope: scope,
            Sector: sector,
        },
    )
}

/// Whether `v` holds the `Messages` array with every message well-typed.
pub open spec fn raw_messages_ok(v: JsonView) -> bool {
    match decode::field(v, "Messages"@) {
        Some(f) => match decode::as_items(f) {
            Some(items) => forall|i: int| 0 <= i < items.len() ==> raw_message_ok(#[trigger] items[i]),
            None => false,
        },
        None => false,
    }
}

/// Whether `r` holds the messages of `v`, in order.
pub open spec fn raw_messages_of(v: JsonView, r: RawRaceControlMessages) -> bool {
    match decode::field(v, "Messages"@) {
        Some(f) => match decode::as_items(f) {
            Some(items) => r.Messages@.len() == items.len() && forall|i: int|
                0 <= i < items.len() ==> raw_message_of(items[i], #[trigger] r.Messages@[i]),
            None => false,
        },
        None => false,
    }
}

/// Reads the `RaceControlMessages` topic.
pub fn parse_raw_race_control_messages(val: &Json) -> (r: Result<RawRaceControlMessages, FeedError>)
    ensures
        !(val@ is Object) ==> r == Err::<RawRaceControlMessages, FeedError>(FeedError::NotAnObject),
        val@ is Object && !raw_messages_ok(val@) ==> r == Err::<RawRaceControlMessages, FeedError>(
            FeedError::InvalidRecord,
        ),
        val@ is Object && raw_messages_ok(val@) ==> r is Ok && raw_messages_of(val@, r->Ok_0),
{
    if !decode::is_object(val) {
        return Err(FeedError::NotAnObject);
    }
    let items = match read_field(val, "Messages") {
        Some(f) => match decode::items_of(f) {
            Some(items) => items,
            None => {
                return Err(FeedError::InvalidRecord);
            },
        },
        None => {
            return Err(FeedError::InvalidRecord);
        },
    };
    let ghost iv = json::items_view(items@);
    let mut out: Vec<RawRaceControlMessage> = Vec::new();
    let mut i: usize = 0;
    while i < items.len()
        invariant
            iv == json::items_view(items@),
            val@ is Object,
            decode::field(val@, "Messages"@) matches Some(f) && decode::as_items(f) == Some(iv),
            i <= items.len(),
            out@.len() == i,
            forall|j: int| 0 <= j < i ==> raw_message_of(iv[j], #[trigger] out@[j]),
            forall|j: int| 0 <= j < i ==> raw_message_ok(#[trigger] iv[j]),
        decreases items.len() - i,
    {
        match decode_raw_message(&items[i]) {
            Some(m) => {
                out.push(m);
            },
            None => {
                assert(!raw_message_ok(iv[i as int]));
                assert(!raw_messages_ok(val@)) by {
                    let f = decode::field(val@, "Messages"@).unwrap();
                    assert(decode::as_items(f) == Some(iv));
                    assert(iv.len() == items.len());
                    assert(0 <= i < iv.len());
                    assert(decode::field(val@, "Messages"@) == Some(f));
                    if raw_messages_ok(val@) {
                        assert(decode::as_items(f) matches Some(items) && raw_message_ok(items[i as int]));
                    }
                }
                return Err(FeedError::InvalidRecord);
            },
        }
        i = i + 1;
    }
    Ok(RawRaceControlMessages { Messages: out })
}

} // verus!
