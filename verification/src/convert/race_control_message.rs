//! From the feed's race control messages to the library's.
use vstd::prelude::*;

use crate::model::race_control::{Flag, FlagColor, FlagScope, MessageCategory, RaceControlMessage};
use crate::model::status::Timestamp;
use crate::parsing::decode::FeedError;
use crate::parsing::race_control_messages::RawRaceControlMessage;
use crate::text::{self, str_contains, str_eq};
use crate::time::{self, parse_naive_utc};

verus! {

/// The colour a flag text names.
pub open spec fn flag_color_of(s: Seq<char>) -> Option<FlagColor> {
    if s == "GREEN"@ {
        Some(FlagColor::Green)
    } else if s == "YELLOW"@ {
        Some(FlagColor::Yellow)
    } else if s == "DOUBLE YELLOW"@ {
        Some(FlagColor::DoubleYellow)
    } else if s == "RED"@ {
        Some(FlagColor::Red)
    } else if s == "CLEAR"@ {
        Some(FlagColor::Clear)
    } else if s == "CHEQUERED"@ {
        Some(FlagColor::Chequered)
    } else {
        None
    }
}

/// The scope of a flag message: the track, or its sector, which must be
/// given.
pub open spec fn flag_scope_of(m: RawRaceControlMessage) -> Result<FlagScope, FeedError> {
    match m.Scope {
        None => Err(FeedError::MissingMember),
        Some(s) => if s@ == "Track"@ {
            Ok(FlagScope::Track)
        } else if s@ == "Sector"@ {
            match m.Sector {
                Some(n) => Ok(FlagScope::Sector(n)),
                None => Err(FeedError::MissingMember),
            }
        } else {
            Err(FeedError::UnknownValue)
        },
    }
}

/// What a message is about: a flag (with its colour and scope), the safety
/// car, or something else, where a message that says "RED FLAG" is a red
/// flag for the track. Other categories are refused.
pub open spec fn category_of(m: RawRaceControlMessage) -> Result<MessageCategory, FeedError> {
    if m.Category@ == "Flag"@ {
        match m.Flag {
            None => Err(FeedError::MissingMember),
            Some(f) => match flag_color_of(f@) {
                None => Err(FeedError::UnknownValue),
                Some(color) => match flag_scope_of(m) {
                    Ok(scope) => Ok(MessageCategory::Flag(Flag { color, scope })),
                    Err(e) => Err(e),
                },
            },
        }
    } else if m.Category@ == "SafetyCar"@ {
        Ok(MessageCategory::SafetyCar)
    } else if m.Category@ == "Other"@ {
        if text::contains_seq(m.Message@, "RED FLAG"@) {
            Ok(MessageCategory::Flag(Flag { color: FlagColor::Red, scope: FlagScope::Track }))
        } else {
            Ok(MessageCategory::Other)
        }
    } else {
        Err(FeedError::UnknownValue)
    }
}

/// The time and the category of a message; a time that does not read as
/// `%Y-%m-%dT%H:%M:%S` (UTC) gives `InvalidDate`.
pub open spec fn message_of(m: RawRaceControlMessage) -> Result<(Timestamp, MessageCategory), FeedError> {
    match time::naive_utc_instant(m.Utc@) {
        None => Err(FeedError::InvalidDate),
        Some(p) => match category_of(m) {
            Ok(c) => Ok((time::instant(p), c)),
            Err(e) => Err(e),
        },
    }
}

/// Whether `r` is what converting `m` gives.
pub open spec fn converted(m: RawRaceControlMessage, r: Result<RaceControlMessage, FeedError>) -> bool {
    match message_of(m) {
        Ok((t, c)) => r matches Ok(x) && x.timestamp == t && x.category == c && x.message@
            == m.Message@,
        Err(e) => r == Err::<RaceControlMessage, FeedError>(e),
    }
}

fn flag_color(s: &str) -> (r: Option<FlagColor>)
    ensures
        r == flag_color_of(s@),
{
    if str_eq(s, "GREEN") {
        Some(FlagColor::Green)
    } else if str_eq(s, "YELLOW") {
        Some(FlagColor::Yellow)
    } else if str_eq(s, "DOUBLE YELLOW") {
        Some(FlagColor::DoubleYellow)
    } else if str_eq(s, "RED") {
        Some(FlagColor::Red)
    } else if str_eq(s, "CLEAR") {
        Some(FlagColor::Clear)
    } else if str_eq(s, "CHEQUERED") {
        Some(FlagColor::Chequered)
    } else {
        None
    }
}

fn flag_scope(m: &RawRaceControlMessage) -> (r: Result<FlagScope, FeedError>)
    ensures
        r == flag_scope_of(*m),
{
    match &m.Scope {
        None => Err(FeedError::MissingMember),
        Some(s) => if str_eq(s.as_str(), "Track") {
            Ok(FlagScope::Track)
        } else if str_eq(s.as_str(), "Sector") {
            match m.Sector {
                Some(n) => Ok(FlagScope::Sector(n)),
                None => Err(FeedError::MissingMember),
            }
        } else {
            Err(FeedError::UnknownValue)
        },
    }
}

fn message_category(m: &RawRaceControlMessage) -> (r: Result<MessageCategory, FeedError>)
    ensures
        r == category_of(*m),
{
    if str_eq(m.Category.as_str(), "Flag") {
        match &m.Flag {
            None => Err(FeedError::MissingMember),
            Some(f) => match flag_color(f.as_str()) {
                None => Err(FeedError::UnknownValue),
                Some(color) => match flag_scope(m) {
                    Ok(scope) => Ok(MessageCategory::Flag(Flag { color, scope })),
                    Err(e) => Err(e),
                },
            },
        }
    } else if str_eq(m.Category.as_str(), "SafetyCar") {
        Ok(MessageCategory::SafetyCar)
    } else if str_eq(m.Category.as_str(), "Other") {
        if str_contains(m.Message.as_str(), "RED FLAG") {
            Ok(MessageCategory::Flag(Flag { color: FlagColor::Red, scope: FlagScope::Track }))
        } else {
            Ok(MessageCategory::Other)
        }
    } else {
        Err(FeedError::UnknownValue)
    }
}

impl RaceControlMessage {
    /// A race control message from the feed's.
    pub fn try_from_raw(value: &RawRaceControlMessage) -> (r: Result<RaceControlMessage, FeedError>)
        ensures
            converted(*value, r),
    {
        let timestamp = match parse_naive_utc(value.Utc.as_str()) {
            Some(t) => t,
            None => {
                return Err(FeedError::InvalidDate);
            },
        };
        let category = match message_category(value) {
            Ok(c) => c,
            Err(e) => {
                return Err(e);
            },
        };
        Ok(RaceControlMessage { timestamp, category, message: value.Message.clone() })
    }
}

/// The first message that does not convert, if any.
pub open spec fn first_failure(ms: Seq<RawRaceControlMessage>) -> Option<int>
    decreases ms.len(),
{
    if ms.len() == 0 {
        None
    } else {
        match first_failure(ms.drop_last()) {
            Some(i) => Some(i),
            None => if message_of(ms.last()) is Err {
                Some(ms.len() - 1)
            } else {
                None
            },
        }
    }
}

/// Converts every message, in order; the first that does not convert
/// gives its error.
pub fn convert_race_control_messages(raw_messages: &[RawRaceControlMessage]) -> (r: Result<
    Vec<RaceControlMessage>,
    FeedError,
>)
    ensures
        match first_failure(raw_messages@) {
            Some(i) => r == Err::<Vec<RaceControlMessage>, FeedError>(
                message_of(raw_messages@[i])->Err_0,
            ),
            None => r matches Ok(v) && v@.len() == raw_messages@.len() && forall|i: int|
                0 <= i < v@.len() ==> converted(raw_messages@[i], Ok(#[trigger] v@[i])),
        },
{
    let ghost ms = raw_messages@;
    let mut out: Vec<RaceControlMessage> = Vec::new();
    let mut i: usize = 0;
    while i < raw_messages.len()
        invariant
            ms == raw_messages@,
            i <= ms.len(),
            first_failure(ms.take(i as int)) is None,
            out@.len() == i,
            forall|j: int| 0 <= j < i ==> converted(ms[j], Ok(#[trigger] out@[j])),
        decreases ms.len() - i,
    {
        let ghost next = ms.take(i + 1);
        assert(next.drop_last() =~= ms.take(i as int));
        assert(next.last() == ms[i as int]);
        match RaceControlMessage::try_from_raw(&raw_messages[i]) {
            Ok(m) => {
                out.push(m);
            },
            Err(e) => {
                proof {
                    assert(first_failure(next) == Some(i as int));
                    lemma_first_failure_prefix(ms, i as int + 1);
                }
                return Err(e);
            },
        }
        i = i + 1;
    }
    assert(ms.take(ms.len() as int) =~= ms);
    Ok(out)
}

proof fn lemma_first_failure_prefix(ms: Seq<RawRaceControlMessage>, n: int)
    requires
        0 <= n <= ms.len(),
        first_failure(ms.take(n)) is Some,
    ensures
        first_failure(ms) == first_failure(ms.take(n)),
    decreases ms.len() - n,
{
    if n < ms.len() {
        let next = ms.take(n + 1);
        assert(next.drop_last() =~= ms.take(n));
        lemma_first_failure_prefix(ms, n + 1);
    } else {
        assert(ms.take(n) =~= ms);
    }
}

/// The category texts of the feed are told apart by their first letter.
proof fn lemma_category_texts_differ()
    ensures
        "SafetyCar"@ != "Flag"@,
        "SafetyCar"@ != "Other"@,
        "Other"@ != "Flag"@,
{
    reveal_strlit("SafetyCar");
    reveal_strlit("Flag");
    reveal_strlit("Other");
    assert("SafetyCar"@[0] != "Flag"@[0]);
    assert("SafetyCar"@[0] != "Other"@[0]);
    assert("Other"@[0] != "Flag"@[0]);
}

/// A message is about the safety car exactly when the feed files it under
/// `SafetyCar`: such a message, where its time reads, converts to a safety
/// car message with its text and time, and no message of another category
/// does. Messages filed under `Other` are never about the safety car, and
/// are a red flag for the track exactly when they say "RED FLAG".
pub proof fn lemma_safety_car_messages(m: RawRaceControlMessage, r: Result<RaceControlMessage, FeedError>)
    requires
        converted(m, r),
    ensures
        m.Category@ == "SafetyCar"@ && time::naive_utc_instant(m.Utc@) is Some ==> (r matches Ok(x)
            && x.category == MessageCategory::SafetyCar && x.message@ == m.Message@ && x.timestamp
            == time::instant(time::naive_utc_instant(m.Utc@)->Some_0)),
        r matches Ok(x) && x.category == MessageCategory::SafetyCar ==> m.Category@ == "SafetyCar"@,
        m.Category@ == "Other"@ && time::naive_utc_instant(m.Utc@) is Some ==> (r matches Ok(x) && (
        x.category == if text::contains_seq(m.Message@, "RED FLAG"@) {
            MessageCategory::Flag(Flag { color: FlagColor::Red, scope: FlagScope::Track })
        } else {
            MessageCategory::Other
        })),
{
    lemma_category_texts_differ();
}

} // verus!
