//! The topics of the live timing feed that the library subscribes to.
use vstd::prelude::*;

use crate::text::{str_eq, to_owned_string};

verus! {

/// A topic of the feed.
#[derive(Clone, Copy, PartialEq, Eq, Structural, Debug)]
pub enum Topic {
    DriverList,
    ExtrapolatedClock,
    LapCount,
    RaceControlMessages,
    SessionData,
    SessionInfo,
    TimingAppData,
    TimingData,
    TrackStatus,
    WeatherData,
}

/// The name the feed gives a topic.
pub open spec fn topic_name(t: Topic) -> Seq<char> {
    match t {
        Topic::DriverList => "DriverList"@,
        Topic::ExtrapolatedClock => "ExtrapolatedClock"@,
        Topic::LapCount => "LapCount"@,
        Topic::RaceControlMessages => "RaceControlMessages"@,
        Topic::SessionData => "SessionData"@,
        Topic::SessionInfo => "SessionInfo"@,
        Topic::TimingAppData => "TimingAppData"@,
        Topic::TimingData => "TimingData"@,
        Topic::TrackStatus => "TrackStatus"@,
        Topic::WeatherData => "WeatherData"@,
    }
}

/// The topic a name names, if any.
pub open spec fn topic_named(s: Seq<char>) -> Option<Topic> {
    if s == "DriverList"@ {
        Some(Topic::DriverList)
    } else if s == "ExtrapolatedClock"@ {
        Some(Topic::ExtrapolatedClock)
    } else if s == "LapCount"@ {
        Some(Topic::LapCount)
    } else if s == "RaceControlMessages"@ {
        Some(Topic::RaceControlMessages)
    } else if s == "SessionData"@ {
        Some(Topic::SessionData)
    } else if s == "SessionInfo"@ {
        Some(Topic::SessionInfo)
    } else if s == "TimingAppData"@ {
        Some(Topic::TimingAppData)
    } else if s == "TimingData"@ {
        Some(Topic::TimingData)
    } else if s == "TrackStatus"@ {
        Some(Topic::TrackStatus)
    } else if s == "WeatherData"@ {
        Some(Topic::WeatherData)
    } else {
        None
    }
}

/// Every topic, in the order the library subscribes to them.
pub open spec fn all_topics() -> Seq<Topic> {
    seq![
        Topic::DriverList,
        Topic::ExtrapolatedClock,
        Topic::LapCount,
        Topic::RaceControlMessages,
        Topic::SessionData,
        Topic::SessionInfo,
        Topic::TimingAppData,
        Topic::TimingData,
        Topic::TrackStatus,
        Topic::WeatherData,
    ]
}

proof fn lemma_names_revealed()
    ensures
        "DriverList"@ =~= seq!['D', 'r', 'i', 'v', 'e', 'r', 'L', 'i', 's', 't'],
        "ExtrapolatedClock"@ =~= seq![
            'E', 'x', 't', 'r', 'a', 'p', 'o', 'l', 'a', 't', 'e', 'd', 'C', 'l', 'o', 'c', 'k',
        ],
        "LapCount"@ =~= seq!['L', 'a', 'p', 'C', 'o', 'u', 'n', 't'],
        "RaceControlMessages"@ =~= seq![
            'R', 'a', 'c', 'e', 'C', 'o', 'n', 't', 'r', 'o', 'l', 'M', 'e', 's', 's', 'a', 'g', 'e', 's',
        ],
        "SessionData"@ =~= seq!['S', 'e', 's', 's', 'i', 'o', 'n', 'D', 'a', 't', 'a'],
        "SessionInfo"@ =~= seq!['S', 'e', 's', 's', 'i', 'o', 'n', 'I', 'n', 'f', 'o'],
        "TimingAppData"@ =~= seq!['T', 'i', 'm', 'i', 'n', 'g', 'A', 'p', 'p', 'D', 'a', 't', 'a'],
        "TimingData"@ =~= seq!['T', 'i', 'm', 'i', 'n', 'g', 'D', 'a', 't', 'a'],
        "TrackStatus"@ =~= seq!['T', 'r', 'a', 'c', 'k', 'S', 't', 'a', 't', 'u', 's'],
        "WeatherData"@ =~= seq!['W', 'e', 'a', 't', 'h', 'e', 'r', 'D', 'a', 't', 'a'],
{
    reveal_strlit("DriverList");
    reveal_strlit("ExtrapolatedClock");
    reveal_strlit("LapCount");
    reveal_strlit("RaceControlMessages");
    reveal_strlit("SessionData");
    reveal_strlit("SessionInfo");
    reveal_strlit("TimingAppData");
    reveal_strlit("TimingData");
    reveal_strlit("TrackStatus");
    reveal_strlit("WeatherData");
}

/// Reading a topic's name gives the topic back.
pub proof fn lemma_topic_name_roundtrip(t: Topic)
    ensures
        topic_named(topic_name(t)) == Some(t),
{
    lemma_names_revealed();
    let d: Seq<char> = "DriverList"@;
    let e: Seq<char> = "ExtrapolatedClock"@;
    let l: Seq<char> = "LapCount"@;
    let r: Seq<char> = "RaceControlMessages"@;
    let sd: Seq<char> = "SessionData"@;
    let si: Seq<char> = "SessionInfo"@;
    let ta: Seq<char> = "TimingAppData"@;
    let td: Seq<char> = "TimingData"@;
    let ts: Seq<char> = "TrackStatus"@;
    let w: Seq<char> = "WeatherData"@;
    assert(d[0] != td[0]);
    assert(sd[7] != si[7]);
    assert(sd[0] != ts[0] && sd[0] != w[0] && si[0] != ts[0] && si[0] != w[0] && ts[0] != w[0]);
}

/// Different topics have different names.
pub proof fn lemma_topic_names_distinct(a: Topic, b: Topic)
    requires
        a != b,
    ensures
        topic_name(a) != topic_name(b),
{
    lemma_topic_name_roundtrip(a);
    lemma_topic_name_roundtrip(b);
}

/// Every topic is subscribed to, once.
pub proof fn lemma_all_topics(t: Topic)
    ensures
        all_topics().contains(t),
        all_topics().no_duplicates(),
{
    let s = all_topics();
    let i: int = match t {
        Topic::DriverList => 0,
        Topic::ExtrapolatedClock => 1,
        Topic::LapCount => 2,
        Topic::RaceControlMessages => 3,
        Topic::SessionData => 4,
        Topic::SessionInfo => 5,
        Topic::TimingAppData => 6,
        Topic::TimingData => 7,
        Topic::TrackStatus => 8,
        Topic::WeatherData => 9,
    };
    assert(s[i] == t);
}

impl Topic {
    /// Every topic, in the order the library subscribes to them.
    pub fn all() -> (v: Vec<Topic>)
        ensures
            v@ == all_topics(),
    {
        let v = vec![
            Topic::DriverList,
            Topic::ExtrapolatedClock,
            Topic::LapCount,
            Topic::RaceControlMessages,
            Topic::SessionData,
            Topic::SessionInfo,
            Topic::TimingAppData,
            Topic::TimingData,
            Topic::TrackStatus,
            Topic::WeatherData,
        ];
        assert(v@ =~= all_topics());
        v
    }

    /// The name of the topic.
    pub fn name(&self) -> (s: &'static str)
        ensures
            s@ == topic_name(*self),
    {
        match self {
            Topic::DriverList => "DriverList",
            Topic::ExtrapolatedClock => "ExtrapolatedClock",
            Topic::LapCount => "LapCount",
            Topic::RaceControlMessages => "RaceControlMessages",
            Topic::SessionData => "SessionData",
            Topic::SessionInfo => "SessionInfo",
            Topic::TimingAppData => "TimingAppData",
            Topic::TimingData => "TimingData",
            Topic::TrackStatus => "TrackStatus",
            Topic::WeatherData => "WeatherData",
        }
    }

    /// The name of the topic, as a `String`.
    pub fn to_string(&self) -> (s: String)
        ensures
            s@ == topic_name(*self),
    {
        to_owned_string(self.name())
    }

    /// The topic that `value` names; `None` for a name the library does not
    /// subscribe to.
    pub fn try_from_name(value: &str) -> (r: Option<Topic>)
        ensures
            r == topic_named(value@),
    {
        if str_eq(value, "DriverList") {
            Some(Topic::DriverList)
        } else if str_eq(value, "ExtrapolatedClock") {
            Some(Topic::ExtrapolatedClock)
        } else if str_eq(value, "LapCount") {
            Some(Topic::LapCount)
        } else if str_eq(value, "RaceControlMessages") {
            Some(Topic::RaceControlMessages)
        } else if str_eq(value, "SessionData") {
            Some(Topic::SessionData)
        } else if str_eq(value, "SessionInfo") {
            Some(Topic::SessionInfo)
        } else if str_eq(value, "TimingAppData") {
            Some(Topic::TimingAppData)
        } else if str_eq(value, "TimingData") {
            Some(Topic::TimingData)
        } else if str_eq(value, "TrackStatus") {
            Some(Topic::TrackStatus)
        } else if str_eq(value, "WeatherData") {
            Some(Topic::WeatherData)
        } else {
            None
        }
    }
}

} // verus!
