//! The SignalR client of the live timing feed: its state (the canonical
//! state of every topic), how each message of the feed changes it, and the
//! texts it exchanges with the server. The connection itself is the
//! application's.
use vstd::prelude::*;

use crate::json::{self, deep_copy, set_member_exec, Json, JsonNumber, JsonView, Members};
use crate::merge_patch::{self, merge_patch, patch_in_range};
use crate::parsing::decode;
use crate::text::{
    self, chars_of, concat, split_chars, str_eq, str_starts_with, string_from_chars, to_owned_string,
    trim_chars,
};
use crate::topic::{self, Topic};
use crate::url::{self as urls, append_query_pair, parse_url};

verus! {

/// The character that ends each record of the SignalR JSON protocol.
pub const RECORD_SEPARATOR: char = '\u{1e}';

/// The feed's address, without a scheme.
pub open spec fn default_url() -> Seq<char> {
    "livetiming.formula1.com/signalrcore"@
}

/// The state of a client of the feed.
pub struct SignalRF1Client {
    /// The topics it subscribes to.
    pub topics: Vec<Topic>,
    /// The state of every topic, as the feed has described and patched it.
    pub canonical_state: Json,
    /// Where it logs what each topic receives, if anywhere.
    pub log_dir: Option<String>,
    /// The feed's address, without a scheme.
    pub base_url: String,
}

// ---------------------------------------------------------------------------
// Messages of the feed
// ---------------------------------------------------------------------------

/// A JSON number as an `i64` (serde_json's `Value::as_i64`).
pub open spec fn json_i64(v: JsonView) -> Option<int> {
    match v {
        JsonView::Number(JsonNumber::PosInt(n)) => if n <= i64::MAX {
            Some(n as int)
        } else {
            None
        },
        JsonView::Number(JsonNumber::NegInt(n)) => Some(n as int),
        _ => None,
    }
}

/// The type of a SignalR message.
pub open spec fn message_type(msg: JsonView) -> Option<int> {
    match decode::field(msg, "type"@) {
        Some(t) => json_i64(t),
        None => None,
    }
}

/// The arguments of an invocation of `feed` that has at least two.
pub open spec fn feed_args(msg: JsonView) -> Option<Seq<JsonView>> {
    if decode::field(msg, "target"@) == Some(JsonView::Str("feed"@)) {
        match decode::field(msg, "arguments"@) {
            Some(JsonView::Array(args)) => if args.len() >= 2 {
                Some(args)
            } else {
                None
            },
            _ => None,
        }
    } else {
        None
    }
}

/// The topic a feed invocation updates: the one its first argument names.
pub open spec fn feed_topic(args: Seq<JsonView>) -> Option<Topic> {
    match args[0] {
        JsonView::Str(s) => topic::topic_named(s),
        _ => topic::topic_named("UnknownTopic"@),
    }
}

/// The topic and the patch of a feed message.
pub open spec fn feed_update(msg: JsonView) -> Option<(Topic, JsonView)> {
    if message_type(msg) == Some(1int) {
        match feed_args(msg) {
            Some(args) => match feed_topic(args) {
                Some(t) => Some((t, args[1])),
                None => None,
            },
            None => None,
        }
    } else {
        None
    }
}

/// The topics that `m` names, in key order.
pub open spec fn topics_named(m: Members) -> Seq<Topic>
    decreases m.len(),
{
    if m.len() == 0 {
        Seq::empty()
    } else {
        let r = topics_named(m.drop_last());
        match topic::topic_named(m.last().0) {
            Some(t) => r.push(t),
            None => r,
        }
    }
}

/// The canonical state after a message: a completion with a result
/// replaces it; a feed message merges its patch into its topic's member
/// (an empty object where there is none; a state that is not an object is
/// first made an empty one); other messages leave it.
pub open spec fn state_after(state: JsonView, msg: JsonView) -> JsonView {
    if message_type(msg) == Some(3int) {
        match decode::field(msg, "result"@) {
            Some(r) => r,
            None => state,
        }
    } else {
        match feed_update(msg) {
            Some((t, delta)) => {
                let m = match state {
                    JsonView::Object(m) => m,
                    _ => Seq::empty(),
                };
                let cur = match json::member(m, topic::topic_name(t)) {
                    Some(v) => v,
                    None => JsonView::Object(Seq::empty()),
                };
                JsonView::Object(
                    json::set_member(m, topic::topic_name(t), merge_patch::merge(cur, delta)),
                )
            },
            None => state,
        }
    }
}

/// The updated topics after a message: a completion adds every topic its
/// result names, in key order; a feed message adds its topic unless it is
/// there already.
pub open spec fn topics_after(updated: Seq<Topic>, msg: JsonView) -> Seq<Topic> {
    if message_type(msg) == Some(3int) {
        match decode::field(msg, "result"@) {
            Some(JsonView::Object(m)) => updated + topics_named(m),
            _ => updated,
        }
    } else {
        match feed_update(msg) {
            Some((t, _)) => if updated.contains(t) {
                updated
            } else {
                updated.push(t)
            },
            None => updated,
        }
    }
}

/// What a message has logged, by topic: every member of a completion's
/// result, or a feed message's patch.
pub open spec fn logged_after(msg: JsonView) -> Members {
    if message_type(msg) == Some(3int) {
        match decode::field(msg, "result"@) {
            Some(JsonView::Object(m)) => m,
            _ => Seq::empty(),
        }
    } else {
        match feed_update(msg) {
            Some((t, delta)) => seq![(topic::topic_name(t), delta)],
            None => Seq::empty(),
        }
    }
}

/// Whether a message's patch never names the index `usize::MAX` (merging
/// one that does cannot be done).
pub open spec fn message_in_range(msg: JsonView) -> bool {
    match feed_update(msg) {
        Some((_, delta)) => merge_patch::no_max_index(delta),
        None => true,
    }
}

/// The view of log entries.
pub open spec fn entries_view(v: Seq<(String, Json)>) -> Members {
    json::members_view(v)
}

// ---------------------------------------------------------------------------
// Texts exchanged with the server
// ---------------------------------------------------------------------------

/// `s` without the characters `c` at its end (std's `trim_end_matches`).
pub open spec fn trim_end_char(s: Seq<char>, c: char) -> Seq<char>
    decreases s.len(),
{
    if s.len() > 0 && s.last() == c {
        trim_end_char(s.drop_last(), c)
    } else {
        s
    }
}

/// `s` without the characters `c` at its start (std's `trim_start_matches`).
pub open spec fn trim_start_char(s: Seq<char>, c: char) -> Seq<char>
    decreases s.len(),
{
    if s.len() > 0 && s[0] == c {
        trim_start_char(s.drop_first(), c)
    } else {
        s
    }
}

/// Whether the feed's address is on this machine.
pub open spec fn is_local_spec(base_url: Seq<char>) -> bool {
    ("localhost"@.len() <= base_url.len() && base_url.take("localhost"@.len() as int)
        == "localhost"@) || ("127.0.0.1"@.len() <= base_url.len() && base_url.take(
        "127.0.0.1"@.len() as int,
    ) == "127.0.0.1"@)
}

/// The address of the negotiation: `http` on this machine, else `https`.
pub open spec fn negotiate_url_spec(base_url: Seq<char>) -> Seq<char> {
    (if is_local_spec(base_url) {
        "http"@
    } else {
        "https"@
    }) + "://"@ + base_url + "/negotiate"@
}

/// The address of the WebSocket: `ws` on this machine, else `wss`.
pub open spec fn websocket_base(base_url: Seq<char>) -> Seq<char> {
    (if is_local_spec(base_url) {
        "ws"@
    } else {
        "wss"@
    }) + "://"@ + base_url
}

/// The cookie of a `set-cookie` value: its first `;`-piece, trimmed.
pub open spec fn cookie_piece(h: Seq<char>) -> Seq<char> {
    text::trim_spec(text::split_spec(h, ';')[0])
}

/// The load balancer's cookie among the `set-cookie` values (`None` for
/// one that is not visible ASCII): the first whose cookie starts with
/// `AWSALBCORS=`, or the empty text.
pub open spec fn find_cookie_spec(headers: Seq<Option<Seq<char>>>) -> Seq<char>
    decreases headers.len(),
{
    if headers.len() == 0 {
        Seq::empty()
    } else {
        match headers[0] {
            Some(h) => {
                let c = cookie_piece(h);
                if "AWSALBCORS="@.len() <= c.len() && c.take("AWSALBCORS="@.len() as int)
                    == "AWSALBCORS="@ {
                    c
                } else {
                    find_cookie_spec(headers.drop_first())
                }
            },
            None => find_cookie_spec(headers.drop_first()),
        }
    }
}

/// The handshake that opens the SignalR JSON protocol.
pub open spec fn handshake_spec() -> Seq<char> {
    "{\"protocol\":\"json\",\"version\":1}"@.push(RECORD_SEPARATOR)
}

/// The names of `ts`, each quoted, separated by commas.
pub open spec fn quoted_names(ts: Seq<Topic>) -> Seq<char>
    decreases ts.len(),
{
    if ts.len() == 0 {
        Seq::empty()
    } else if ts.len() == 1 {
        "\""@ + topic::topic_name(ts[0]) + "\""@
    } else {
        quoted_names(ts.drop_last()) + ","@ + "\""@ + topic::topic_name(ts.last()) + "\""@
    }
}

/// The invocation that subscribes to `ts`.
pub open spec fn subscribe_spec(ts: Seq<Topic>) -> Seq<char> {
    ("{\"type\":1,\"invocationId\":\"1\",\"target\":\"Subscribe\",\"arguments\":[["@ + quoted_names(
        ts,
    ) + "]]}"@).push(RECORD_SEPARATOR)
}

/// The records of a text frame: its pieces between record separators,
/// trimmed, without the empty ones.
pub open spec fn records_spec(text: Seq<char>) -> Seq<Seq<char>> {
    text::split_spec(text, RECORD_SEPARATOR).map_values(|p: Seq<char>| text::trim_spec(p)).filter(
        |p: Seq<char>| p.len() > 0,
    )
}

/// Where the session's logs go: `base` without trailing `/`, then the
/// session's path (`SessionInfo.Path`, or `unknown_session`) without
/// leading `/`.
pub open spec fn session_path(state: JsonView) -> Seq<char> {
    match decode::field(state, "SessionInfo"@) {
        Some(i) => match decode::field(i, "Path"@) {
            Some(JsonView::Str(p)) => p,
            _ => "unknown_session"@,
        },
        None => "unknown_session"@,
    }
}

pub open spec fn log_dir_spec(base: Seq<char>, state: JsonView) -> Seq<char> {
    trim_end_char(base, '/') + "/"@ + trim_start_char(session_path(state), '/')
}

// ---------------------------------------------------------------------------
// Executable helpers
// ---------------------------------------------------------------------------

fn trim_end_matches(s: &str, c: char) -> (r: String)
    ensures
        r@ == trim_end_char(s@, c),
{
    let cs = chars_of(s);
    let mut end: usize = cs.len();
    assert(cs@ =~= cs@.take(cs@.len() as int));
    while end > 0 && cs[end - 1] == c
        invariant
            end <= cs@.len(),
            trim_end_char(s@, c) == trim_end_char(cs@.take(end as int), c),
            cs@ == s@,
        decreases end,
    {
        let ghost t = cs@.take(end as int);
        assert(t.drop_last() =~= cs@.take(end - 1));
        end = end - 1;
    }
    let mut out: Vec<char> = Vec::new();
    let mut i: usize = 0;
    while i < end
        invariant
            i <= end <= cs@.len(),
            out@ == cs@.take(i as int),
        decreases end - i,
    {
        out.push(cs[i]);
        i = i + 1;
        assert(out@ =~= cs@.take(i as int));
    }
    proof {
        if end > 0 {
            assert(cs@.take(end as int).last() == cs@[end - 1]);
        }
    }
    string_from_chars(&out)
}

fn trim_start_matches(s: &str, c: char) -> (r: String)
    ensures
        r@ == trim_start_char(s@, c),
{
    let cs = chars_of(s);
    let mut start: usize = 0;
    assert(cs@.skip(0) =~= cs@);
    while start < cs.len() && cs[start] == c
        invariant
            start <= cs@.len(),
            trim_start_char(s@, c) == trim_start_char(cs@.skip(start as int), c),
            cs@ == s@,
        decreases cs@.len() - start,
    {
        let ghost t = cs@.skip(start as int);
        assert(t.drop_first() =~= cs@.skip(start + 1));
        start = start + 1;
    }
    let mut out: Vec<char> = Vec::new();
    let mut i: usize = start;
    while i < cs.len()
        invariant
            start <= i <= cs@.len(),
            out@ == cs@.subrange(start as int, i as int),
        decreases cs@.len() - i,
    {
        out.push(cs[i]);
        i = i + 1;
        assert(out@ =~= cs@.subrange(start as int, i as int));
    }
    assert(out@ =~= cs@.skip(start as int));
    string_from_chars(&out)
}

fn message_type_of(msg: &Json) -> (r: Option<i64>)
    ensures
        match message_type(msg@) {
            Some(n) => r == Some(n as i64),
            None => r is None,
        },
{
    match decode::read_field(msg, "type") {
        Some(t) => match t {
            Json::Number(JsonNumber::PosInt(n)) => if *n <= i64::MAX as u64 {
                Some(*n as i64)
            } else {
                None
            },
            Json::Number(JsonNumber::NegInt(n)) => Some(*n),
            _ => None,
        },
        None => None,
    }
}

fn feed_arguments(msg: &Json) -> (r: Option<&Vec<Json>>)
    ensures
        match feed_args(msg@) {
            Some(args) => r matches Some(a) && json::items_view(a@) == args,
            None => r is None,
        },
{
    let target_is_feed = match decode::read_field(msg, "target") {
        Some(Json::Str(s)) => str_eq(s.as_str(), "feed"),
        _ => false,
    };
    proof {
        reveal_strlit("feed");
    }
    if !target_is_feed {
        return None;
    }
    match decode::read_field(msg, "arguments") {
        Some(Json::Array(args)) => {
            proof {
                json::lemma_array_view(*args);
            }
            if args.len() >= 2 {
                Some(args)
            } else {
                None
            }
        },
        _ => None,
    }
}

fn topic_of_argument(arg: &Json) -> (r: Option<Topic>)
    ensures
        r == match arg@ {
            JsonView::Str(s) => topic::topic_named(s),
            _ => topic::topic_named("UnknownTopic"@),
        },
{
    match arg {
        Json::Str(s) => Topic::try_from_name(s.as_str()),
        _ => Topic::try_from_name("UnknownTopic"),
    }
}

fn push_if_absent(updated: &mut Vec<Topic>, t: Topic)
    ensures
        final(updated)@ == if old(updated)@.contains(t) {
            old(updated)@
        } else {
            old(updated)@.push(t)
        },
{
    let mut i: usize = 0;
    while i < updated.len()
        invariant
            i <= updated@.len(),
            updated@ == old(updated)@,
            forall|j: int| 0 <= j < i ==> updated@[j] != t,
        decreases updated@.len() - i,
    {
        if updated[i] == t {
            assert(updated@[i as int] == t);
            return;
        }
        i = i + 1;
    }
    updated.push(t);
}

impl SignalRF1Client {
    /// A client of the feed at its usual address, subscribing to every
    /// topic, with an empty state and no logs.
    pub fn new() -> (c: SignalRF1Client)
        ensures
            c.topics@ == topic::all_topics(),
            c.canonical_state@ == JsonView::Object(Seq::empty()),
            c.log_dir is None,
            c.base_url@ == default_url(),
    {
        let empty: Vec<(String, Json)> = Vec::new();
        proof {
            json::lemma_object_view(empty);
            assert(json::members_view(empty@) =~= Seq::<(Seq<char>, JsonView)>::empty());
        }
        SignalRF1Client {
            topics: Topic::all(),
            canonical_state: Json::Object(empty),
            log_dir: None,
            base_url: to_owned_string("livetiming.formula1.com/signalrcore"),
        }
    }

    /// The same client, logging what each topic receives under `log_dir`.
    pub fn with_log_dir(self, log_dir: String) -> (c: SignalRF1Client)
        ensures
            c.topics@ == self.topics@,
            c.canonical_state@ == self.canonical_state@,
            c.log_dir == Some(log_dir),
            c.base_url@ == self.base_url@,
    {
        SignalRF1Client { log_dir: Some(log_dir), ..self }
    }

    /// The same client, for the feed at `url` (without a scheme).
    pub fn with_base_url(self, url: String) -> (c: SignalRF1Client)
        ensures
            c.topics@ == self.topics@,
            c.canonical_state@ == self.canonical_state@,
            c.log_dir == self.log_dir,
            c.base_url == url,
    {
        SignalRF1Client { base_url: url, ..self }
    }

    /// Takes one message of the feed: a completion (type 3) replaces the
    /// canonical state with its result and marks every topic the result
    /// names as updated; a feed invocation (type 1) merges its patch into
    /// its topic and marks the topic as updated; other messages change
    /// nothing. Gives back, where the client logs, what each topic received.
    pub fn process_signalr_message(&mut self, msg: &Json, updated_topics: &mut Vec<Topic>) -> (logs:
        Vec<(String, Json)>)
        requires
            message_in_range(msg@),
        ensures
            final(self).canonical_state@ == state_after(old(self).canonical_state@, msg@),
            final(updated_topics)@ == topics_after(old(updated_topics)@, msg@),
            final(self).topics@ == old(self).topics@,
            final(self).log_dir == old(self).log_dir,
            final(self).base_url@ == old(self).base_url@,
            entries_view(logs@) == if old(self).log_dir is Some {
                logged_after(msg@)
            } else {
                Seq::empty()
            },
    {
        let mut logs: Vec<(String, Json)> = Vec::new();
        let logging = self.log_dir.is_some();
        assert(entries_view(logs@) =~= Seq::<(Seq<char>, JsonView)>::empty());
        let kind = message_type_of(msg);
        if kind == Some(3i64) {
            match decode::read_field(msg, "result") {
                Some(result) => {
                    self.canonical_state = deep_copy(result);
                    match result {
                        Json::Object(members) => {
                            proof {
                                json::lemma_object_view(*members);
                            }
                            let ghost m = json::members_view(members@);
                            let ghost start = updated_topics@;
                            let mut i: usize = 0;
                            assert(topics_named(m.take(0)) =~= Seq::<Topic>::empty());
                            assert(start + topics_named(m.take(0)) =~= start);
                            while i < members.len()
                                invariant
                                    m == json::members_view(members@),
                                    i <= members.len(),
                                    updated_topics@ == start + topics_named(m.take(i as int)),
                                    entries_view(logs@) == if logging {
                                        m.take(i as int)
                                    } else {
                                        Seq::empty()
                                    },
                                decreases members.len() - i,
                            {
                                assert(m.take(i + 1).drop_last() =~= m.take(i as int));
                                assert(m[i as int] == (members@[i as int].0@, members@[i as int].1@));
                                if let Some(t) = Topic::try_from_name(members[i].0.as_str()) {
                                    updated_topics.push(t);
                                    assert(updated_topics@ =~= start + topics_named(
                                        m.take(i + 1),
                                    ));
                                } else {
                                    assert(updated_topics@ =~= start + topics_named(
                                        m.take(i + 1),
                                    ));
                                }
                                if logging {
                                    let ghost before = logs@;
                                    logs.push((members[i].0.clone(), deep_copy(&members[i].1)));
                                    assert(entries_view(logs@) =~= entries_view(before).push(
                                        m[i as int],
                                    ));
                                    assert(m.take(i + 1) =~= m.take(i as int).push(m[i as int]));
                                }
                                i = i + 1;
                            }
                            assert(m.take(members.len() as int) =~= m);
                        },
                        _ => {},
                    }
                },
                None => {},
            }
            return logs;
        }
        if kind != Some(1i64) {
            return logs;
        }
        let args = match feed_arguments(msg) {
            Some(a) => a,
            None => {
                return logs;
            },
        };
        let t = match topic_of_argument(&args[0]) {
            Some(t) => t,
            None => {
                return logs;
            },
        };
        let delta = &args[1];
        assert(feed_update(msg@) == Some((t, delta@)));
        let mut state = Json::Null;
        std::mem::swap(&mut state, &mut self.canonical_state);
        let ghost old_state = state@;
        let mut members: Vec<(String, Json)> = match state {
            Json::Object(m) => {
                proof {
                    json::lemma_object_view(m);
                }
                m
            },
            _ => {
                let e: Vec<(String, Json)> = Vec::new();
                assert(json::members_view(e@) =~= Seq::<(Seq<char>, JsonView)>::empty());
                e
            },
        };
        let name = t.name();
        let mut cur = match json::find_member(&members, name) {
            (p, true) => deep_copy(&members[p].1),
            _ => {
                let e: Vec<(String, Json)> = Vec::new();
                proof {
                    json::lemma_object_view(e);
                    assert(json::members_view(e@) =~= Seq::<(Seq<char>, JsonView)>::empty());
                }
                Json::Object(e)
            },
        };
        proof {
            merge_patch::lemma_patch_in_range(cur@, delta@);
        }
        merge_patch(&mut cur, delta);
        set_member_exec(&mut members, to_owned_string(name), cur);
        proof {
            json::lemma_object_view(members);
        }
        self.canonical_state = Json::Object(members);
        push_if_absent(updated_topics, t);
        if logging {
            logs.push((t.to_string(), deep_copy(delta)));
            assert(entries_view(logs@) =~= seq![(topic::topic_name(t), delta@)]);
        }
        logs
    }

    /// The directory of the logs of the session that the state describes,
    /// if the client logs.
    pub fn session_log_dir(&self) -> (r: Option<String>)
        ensures
            match self.log_dir {
                Some(base) => r matches Some(d) && d@ == log_dir_spec(base@, self.canonical_state@),
                None => r is None,
            },
    {
        let base = match &self.log_dir {
            Some(b) => b,
            None => {
                return None;
            },
        };
        let path = match decode::read_field(&self.canonical_state, "SessionInfo") {
            Some(i) => match decode::read_field(i, "Path") {
                Some(Json::Str(p)) => p.clone(),
                _ => to_owned_string("unknown_session"),
            },
            None => to_owned_string("unknown_session"),
        };
        let head = trim_end_matches(base.as_str(), '/');
        let tail = trim_start_matches(path.as_str(), '/');
        let dir = concat(concat(head.as_str(), "/").as_str(), tail.as_str());
        Some(dir)
    }

    /// The log file of `topic` in directory `dir`: `dir` without trailing
    /// `/`, then `/`, the topic and `.log`.
    pub fn log_file_name(dir: &str, topic: &str) -> (r: String)
        ensures
            r@ == trim_end_char(dir@, '/') + "/"@ + topic@ + ".log"@,
    {
        let head = trim_end_matches(dir, '/');
        let a = concat(head.as_str(), "/");
        let b = concat(a.as_str(), topic);
        concat(b.as_str(), ".log")
    }

    /// The invocation that subscribes to the client's topics.
    pub fn subscribe_message(&self) -> (s: String)
        ensures
            s@ == subscribe_spec(self.topics@),
    {
        let mut names = String::new();
        let mut i: usize = 0;
        while i < self.topics.len()
            invariant
                i <= self.topics@.len(),
                names@ == quoted_names(self.topics@.take(i as int)),
            decreases self.topics@.len() - i,
        {
            let ghost pre = self.topics@.take(i as int);
            let ghost next = self.topics@.take(i + 1);
            assert(next.drop_last() =~= pre);
            let quoted = concat(concat("\"", self.topics[i].name()).as_str(), "\"");
            if i == 0 {
                names = quoted;
            } else {
                names = concat(concat(names.as_str(), ",").as_str(), quoted.as_str());
            }
            i = i + 1;
        }
        assert(self.topics@.take(self.topics@.len() as int) =~= self.topics@);
        let head = concat(
            "{\"type\":1,\"invocationId\":\"1\",\"target\":\"Subscribe\",\"arguments\":[[",
            names.as_str(),
        );
        let body = concat(head.as_str(), "]]}");
        let mut out = body;
        text::push_char(&mut out, RECORD_SEPARATOR);
        out
    }
}

/// Whether a message's patch can be merged (see `message_in_range`).
pub fn message_in_range_exec(msg: &Json) -> (r: bool)
    ensures
        r == message_in_range(msg@),
{
    if message_type_of(msg) != Some(1i64) {
        return true;
    }
    let args = match feed_arguments(msg) {
        Some(a) => a,
        None => {
            return true;
        },
    };
    match topic_of_argument(&args[0]) {
        Some(_) => patch_in_range(&args[1]),
        None => true,
    }
}

/// Whether the feed's address is on this machine (`localhost` or
/// `127.0.0.1`).
pub fn is_local(base_url: &str) -> (r: bool)
    ensures
        r == is_local_spec(base_url@),
{
    str_starts_with(base_url, "localhost") || str_starts_with(base_url, "127.0.0.1")
}

/// The address of the negotiation.
pub fn negotiate_url(base_url: &str) -> (r: String)
    ensures
        r@ == negotiate_url_spec(base_url@),
{
    let scheme = if is_local(base_url) {
        "http"
    } else {
        "https"
    };
    let a = concat(scheme, "://");
    let b = concat(a.as_str(), base_url);
    concat(b.as_str(), "/negotiate")
}

/// The address that the negotiation is posted to: that of
/// `negotiate_url`, with the query pair `negotiateVersion=1`.
pub fn negotiate_post_url(base_url: &str) -> (r: Option<String>)
    requires
        base_url@.len() < 100_000_000,
    ensures
        match urls::url_with_pair(negotiate_url_spec(base_url@), "negotiateVersion"@, "1"@) {
            Some(t) => r matches Some(x) && x@ == t,
            None => r is None,
        },
{
    let u = negotiate_url(base_url);
    proof {
        reveal_strlit("http");
        reveal_strlit("https");
        reveal_strlit("://");
        reveal_strlit("/negotiate");
        reveal_strlit("negotiateVersion");
        reveal_strlit("1");
    }
    append_query_pair(u.as_str(), "negotiateVersion", "1")
}

/// The address of the WebSocket, with the connection token of the
/// negotiation, if any, as the query pair `id`.
pub fn websocket_url(base_url: &str, token: Option<&str>) -> (r: Option<String>)
    requires
        base_url@.len() < 100_000_000,
        token matches Some(t) ==> t@.len() < 100_000_000,
    ensures
        match token {
            Some(t) => match urls::url_with_pair(websocket_base(base_url@), "id"@, t@) {
                Some(u) => r matches Some(x) && x@ == u,
                None => r is None,
            },
            None => match urls::url_text(websocket_base(base_url@)) {
                Some(u) => r matches Some(x) && x@ == u,
                None => r is None,
            },
        },
{
    let scheme = if is_local(base_url) {
        "ws"
    } else {
        "wss"
    };
    let a = concat(scheme, "://");
    let text = concat(a.as_str(), base_url);
    proof {
        reveal_strlit("ws");
        reveal_strlit("wss");
        reveal_strlit("://");
        reveal_strlit("id");
    }
    match token {
        Some(t) => append_query_pair(text.as_str(), "id", t),
        None => parse_url(text.as_str()),
    }
}

/// The load balancer's cookie among the `set-cookie` values of the
/// negotiation (see `find_cookie_spec`).
pub fn find_cookie(headers: &Vec<Option<String>>) -> (r: String)
    ensures
        r@ == find_cookie_spec(headers@.map_values(|h: Option<String>| match h {
            Some(s) => Some(s@),
            None => None,
        })),
{
    let ghost hs = headers@.map_values(|h: Option<String>| match h {
        Some(s) => Some(s@),
        None => None,
    });
    let mut i: usize = 0;
    assert(hs.skip(0) =~= hs);
    while i < headers.len()
        invariant
            i <= headers@.len(),
            hs == headers@.map_values(|h: Option<String>| match h {
                Some(s) => Some(s@),
                None => None,
            }),
            find_cookie_spec(hs) == find_cookie_spec(hs.skip(i as int)),
        decreases headers@.len() - i,
    {
        let ghost rest = hs.skip(i as int);
        assert(rest.drop_first() =~= hs.skip(i + 1));
        assert(rest[0] == hs[i as int]);
        match &headers[i] {
            Some(h) => {
                let cs = chars_of(h.as_str());
                let pieces = split_chars(&cs, ';');
                proof {
                    text::lemma_split_nonempty(cs@, ';');
                }
                let c = trim_chars(&pieces[0]);
                let cookie = string_from_chars(&c);
                if str_starts_with(cookie.as_str(), "AWSALBCORS=") {
                    return cookie;
                }
            },
            None => {},
        }
        i = i + 1;
    }
    String::new()
}

/// The handshake that opens the SignalR JSON protocol.
pub fn handshake_message() -> (s: String)
    ensures
        s@ == handshake_spec(),
{
    let mut s = to_owned_string("{\"protocol\":\"json\",\"version\":1}");
    text::push_char(&mut s, RECORD_SEPARATOR);
    s
}

/// A frame without the record separators at its end.
pub fn strip_record_separators(s: &str) -> (r: String)
    ensures
        r@ == trim_end_char(s@, RECORD_SEPARATOR),
{
    trim_end_matches(s, RECORD_SEPARATOR)
}

/// Whether the server refused the handshake: its reply has an `error`.
pub fn handshake_refused(reply: &Json) -> (r: bool)
    ensures
        r == decode::field(reply@, "error"@) is Some,
{
    decode::read_field(reply, "error").is_some()
}

/// The records of a text frame, trimmed, without the empty ones.
pub fn split_records(text: &str) -> (r: Vec<String>)
    ensures
        r@.map_values(|s: String| s@) == records_spec(text@),
{
    let cs = chars_of(text);
    let pieces = split_chars(&cs, RECORD_SEPARATOR);
    let ghost ps = text::split_spec(text@, RECORD_SEPARATOR);
    let ghost trimmed = ps.map_values(|p: Seq<char>| text::trim_spec(p));
    let mut out: Vec<String> = Vec::new();
    let mut i: usize = 0;
    while i < pieces.len()
        invariant
            i <= pieces@.len(),
            pieces@.len() == ps.len(),
            ps == text::split_spec(text@, RECORD_SEPARATOR),
            trimmed == ps.map_values(|p: Seq<char>| text::trim_spec(p)),
            forall|k: int| 0 <= k < pieces@.len() ==> #[trigger] pieces@[k]@ == ps[k],
            out@.map_values(|s: String| s@) == trimmed.take(i as int).filter(
                |p: Seq<char>| p.len() > 0,
            ),
        decreases pieces@.len() - i,
    {
        proof {
            reveal(Seq::filter);
            assert(trimmed.take(i + 1).drop_last() =~= trimmed.take(i as int));
            assert(trimmed.take(i + 1).last() == text::trim_spec(ps[i as int]));
        }
        let t = trim_chars(&pieces[i]);
        if t.len() > 0 {
            let ghost before = out@;
            out.push(string_from_chars(&t));
            assert(out@.map_values(|s: String| s@) =~= before.map_values(|s: String| s@).push(
                t@,
            ));
        }
        i = i + 1;
    }
    assert(trimmed.take(pieces@.len() as int) =~= trimmed);
    out
}


// ---------------------------------------------------------------------------
// Laws of the client's state
// ---------------------------------------------------------------------------

/// A member of a well-formed value is well-formed.
proof fn lemma_field_wf(v: JsonView, k: Seq<char>)
    requires
        json::json_wf(v),
    ensures
        decode::field(v, k) matches Some(f) ==> json::json_wf(f),
{
    if let JsonView::Object(m) = v {
        merge_patch::lemma_member_wf(m, k);
    }
}

/// The canonical state stays well-formed (every object's keys strictly
/// ascending) whatever well-formed message comes.
pub proof fn lemma_state_stays_wf(state: JsonView, msg: JsonView)
    requires
        json::json_wf(state),
        json::json_wf(msg),
    ensures
        json::json_wf(state_after(state, msg)),
{
    lemma_field_wf(msg, "result"@);
    lemma_field_wf(msg, "arguments"@);
    if message_type(msg) != Some(3int) {
        if let Some((t, delta)) = feed_update(msg) {
            let args = feed_args(msg)->Some_0;
            assert(json::json_wf(args[1]));
            let m = match state {
                JsonView::Object(m) => m,
                _ => Seq::empty(),
            };
            merge_patch::lemma_member_wf(m, topic::topic_name(t));
            let cur = match json::member(m, topic::topic_name(t)) {
                Some(v) => v,
                None => JsonView::Object(Seq::empty()),
            };
            merge_patch::lemma_merge_wf(cur, delta);
            merge_patch::lemma_set_member_wf(
                m,
                topic::topic_name(t),
                merge_patch::merge(cur, delta),
            );
        }
    }
}

/// The updated topics only grow: what was marked stays marked, in order.
pub proof fn lemma_topics_grow(updated: Seq<Topic>, msg: JsonView)
    ensures
        updated.len() <= topics_after(updated, msg).len(),
        topics_after(updated, msg).take(updated.len() as int) == updated,
{
    let r = topics_after(updated, msg);
    assert(r.take(updated.len() as int) =~= updated);
}

/// A feed message marks its topic once: no topic is marked twice where
/// none was before.
pub proof fn lemma_feed_marks_once(updated: Seq<Topic>, msg: JsonView)
    requires
        updated.no_duplicates(),
        message_type(msg) != Some(3int),
    ensures
        topics_after(updated, msg).no_duplicates(),
        feed_update(msg) matches Some((t, _)) ==> topics_after(updated, msg).contains(t),
{
    if let Some((t, _)) = feed_update(msg) {
        if !updated.contains(t) {
            let r = updated.push(t);
            assert(r[updated.len() as int] == t);
        } else {
        }
    }
}

/// A feed message changes only its own topic's member of the state.
pub proof fn lemma_feed_changes_one_topic(state: JsonView, msg: JsonView, k: Seq<char>)
    requires
        state matches JsonView::Object(m) && json::keys_sorted(m),
        message_type(msg) != Some(3int),
        feed_update(msg) matches Some((t, _)) && k != topic::topic_name(t),
    ensures
        decode::field(state_after(state, msg), k) == decode::field(state, k),
{
    let m = state->Object_0;
    let (t, delta) = feed_update(msg)->Some_0;
    let name = topic::topic_name(t);
    let cur = match json::member(m, name) {
        Some(v) => v,
        None => JsonView::Object(Seq::empty()),
    };
    let v = merge_patch::merge(cur, delta);
    match json::find_key(m, name) {
        Some(i) => {
            json::lemma_find_key_sorted(m, name);
            merge_patch::lemma_update_member(m, i, name, v);
        },
        None => {
            merge_patch::lemma_insert_member(m, name, v);
        },
    }
}

} // verus!
