//! Reading typed fields out of JSON objects: a required field must be there
//! with the right type; an optional field may be missing or null; a field
//! with a default may be missing. Members that a record does not name are
//! ignored.
use vstd::prelude::*;

use crate::json::{self, find_member, Json, JsonNumber, JsonView, Members};

verus! {

/// Why a topic could not be read or converted.
#[derive(Clone, Copy, PartialEq, Eq, Debug)]
pub enum FeedError {
    /// The value is not a JSON object.
    NotAnObject,
    /// A required member is missing.
    MissingMember,
    /// A record's members do not have the required types.
    InvalidRecord,
    /// A text that should hold a number does not.
    InvalidNumber,
    /// A text names a value that the library does not know.
    UnknownValue,
    /// A date or time that cannot be read.
    InvalidDate,
    /// A time of day that is out of range.
    InvalidTime,
}

/// Member `name` of `v`, if `v` is an object that has it.
pub open spec fn field(v: JsonView, name: Seq<char>) -> Option<JsonView> {
    match v {
        JsonView::Object(m) => json::member(m, name),
        _ => None,
    }
}

/// The text of a JSON string.
pub open spec fn as_text(v: JsonView) -> Option<Seq<char>> {
    match v {
        JsonView::Str(s) => Some(s),
        _ => None,
    }
}

/// A non-negative JSON integer no larger than `max`.
pub open spec fn as_uint(v: JsonView, max: nat) -> Option<nat> {
    match v {
        JsonView::Number(JsonNumber::PosInt(n)) => if n <= max {
            Some(n as nat)
        } else {
            None
        },
        _ => None,
    }
}

/// A JSON boolean.
pub open spec fn as_bool(v: JsonView) -> Option<bool> {
    match v {
        JsonView::Bool(b) => Some(b),
        _ => None,
    }
}

/// A required text member.
pub open spec fn req_text(v: JsonView, name: Seq<char>) -> Option<Seq<char>> {
    match field(v, name) {
        Some(f) => as_text(f),
        None => None,
    }
}

/// A required integer member.
pub open spec fn req_uint(v: JsonView, name: Seq<char>, max: nat) -> Option<nat> {
    match field(v, name) {
        Some(f) => as_uint(f, max),
        None => None,
    }
}

/// A required boolean member.
pub open spec fn req_bool(v: JsonView, name: Seq<char>) -> Option<bool> {
    match field(v, name) {
        Some(f) => as_bool(f),
        None => None,
    }
}

/// An optional text member: missing or null gives `Some(None)`; a value of
/// another type gives `None`.
pub open spec fn opt_text(v: JsonView, name: Seq<char>) -> Option<Option<Seq<char>>> {
    match field(v, name) {
        None => Some(None),
        Some(JsonView::Null) => Some(None),
        Some(f) => match as_text(f) {
            Some(s) => Some(Some(s)),
            None => None,
        },
    }
}

/// An optional integer member.
pub open spec fn opt_uint(v: JsonView, name: Seq<char>, max: nat) -> Option<Option<nat>> {
    match field(v, name) {
        None => Some(None),
        Some(JsonView::Null) => Some(None),
        Some(f) => match as_uint(f, max) {
            Some(n) => Some(Some(n)),
            None => None,
        },
    }
}

/// An optional boolean member.
pub open spec fn opt_bool(v: JsonView, name: Seq<char>) -> Option<Option<bool>> {
    match field(v, name) {
        None => Some(None),
        Some(JsonView::Null) => Some(None),
        Some(f) => match as_bool(f) {
            Some(b) => Some(Some(b)),
            None => None,
        },
    }
}

/// A text member with a default: missing gives the empty text.
pub open spec fn def_text(v: JsonView, name: Seq<char>) -> Option<Seq<char>> {
    match field(v, name) {
        None => Some(Seq::empty()),
        Some(f) => as_text(f),
    }
}

/// An integer member with a default: missing gives 0.
pub open spec fn def_uint(v: JsonView, name: Seq<char>, max: nat) -> Option<nat> {
    match field(v, name) {
        None => Some(0),
        Some(f) => as_uint(f, max),
    }
}

/// A boolean member with a default: missing gives `false`.
pub open spec fn def_bool(v: JsonView, name: Seq<char>) -> Option<bool> {
    match field(v, name) {
        None => Some(false),
        Some(f) => as_bool(f),
    }
}

/// The members of `m` that `ok` accepts, in order.
pub open spec fn keep(m: Members, ok: spec_fn((Seq<char>, JsonView)) -> bool) -> Members
    decreases m.len(),
{
    if m.len() == 0 {
        Seq::empty()
    } else {
        let r = keep(m.drop_last(), ok);
        if ok(m.last()) {
            r.push(m.last())
        } else {
            r
        }
    }
}

/// Member `name` of the object whose members are `members`.
pub fn get_field<'a>(members: &'a Vec<(String, Json)>, name: &str) -> (r: Option<&'a Json>)
    ensures
        match json::member(json::members_view(members@), name@) {
            Some(v) => r is Some && r.unwrap()@ == v,
            None => r is None,
        },
{
    let (p, found) = find_member(members, name);
    if found {
        Some(&members[p].1)
    } else {
        None
    }
}

/// The text of a JSON string.
pub fn text_of(j: &Json) -> (r: Option<String>)
    ensures
        match as_text(j@) {
            Some(s) => r is Some && r.unwrap()@ == s,
            None => r is None,
        },
{
    match j {
        Json::Str(s) => Some(s.clone()),
        _ => None,
    }
}

/// A non-negative JSON integer no larger than `max`.
pub fn uint_of(j: &Json, max: u64) -> (r: Option<u64>)
    ensures
        match as_uint(j@, max as nat) {
            Some(n) => r == Some(n as u64),
            None => r is None,
        },
{
    match j {
        Json::Number(JsonNumber::PosInt(n)) => if *n <= max {
            Some(*n)
        } else {
            None
        },
        _ => None,
    }
}

/// A JSON boolean.
pub fn bool_of(j: &Json) -> (r: Option<bool>)
    ensures
        r == as_bool(j@),
{
    match j {
        Json::Bool(b) => Some(*b),
        _ => None,
    }
}

/// Whether `j` is null.
pub fn is_null(j: &Json) -> (r: bool)
    ensures
        r == (j@ is Null),
{
    match j {
        Json::Null => true,
        _ => false,
    }
}

/// A required text member of `v`.
pub fn read_req_text(v: &Json, name: &str) -> (r: Option<String>)
    ensures
        match req_text(v@, name@) {
            Some(s) => r is Some && r.unwrap()@ == s,
            None => r is None,
        },
{
    match v {
        Json::Object(m) => {
            proof {
                json::lemma_object_view(*m);
            }
            match get_field(m, name) {
                Some(f) => text_of(f),
                None => None,
            }
        },
        _ => None,
    }
}

/// A required integer member of `v`.
pub fn read_req_uint(v: &Json, name: &str, max: u64) -> (r: Option<u64>)
    ensures
        match req_uint(v@, name@, max as nat) {
            Some(n) => r == Some(n as u64),
            None => r is None,
        },
{
    match v {
        Json::Object(m) => {
            proof {
                json::lemma_object_view(*m);
            }
            match get_field(m, name) {
                Some(f) => uint_of(f, max),
                None => None,
            }
        },
        _ => None,
    }
}

/// A required boolean member of `v`.
pub fn read_req_bool(v: &Json, name: &str) -> (r: Option<bool>)
    ensures
        r == req_bool(v@, name@),
{
    match v {
        Json::Object(m) => {
            proof {
                json::lemma_object_view(*m);
            }
            match get_field(m, name) {
                Some(f) => bool_of(f),
                None => None,
            }
        },
        _ => None,
    }
}

/// An optional text member of `v`.
pub fn read_opt_text(v: &Json, name: &str) -> (r: Option<Option<String>>)
    ensures
        match opt_text(v@, name@) {
            Some(Some(s)) => r is Some && r.unwrap() is Some && r.unwrap().unwrap()@ == s,
            Some(None) => r == Some(None::<String>),
            None => r is None,
        },
{
    match v {
        Json::Object(m) => {
            proof {
                json::lemma_object_view(*m);
            }
            match get_field(m, name) {
                Some(f) => if is_null(f) {
                    Some(None)
                } else {
                    match text_of(f) {
                        Some(s) => Some(Some(s)),
                        None => None,
                    }
                },
                None => Some(None),
            }
        },
        _ => Some(None),
    }
}

/// An optional integer member of `v`.
pub fn read_opt_uint(v: &Json, name: &str, max: u64) -> (r: Option<Option<u64>>)
    ensures
        match opt_uint(v@, name@, max as nat) {
            Some(Some(n)) => r == Some(Some(n as u64)),
            Some(None) => r == Some(None::<u64>),
            None => r is None,
        },
{
    match v {
        Json::Object(m) => {
            proof {
                json::lemma_object_view(*m);
            }
            match get_field(m, name) {
                Some(f) => if is_null(f) {
                    Some(None)
                } else {
                    match uint_of(f, max) {
                        Some(n) => Some(Some(n)),
                        None => None,
                    }
                },
                None => Some(None),
            }
        },
        _ => Some(None),
    }
}

/// An optional boolean member of `v`.
pub fn read_opt_bool(v: &Json, name: &str) -> (r: Option<Option<bool>>)
    ensures
        r == opt_bool(v@, name@),
{
    match v {
        Json::Object(m) => {
            proof {
                json::lemma_object_view(*m);
            }
            match get_field(m, name) {
                Some(f) => if is_null(f) {
                    Some(None)
                } else {
                    match bool_of(f) {
                        Some(b) => Some(Some(b)),
                        None => None,
                    }
                },
                None => Some(None),
            }
        },
        _ => Some(None),
    }
}

/// A text member of `v` that defaults to the empty text.
pub fn read_def_text(v: &Json, name: &str) -> (r: Option<String>)
    ensures
        match def_text(v@, name@) {
            Some(s) => r is Some && r.unwrap()@ == s,
            None => r is None,
        },
{
    match v {
        Json::Object(m) => {
            proof {
                json::lemma_object_view(*m);
            }
            match get_field(m, name) {
                Some(f) => text_of(f),
                None => Some(String::new()),
            }
        },
        _ => Some(String::new()),
    }
}

/// An integer member of `v` that defaults to 0.
pub fn read_def_uint(v: &Json, name: &str, max: u64) -> (r: Option<u64>)
    ensures
        match def_uint(v@, name@, max as nat) {
            Some(n) => r == Some(n as u64),
            None => r is None,
        },
{
    match v {
        Json::Object(m) => {
            proof {
                json::lemma_object_view(*m);
            }
            match get_field(m, name) {
                Some(f) => uint_of(f, max),
                None => Some(0),
            }
        },
        _ => Some(0),
    }
}

/// A boolean member of `v` that defaults to `false`.
pub fn read_def_bool(v: &Json, name: &str) -> (r: Option<bool>)
    ensures
        r == def_bool(v@, name@),
{
    match v {
        Json::Object(m) => {
            proof {
                json::lemma_object_view(*m);
            }
            match get_field(m, name) {
                Some(f) => bool_of(f),
                None => Some(false),
            }
        },
        _ => Some(false),
    }
}

/// Whether `j` is an object.
pub fn is_object(j: &Json) -> (r: bool)
    ensures
        r == (j@ is Object),
{
    match j {
        Json::Object(_) => true,
        _ => false,
    }
}

/// The items of a JSON array.
pub open spec fn as_items(v: JsonView) -> Option<Seq<JsonView>> {
    match v {
        JsonView::Array(items) => Some(items),
        _ => None,
    }
}

/// Member `name` of `v`, if `v` is an object that has it.
pub fn read_field<'a>(v: &'a Json, name: &str) -> (r: Option<&'a Json>)
    ensures
        match field(v@, name@) {
            Some(f) => r is Some && r.unwrap()@ == f,
            None => r is None,
        },
{
    match v {
        Json::Object(m) => {
            proof {
                json::lemma_object_view(*m);
            }
            get_field(m, name)
        },
        _ => None,
    }
}

/// The items of `j`, if it is an array.
pub fn items_of(j: &Json) -> (r: Option<&Vec<Json>>)
    ensures
        match as_items(j@) {
            Some(items) => r is Some && json::items_view(r.unwrap()@) == items,
            None => r is None,
        },
{
    match j {
        Json::Array(v) => {
            proof {
                json::lemma_array_view(*v);
            }
            Some(v)
        },
        _ => None,
    }
}

/// The value a record with defaults is read from: member `name`, or an
/// empty object where it is missing (which gives every default).
pub open spec fn rec_or_empty(v: JsonView, name: Seq<char>) -> JsonView {
    match field(v, name) {
        Some(f) => f,
        None => JsonView::Object(Seq::empty()),
    }
}

/// The items an array with a default is read from: member `name`'s items,
/// or none where it is missing; `None` where it is there but not an array.
pub open spec fn items_or_empty(v: JsonView, name: Seq<char>) -> Option<Seq<JsonView>> {
    match field(v, name) {
        Some(f) => as_items(f),
        None => Some(Seq::empty()),
    }
}

/// Every item passes `ok`.
pub open spec fn all_items(items: Seq<JsonView>, ok: spec_fn(JsonView) -> bool) -> bool {
    forall|i: int| 0 <= i < items.len() ==> #[trigger] ok(items[i])
}

/// `rs` holds the items, one for one, as `rel` relates them.
pub open spec fn items_match<T>(items: Seq<JsonView>, rs: Seq<T>, rel: spec_fn(JsonView, T) -> bool) -> bool {
    rs.len() == items.len() && forall|i: int| 0 <= i < items.len() ==> #[trigger] rel(items[i], rs[i])
}

/// Member `name` of `v`, or an empty object where it is missing.
pub fn read_rec_or_empty(v: &Json, name: &str) -> (r: Json)
    ensures
        r@ == rec_or_empty(v@, name@),
{
    match read_field(v, name) {
        Some(f) => json::deep_copy(f),
        None => {
            let e: Vec<(String, Json)> = Vec::new();
            proof {
                json::lemma_object_view(e);
                assert(json::members_view(e@) =~= Seq::<(Seq<char>, JsonView)>::empty());
            }
            Json::Object(e)
        },
    }
}

/// The items of member `name` of `v`: none where it is missing, `None`
/// where it is not an array.
pub fn read_items_or_empty(v: &Json, name: &str) -> (r: Option<Vec<Json>>)
    ensures
        match items_or_empty(v@, name@) {
            Some(items) => r is Some && json::items_view(r.unwrap()@) == items,
            None => r is None,
        },
{
    match read_field(v, name) {
        Some(f) => match f {
            Json::Array(items) => {
                let c = json::deep_copy(f);
                proof {
                    json::lemma_array_view(*items);
                }
                match c {
                    Json::Array(ci) => {
                        proof {
                            json::lemma_array_view(ci);
                        }
                        Some(ci)
                    },
                    _ => None,
                }
            },
            _ => None,
        },
        None => {
            let e: Vec<Json> = Vec::new();
            assert(json::items_view(e@) =~= Seq::<JsonView>::empty());
            Some(e)
        },
    }
}

} // verus!
