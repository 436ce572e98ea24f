//! The `SessionData` topic: the series of session and track statuses, and
//! which part of qualifying is running.
use vstd::prelude::*;

use crate::json::{self, Json, JsonView};
use crate::parsing::decode::{self, read_field, read_opt_text, read_opt_uint};

verus! {

/// A list member that may be missing or null: `Some(None)` then,
/// `Some(Some(items))` for an array, `None` for a value of another type.
pub open spec fn opt_items(v: JsonView, name: Seq<char>) -> Option<Option<Seq<JsonView>>> {
    match decode::field(v, name) {
        None => Some(None),
        Some(JsonView::Null) => Some(None),
        Some(f) => match decode::as_items(f) {
            Some(items) => Some(Some(items)),
            None => None,
        },
    }
}

/// An item of `Series`.
pub open spec fn series_item_ok(v: JsonView) -> bool {
    &&& v is Object
    &&& decode::opt_uint(v, "QualifyingPart"@, u8::MAX as nat) is Some
    &&& decode::opt_text(v, "Utc"@) is Some
}

/// An item of `StatusSeries`.
pub open spec fn status_item_ok(v: JsonView) -> bool {
    &&& v is Object
    &&& decode::opt_text(v, "TrackStatus"@) is Some
    &&& decode::opt_text(v, "SessionStatus"@) is Some
    &&& decode::opt_text(v, "Utc"@) is Some
}

/// Whether list member `name` reads, each item by `ok`.
pub open spec fn list_ok(v: JsonView, name: Seq<char>, ok: spec_fn(JsonView) -> bool) -> bool {
    match opt_items(v, name) {
        None => false,
        Some(None) => true,
        Some(Some(items)) => decode::all_items(items, ok),
    }
}

/// Whether the whole topic reads.
pub open spec fn session_data_ok(v: JsonView) -> bool {
    &&& v is Object
    &&& list_ok(v, "Series"@, |x: JsonView| series_item_ok(x))
    &&& list_ok(v, "StatusSeries"@, |x: JsonView| status_item_ok(x))
}

/// The qualifying part of the last series item that names one.
pub open spec fn last_qualifying_part(items: Seq<JsonView>) -> Option<nat>
    decreases items.len(),
{
    if items.len() == 0 {
        None
    } else {
        match decode::opt_uint(items.last(), "QualifyingPart"@, u8::MAX as nat) {
            Some(Some(n)) => Some(n),
            _ => last_qualifying_part(items.drop_last()),
        }
    }
}

/// The running part of qualifying: that of the latest series entry that
/// names one; none where the topic does not read or no entry names one.
pub open spec fn qualifying_part_of(v: JsonView) -> Option<nat> {
    if !session_data_ok(v) {
        None
    } else {
        match opt_items(v, "Series"@) {
            Some(Some(items)) => last_qualifying_part(items),
            _ => None,
        }
    }
}

fn read_opt_items<'a>(v: &'a Json, name: &str) -> (r: Option<Option<&'a Vec<Json>>>)
    ensures
        match opt_items(v@, name@) {
            None => r is None,
            Some(None) => r == Some(None::<&Vec<Json>>),
            Some(Some(items)) => r matches Some(Some(l)) && json::items_view(l@) == items,
        },
{
    match read_field(v, name) {
        None => Some(None),
        Some(f) => match f {
            Json::Null => Some(None),
            Json::Array(l) => {
                proof {
                    json::lemma_array_view(*l);
                }
                Some(Some(l))
            },
            _ => None,
        },
    }
}

fn series_items_ok(items: &Vec<Json>) -> (r: bool)
    ensures
        r == decode::all_items(json::items_view(items@), |x: JsonView| series_item_ok(x)),
{
    let ghost iv = json::items_view(items@);
    let mut i: usize = 0;
    while i < items.len()
        invariant
            iv == json::items_view(items@),
            i <= items.len(),
            forall|j: int| 0 <= j < i ==> series_item_ok(#[trigger] iv[j]),
        decreases items.len() - i,
    {
        let it = &items[i];
        let good = decode::is_object(it) && read_opt_uint(it, "QualifyingPart", u8::MAX as u64).is_some()
            && read_opt_text(it, "Utc").is_some();
        if !good {
            assert(!(|x: JsonView| series_item_ok(x))(iv[i as int]));
            return false;
        }
        i = i + 1;
    }
    true
}

fn status_items_ok(items: &Vec<Json>) -> (r: bool)
    ensures
        r == decode::all_items(json::items_view(items@), |x: JsonView| status_item_ok(x)),
{
    let ghost iv = json::items_view(items@);
    let mut i: usize = 0;
    while i < items.len()
        invariant
            iv == json::items_view(items@),
            i <= items.len(),
            forall|j: int| 0 <= j < i ==> status_item_ok(#[trigger] iv[j]),
        decreases items.len() - i,
    {
        let it = &items[i];
        let good = decode::is_object(it) && read_opt_text(it, "TrackStatus").is_some()
            && read_opt_text(it, "SessionStatus").is_some() && read_opt_text(it, "Utc").is_some();
        if !good {
            assert(!(|x: JsonView| status_item_ok(x))(iv[i as int]));
            return false;
        }
        i = i + 1;
    }
    true
}

/// The part of qualifying that is running (1, 2 or 3), as the latest
/// `Series` entry that names one says; `None` where the topic does not
/// read or no entry names a part.
pub fn qualifying_part(data: &Json) -> (r: Option<u8>)
    ensures
        match qualifying_part_of(data@) {
            Some(n) => r == Some(n as u8),
            None => r is None,
        },
{
    if !decode::is_object(data) {
        return None;
    }
    let series = read_opt_items(data, "Series")?;
    let status = read_opt_items(data, "StatusSeries")?;
    match status {
        Some(l) => {
            if !status_items_ok(l) {
                return None;
            }
        },
        None => {},
    }
    let items = match series {
        Some(l) => l,
        None => {
            return None;
        },
    };
    if !series_items_ok(items) {
        return None;
    }
    let ghost iv = json::items_view(items@);
    assert(iv.take(iv.len() as int) =~= iv);
    let mut i: usize = items.len();
    while i > 0
        invariant
            iv == json::items_view(items@),
            i <= items.len(),
            last_qualifying_part(iv) == last_qualifying_part(iv.take(i as int)),
            qualifying_part_of(data@) == last_qualifying_part(iv),
        decreases i,
    {
        let ghost pre = iv.take(i as int);
        assert(pre.drop_last() =~= iv.take(i - 1));
        assert(pre.last() == iv[i - 1]);
        match read_opt_uint(&items[i - 1], "QualifyingPart", u8::MAX as u64) {
            Some(Some(n)) => {
                return Some(n as u8);
            },
            _ => {},
        }
        i = i - 1;
    }
    assert(iv.take(0) =~= Seq::<JsonView>::empty());
    None
}

} // verus!
