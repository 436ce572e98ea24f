//! The library's own JSON document: the values that the feed delivers and that
//! the canonical state holds. Objects keep their members sorted by key, with no
//! key twice, as a map ordered by key does.
use vstd::prelude::*;

use crate::text::{self, str_eq, str_lt};

verus! {

/// A JSON number: a non-negative integer, a negative integer, or the bits of
/// a floating-point value.
#[derive(Clone, Copy, PartialEq, Eq, Debug)]
pub enum JsonNumber {
    PosInt(u64),
    NegInt(i64),
    Float(u64),
}

/// A JSON value.
#[derive(PartialEq, Eq, Debug)]
pub enum Json {
    Null,
    Bool(bool),
    Number(JsonNumber),
    Str(String),
    Array(Vec<Json>),
    Object(Vec<(String, Json)>),
}

/// The mathematical value of a JSON document.
pub enum JsonView {
    Null,
    Bool(bool),
    Number(JsonNumber),
    Str(Seq<char>),
    Array(Seq<JsonView>),
    Object(Seq<(Seq<char>, JsonView)>),
}

/// The members of an object, as key and value.
pub type Members = Seq<(Seq<char>, JsonView)>;

/// The value that a `Json` stands for.
pub open spec fn view_json(j: Json) -> JsonView
    decreases j,
{
    match j {
        Json::Null => JsonView::Null,
        Json::Bool(b) => JsonView::Bool(b),
        Json::Number(n) => JsonView::Number(n),
        Json::Str(s) => JsonView::Str(s@),
        Json::Array(v) => JsonView::Array(
            Seq::new(
                v.len() as nat,
                |i: int|
                    if 0 <= i < v.len() {
                        view_json(v@[i])
                    } else {
                        JsonView::Null
                    },
            ),
        ),
        Json::Object(v) => JsonView::Object(
            Seq::new(
                v.len() as nat,
                |i: int|
                    if 0 <= i < v.len() {
                        (v@[i].0@, view_json(v@[i].1))
                    } else {
                        (Seq::empty(), JsonView::Null)
                    },
            ),
        ),
    }
}

impl View for Json {
    type V = JsonView;

    open spec fn view(&self) -> JsonView {
        view_json(*self)
    }
}

/// The values of the items of an array.
pub open spec fn items_view(v: Seq<Json>) -> Seq<JsonView> {
    Seq::new(v.len(), |i: int| view_json(v[i]))
}

/// The keys and values of the members of an object.
pub open spec fn members_view(v: Seq<(String, Json)>) -> Members {
    Seq::new(v.len(), |i: int| (v[i].0@, view_json(v[i].1)))
}

/// An array's value is made of its items' values.
pub proof fn lemma_array_view(v: Vec<Json>)
    ensures
        view_json(Json::Array(v)) == JsonView::Array(items_view(v@)),
{
    if let JsonView::Array(s) = view_json(Json::Array(v)) {
        assert(s =~= items_view(v@));
    }
}

/// An object's value is made of its members' keys and values.
pub proof fn lemma_object_view(v: Vec<(String, Json)>)
    ensures
        view_json(Json::Object(v)) == JsonView::Object(members_view(v@)),
{
    if let JsonView::Object(s) = view_json(Json::Object(v)) {
        assert(s =~= members_view(v@));
    }
}

// ---------------------------------------------------------------------------
// Well-formedness: object keys strictly ascending
// ---------------------------------------------------------------------------

/// The keys of `m` are strictly ascending, so that no key occurs twice.
pub open spec fn keys_sorted(m: Members) -> bool {
    forall|i: int, j: int| 0 <= i < j < m.len() ==> text::seq_lt(m[i].0, m[j].0)
}

/// Every object in `j`, at any depth, has strictly ascending keys.
pub open spec fn json_wf(j: JsonView) -> bool
    decreases j,
{
    match j {
        JsonView::Array(items) => forall|i: int| 0 <= i < items.len() ==> json_wf(#[trigger] items[i]),
        JsonView::Object(m) => keys_sorted(m) && forall|i: int|
            0 <= i < m.len() ==> json_wf(#[trigger] m[i].1),
        _ => true,
    }
}

// ---------------------------------------------------------------------------
// Member lookup and update
// ---------------------------------------------------------------------------

/// The number of leading members whose key sorts before `k`: where `k` is, or
/// belongs, in an object whose keys are ascending.
pub open spec fn lower_bound(m: Members, k: Seq<char>) -> nat
    decreases m.len(),
{
    if m.len() == 0 {
        0
    } else if text::seq_lt(m[0].0, k) {
        1 + lower_bound(m.drop_first(), k)
    } else {
        0
    }
}

/// The position of the member with key `k`, if there is one.
pub open spec fn find_key(m: Members, k: Seq<char>) -> Option<int> {
    let p = lower_bound(m, k) as int;
    if p < m.len() && m[p].0 == k {
        Some(p)
    } else {
        None
    }
}

/// `m` with the member `k` set to `v`: replaced where `k` is, inserted in key order otherwise.
pub open spec fn set_member(m: Members, k: Seq<char>, v: JsonView) -> Members {
    match find_key(m, k) {
        Some(p) => m.update(p, (k, v)),
        None => m.insert(lower_bound(m, k) as int, (k, v)),
    }
}

/// The value of member `k` of an object's members, if it has one.
pub open spec fn member(m: Members, k: Seq<char>) -> Option<JsonView> {
    match find_key(m, k) {
        Some(p) => Some(m[p].1),
        None => None,
    }
}

proof fn lemma_lower_bound_le(m: Members, k: Seq<char>)
    ensures
        lower_bound(m, k) <= m.len(),
    decreases m.len(),
{
    if m.len() > 0 && text::seq_lt(m[0].0, k) {
        lemma_lower_bound_le(m.drop_first(), k);
    }
}

/// Below the lower bound every key sorts before `k`.
pub proof fn lemma_lower_bound_before(m: Members, k: Seq<char>)
    ensures
        lower_bound(m, k) <= m.len(),
        forall|i: int| 0 <= i < lower_bound(m, k) ==> text::seq_lt(#[trigger] m[i].0, k),
        lower_bound(m, k) < m.len() ==> !text::seq_lt(m[lower_bound(m, k) as int].0, k),
    decreases m.len(),
{
    if m.len() > 0 && text::seq_lt(m[0].0, k) {
        lemma_lower_bound_before(m.drop_first(), k);
        assert forall|i: int| 0 <= i < lower_bound(m, k) implies text::seq_lt(#[trigger] m[i].0, k) by {
            if i > 0 {
                assert(m[i] == m.drop_first()[i - 1]);
            }
        }
    }
}

/// Where the keys are sorted, `find_key` finds a key exactly where it occurs.
pub proof fn lemma_find_key_sorted(m: Members, k: Seq<char>)
    requires
        keys_sorted(m),
    ensures
        find_key(m, k) is Some <==> exists|i: int| 0 <= i < m.len() && m[i].0 == k,
        forall|i: int| 0 <= i < m.len() && m[i].0 == k ==> find_key(m, k) == Some(i),
{
    lemma_lower_bound_before(m, k);
    let p = lower_bound(m, k) as int;
    assert forall|i: int| 0 <= i < m.len() && m[i].0 == k implies find_key(m, k) == Some(i) by {
        if i < p {
            text::lemma_seq_lt_irreflexive(k);
        } else if i > p {
            assert(text::seq_lt(m[p].0, m[i].0));
            if m[p].0 != k {
                text::lemma_seq_lt_total(m[p].0, k);
            }
            text::lemma_seq_lt_irreflexive(k);
        }
    }
}

/// Finds where key `k` is or belongs among the members of `members`.
pub fn find_member(members: &Vec<(String, Json)>, k: &str) -> (r: (usize, bool))
    ensures
        r.0 == lower_bound(members_view(members@), k@),
        r.1 == (find_key(members_view(members@), k@) is Some),
{
    let ghost m = members_view(members@);
    let mut i: usize = 0;
    assert(m.skip(0) =~= m);
    while i < members.len() && str_lt(members[i].0.as_str(), k)
        invariant
            m == members_view(members@),
            i <= members.len(),
            lower_bound(m, k@) == i + lower_bound(m.skip(i as int), k@),
        decreases members.len() - i,
    {
        let ghost s = m.skip(i as int);
        assert(s[0] == m[i as int]);
        assert(s.drop_first() =~= m.skip(i + 1));
        i = i + 1;
    }
    proof {
        let s = m.skip(i as int);
        if i < members.len() {
            assert(s[0] == m[i as int]);
        }
    }
    if i < members.len() {
        let same = str_eq(members[i].0.as_str(), k);
        (i, same)
    } else {
        (i, false)
    }
}

/// The value of member `k` of object `j`, if `j` is an object that has one
/// (serde_json's `Value::get` with a string key).
pub fn get<'a>(j: &'a Json, k: &str) -> (r: Option<&'a Json>)
    ensures
        match j@ {
            JsonView::Object(m) => match member(m, k@) {
                Some(v) => r is Some && r.unwrap()@ == v,
                None => r is None,
            },
            _ => r is None,
        },
{
    match j {
        Json::Object(members) => {
            proof {
                lemma_object_view(*members);
            }
            let (p, found) = find_member(members, k);
            if found {
                Some(&members[p].1)
            } else {
                None
            }
        },
        _ => None,
    }
}

// ---------------------------------------------------------------------------
// Copying
// ---------------------------------------------------------------------------

/// A copy of `j`.
pub fn deep_copy(j: &Json) -> (r: Json)
    ensures
        r@ == j@,
    decreases j,
{
    match j {
        Json::Null => Json::Null,
        Json::Bool(b) => Json::Bool(*b),
        Json::Number(n) => Json::Number(*n),
        Json::Str(s) => Json::Str(s.clone()),
        Json::Array(v) => {
            let mut out: Vec<Json> = Vec::new();
            let mut i: usize = 0;
            assert(decreases_to!(*j => *v));
            while i < v.len()
                invariant
                    decreases_to!(*j => *v),
                    i <= v.len(),
                    items_view(out@) == items_view(v@).take(i as int),
                decreases v.len() - i,
            {
                proof {
                    vstd::std_specs::vec::axiom_vec_index_decreases(*v, i as int);
                }
                let c = deep_copy(&v[i]);
                let ghost prev = out@;
                out.push(c);
                proof {
                    assert(items_view(prev).len() == i);
                    assert(prev.len() == i);
                    assert forall|k: int| 0 <= k < i + 1 implies items_view(out@)[k] == items_view(
                        v@,
                    )[k] by {
                        if k < i {
                            assert(out@[k] == prev[k]);
                            assert(items_view(prev)[k] == items_view(v@).take(i as int)[k]);
                        }
                    }
                }
                i = i + 1;
                assert(items_view(out@) =~= items_view(v@).take(i as int));
            }
            proof {
                lemma_array_view(*v);
                lemma_array_view(out);
                assert(items_view(v@).take(v.len() as int) =~= items_view(v@));
            }
            Json::Array(out)
        },
        Json::Object(v) => {
            let mut out: Vec<(String, Json)> = Vec::new();
            let mut i: usize = 0;
            while i < v.len()
                invariant
                    *j == Json::Object(*v),
                    i <= v.len(),
                    members_view(out@) == members_view(v@).take(i as int),
                decreases v.len() - i,
            {
                proof {
                    vstd::std_specs::vec::axiom_vec_index_decreases(*v, i as int);
                    assert(decreases_to!(*j => (*j)->0));
                    assert(decreases_to!(v[i as int] => v[i as int].1));
                }
                let k = v[i].0.clone();
                let c = deep_copy(&v[i].1);
                let ghost prev = out@;
                out.push((k, c));
                proof {
                    assert(members_view(prev).len() == i);
                    assert(prev.len() == i);
                    assert forall|m: int| 0 <= m < i + 1 implies members_view(out@)[m]
                        == members_view(v@)[m] by {
                        if m < i {
                            assert(out@[m] == prev[m]);
                            assert(members_view(prev)[m] == members_view(v@).take(i as int)[m]);
                        }
                    }
                }
                i = i + 1;
                assert(members_view(out@) =~= members_view(v@).take(i as int));
            }
            proof {
                lemma_object_view(*v);
                lemma_object_view(out);
                assert(members_view(v@).take(v.len() as int) =~= members_view(v@));
            }
            Json::Object(out)
        },
    }
}

// ---------------------------------------------------------------------------
// Building objects
// ---------------------------------------------------------------------------

/// Sets member `k` of `members` to `v`, keeping keys in order.
pub fn set_member_exec(members: &mut Vec<(String, Json)>, k: String, v: Json)
    ensures
        members_view(final(members)@) == set_member(members_view(old(members)@), k@, v@),
{
    let (p, found) = find_member(members, k.as_str());
    let ghost m = members_view(members@);
    proof {
        lemma_lower_bound_le(m, k@);
    }
    if found {
        members.remove(p);
        members.insert(p, (k, v));
        assert(members_view(members@) =~= m.update(p as int, (k@, v@)));
    } else {
        members.insert(p, (k, v));
        assert(members_view(members@) =~= m.insert(p as int, (k@, v@)));
    }
}

/// The members that setting each of `e` in turn, into an empty object, leaves.
pub open spec fn fold_members(e: Members) -> Members
    decreases e.len(),
{
    if e.len() == 0 {
        Seq::empty()
    } else {
        set_member(fold_members(e.drop_last()), e.last().0, e.last().1)
    }
}

/// An object made of `entries`, set one after another (a later entry with the
/// same key replaces an earlier one).
pub fn object_from(entries: Vec<(String, Json)>) -> (r: Json)
    ensures
        r@ == JsonView::Object(fold_members(members_view(entries@))),
{
    let ghost e = members_view(entries@);
    let ghost n = entries.len();
    let mut rest = entries;
    let mut members: Vec<(String, Json)> = Vec::new();
    assert(e.take(0) =~= Seq::<(Seq<char>, JsonView)>::empty());
    assert(members_view(rest@) =~= e.skip(0));
    while rest.len() > 0
        invariant
            rest.len() <= n,
            n == e.len(),
            members_view(members@) == fold_members(e.take(n - rest.len())),
            members_view(rest@) == e.skip(n - rest.len()),
        decreases rest.len(),
    {
        let ghost done = (n - rest.len()) as int;
        let ghost before = rest@;
        let (k, v) = rest.remove(0);
        assert(e[done] == (k@, v@)) by {
            assert(members_view(before)[0] == e.skip(done)[0]);
        }
        assert(members_view(rest@) =~= members_view(before).skip(1));
        assert(e.skip(done).skip(1) =~= e.skip(done + 1));
        set_member_exec(&mut members, k, v);
        assert(e.take(done + 1).drop_last() =~= e.take(done));
    }
    assert(e.take(n as int) =~= e);
    proof {
        lemma_object_view(members);
    }
    Json::Object(members)
}

} // verus!
