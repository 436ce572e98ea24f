//! Deep JSON merge patch (RFC 7386), with the feed's extension for arrays:
//! an object patch whose keys are all array indices updates those items of
//! an array in place instead of replacing the array.
use vstd::prelude::*;

use crate::json::{self, deep_copy, find_member, Json, JsonView, Members};
use crate::text::{self, parse_usize};
verus! {

/// The index that an array-patch key names.
pub open spec fn index_of_key(k: Seq<char>) -> int {
    match text::parse_unsigned(k, usize::MAX as nat) {
        Some(n) => n as int,
        None => 0,
    }
}

/// Every key of `p` reads as an `usize` index.
pub open spec fn all_index_keys(p: Members) -> bool {
    forall|i: int| 0 <= i < p.len() ==> (#[trigger] text::parse_unsigned(p[i].0, usize::MAX as nat)) is Some
}

/// Whether patching `a` with `b` updates the items of array `a` by index.
pub open spec fn patches_items(p: Members) -> bool {
    p.len() > 0 && all_index_keys(p)
}

/// `items` padded with nulls so that index `idx` exists.
pub open spec fn pad_to(items: Seq<JsonView>, idx: int) -> Seq<JsonView> {
    if idx < items.len() {
        items
    } else {
        items + Seq::new((idx + 1 - items.len()) as nat, |i: int| JsonView::Null)
    }
}

/// The empty object.
pub open spec fn empty_object() -> JsonView {
    JsonView::Object(Seq::empty())
}

/// The result of merging patch `b` into `a`.
///
/// An object patch merged into an object sets, removes (where the patch value
/// is null) or recursively merges each member in turn; an object patch whose
/// keys are all indices merged into an array merges each item in turn,
/// padding the array with nulls where needed; an object patch merged into
/// anything else is merged into the empty object; any other patch replaces
/// `a`. A null of an object patch thus never reaches the result.
pub open spec fn merge(a: JsonView, b: JsonView) -> JsonView
    decreases b,
{
    match b {
        JsonView::Object(p) => match a {
            JsonView::Object(m) => JsonView::Object(merge_members(m, p)),
            JsonView::Array(items) => if patches_items(p) {
                JsonView::Array(merge_items(items, p))
            } else {
                JsonView::Object(merge_members(Seq::empty(), p))
            },
            _ => JsonView::Object(merge_members(Seq::empty(), p)),
        },
        _ => b,
    }
}

/// The members of object `m` after each member of patch `p`, in order.
pub open spec fn merge_members(m: Members, p: Members) -> Members
    decreases p,
{
    if p.len() == 0 {
        m
    } else {
        let acc = merge_members(m, p.drop_last());
        let k = p.last().0;
        let v = p.last().1;
        match json::find_key(acc, k) {
            Some(i) => if v is Null {
                acc.remove(i)
            } else {
                acc.update(i, (k, merge(acc[i].1, v)))
            },
            None => if v is Null {
                acc
            } else {
                acc.insert(json::lower_bound(acc, k) as int, (k, merge(empty_object(), v)))
            },
        }
    }
}

/// The items of array `items` after each member of index patch `p`, in order.
pub open spec fn merge_items(items: Seq<JsonView>, p: Members) -> Seq<JsonView>
    decreases p,
{
    if p.len() == 0 {
        items
    } else {
        let acc = merge_items(items, p.drop_last());
        let idx = index_of_key(p.last().0);
        let padded = pad_to(acc, idx);
        padded.update(idx, merge(padded[idx], p.last().1))
    }
}

/// Patching `a` with `b` never names the index `usize::MAX`, one past which
/// no array can reach.
pub open spec fn merge_ok(a: JsonView, b: JsonView) -> bool
    decreases b,
{
    match b {
        JsonView::Object(p) => match a {
            JsonView::Object(m) => members_ok(m, p),
            JsonView::Array(items) => if patches_items(p) {
                items_ok(items, p)
            } else {
                members_ok(Seq::empty(), p)
            },
            _ => members_ok(Seq::empty(), p),
        },
        _ => true,
    }
}

/// `merge_ok` for each member patch of `p` applied to `m`.
pub open spec fn members_ok(m: Members, p: Members) -> bool
    decreases p,
{
    if p.len() == 0 {
        true
    } else {
        let acc = merge_members(m, p.drop_last());
        let k = p.last().0;
        let v = p.last().1;
        &&& members_ok(m, p.drop_last())
        &&& match json::find_key(acc, k) {
            Some(i) => v is Null || merge_ok(acc[i].1, v),
            None => v is Null || merge_ok(empty_object(), v),
        }
    }
}

/// `merge_ok` for each index patch of `p` applied to `items`.
pub open spec fn items_ok(items: Seq<JsonView>, p: Members) -> bool
    decreases p,
{
    if p.len() == 0 {
        true
    } else {
        let acc = merge_items(items, p.drop_last());
        let idx = index_of_key(p.last().0);
        &&& items_ok(items, p.drop_last())
        &&& idx < usize::MAX
        &&& merge_ok(pad_to(acc, idx)[idx], p.last().1)
    }
}

proof fn lemma_members_ok_prefix(m: Members, p: Members, n: int)
    requires
        members_ok(m, p),
        0 <= n <= p.len(),
    ensures
        members_ok(m, p.take(n)),
    decreases p.len(),
{
    if n < p.len() {
        assert(p.drop_last().take(n) =~= p.take(n));
        lemma_members_ok_prefix(m, p.drop_last(), n);
    } else {
        assert(p.take(n) =~= p);
    }
}

proof fn lemma_items_ok_prefix(items: Seq<JsonView>, p: Members, n: int)
    requires
        items_ok(items, p),
        0 <= n <= p.len(),
    ensures
        items_ok(items, p.take(n)),
    decreases p.len(),
{
    if n < p.len() {
        assert(p.drop_last().take(n) =~= p.take(n));
        lemma_items_ok_prefix(items, p.drop_last(), n);
    } else {
        assert(p.take(n) =~= p);
    }
}

/// Whether every key of `p` reads as an index.
fn all_keys_are_indices(p: &Vec<(String, Json)>) -> (r: bool)
    ensures
        r == all_index_keys(json::members_view(p@)),
{
    let mut i: usize = 0;
    while i < p.len()
        invariant
            i <= p.len(),
            forall|j: int|
                0 <= j < i ==> (#[trigger] text::parse_unsigned(json::members_view(p@)[j].0, usize::MAX as nat)) is Some,
        decreases p.len() - i,
    {
        if parse_usize(p[i].0.as_str()).is_none() {
            assert(json::members_view(p@)[i as int].0 == p@[i as int].0@);
            return false;
        }
        i = i + 1;
    }
    true
}

/// Merges patch `b` into `a` (RFC 7386, with index patches for arrays).
pub fn merge_patch(a: &mut Json, b: &Json)
    requires
        merge_ok(old(a)@, b@),
    ensures
        final(a)@ == merge(old(a)@, b@),
    decreases b,
{
    match b {
        Json::Object(pv) => {
            proof {
                json::lemma_object_view(*pv);
            }
            let ghost p = json::members_view(pv@);
            let mut cur = Json::Null;
            std::mem::swap(a, &mut cur);
            let ghost old_a = cur@;
            let mut members: Vec<(String, Json)> = match cur {
                Json::Object(m) => {
                    proof {
                        json::lemma_object_view(m);
                    }
                    m
                },
                Json::Array(mut items) => {
                    proof {
                        json::lemma_array_view(items);
                    }
                    if pv.len() > 0 && all_keys_are_indices(pv) {
                        let ghost s0 = json::items_view(items@);
                        assert(p.take(0) =~= Seq::<(Seq<char>, JsonView)>::empty());
                        let mut i: usize = 0;
                        while i < pv.len()
                            invariant
                                decreases_to!(*b => *pv),
                                p == json::members_view(pv@),
                                i <= pv.len(),
                                all_index_keys(p),
                                items_ok(s0, p),
                                json::items_view(items@) == merge_items(s0, p.take(i as int)),
                            decreases pv.len() - i,
                        {
                            proof {
                                vstd::std_specs::vec::axiom_vec_index_decreases(*pv, i as int);
                                assert(p.take(i + 1).drop_last() =~= p.take(i as int));
                                lemma_items_ok_prefix(s0, p, i + 1);
                            }
                            let ghost acc = json::items_view(items@);
                            let idx = match parse_usize(pv[i].0.as_str()) {
                                Some(n) => n,
                                None => {
                                    assert(text::parse_unsigned(p[i as int].0, usize::MAX as nat) is Some);
                                    0
                                },
                            };
                            assert(idx == index_of_key(p[i as int].0));
                            assert(acc =~= acc + Seq::new(0, |j: int| JsonView::Null));
                            if items.len() <= idx {
                                while items.len() <= idx
                                    invariant
                                        idx < usize::MAX,
                                        acc.len() <= items.len() <= idx + 1,
                                        json::items_view(items@) == acc + Seq::new(
                                            (items.len() - acc.len()) as nat,
                                            |j: int| JsonView::Null,
                                        ),
                                    decreases idx + 1 - items.len(),
                                {
                                    let ghost before = items@;
                                    items.push(Json::Null);
                                    assert(json::items_view(items@) =~= json::items_view(before).push(
                                        JsonView::Null,
                                    ));
                                    assert(json::items_view(items@) =~= acc + Seq::new(
                                        (items.len() - acc.len()) as nat,
                                        |j: int| JsonView::Null,
                                    ));
                                }
                            }
                            let ghost padded = json::items_view(items@);
                            assert(padded =~= pad_to(acc, idx as int));
                            let mut x = items.remove(idx);
                            assert(x@ == padded[idx as int]);
                            merge_patch(&mut x, &pv[i].1);
                            items.insert(idx, x);
                            assert(json::items_view(items@) =~= padded.update(
                                idx as int,
                                merge(padded[idx as int], p[i as int].1),
                            ));
                            i = i + 1;
                        }
                        assert(p.take(pv.len() as int) =~= p);
                        proof {
                            json::lemma_array_view(items);
                        }
                        *a = Json::Array(items);
                        return;
                    }
                    Vec::new()
                },
                _ => Vec::new(),
            };
            let ghost m0 = json::members_view(members@);
            assert(m0 =~= match old_a {
                JsonView::Object(m) => m,
                _ => Seq::<(Seq<char>, JsonView)>::empty(),
            });
            assert(merge(old_a, b@) == JsonView::Object(merge_members(m0, p)));
            assert(members_ok(m0, p));
            assert(p.take(0) =~= Seq::<(Seq<char>, JsonView)>::empty());
            let mut i: usize = 0;
            while i < pv.len()
                invariant
                    decreases_to!(*b => *pv),
                    p == json::members_view(pv@),
                    i <= pv.len(),
                    members_ok(m0, p),
                    json::members_view(members@) == merge_members(m0, p.take(i as int)),
                decreases pv.len() - i,
            {
                proof {
                    vstd::std_specs::vec::axiom_vec_index_decreases(*pv, i as int);
                    assert(p.take(i + 1).drop_last() =~= p.take(i as int));
                    lemma_members_ok_prefix(m0, p, i + 1);
                }
                let ghost acc = json::members_view(members@);
                let (pos, found) = find_member(&members, pv[i].0.as_str());
                let is_null = match &pv[i].1 {
                    Json::Null => true,
                    _ => false,
                };
                if is_null {
                    if found {
                        members.remove(pos);
                        assert(json::members_view(members@) =~= acc.remove(pos as int));
                    }
                } else if found {
                    let (k0, mut x) = members.remove(pos);
                    assert(x@ == acc[pos as int].1);
                    merge_patch(&mut x, &pv[i].1);
                    members.insert(pos, (k0, x));
                    assert(json::members_view(members@) =~= acc.update(
                        pos as int,
                        (p[i as int].0, merge(acc[pos as int].1, p[i as int].1)),
                    ));
                } else {
                    let k = pv[i].0.clone();
                    let empty: Vec<(String, Json)> = Vec::new();
                    proof {
                        json::lemma_object_view(empty);
                        assert(json::members_view(empty@) =~= Seq::<(Seq<char>, JsonView)>::empty());
                    }
                    let mut x = Json::Object(empty);
                    assert(x@ == empty_object());
                    merge_patch(&mut x, &pv[i].1);
                    proof {
                        json::lemma_lower_bound_before(acc, k@);
                    }
                    members.insert(pos, (k, x));
                    assert(json::members_view(members@) =~= acc.insert(
                        pos as int,
                        (p[i as int].0, merge(empty_object(), p[i as int].1)),
                    ));
                }
                i = i + 1;
            }
            assert(p.take(pv.len() as int) =~= p);
            proof {
                json::lemma_object_view(members);
            }
            *a = Json::Object(members);
        },
        _ => {
            *a = deep_copy(b);
        },
    }
}


// ---------------------------------------------------------------------------
// Patches that never name the last index
// ---------------------------------------------------------------------------

/// No key of an object in patch `b`, at any depth of objects, reads as the
/// index `usize::MAX`.
pub open spec fn no_max_index(b: JsonView) -> bool
    decreases b,
{
    match b {
        JsonView::Object(p) => forall|i: int|
            #![trigger p[i]]
            0 <= i < p.len() ==> text::parse_unsigned(p[i].0, usize::MAX as nat) != Some(
                usize::MAX as nat,
            ) && no_max_index(p[i].1),
        _ => true,
    }
}

proof fn lemma_members_in_range(b: JsonView, m: Members, n: int)
    requires
        b is Object,
        no_max_index(b),
        0 <= n <= b->Object_0.len(),
    ensures
        members_ok(m, b->Object_0.take(n)),
    decreases b, 0int, n,
{
    let p = b->Object_0;
    if n > 0 {
        let q = p.take(n);
        assert(q.drop_last() =~= p.take(n - 1));
        assert(q.last() == p[n - 1]);
        lemma_members_in_range(b, m, n - 1);
        let acc = merge_members(m, p.take(n - 1));
        let v = p[n - 1].1;
        assert(no_max_index(v));
        match json::find_key(acc, p[n - 1].0) {
            Some(i) => {
                lemma_patch_in_range(acc[i].1, v);
            },
            None => {
                lemma_patch_in_range(empty_object(), v);
            },
        }
    }
}

proof fn lemma_items_in_range(b: JsonView, items: Seq<JsonView>, n: int)
    requires
        b is Object,
        no_max_index(b),
        all_index_keys(b->Object_0),
        0 <= n <= b->Object_0.len(),
    ensures
        items_ok(items, b->Object_0.take(n)),
    decreases b, 0int, n,
{
    let p = b->Object_0;
    if n > 0 {
        let q = p.take(n);
        assert(q.drop_last() =~= p.take(n - 1));
        assert(q.last() == p[n - 1]);
        lemma_items_in_range(b, items, n - 1);
        let acc = merge_items(items, p.take(n - 1));
        let v = p[n - 1].1;
        assert(no_max_index(v));
        assert(text::parse_unsigned(p[n - 1].0, usize::MAX as nat) is Some);
        let idx = index_of_key(p[n - 1].0);
        lemma_patch_in_range(pad_to(acc, idx)[idx], v);
    }
}

/// A patch that never names the index `usize::MAX` merges into any value.
pub proof fn lemma_patch_in_range(a: JsonView, b: JsonView)
    requires
        no_max_index(b),
    ensures
        merge_ok(a, b),
    decreases b, 1int, 0int,
{
    if let JsonView::Object(p) = b {
        match a {
            JsonView::Object(m) => {
                lemma_members_in_range(b, m, p.len() as int);
                assert(p.take(p.len() as int) =~= p);
            },
            JsonView::Array(items) => {
                if patches_items(p) {
                    lemma_items_in_range(b, items, p.len() as int);
                } else {
                    lemma_members_in_range(b, Seq::empty(), p.len() as int);
                }
                assert(p.take(p.len() as int) =~= p);
            },
            _ => {
                lemma_members_in_range(b, Seq::empty(), p.len() as int);
                assert(p.take(p.len() as int) =~= p);
            },
        }
    }
}

/// Whether no key of an object in `b`, at any depth of objects, reads as
/// the index `usize::MAX`.
pub fn patch_in_range(b: &Json) -> (r: bool)
    ensures
        r == no_max_index(b@),
    decreases b,
{
    match b {
        Json::Object(pv) => {
            proof {
                json::lemma_object_view(*pv);
            }
            let ghost p = json::members_view(pv@);
            let mut i: usize = 0;
            while i < pv.len()
                invariant
                    decreases_to!(*b => *pv),
                    p == json::members_view(pv@),
                    b@ == JsonView::Object(p),
                    i <= pv.len(),
                    forall|j: int|
                        #![trigger p[j]]
                        0 <= j < i ==> text::parse_unsigned(p[j].0, usize::MAX as nat) != Some(
                            usize::MAX as nat,
                        ) && no_max_index(p[j].1),
                decreases pv.len() - i,
            {
                proof {
                    vstd::std_specs::vec::axiom_vec_index_decreases(*pv, i as int);
                }
                assert(p[i as int] == (pv@[i as int].0@, pv@[i as int].1@));
                let at_max = match parse_usize(pv[i].0.as_str()) {
                    Some(n) => n == usize::MAX,
                    None => false,
                };
                if at_max {
                    assert(!no_max_index(b@));
                    return false;
                }
                let inner = patch_in_range(&pv[i].1);
                assert(inner == no_max_index(p[i as int].1));
                if !inner {
                    assert(!no_max_index(b@));
                    return false;
                }
                assert(text::parse_unsigned(p[i as int].0, usize::MAX as nat) != Some(usize::MAX as nat));
                i = i + 1;
            }
            assert(b@ == JsonView::Object(p));
            true
        },
        _ => true,
    }
}

} // verus!

verus! {

// ---------------------------------------------------------------------------
// Laws
// ---------------------------------------------------------------------------

/// Where keys are sorted, a member is found exactly where its key is.
proof fn lemma_member_sorted(m: Members, k: Seq<char>)
    requires
        json::keys_sorted(m),
    ensures
        forall|i: int| 0 <= i < m.len() && m[i].0 == k ==> json::member(m, k) == Some(m[i].1),
        (forall|i: int| 0 <= i < m.len() ==> m[i].0 != k) ==> json::member(m, k) is None,
{
    json::lemma_find_key_sorted(m, k);
}

/// Removing member `k` keeps keys sorted and changes only member `k`.
proof fn lemma_remove_member(m: Members, i: int, k: Seq<char>)
    requires
        json::keys_sorted(m),
        0 <= i < m.len(),
        m[i].0 == k,
    ensures
        json::keys_sorted(m.remove(i)),
        forall|k2: Seq<char>| json::member(#[trigger] m.remove(i), k2) == if k2 == k {
            None
        } else {
            json::member(m, k2)
        },
{
    let r = m.remove(i);
    assert forall|a: int, b: int| 0 <= a < b < r.len() implies text::seq_lt(r[a].0, r[b].0) by {
        let a0 = if a < i { a } else { a + 1 };
        let b0 = if b < i { b } else { b + 1 };
        assert(r[a] == m[a0]);
        assert(r[b] == m[b0]);
    }
    assert forall|k2: Seq<char>| json::member(#[trigger] m.remove(i), k2) == if k2 == k {
        None
    } else {
        json::member(m, k2)
    } by {
        lemma_member_sorted(m, k2);
        lemma_member_sorted(r, k2);
        if k2 == k {
            assert forall|j: int| 0 <= j < r.len() implies r[j].0 != k2 by {
                let j0 = if j < i { j } else { j + 1 };
                assert(r[j] == m[j0]);
                if j0 != i {
                    if j0 < i {
                        assert(text::seq_lt(m[j0].0, m[i].0));
                    } else {
                        assert(text::seq_lt(m[i].0, m[j0].0));
                    }
                    text::lemma_seq_lt_irreflexive(k);
                }
            }
        } else {
            if exists|j: int| 0 <= j < m.len() && m[j].0 == k2 {
                let j = choose|j: int| 0 <= j < m.len() && m[j].0 == k2;
                let jr = if j < i { j } else { j - 1 };
                assert(r[jr] == m[j]);
            } else {
                assert forall|j: int| 0 <= j < r.len() implies r[j].0 != k2 by {
                    let j0 = if j < i { j } else { j + 1 };
                    assert(r[j] == m[j0]);
                }
            }
        }
    }
}

/// Replacing the value of member `k` keeps keys sorted and changes only member `k`.
pub(crate) proof fn lemma_update_member(m: Members, i: int, k: Seq<char>, v: JsonView)
    requires
        json::keys_sorted(m),
        0 <= i < m.len(),
        m[i].0 == k,
    ensures
        json::keys_sorted(m.update(i, (k, v))),
        forall|k2: Seq<char>| json::member(#[trigger] m.update(i, (k, v)), k2) == if k2 == k {
            Some(v)
        } else {
            json::member(m, k2)
        },
{
    let r = m.update(i, (k, v));
    assert forall|a: int, b: int| 0 <= a < b < r.len() implies text::seq_lt(r[a].0, r[b].0) by {
        assert(r[a].0 == m[a].0);
        assert(r[b].0 == m[b].0);
    }
    assert forall|k2: Seq<char>| json::member(#[trigger] m.update(i, (k, v)), k2) == if k2 == k {
        Some(v)
    } else {
        json::member(m, k2)
    } by {
        lemma_member_sorted(m, k2);
        lemma_member_sorted(r, k2);
        if k2 == k {
            assert(r[i] == (k, v));
            assert(r[i].0 == k2);
        } else {
            if exists|j: int| 0 <= j < m.len() && m[j].0 == k2 {
                let j = choose|j: int| 0 <= j < m.len() && m[j].0 == k2;
                assert(r[j] == m[j]);
            } else {
                assert forall|j: int| 0 <= j < r.len() implies r[j].0 != k2 by {
                    assert(r[j].0 == m[j].0);
                }
            }
        }
    }
}

/// Inserting an absent member at its place keeps keys sorted and changes only member `k`.
pub(crate) proof fn lemma_insert_member(m: Members, k: Seq<char>, v: JsonView)
    requires
        json::keys_sorted(m),
        json::find_key(m, k) is None,
    ensures
        json::keys_sorted(m.insert(json::lower_bound(m, k) as int, (k, v))),
        forall|k2: Seq<char>| json::member(#[trigger] m.insert(json::lower_bound(m, k) as int, (k, v)), k2)
            == if k2 == k {
            Some(v)
        } else {
            json::member(m, k2)
        },
{
    json::lemma_lower_bound_before(m, k);
    json::lemma_find_key_sorted(m, k);
    let p = json::lower_bound(m, k) as int;
    let r = m.insert(p, (k, v));
    // every key at or after the insertion point sorts after `k`
    assert forall|j: int| p <= j < m.len() implies text::seq_lt(k, #[trigger] m[j].0) by {
        assert(!text::seq_lt(m[p].0, k));
        if m[p].0 == k {
            assert(json::find_key(m, k) == Some(p));
        }
        text::lemma_seq_lt_total(m[p].0, k);
        if j > p {
            text::lemma_seq_lt_transitive(k, m[p].0, m[j].0);
        }
    }
    assert forall|a: int, b: int| 0 <= a < b < r.len() implies text::seq_lt(r[a].0, r[b].0) by {
        if a < p && b < p {
            assert(r[a] == m[a] && r[b] == m[b]);
        } else if a < p && b == p {
            assert(r[a] == m[a]);
        } else if a < p && b > p {
            assert(r[a] == m[a] && r[b] == m[b - 1]);
            text::lemma_seq_lt_transitive(m[a].0, k, m[b - 1].0);
        } else if a == p {
            assert(r[b] == m[b - 1]);
        } else {
            assert(r[a] == m[a - 1] && r[b] == m[b - 1]);
        }
    }
    assert forall|k2: Seq<char>| json::member(#[trigger] m.insert(p, (k, v)), k2) == if k2 == k {
        Some(v)
    } else {
        json::member(m, k2)
    } by {
        lemma_member_sorted(m, k2);
        lemma_member_sorted(r, k2);
        assert(r[p] == (k, v));
        if k2 != k {
            if exists|j: int| 0 <= j < m.len() && m[j].0 == k2 {
                let j = choose|j: int| 0 <= j < m.len() && m[j].0 == k2;
                let jr = if j < p { j } else { j + 1 };
                assert(r[jr] == m[j]);
            } else {
                assert forall|j: int| 0 <= j < r.len() implies r[j].0 != k2 by {
                    if j < p {
                        assert(r[j] == m[j]);
                    } else if j > p {
                        assert(r[j] == m[j - 1]);
                    }
                }
            }
        }
    }
}

/// What member `k` of object `m` is after patch `p` (RFC 7386): a null in the
/// patch removes it, another patch value is merged into it (or, where `m`
/// has no such member, into the empty object), and a member that the patch
/// does not name is kept.
pub open spec fn member_after(m: Members, p: Members, k: Seq<char>) -> Option<JsonView> {
    match json::member(p, k) {
        Some(v) => if v is Null {
            None
        } else {
            match json::member(m, k) {
                Some(old) => Some(merge(old, v)),
                None => Some(merge(empty_object(), v)),
            }
        },
        None => json::member(m, k),
    }
}

/// RFC 7386 member semantics: merging an object patch into an object removes
/// the members that the patch sets to null, merges into or adds the members
/// that it sets otherwise, and keeps every other member; the keys stay sorted.
pub proof fn lemma_merge_object_members(m: Members, p: Members)
    requires
        json::keys_sorted(m),
        json::keys_sorted(p),
    ensures
        json::keys_sorted(merge_members(m, p)),
        forall|k: Seq<char>| #[trigger] json::member(merge_members(m, p), k) == member_after(m, p, k),
    decreases p.len(),
{
    if p.len() == 0 {
        assert forall|k: Seq<char>| #[trigger] json::member(merge_members(m, p), k) == member_after(m, p, k) by {
            lemma_member_sorted(p, k);
        }
    } else {
        let q = p.drop_last();
        assert(json::keys_sorted(q));
        lemma_merge_object_members(m, q);
        let acc = merge_members(m, q);
        let kl = p.last().0;
        let vl = p.last().1;
        let res = merge_members(m, p);
        // the last key is named nowhere else in the patch
        assert forall|j: int| 0 <= j < q.len() implies q[j].0 != kl by {
            assert(text::seq_lt(p[j].0, p[p.len() - 1].0));
            text::lemma_seq_lt_irreflexive(kl);
        }
        lemma_member_sorted(q, kl);
        lemma_member_sorted(p, kl);
        match json::find_key(acc, kl) {
            Some(i) => {
                json::lemma_find_key_sorted(acc, kl);
                if vl is Null {
                    lemma_remove_member(acc, i, kl);
                } else {
                    lemma_update_member(acc, i, kl, merge(acc[i].1, vl));
                    lemma_member_sorted(acc, kl);
                }
            },
            None => {
                if !(vl is Null) {
                    lemma_insert_member(acc, kl, merge(empty_object(), vl));
                }
                json::lemma_find_key_sorted(acc, kl);
            },
        }
        assert forall|k: Seq<char>| #[trigger] json::member(merge_members(m, p), k) == member_after(m, p, k) by {
            lemma_member_sorted(p, k);
            lemma_member_sorted(q, k);
            lemma_member_sorted(acc, k);
            if k != kl {
                if exists|j: int| 0 <= j < q.len() && q[j].0 == k {
                    let j = choose|j: int| 0 <= j < q.len() && q[j].0 == k;
                    assert(p[j] == q[j]);
                } else {
                    assert forall|j: int| 0 <= j < p.len() implies p[j].0 != k by {
                        if j < q.len() {
                            assert(p[j] == q[j]);
                        }
                    }
                }
            } else {
                assert(p[p.len() - 1].0 == kl);
            }
        }
    }
}

/// A patch that is not an object replaces the document.
pub proof fn lemma_merge_non_object_replaces(a: JsonView, b: JsonView)
    requires
        !(b is Object),
    ensures
        merge(a, b) == b,
{
}

/// An object patch merged into a value that is not an object (nor an array
/// that it patches by index) is merged into the empty object.
pub proof fn lemma_object_patch_on_non_object(a: JsonView, p: Members)
    requires
        !(a is Object),
        !(a is Array && patches_items(p)),
    ensures
        merge(a, JsonView::Object(p)) == merge(empty_object(), JsonView::Object(p)),
{
}

/// An empty object patch leaves an object unchanged.
pub proof fn lemma_merge_empty_object(m: Members)
    ensures
        merge(JsonView::Object(m), JsonView::Object(Seq::empty())) == JsonView::Object(m),
{
}


// ---------------------------------------------------------------------------
// Well-formedness is kept
// ---------------------------------------------------------------------------

/// Every member value is well-formed.
pub open spec fn values_wf(m: Members) -> bool {
    forall|i: int| 0 <= i < m.len() ==> json::json_wf(#[trigger] m[i].1)
}

/// Every item is well-formed.
pub open spec fn items_wf(items: Seq<JsonView>) -> bool {
    forall|i: int| 0 <= i < items.len() ==> json::json_wf(#[trigger] items[i])
}

proof fn lemma_merge_members_wf(b: JsonView, m: Members, n: int)
    requires
        b is Object,
        json::json_wf(b),
        json::keys_sorted(m),
        values_wf(m),
        0 <= n <= b->Object_0.len(),
    ensures
        json::keys_sorted(merge_members(m, b->Object_0.take(n))),
        values_wf(merge_members(m, b->Object_0.take(n))),
    decreases b, 0int, n,
{
    let p = b->Object_0;
    if n == 0 {
        assert(p.take(0) =~= Seq::<(Seq<char>, JsonView)>::empty());
    } else {
        let q = p.take(n);
        assert(q.drop_last() =~= p.take(n - 1));
        assert(q.last() == p[n - 1]);
        lemma_merge_members_wf(b, m, n - 1);
        let acc = merge_members(m, p.take(n - 1));
        let k = p[n - 1].0;
        let v = p[n - 1].1;
        assert(json::json_wf(v));
        match json::find_key(acc, k) {
            Some(i) => {
                json::lemma_find_key_sorted(acc, k);
                if v is Null {
                    lemma_remove_member(acc, i, k);
                    let r = acc.remove(i);
                    assert forall|j: int| 0 <= j < r.len() implies json::json_wf(#[trigger] r[j].1) by {
                        if j < i {
                            assert(r[j] == acc[j]);
                        } else {
                            assert(r[j] == acc[j + 1]);
                        }
                    }
                } else {
                    assert(json::json_wf(acc[i].1));
                    lemma_merge_wf(acc[i].1, v);
                    lemma_update_member(acc, i, k, merge(acc[i].1, v));
                    let r = acc.update(i, (k, merge(acc[i].1, v)));
                    assert forall|j: int| 0 <= j < r.len() implies json::json_wf(#[trigger] r[j].1) by {
                        if j != i {
                            assert(r[j] == acc[j]);
                        }
                    }
                }
            },
            None => {
                if !(v is Null) {
                    let nv = merge(empty_object(), v);
                    lemma_empty_object_wf();
                    lemma_merge_wf(empty_object(), v);
                    lemma_insert_member(acc, k, nv);
                    json::lemma_lower_bound_before(acc, k);
                    let lb = json::lower_bound(acc, k) as int;
                    let r = acc.insert(lb, (k, nv));
                    assert forall|j: int| 0 <= j < r.len() implies json::json_wf(#[trigger] r[j].1) by {
                        if j < lb {
                            assert(r[j] == acc[j]);
                        } else if j > lb {
                            assert(r[j] == acc[j - 1]);
                        }
                    }
                }
            },
        }
    }
}

proof fn lemma_merge_items_wf(b: JsonView, items: Seq<JsonView>, n: int)
    requires
        b is Object,
        json::json_wf(b),
        all_index_keys(b->Object_0),
        items_wf(items),
        0 <= n <= b->Object_0.len(),
    ensures
        items_wf(merge_items(items, b->Object_0.take(n))),
    decreases b, 0int, n,
{
    let p = b->Object_0;
    if n == 0 {
        assert(p.take(0) =~= Seq::<(Seq<char>, JsonView)>::empty());
    } else {
        let q = p.take(n);
        assert(q.drop_last() =~= p.take(n - 1));
        assert(q.last() == p[n - 1]);
        lemma_merge_items_wf(b, items, n - 1);
        let acc = merge_items(items, p.take(n - 1));
        let idx = index_of_key(p[n - 1].0);
        let v = p[n - 1].1;
        assert(json::json_wf(v));
        assert(text::parse_unsigned(p[n - 1].0, usize::MAX as nat) is Some);
        let padded = pad_to(acc, idx);
        assert(items_wf(padded)) by {
            assert forall|j: int| 0 <= j < padded.len() implies json::json_wf(#[trigger] padded[j]) by {
                if j < acc.len() {
                    assert(padded[j] == acc[j]);
                }
            }
        }
        lemma_merge_wf(padded[idx], v);
        let r = padded.update(idx, merge(padded[idx], v));
        assert forall|j: int| 0 <= j < r.len() implies json::json_wf(#[trigger] r[j]) by {
            if j != idx {
                assert(r[j] == padded[j]);
            }
        }
    }
}

/// Merging a well-formed patch into a well-formed document gives a
/// well-formed document: every object's keys stay strictly ascending.
pub proof fn lemma_merge_wf(a: JsonView, b: JsonView)
    requires
        json::json_wf(a),
        json::json_wf(b),
    ensures
        json::json_wf(merge(a, b)),
    decreases b, 1int, 0int,
{
    if let JsonView::Object(p) = b {
        match a {
            JsonView::Object(m) => {
                lemma_merge_members_wf(b, m, p.len() as int);
                assert(p.take(p.len() as int) =~= p);
            },
            JsonView::Array(items) => {
                if patches_items(p) {
                    lemma_merge_items_wf(b, items, p.len() as int);
                } else {
                    lemma_merge_members_wf(b, Seq::empty(), p.len() as int);
                }
                assert(p.take(p.len() as int) =~= p);
            },
            _ => {
                lemma_merge_members_wf(b, Seq::empty(), p.len() as int);
                assert(p.take(p.len() as int) =~= p);
            },
        }
    }
}

/// The empty object is well-formed.
proof fn lemma_empty_object_wf()
    ensures
        json::json_wf(empty_object()),
{
}

/// Setting member `k` of well-formed members to a well-formed value keeps
/// them well-formed.
pub proof fn lemma_set_member_wf(m: Members, k: Seq<char>, v: JsonView)
    requires
        json::keys_sorted(m),
        values_wf(m),
        json::json_wf(v),
    ensures
        json::keys_sorted(json::set_member(m, k, v)),
        values_wf(json::set_member(m, k, v)),
        json::member(json::set_member(m, k, v), k) == Some(v),
{
    match json::find_key(m, k) {
        Some(i) => {
            json::lemma_find_key_sorted(m, k);
            lemma_update_member(m, i, k, v);
            let r = m.update(i, (k, v));
            assert forall|j: int| 0 <= j < r.len() implies json::json_wf(#[trigger] r[j].1) by {
                if j != i {
                    assert(r[j] == m[j]);
                }
            }
        },
        None => {
            lemma_insert_member(m, k, v);
            json::lemma_lower_bound_before(m, k);
            let lb = json::lower_bound(m, k) as int;
            let r = m.insert(lb, (k, v));
            assert forall|j: int| 0 <= j < r.len() implies json::json_wf(#[trigger] r[j].1) by {
                if j < lb {
                    assert(r[j] == m[j]);
                } else if j > lb {
                    assert(r[j] == m[j - 1]);
                }
            }
        },
    }
}

/// A member of a well-formed object is well-formed.
pub proof fn lemma_member_wf(m: Members, k: Seq<char>)
    requires
        values_wf(m),
    ensures
        json::member(m, k) matches Some(v) ==> json::json_wf(v),
{
    if let Some(i) = json::find_key(m, k) {
        assert(json::json_wf(m[i].1));
    }
}



proof fn lemma_items_kept(items: Seq<JsonView>, p: Members, j: int)
    requires
        0 <= j < items.len(),
        forall|i: int| 0 <= i < p.len() ==> index_of_key(#[trigger] p[i].0) != j,
    ensures
        merge_items(items, p).len() >= items.len(),
        merge_items(items, p)[j] == items[j],
    decreases p.len(),
{
    if p.len() > 0 {
        let q = p.drop_last();
        assert forall|i: int| 0 <= i < q.len() implies index_of_key(#[trigger] q[i].0) != j by {
            assert(q[i] == p[i]);
        }
        lemma_items_kept(items, q, j);
        assert(index_of_key(p[p.len() - 1].0) != j);
    }
}

/// The feed's index patches change only the items they name: merging an
/// object whose keys are all indices into an array keeps every item that no
/// key names, and the array only grows.
pub proof fn lemma_index_patch_keeps_items(items: Seq<JsonView>, p: Members, j: int)
    requires
        patches_items(p),
        0 <= j < items.len(),
        forall|i: int| 0 <= i < p.len() ==> index_of_key(#[trigger] p[i].0) != j,
    ensures
        merge(JsonView::Array(items), JsonView::Object(p)) matches JsonView::Array(r) && r.len()
            >= items.len() && r[j] == items[j],
{
    lemma_items_kept(items, p, j);
}

} // verus!
