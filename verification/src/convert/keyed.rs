//! Lines keyed by driver number, gathered into one entry per number: a
//! later line of the same number replaces the earlier one's entry, which
//! keeps its place.
use vstd::prelude::*;

use crate::model::driver::DriverNumber;

verus! {

/// The numbers of the lines that are kept (`None` for a line that is
/// dropped), each once, in order of first appearance.
pub open spec fn first_keys(ks: Seq<Option<nat>>) -> Seq<nat>
    decreases ks.len(),
{
    if ks.len() == 0 {
        Seq::empty()
    } else {
        let r = first_keys(ks.drop_last());
        match ks.last() {
            Some(k) => if r.contains(k) {
                r
            } else {
                r.push(k)
            },
            None => r,
        }
    }
}

/// The last line with number `k` (-1 where there is none): the line whose
/// entry stands for `k`.
pub open spec fn last_with(ks: Seq<Option<nat>>, k: nat) -> int
    decreases ks.len(),
{
    if ks.len() == 0 {
        -1
    } else if ks.last() == Some(k) {
        ks.len() - 1
    } else {
        last_with(ks.drop_last(), k)
    }
}

/// The numbers of the entries.
pub open spec fn entry_keys<T>(s: Seq<(DriverNumber, T)>) -> Seq<nat> {
    s.map_values(|e: (DriverNumber, T)| e.0.value as nat)
}

pub proof fn lemma_first_keys_unique(ks: Seq<Option<nat>>)
    ensures
        first_keys(ks).no_duplicates(),
    decreases ks.len(),
{
    if ks.len() > 0 {
        lemma_first_keys_unique(ks.drop_last());
    }
}

pub proof fn lemma_last_with_in_range(ks: Seq<Option<nat>>, k: nat)
    requires
        first_keys(ks).contains(k),
    ensures
        0 <= last_with(ks, k) < ks.len(),
        ks[last_with(ks, k)] == Some(k),
    decreases ks.len(),
{
    let d = ks.drop_last();
    if ks.last() != Some(k) {
        lemma_last_with_in_range(d, k);
        assert(ks[last_with(d, k)] == d[last_with(d, k)]);
    }
}

/// One more line: the numbers and the lines that stand for them.
pub proof fn lemma_first_keys_step(ks: Seq<Option<nat>>, i: int)
    requires
        0 <= i < ks.len(),
    ensures
        ({
            let pre = ks.take(i);
            let next = ks.take(i + 1);
            &&& first_keys(next) == match ks[i] {
                Some(k) => if first_keys(pre).contains(k) {
                    first_keys(pre)
                } else {
                    first_keys(pre).push(k)
                },
                None => first_keys(pre),
            }
            &&& forall|k: nat|
                #![trigger last_with(next, k)]
                if ks[i] == Some(k) {
                    last_with(next, k) == i
                } else {
                    last_with(next, k) == last_with(pre, k)
                }
            &&& forall|j: int| 0 <= j < i ==> #[trigger] next[j] == pre[j]
        }),
{
    let pre = ks.take(i);
    let next = ks.take(i + 1);
    assert(next.drop_last() =~= pre);
    assert(next.last() == ks[i]);
}

/// Puts `(k, v)` in the place of the entry of number `k`, or at the end.
pub fn upsert<T>(out: &mut Vec<(DriverNumber, T)>, k: u8, v: T)
    requires
        entry_keys(old(out)@).no_duplicates(),
    ensures
        entry_keys(final(out)@) == if entry_keys(old(out)@).contains(k as nat) {
            entry_keys(old(out)@)
        } else {
            entry_keys(old(out)@).push(k as nat)
        },
        forall|j: int|
            0 <= j < final(out)@.len() ==> if (#[trigger] final(out)@[j]).0.value == k {
                final(out)@[j].1 == v
            } else {
                j < old(out)@.len() && final(out)@[j] == old(out)@[j]
            },
{
    let ghost before = out@;
    let mut j: usize = 0;
    while j < out.len()
        invariant
            out@ == before,
            before == old(out)@,
            entry_keys(before).no_duplicates(),
            j <= before.len(),
            forall|m: int| 0 <= m < j ==> (#[trigger] before[m]).0.value != k,
        decreases before.len() - j,
    {
        if out[j].0.value == k {
            proof {
                assert(entry_keys(before)[j as int] == k as nat);
                assert(entry_keys(before).contains(k as nat));
            }
            out.set(j, (DriverNumber { value: k }, v));
            proof {
                assert(entry_keys(out@) =~= entry_keys(before));
                assert forall|m: int| 0 <= m < out@.len() && m != j implies out@[m].0.value
                    != k by {
                    assert(entry_keys(before)[m] != entry_keys(before)[j as int]);
                }
            }
            return;
        }
        j = j + 1;
    }
    proof {
        if entry_keys(before).contains(k as nat) {
            let m = entry_keys(before).index_of(k as nat);
            assert(before[m].0.value == k);
        }
    }
    out.push((DriverNumber { value: k }, v));
    assert(entry_keys(out@) =~= entry_keys(before).push(k as nat));
}

} // verus!
