//! The ordered list of `(id, callback)` pairs that every store keeps.
//!
//! Subscribers are appended with strictly increasing identifiers and removed
//! by identifier; removal keeps the relative order of the others.

use crate::common::types::SubscriberId;
use vstd::prelude::*;

verus! {

/// Holds of the entries whose identifier differs from `id`.
pub open spec fn other_than<C>(id: SubscriberId) -> spec_fn((SubscriberId, C)) -> bool {
    |e: (SubscriberId, C)| e.0 != id
}

/// The entries of `subs` whose identifier differs from `id`, in their order.
pub open spec fn without_id<C>(subs: Seq<(SubscriberId, C)>, id: SubscriberId) -> Seq<(SubscriberId, C)> {
    subs.filter(other_than(id))
}

/// The identifiers of `subs`, in their order.
pub open spec fn ids_of<C>(subs: Seq<(SubscriberId, C)>) -> Seq<SubscriberId> {
    subs.map_values(|e: (SubscriberId, C)| e.0)
}

/// The calls that notifying `subs` with `value` makes: one per entry, in
/// list order, each with the entry's identifier and `value`.
pub open spec fn notifications<C, T>(subs: Seq<(SubscriberId, C)>, value: T) -> Seq<(SubscriberId, T)> {
    subs.map_values(|e: (SubscriberId, C)| (e.0, value))
}

/// The calls that notifying `subs` with `value` makes, each written as the
/// subscriber's identifier, its callback and the value handed to it: one
/// per entry, in list order.
pub open spec fn calls_for<C, T>(subs: Seq<(SubscriberId, C)>, value: T) -> Seq<(SubscriberId, C, T)> {
    subs.map_values(|e: (SubscriberId, C)| (e.0, e.1, value))
}

/// A record of calls with the callbacks left out: who was called, with what.
pub open spec fn ids_and_values<C, T>(calls: Seq<(SubscriberId, C, T)>) -> Seq<(SubscriberId, T)> {
    calls.map_values(|c: (SubscriberId, C, T)| (c.0, c.2))
}

/// Leaving the callbacks out of a record that grew by the calls of one
/// notification gives the shorter record followed by that notification.
pub proof fn lemma_ids_and_values_append<C, T>(
    before: Seq<(SubscriberId, C, T)>,
    subs: Seq<(SubscriberId, C)>,
    value: T,
)
    ensures
        ids_and_values(before + calls_for(subs, value)) == ids_and_values(before) + notifications(subs, value),
{
    assert(ids_and_values(before + calls_for(subs, value)) =~= ids_and_values(before) + notifications(subs, value));
}

/// Identifiers grow strictly along the list and all lie below `bound`
/// (the next identifier the store will hand out).
pub open spec fn ids_ordered_below<C>(subs: Seq<(SubscriberId, C)>, bound: int) -> bool {
    &&& forall|i: int, j: int| 0 <= i < j < subs.len() ==> subs[i].0 < subs[j].0
    &&& forall|i: int| 0 <= i < subs.len() ==> subs[i].0 < bound
}

/// Whether some entry of `subs` carries `id`.
pub open spec fn has_id<C>(subs: Seq<(SubscriberId, C)>, id: SubscriberId) -> bool {
    exists|i: int| 0 <= i < subs.len() && subs[i].0 == id
}

/// Removing an identifier that no entry carries leaves the list as it was.
pub proof fn lemma_without_absent<C>(subs: Seq<(SubscriberId, C)>, id: SubscriberId)
    requires
        !has_id(subs, id),
    ensures
        without_id(subs, id) == subs,
    decreases subs.len(),
{
    reveal(Seq::filter);
    if subs.len() > 0 {
        let front = subs.drop_last();
        assert(!has_id(front, id)) by {
            if has_id(front, id) {
                let i = choose|i: int| 0 <= i < front.len() && front[i].0 == id;
                assert(subs[i].0 == id);
            }
        }
        lemma_without_absent(front, id);
        assert(subs.last().0 != id) by {
            assert(subs[subs.len() - 1].0 == subs.last().0);
        }
        assert(front.push(subs.last()) =~= subs);
    }
}

/// After removal no entry carries the identifier, the list does not grow,
/// and every remaining entry was in the list before.
pub proof fn lemma_without_shape<C>(subs: Seq<(SubscriberId, C)>, id: SubscriberId)
    ensures
        !has_id(without_id(subs, id), id),
        without_id(subs, id).len() <= subs.len(),
        forall|k: int| 0 <= k < without_id(subs, id).len() ==> #[trigger] subs.contains(without_id(subs, id)[k]),
    decreases subs.len(),
{
    reveal(Seq::filter);
    if subs.len() > 0 {
        let front = subs.drop_last();
        lemma_without_shape(front, id);
        let r = without_id(subs, id);
        let rf = without_id(front, id);
        assert forall|k: int| 0 <= k < r.len() implies #[trigger] subs.contains(r[k]) by {
            if k < rf.len() {
                assert(front.contains(rf[k]));
                let j = choose|j: int| 0 <= j < front.len() && front[j] == rf[k];
                assert(subs[j] == front[j]);
            } else {
                assert(r[k] == subs.last());
                assert(subs[subs.len() - 1] == subs.last());
            }
        }
        if has_id(r, id) {
            let i = choose|i: int| 0 <= i < r.len() && r[i].0 == id;
            if i < rf.len() {
                assert(rf[i].0 == id);
            }
        }
    }
}

/// Removal keeps the ordering invariant.
pub proof fn lemma_without_ordered<C>(subs: Seq<(SubscriberId, C)>, id: SubscriberId, bound: int)
    requires
        ids_ordered_below(subs, bound),
    ensures
        ids_ordered_below(without_id(subs, id), bound),
    decreases subs.len(),
{
    reveal(Seq::filter);
    if subs.len() > 0 {
        let front = subs.drop_last();
        assert(ids_ordered_below(front, bound));
        lemma_without_ordered(front, id, bound);
        lemma_without_shape(front, id);
        let rf = without_id(front, id);
        let last = subs.last();
        assert(last == subs[subs.len() - 1]);
        if last.0 != id {
            let r = rf.push(last);
            assert(r == without_id(subs, id));
            assert forall|i: int, j: int| 0 <= i < j < r.len() implies r[i].0 < r[j].0 by {
                if j == r.len() - 1 {
                    assert(front.contains(rf[i]));
                    let k = choose|k: int| 0 <= k < front.len() && front[k] == rf[i];
                    assert(subs[k] == front[k]);
                }
            }
        }
    }
}

/// Removing the identifier of an entry just appended above every other
/// identifier gives back the list before the append.
pub proof fn lemma_without_pushed<C>(subs: Seq<(SubscriberId, C)>, id: SubscriberId, cb: C)
    requires
        ids_ordered_below(subs, id as int),
    ensures
        without_id(subs.push((id, cb)), id) == subs,
{
    subs.lemma_filter_push((id, cb), other_than(id));
    assert(!has_id(subs, id));
    lemma_without_absent(subs, id);
}

/// Removing an identifier twice is removing it once.
pub proof fn lemma_without_idempotent<C>(subs: Seq<(SubscriberId, C)>, id: SubscriberId)
    ensures
        without_id(without_id(subs, id), id) == without_id(subs, id),
{
    lemma_without_shape(subs, id);
    lemma_without_absent(without_id(subs, id), id);
}

/// Removals of two identifiers commute.
pub proof fn lemma_without_commutes<C>(subs: Seq<(SubscriberId, C)>, a: SubscriberId, b: SubscriberId)
    ensures
        without_id(without_id(subs, a), b) == without_id(without_id(subs, b), a),
    decreases subs.len(),
{
    reveal(Seq::filter);
    if subs.len() > 0 {
        let front = subs.drop_last();
        let last = subs.last();
        lemma_without_commutes(front, a, b);
        let fa = without_id(front, a);
        let fb = without_id(front, b);
        if last.0 != a {
            fa.lemma_filter_push(last, other_than(b));
        }
        if last.0 != b {
            fb.lemma_filter_push(last, other_than(a));
        }
    }
}

/// In a list with unique identifiers, removing the identifier found at
/// position `k` removes exactly that position.
pub proof fn lemma_without_at<C>(subs: Seq<(SubscriberId, C)>, k: int, bound: int)
    requires
        ids_ordered_below(subs, bound),
        0 <= k < subs.len(),
    ensures
        without_id(subs, subs[k].0) == subs.remove(k),
    decreases subs.len(),
{
    reveal(Seq::filter);
    let front = subs.drop_last();
    let last = subs.last();
    let id = subs[k].0;
    assert(last == subs[subs.len() - 1]);
    assert(ids_ordered_below(front, bound));
    if k == subs.len() - 1 {
        assert(!has_id(front, id)) by {
            if has_id(front, id) {
                let i = choose|i: int| 0 <= i < front.len() && front[i].0 == id;
                assert(subs[i].0 == front[i].0);
            }
        }
        lemma_without_absent(front, id);
        assert(subs.remove(k) =~= front);
    } else {
        assert(front[k] == subs[k]);
        lemma_without_at(front, k, bound);
        assert(last.0 != id);
        assert(subs.remove(k) =~= front.remove(k).push(last));
    }
}

/// One round of notification appended to a record of calls: the record grows
/// by one call per subscriber; the `k`-th new call goes to the `k`-th
/// subscriber with `value`; and the new calls go to strictly increasing
/// identifiers, that is, in the order the subscribers subscribed.
pub proof fn lemma_round_in_order<C, T>(
    earlier: Seq<(SubscriberId, T)>,
    subs: Seq<(SubscriberId, C)>,
    bound: int,
    value: T,
)
    requires
        ids_ordered_below(subs, bound),
    ensures
        (earlier + notifications(subs, value)).len() == earlier.len() + subs.len(),
        forall|k: int|
            0 <= k < subs.len() ==> #[trigger] (earlier + notifications(subs, value))[earlier.len() + k] == (
            subs[k].0,
            value,
        ),
        forall|i: int, j: int|
            earlier.len() <= i < j < earlier.len() + subs.len() ==> (#[trigger] (earlier + notifications(
                subs,
                value,
            ))[i]).0 < (#[trigger] (earlier + notifications(subs, value))[j]).0,
{
    let all = earlier + notifications(subs, value);
    assert forall|i: int, j: int| earlier.len() <= i < j < earlier.len() + subs.len() implies (#[trigger] all[i]).0 < (
    #[trigger] all[j]).0 by {
        assert(all[i] == notifications(subs, value)[i - earlier.len()]);
        assert(all[j] == notifications(subs, value)[j - earlier.len()]);
    }
}

/// After an unsubscription, a round of notification calls no entry carrying
/// the removed identifier.
pub proof fn lemma_round_skips_removed<C, T>(subs: Seq<(SubscriberId, C)>, id: SubscriberId, value: T)
    ensures
        forall|k: int|
            0 <= k < notifications(without_id(subs, id), value).len() ==> (#[trigger] notifications(
                without_id(subs, id),
                value,
            )[k]).0 != id,
{
    lemma_without_shape(subs, id);
    let rest = without_id(subs, id);
    assert forall|k: int| 0 <= k < notifications(rest, value).len() implies (#[trigger] notifications(
        rest,
        value,
    )[k]).0 != id by {
        assert(notifications(rest, value)[k].0 == rest[k].0);
        if rest[k].0 == id {
            assert(has_id(rest, id));
        }
    }
}

/// Removes every entry carrying `id`, keeping the order of the others.
pub fn remove_subscriber<C>(subs: &mut Vec<(SubscriberId, C)>, id: SubscriberId)
    ensures
        final(subs)@ == without_id(old(subs)@, id),
{
    let ghost orig = subs@;
    let mut i: usize = 0;
    let ghost mut k: int = 0;
    while i < subs.len()
        invariant
            0 <= k <= orig.len(),
            i <= subs.len(),
            subs@ == without_id(orig.take(k), id) + orig.skip(k),
            i == without_id(orig.take(k), id).len(),
        decreases subs.len() - i,
    {
        let ghost before = without_id(orig.take(k), id);
        assert(orig.take(k + 1) =~= orig.take(k).push(orig[k]));
        proof {
            orig.take(k).lemma_filter_push(orig[k], other_than(id));
        }
        assert(subs@[i as int] == orig[k]) by {
            assert(orig.skip(k)[0] == orig[k]);
        }
        if subs[i].0 == id {
            subs.remove(i);
            assert(subs@ =~= without_id(orig.take(k + 1), id) + orig.skip(k + 1));
        } else {
            i = i + 1;
            assert(subs@ =~= without_id(orig.take(k + 1), id) + orig.skip(k + 1));
        }
        proof { k = k + 1; }
    }
    assert(orig.take(k) =~= orig) by {
        assert(orig.skip(k).len() == 0);
    }
    assert(subs@ =~= without_id(orig, id));
}

} // verus!
