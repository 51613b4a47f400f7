//! The operations of the fuzzing harness and the effect of each on a store
//! and on the subscription handles the harness holds.

use crate::common::registry::{ids_of, lemma_without_at, without_id};
use crate::common::store::{Store, SubscriberCallback};
use crate::common::subscription::Subscription;
use crate::common::types::SubscriberId;
use vstd::prelude::*;

verus! {

/// One operation of a fuzzing run.
#[derive(Debug, Clone, Copy, PartialEq, Eq, Structural)]
pub enum Operation {
    /// Read the state.
    Get,
    /// Replace the state with the value.
    SetState(u32),
    /// Subscribe a callback that does nothing, and keep its handle.
    Subscribe,
    /// Drop the handle at the position (modulo the number of handles held).
    Unsubscribe(usize),
    /// Give the runtime a chance to run other tasks.
    Wait,
}

/// The identifiers of the handles the harness holds, in order.
pub open spec fn handle_ids(subs: Seq<Subscription<u32>>) -> Seq<SubscriberId> {
    subs.map_values(|h: Subscription<u32>| h.spec_id())
}

/// The harness and the store agree: the store's subscribers are exactly the
/// handles the harness holds, in the same order.
pub open spec fn harness_consistent(store: &Store<u32>, subs: Seq<Subscription<u32>>) -> bool {
    &&& store.wf()
    &&& ids_of(store.subscribers()) == handle_ids(subs)
}

/// Applies one operation; returns whether the harness should now yield to
/// the runtime (for [`Operation::Wait`]).
///
/// `SetState(v)` makes the state `v`; `Subscribe` appends a new subscriber to the
/// store and its handle to `subs` (unless the store has run out of
/// identifiers); `Unsubscribe(i)` drops the handle at `i % subs.len()` and
/// with it that subscriber (nothing happens when no handle is held); `Get`
/// and `Wait` change nothing. Every operation keeps the store and the
/// handles in agreement.
pub fn run_fuzz_step(store: &mut Store<u32>, subs: &mut Vec<Subscription<u32>>, op: Operation) -> (yield_now: bool)
    requires
        harness_consistent(old(store), old(subs)@),
    ensures
        harness_consistent(final(store), final(subs)@),
        yield_now == (op == Operation::Wait),
        match op {
            Operation::SetState(v) => final(store).state() == v && final(store).subscribers() == old(store).subscribers()
                && final(subs)@ == old(subs)@,
            Operation::Subscribe => if old(store).next_id() < usize::MAX {
                &&& final(subs)@.len() == old(subs)@.len() + 1
                &&& final(subs)@.drop_last() == old(subs)@
                &&& final(subs)@.last().spec_id() == old(store).next_id()
                &&& final(store).subscribers().drop_last() == old(store).subscribers()
                &&& final(store).state() == old(store).state()
            } else {
                final(subs)@ == old(subs)@ && final(store).subscribers() == old(store).subscribers()
            },
            Operation::Unsubscribe(i) => if old(subs)@.len() == 0 {
                final(subs)@ == old(subs)@ && final(store).subscribers() == old(store).subscribers()
            } else {
                let k = i as int % old(subs)@.len() as int;
                &&& final(subs)@ == old(subs)@.remove(k)
                &&& final(store).subscribers() == old(store).subscribers().remove(k)
                &&& final(store).subscribers() == without_id(old(store).subscribers(), old(subs)@[k].spec_id())
                &&& final(store).state() == old(store).state()
            },
            _ => final(subs)@ == old(subs)@ && final(store).subscribers() == old(store).subscribers()
                && final(store).state() == old(store).state(),
        },
{
    match op {
        Operation::Get => {
            let _ = store.get();
            false
        },
        Operation::SetState(val) => {
            let _ = store.set(move |s: &mut u32| ensures *final(s) == val { *s = val });
            false
        },
        Operation::Subscribe => {
            if store.has_free_id() {
                let ghost before = store.subscribers();
                if let Ok(sub) = store.subscribe(SubscriberCallback::new(|_v: &u32| {})) {
                    subs.push(sub);
                }
                proof {
                    let after = store.subscribers();
                    assert(after =~= before.push(after.last()));
                    assert(ids_of(after) =~= ids_of(before).push(after.last().0));
                    assert(handle_ids(subs@) =~= handle_ids(old(subs)@).push(subs@.last().spec_id()));
                }
            }
            false
        },
        Operation::Unsubscribe(idx) => {
            if subs.len() > 0 {
                let k = idx % subs.len();
                let ghost before = store.subscribers();
                proof {
                    assert(ids_of(before)[k as int] == handle_ids(subs@)[k as int]);
                    lemma_without_at(before, k as int, store.next_id() as int);
                }
                let sub = subs.remove(k);
                sub.cancel(store);
                proof {
                    assert(ids_of(store.subscribers()) =~= ids_of(before).remove(k as int));
                    assert(handle_ids(subs@) =~= handle_ids(old(subs)@).remove(k as int));
                }
            }
            false
        },
        Operation::Wait => true,
    }
}

} // verus!
