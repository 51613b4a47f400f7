//! The store for threaded runtimes whose ring slots count their readers.
//!
//! The ring works as in [`crate::common::store`]; each slot also counts the
//! readers copying its value. A read enters the current slot, copies the
//! value and leaves; an update writes the slot after the current one, and
//! only when no reader is in it.

use crate::common::registry::{
    lemma_round_in_order, lemma_round_skips_removed,
    ids_and_values, ids_ordered_below, lemma_ids_and_values_append, lemma_without_ordered, notifications,
    without_id,
};
use crate::common::store::SubscriberCallback;
use crate::common::subscribers::Subscribers;
use crate::common::subscription::Subscription;
use crate::common::types::SubscriberId;
use crate::error::StoreError;
use std::sync::Arc;
use vstd::prelude::*;

verus! {

/// One slot of the state ring, with the number of readers currently
/// copying its value.
pub struct UnsafeSlot<T> {
    /// The value held in the slot.
    pub state: T,
    /// How many readers are copying the value right now.
    pub reader_count: usize,
}

/// The ring of states with their reader counts, the subscribers, the
/// identifier counter and the record of subscriber calls.
#[verifier::reject_recursive_types(T)]
pub struct InnerStore<T: Send + Sync + 'static> {
    pub(crate) slots: [UnsafeSlot<T>; 4],
    pub(crate) current_idx: usize,
    pub(crate) subscribers: Subscribers<T>,
    pub(crate) next_id: SubscriberId,
}

impl<T: Send + Sync + 'static> InnerStore<T> {
    /// The value held in slot `i` of the ring.
    pub closed spec fn slot(&self, i: int) -> T {
        self.slots@[i].state
    }

    /// How many readers are copying slot `i`.
    pub closed spec fn readers(&self, i: int) -> nat {
        self.slots@[i].reader_count as nat
    }

    /// The index of the slot that holds the current state.
    pub closed spec fn current_index(&self) -> int {
        self.current_idx as int
    }

    /// The current state.
    pub open spec fn state(&self) -> T {
        self.slot(self.current_index())
    }

    /// The subscribers, in the order they subscribed.
    pub closed spec fn subscribers(&self) -> Seq<(SubscriberId, SubscriberCallback<T>)> {
        self.subscribers.entries()
    }

    /// The identifier the next subscriber gets.
    pub closed spec fn next_id(&self) -> nat {
        self.next_id as nat
    }

    /// Every subscriber call made so far, in order.
    pub closed spec fn notified(&self) -> Seq<(SubscriberId, T)> {
        ids_and_values(self.subscribers.calls())
    }

    /// The current index lies in the ring, and subscriber identifiers are
    /// unique and below the next identifier.
    pub open spec fn wf(&self) -> bool {
        &&& 0 <= self.current_index() < 4
        &&& ids_ordered_below(self.subscribers(), self.next_id() as int)
    }

    /// Removes the subscriber `subscriber_id`; always succeeds.
    pub fn unsubscribe(&mut self, subscriber_id: SubscriberId) -> (r: Result<(), StoreError>)
        requires
            old(self).wf(),
        ensures
            r is Ok,
            final(self).wf(),
            final(self).subscribers() == without_id(old(self).subscribers(), subscriber_id),
            final(self).current_index() == old(self).current_index(),
            forall|i: int| 0 <= i < 4 ==> final(self).slot(i) == old(self).slot(i),
            forall|i: int| 0 <= i < 4 ==> final(self).readers(i) == old(self).readers(i),
            final(self).next_id() == old(self).next_id(),
            final(self).notified() == old(self).notified(),
    {
        proof {
            lemma_without_ordered(self.subscribers.entries(), subscriber_id, self.next_id as int);
        }
        self.subscribers.remove_id(subscriber_id);
        Ok(())
    }

    /// A ring whose four slots hold clones of `initial` (the last one
    /// `initial` itself) and no reader, with slot 0 current.
    pub(crate) fn new(initial: T) -> (r: Self)
        where
            T: Clone,
        ensures
            r.wf(),
            r.current_index() == 0,
            forall|i: int| 0 <= i < 4 ==> cloned(initial, #[trigger] r.slot(i)),
            forall|i: int| 0 <= i < 4 ==> #[trigger] r.readers(i) == 0,
            r.subscribers() == Seq::<(SubscriberId, SubscriberCallback<T>)>::empty(),
            r.next_id() == 0,
            r.notified() == Seq::<(SubscriberId, T)>::empty(),
    {
        let s0 = initial.clone();
        let s1 = initial.clone();
        let s2 = initial.clone();
        let r = InnerStore {
            slots: [
                UnsafeSlot { state: s0, reader_count: 0 },
                UnsafeSlot { state: s1, reader_count: 0 },
                UnsafeSlot { state: s2, reader_count: 0 },
                UnsafeSlot { state: initial, reader_count: 0 },
            ],
            current_idx: 0,
            subscribers: Subscribers::new(),
            next_id: 0,
        };
        assert(r.slot(3) == initial);
        r
    }

    /// Whether a subscriber can still get an identifier.
    pub(crate) fn has_free_id(&self) -> (r: bool)
        ensures
            r == (self.next_id() < usize::MAX),
    {
        self.next_id < usize::MAX
    }

    /// Whether no reader is in the slot after the current one.
    pub(crate) fn next_slot_free(&self) -> (r: bool)
        requires
            self.wf(),
        ensures
            r == (self.readers((self.current_index() + 1) % 4) == 0),
    {
        broadcast use vstd::array::group_array_axioms;

        self.slots[(self.current_idx + 1) % 4].reader_count == 0
    }

    /// Enters the current slot as a reader; returns its index.
    pub(crate) fn begin_read(&mut self) -> (idx: usize)
        requires
            old(self).wf(),
            old(self).readers(old(self).current_index()) < usize::MAX,
        ensures
            final(self).wf(),
            idx == old(self).current_index(),
            final(self).readers(idx as int) == old(self).readers(idx as int) + 1,
            forall|i: int| 0 <= i < 4 && i != idx ==> final(self).readers(i) == old(self).readers(i),
            forall|i: int| 0 <= i < 4 ==> final(self).slot(i) == old(self).slot(i),
            final(self).current_index() == old(self).current_index(),
            final(self).subscribers() == old(self).subscribers(),
            final(self).next_id() == old(self).next_id(),
            final(self).notified() == old(self).notified(),
    {
        broadcast use vstd::array::group_array_axioms;

        let idx = self.current_idx;
        self.slots[idx].reader_count = self.slots[idx].reader_count + 1;
        idx
    }

    /// A clone of the value in slot `idx`.
    pub(crate) fn read_slot(&self, idx: usize) -> (r: T)
        where
            T: Clone,
        requires
            idx < 4,
        ensures
            cloned(self.slot(idx as int), r),
    {
        broadcast use vstd::array::group_array_axioms;

        self.slots[idx].state.clone()
    }

    /// Leaves slot `idx` as a reader.
    pub(crate) fn end_read(&mut self, idx: usize)
        requires
            old(self).wf(),
            idx < 4,
            old(self).readers(idx as int) > 0,
        ensures
            final(self).wf(),
            final(self).readers(idx as int) == old(self).readers(idx as int) - 1,
            forall|i: int| 0 <= i < 4 && i != idx ==> final(self).readers(i) == old(self).readers(i),
            forall|i: int| 0 <= i < 4 ==> final(self).slot(i) == old(self).slot(i),
            final(self).current_index() == old(self).current_index(),
            final(self).subscribers() == old(self).subscribers(),
            final(self).next_id() == old(self).next_id(),
            final(self).notified() == old(self).notified(),
    {
        broadcast use vstd::array::group_array_axioms;

        self.slots[idx].reader_count = self.slots[idx].reader_count - 1;
    }

    /// Writes the slot after the current one, in which no reader is, with a
    /// clone of the current state that `update` has worked on, makes it
    /// current, and returns a clone of it.
    pub(crate) fn advance<F: FnOnce(&mut T)>(&mut self, update: F) -> (snapshot: T)
        where
            T: Clone,
        requires
            old(self).wf(),
            old(self).readers((old(self).current_index() + 1) % 4) == 0,
            forall|s: &mut T| cloned(old(self).state(), *s) ==> #[trigger] call_requires(update, (s,)),
        ensures
            final(self).wf(),
            final(self).current_index() == (old(self).current_index() + 1) % 4,
            exists|s: &mut T|
                cloned(old(self).state(), *s) && #[trigger] call_ensures(update, (s,), ()) && *final(s) == final(self).state(),
            forall|i: int| 0 <= i < 4 && i != final(self).current_index() ==> final(self).slot(i) == old(self).slot(i),
            forall|i: int| 0 <= i < 4 ==> final(self).readers(i) == old(self).readers(i),
            cloned(final(self).state(), snapshot),
            final(self).subscribers() == old(self).subscribers(),
            final(self).next_id() == old(self).next_id(),
            final(self).notified() == old(self).notified(),
    {
        broadcast use vstd::array::group_array_axioms;

        let current = self.current_idx;
        let next = (current + 1) % 4;
        let mut value = self.slots[current].state.clone();
        assert(cloned(old(self).state(), value));
        update(&mut value);
        let snapshot = value.clone();
        self.slots[next] = UnsafeSlot { state: value, reader_count: 0 };
        self.current_idx = next;
        snapshot
    }

    /// Calls every subscriber, in the order they subscribed, with `value`,
    /// and records the calls.
    pub(crate) fn notify_and_record(&mut self, value: &T)
        requires
            old(self).wf(),
        ensures
            final(self).wf(),
            final(self).current_index() == old(self).current_index(),
            forall|i: int| 0 <= i < 4 ==> final(self).slot(i) == old(self).slot(i),
            forall|i: int| 0 <= i < 4 ==> final(self).readers(i) == old(self).readers(i),
            final(self).subscribers() == old(self).subscribers(),
            final(self).next_id() == old(self).next_id(),
            final(self).notified() == old(self).notified() + notifications(old(self).subscribers(), *value),
    {
        self.subscribers.notify(value);
        proof {
            lemma_ids_and_values_append(old(self).subscribers.calls(), old(self).subscribers(), *value);
        }
    }

    /// Appends `callback` under the next identifier, which it returns.
    pub(crate) fn add_subscriber(&mut self, callback: SubscriberCallback<T>) -> (id: SubscriberId)
        requires
            old(self).wf(),
            old(self).next_id() < usize::MAX,
        ensures
            final(self).wf(),
            id == old(self).next_id(),
            final(self).next_id() == old(self).next_id() + 1,
            final(self).subscribers() == old(self).subscribers().push((id, callback)),
            final(self).current_index() == old(self).current_index(),
            forall|i: int| 0 <= i < 4 ==> final(self).slot(i) == old(self).slot(i),
            forall|i: int| 0 <= i < 4 ==> final(self).readers(i) == old(self).readers(i),
            final(self).notified() == old(self).notified(),
    {
        let id = self.next_id;
        self.next_id = id + 1;
        self.subscribers.push(id, callback);
        id
    }
}

/// A Zustand-inspired state container for threaded runtimes whose ring
/// slots count their readers.
///
/// Every operation returns a `Result`, the error being a poisoned lock; the
/// store is updated through `&mut` and every operation succeeds. A reader
/// may stay in a slot across updates ([`Store::begin_read`] ..
/// [`Store::end_read`]); an update needs the slot it writes to be free.
#[verifier::reject_recursive_types(T)]
pub struct Store<T: Send + Sync + 'static> {
    pub(crate) inner: InnerStore<T>,
}

impl<T: Send + Sync + 'static> Store<T> {
    /// The current state: the value of the current slot.
    pub open spec fn state(&self) -> T {
        self.slot(self.current_index())
    }

    /// The value held in slot `i` of the ring.
    pub closed spec fn slot(&self, i: int) -> T {
        self.inner.slot(i)
    }

    /// How many readers are copying slot `i`.
    pub closed spec fn readers(&self, i: int) -> nat {
        self.inner.readers(i)
    }

    /// The index of the slot that holds the current state.
    pub closed spec fn current_index(&self) -> int {
        self.inner.current_index()
    }

    /// The subscribers, in the order they subscribed.
    pub closed spec fn subscribers(&self) -> Seq<(SubscriberId, SubscriberCallback<T>)> {
        self.inner.subscribers()
    }

    /// The identifier the next subscriber gets.
    pub closed spec fn next_id(&self) -> nat {
        self.inner.next_id()
    }

    /// Every subscriber call the store has made, in order: the subscriber's
    /// identifier and the value it was handed.
    pub closed spec fn notified(&self) -> Seq<(SubscriberId, T)> {
        self.inner.notified()
    }

    /// The current index lies in the ring, and subscriber identifiers are
    /// unique and below the next identifier.
    pub open spec fn wf(&self) -> bool {
        &&& 0 <= self.current_index() < 4
        &&& ids_ordered_below(self.subscribers(), self.next_id() as int)
    }

    /// Create a new store whose four slots hold clones of `initial` and no
    /// reader, with slot 0 current, no subscriber and no call made.
    pub fn new(initial: T) -> (store: Self)
        where
            T: Clone,
        ensures
            store.wf(),
            store.current_index() == 0,
            forall|i: int| 0 <= i < 4 ==> cloned(initial, #[trigger] store.slot(i)),
            forall|i: int| 0 <= i < 4 ==> #[trigger] store.readers(i) == 0,
            store.subscribers() == Seq::<(SubscriberId, SubscriberCallback<T>)>::empty(),
            store.next_id() == 0,
            store.notified() == Seq::<(SubscriberId, T)>::empty(),
    {
        Store { inner: InnerStore::new(initial) }
    }

    /// Whether a subscriber can still get an identifier.
    pub fn has_free_id(&self) -> (r: bool)
        ensures
            r == (self.next_id() < usize::MAX),
    {
        self.inner.has_free_id()
    }

    /// Whether no reader is in the slot after the current one, the slot the
    /// next update writes.
    pub fn next_slot_free(&self) -> (r: bool)
        requires
            self.wf(),
        ensures
            r == (self.readers((self.current_index() + 1) % 4) == 0),
    {
        self.inner.next_slot_free()
    }

    /// Enters the current slot as a reader and returns its index; the
    /// slot's reader count goes up by one, nothing else changes.
    pub fn begin_read(&mut self) -> (idx: usize)
        requires
            old(self).wf(),
            old(self).readers(old(self).current_index()) < usize::MAX,
        ensures
            final(self).wf(),
            idx == old(self).current_index(),
            final(self).readers(idx as int) == old(self).readers(idx as int) + 1,
            forall|i: int| 0 <= i < 4 && i != idx ==> final(self).readers(i) == old(self).readers(i),
            forall|i: int| 0 <= i < 4 ==> final(self).slot(i) == old(self).slot(i),
            final(self).current_index() == old(self).current_index(),
            final(self).subscribers() == old(self).subscribers(),
            final(self).next_id() == old(self).next_id(),
            final(self).notified() == old(self).notified(),
    {
        self.inner.begin_read()
    }

    /// A clone of the value in slot `idx`.
    pub fn read_slot(&self, idx: usize) -> (r: T)
        where
            T: Clone,
        requires
            idx < 4,
        ensures
            cloned(self.slot(idx as int), r),
    {
        self.inner.read_slot(idx)
    }

    /// Leaves slot `idx` as a reader; its reader count goes down by one,
    /// nothing else changes.
    pub fn end_read(&mut self, idx: usize)
        requires
            old(self).wf(),
            idx < 4,
            old(self).readers(idx as int) > 0,
        ensures
            final(self).wf(),
            final(self).readers(idx as int) == old(self).readers(idx as int) - 1,
            forall|i: int| 0 <= i < 4 && i != idx ==> final(self).readers(i) == old(self).readers(i),
            forall|i: int| 0 <= i < 4 ==> final(self).slot(i) == old(self).slot(i),
            final(self).current_index() == old(self).current_index(),
            final(self).subscribers() == old(self).subscribers(),
            final(self).next_id() == old(self).next_id(),
            final(self).notified() == old(self).notified(),
    {
        self.inner.end_read(idx)
    }

    /// Get a clone of the current state: enter the current slot, copy its
    /// value, leave. The reader counts end as they were.
    pub fn get(&mut self) -> (r: Result<T, StoreError>)
        where
            T: Clone,
        requires
            old(self).wf(),
            old(self).readers(old(self).current_index()) < usize::MAX,
        ensures
            r matches Ok(v) && cloned(old(self).state(), v),
            final(self).wf(),
            forall|i: int| 0 <= i < 4 ==> final(self).readers(i) == old(self).readers(i),
            forall|i: int| 0 <= i < 4 ==> final(self).slot(i) == old(self).slot(i),
            final(self).current_index() == old(self).current_index(),
            final(self).subscribers() == old(self).subscribers(),
            final(self).next_id() == old(self).next_id(),
            final(self).notified() == old(self).notified(),
    {
        let idx = self.inner.begin_read();
        let value = self.inner.read_slot(idx);
        self.inner.end_read(idx);
        Ok(value)
    }

    /// Update the state using a closure, then call every subscriber, in the
    /// order they subscribed, with a clone of the new state.
    ///
    /// The slot after the current one must have no reader. `update` works on
    /// a clone of the current state in that slot, which then becomes current;
    /// the other slots, the reader counts, the subscribers and the next
    /// identifier do not change. The calls made are one per subscriber, in
    /// list order, each with one clone of the new state. Always succeeds.
    pub fn set<F: FnOnce(&mut T) + Send + 'static>(&mut self, update: F) -> (r: Result<(), StoreError>)
        where
            T: Clone,
        requires
            old(self).wf(),
            old(self).readers((old(self).current_index() + 1) % 4) == 0,
            forall|s: &mut T| cloned(old(self).state(), *s) ==> #[trigger] call_requires(update, (s,)),
        ensures
            r is Ok,
            final(self).wf(),
            final(self).current_index() == (old(self).current_index() + 1) % 4,
            exists|s: &mut T|
                cloned(old(self).state(), *s) && #[trigger] call_ensures(update, (s,), ()) && *final(s) == final(self).state(),
            forall|i: int| 0 <= i < 4 && i != final(self).current_index() ==> final(self).slot(i) == old(self).slot(i),
            forall|i: int| 0 <= i < 4 ==> final(self).readers(i) == old(self).readers(i),
            final(self).subscribers() == old(self).subscribers(),
            final(self).next_id() == old(self).next_id(),
            exists|v: T|
                #[trigger] cloned(final(self).state(), v) && final(self).notified() == old(self).notified()
                    + notifications(old(self).subscribers(), v),
    {
        let snapshot = Arc::new(self.inner.advance(update));
        self.inner.notify_and_record(&*snapshot);
        assert(cloned(self.state(), *snapshot));
        Ok(())
    }

    /// Subscribe to state changes: `callback` joins the end of the list
    /// under the next identifier. Nothing is called and the state does not
    /// change. Always succeeds.
    pub fn subscribe(&mut self, callback: SubscriberCallback<T>) -> (r: Result<Subscription<T>, StoreError>)
        requires
            old(self).wf(),
            old(self).next_id() < usize::MAX,
        ensures
            final(self).wf(),
            r matches Ok(sub) && sub.spec_id() == old(self).next_id()
                && final(self).subscribers() == old(self).subscribers().push((sub.spec_id(), callback)),
            final(self).next_id() == old(self).next_id() + 1,
            final(self).current_index() == old(self).current_index(),
            forall|i: int| 0 <= i < 4 ==> final(self).slot(i) == old(self).slot(i),
            forall|i: int| 0 <= i < 4 ==> final(self).readers(i) == old(self).readers(i),
            final(self).notified() == old(self).notified(),
    {
        let id = self.inner.add_subscriber(callback);
        Ok(Subscription::from_id(id))
    }

    /// Unsubscribe a subscriber by ID. Nothing is called. Always succeeds.
    pub fn unsubscribe(&mut self, subscriber_id: SubscriberId) -> (r: Result<(), StoreError>)
        requires
            old(self).wf(),
        ensures
            r is Ok,
            final(self).wf(),
            final(self).subscribers() == without_id(old(self).subscribers(), subscriber_id),
            final(self).current_index() == old(self).current_index(),
            forall|i: int| 0 <= i < 4 ==> final(self).slot(i) == old(self).slot(i),
            forall|i: int| 0 <= i < 4 ==> final(self).readers(i) == old(self).readers(i),
            final(self).next_id() == old(self).next_id(),
            final(self).notified() == old(self).notified(),
    {
        self.inner.unsubscribe(subscriber_id)
    }
}

/// An update never writes a slot in which a reader is: every slot that had a
/// reader before the update holds the same value after it.
pub proof fn law_set_spares_read_slots<T: Send + Sync + 'static>(before: Store<T>, after: Store<T>)
    requires
        before.wf(),
        before.readers((before.current_index() + 1) % 4) == 0,
        after.current_index() == (before.current_index() + 1) % 4,
        forall|i: int| 0 <= i < 4 && i != after.current_index() ==> after.slot(i) == before.slot(i),
    ensures
        forall|i: int| 0 <= i < 4 && #[trigger] before.readers(i) > 0 ==> after.slot(i) == before.slot(i),
{
}


/// An update calls every subscriber exactly once, in the order they
/// subscribed, with the value it hands out: the record of calls keeps what
/// it held, grows by as many calls as there are subscribers, the `k`-th new
/// call goes to the `k`-th subscriber, and the new calls go to strictly
/// increasing identifiers.
pub proof fn law_set_calls_subscribers_in_order<T: Send + Sync + 'static>(before: Store<T>, after: Store<T>, value: T)
    requires
        before.wf(),
        after.notified() == before.notified() + notifications(before.subscribers(), value),
    ensures
        after.notified().len() == before.notified().len() + before.subscribers().len(),
        after.notified().take(before.notified().len() as int) == before.notified(),
        forall|k: int|
            0 <= k < before.subscribers().len() ==> #[trigger] after.notified()[before.notified().len() + k] == (
            before.subscribers()[k].0,
            value,
        ),
        forall|i: int, j: int|
            before.notified().len() <= i < j < after.notified().len() ==> (#[trigger] after.notified()[i]).0 < (
            #[trigger] after.notified()[j]).0,
{
    lemma_round_in_order(before.notified(), before.subscribers(), before.next_id() as int, value);
    assert(after.notified().take(before.notified().len() as int) =~= before.notified());
}

/// Subscribing calls nobody: across a subscription and the update after it,
/// the calls made are one to each earlier subscriber, in order, and then one
/// to the new subscriber, all with the new value.
pub proof fn law_subscribe_then_set_calls_new_subscriber_last<T: Send + Sync + 'static>(
    before: Store<T>,
    mid: Store<T>,
    after: Store<T>,
    id: SubscriberId,
    cb: SubscriberCallback<T>,
    value: T,
)
    requires
        mid.subscribers() == before.subscribers().push((id, cb)),
        mid.notified() == before.notified(),
        after.notified() == mid.notified() + notifications(mid.subscribers(), value),
    ensures
        after.notified() == before.notified() + notifications(before.subscribers(), value).push((id, value)),
{
    assert(notifications(mid.subscribers(), value) =~= notifications(before.subscribers(), value).push((id, value)));
    assert(after.notified() =~= before.notified() + notifications(before.subscribers(), value).push((id, value)));
}

/// Unsubscribing calls nobody, and the update after it calls each remaining
/// subscriber once and never the removed one.
pub proof fn law_unsubscribe_then_set_skips_removed<T: Send + Sync + 'static>(
    before: Store<T>,
    mid: Store<T>,
    after: Store<T>,
    id: SubscriberId,
    value: T,
)
    requires
        mid.subscribers() == without_id(before.subscribers(), id),
        mid.notified() == before.notified(),
        after.notified() == mid.notified() + notifications(mid.subscribers(), value),
    ensures
        after.notified().take(before.notified().len() as int) == before.notified(),
        after.notified().len() == before.notified().len() + without_id(before.subscribers(), id).len(),
        forall|k: int| before.notified().len() <= k < after.notified().len() ==> (#[trigger] after.notified()[k]).0 != id,
{
    lemma_round_skips_removed(before.subscribers(), id, value);
    assert(after.notified().take(before.notified().len() as int) =~= before.notified());
    assert forall|k: int| before.notified().len() <= k < after.notified().len() implies (
    #[trigger] after.notified()[k]).0 != id by {
        assert(after.notified()[k] == notifications(without_id(before.subscribers(), id), value)[k
            - before.notified().len()]);
    }
}

} // verus!
