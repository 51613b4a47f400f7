//! The store for threaded runtimes.
//!
//! The state lives in a ring of four slots: an update writes the slot after
//! the current one, starting from a clone of the current state, and then
//! makes it current, so that the slot a reader is using is never the one
//! being written. Subscribers are called directly after each update.

use crate::common::registry::{
    lemma_round_in_order, lemma_round_skips_removed,
    ids_and_values, ids_ordered_below, lemma_ids_and_values_append, lemma_without_ordered, lemma_without_pushed,
    notifications, without_id,
};
use crate::common::subscribers::{CallRecord, Subscribers};
use crate::common::subscription::Subscription;
use crate::common::types::SubscriberId;
use crate::error::StoreError;
use std::sync::Arc;
use vstd::prelude::*;

verus! {

/// Callback function type for subscribers: a shared, type-erased
/// `Fn(&T) + Send + Sync`.
///
/// The callback is user code and opaque to the verifier: the store only
/// stores, copies and invokes it.
#[verifier::external_body]
#[verifier::reject_recursive_types(T)]
pub struct SubscriberCallback<T: 'static> {
    f: Arc<dyn Fn(&T) + Send + Sync>,
}

impl<T: 'static> SubscriberCallback<T> {
    /// Wraps `f` (`Arc::new` and the coercion to `Arc<dyn Fn(&T) + Send + Sync>`).
    /// Nothing is claimed of the result beyond its type; the callback must
    /// accept every state, so that invoking it never fails.
    #[verifier::external_body]
    pub fn new<F: Fn(&T) + Send + Sync + 'static>(f: F) -> (cb: Self)
        requires
            forall|v: &T| call_requires(f, (v,)),
    {
        SubscriberCallback { f: Arc::new(f) }
    }

    /// Calls the wrapped closure on `value`, as the subscriber with
    /// identifier `id`. What the closure does is the subscriber's business;
    /// nothing is claimed of it. `record` holds no data at run time: the
    /// clause says that this call is the one written at its end, under `id`
    /// and this callback, with `value`.
    #[verifier::external_body]
    pub fn call(&self, id: SubscriberId, value: &T, record: &mut CallRecord<T>)
        ensures
            final(record).calls() == old(record).calls().push((id, *self, *value)),
    {
        (self.f)(value)
    }
}

/// One slot of the state ring.
pub struct AlignedSlot<T>(pub T);

/// The ring of states, the subscribers and the identifier counter.
#[verifier::reject_recursive_types(T)]
pub struct InnerStore<T: Send + Sync + 'static> {
    pub(crate) slots: [AlignedSlot<T>; 4],
    pub(crate) current_idx: usize,
    pub(crate) subscribers: Subscribers<T>,
    pub(crate) next_id: SubscriberId,
}

impl<T: Send + Sync + 'static> InnerStore<T> {
    /// Every subscriber call made so far, in order: the subscriber's
    /// identifier and the value it was handed.
    pub closed spec fn notified(&self) -> Seq<(SubscriberId, T)> {
        ids_and_values(self.subscribers.calls())
    }

    /// The value held in slot `i` of the ring.
    pub closed spec fn slot(&self, i: int) -> T {
        self.slots@[i].0
    }

    /// The index of the slot that holds the current state.
    pub closed spec fn current_index(&self) -> int {
        self.current_idx as int
    }

    /// The current state.
    pub open spec fn state(&self) -> T {
        self.slot(self.current_index())
    }

    /// The subscribers, in the order they subscribed.
    pub closed spec fn subscribers(&self) -> Seq<(SubscriberId, SubscriberCallback<T>)> {
        self.subscribers.entries()
    }

    /// The identifier the next subscriber gets.
    pub closed spec fn next_id(&self) -> nat {
        self.next_id as nat
    }

    /// The current index lies in the ring, and subscriber identifiers are
    /// unique and below the next identifier.
    pub open spec fn wf(&self) -> bool {
        &&& 0 <= self.current_index() < 4
        &&& ids_ordered_below(self.subscribers(), self.next_id() as int)
    }

    /// Removes the subscriber `subscriber_id`; always succeeds.
    pub fn unsubscribe(&mut self, subscriber_id: SubscriberId) -> (r: Result<(), StoreError>)
        requires
            old(self).wf(),
        ensures
            r is Ok,
            final(self).wf(),
            final(self).subscribers() == without_id(old(self).subscribers(), subscriber_id),
            final(self).current_index() == old(self).current_index(),
            forall|i: int| 0 <= i < 4 ==> final(self).slot(i) == old(self).slot(i),
            final(self).next_id() == old(self).next_id(),
            final(self).notified() == old(self).notified(),
    {
        proof {
            lemma_without_ordered(self.subscribers.entries(), subscriber_id, self.next_id as int);
        }
        self.subscribers.remove_id(subscriber_id);
        Ok(())
    }

    /// A ring whose four slots hold clones of `initial` (the last one
    /// `initial` itself), with slot 0 current and no subscribers.
    pub(crate) fn new(initial: T) -> (r: Self)
        where
            T: Clone,
        ensures
            r.wf(),
            r.current_index() == 0,
            forall|i: int| 0 <= i < 3 ==> cloned(initial, #[trigger] r.slot(i)),
            r.slot(3) == initial,
            r.subscribers() == Seq::<(SubscriberId, SubscriberCallback<T>)>::empty(),
            r.next_id() == 0,
            r.notified() == Seq::<(SubscriberId, T)>::empty(),
    {
        let s0 = initial.clone();
        let s1 = initial.clone();
        let s2 = initial.clone();
        InnerStore {
            slots: [AlignedSlot(s0), AlignedSlot(s1), AlignedSlot(s2), AlignedSlot(initial)],
            current_idx: 0,
            subscribers: Subscribers::new(),
            next_id: 0,
        }
    }

    /// A clone of the current state.
    pub(crate) fn read_current(&self) -> (r: T)
        where
            T: Clone,
        requires
            self.wf(),
        ensures
            cloned(self.state(), r),
    {
        broadcast use vstd::array::group_array_axioms;

        self.slots[self.current_idx].0.clone()
    }

    /// Writes the slot after the current one with a clone of the current
    /// state that `update` has worked on, makes it current, and returns a
    /// clone of it.
    pub(crate) fn advance<F: FnOnce(&mut T)>(&mut self, update: F) -> (snapshot: T)
        where
            T: Clone,
        requires
            old(self).wf(),
            forall|s: &mut T| cloned(old(self).state(), *s) ==> #[trigger] call_requires(update, (s,)),
        ensures
            final(self).wf(),
            final(self).current_index() == (old(self).current_index() + 1) % 4,
            exists|s: &mut T|
                cloned(old(self).state(), *s) && #[trigger] call_ensures(update, (s,), ()) && *final(s) == final(self).state(),
            forall|i: int| 0 <= i < 4 && i != final(self).current_index() ==> final(self).slot(i) == old(self).slot(i),
            cloned(final(self).state(), snapshot),
            final(self).subscribers() == old(self).subscribers(),
            final(self).next_id() == old(self).next_id(),
            final(self).notified() == old(self).notified(),
    {
        broadcast use vstd::array::group_array_axioms;

        let current = self.current_idx;
        let next = (current + 1) % 4;
        let mut value = self.slots[current].0.clone();
        assert(cloned(old(self).state(), value));
        update(&mut value);
        let snapshot = value.clone();
        self.slots[next] = AlignedSlot(value);
        self.current_idx = next;
        snapshot
    }

    /// Calls every subscriber, in the order they subscribed, with `value`,
    /// and records the calls.
    pub(crate) fn notify_and_record(&mut self, value: &T)
        requires
            old(self).wf(),
        ensures
            final(self).wf(),
            final(self).current_index() == old(self).current_index(),
            forall|i: int| 0 <= i < 4 ==> final(self).slot(i) == old(self).slot(i),
            final(self).subscribers() == old(self).subscribers(),
            final(self).next_id() == old(self).next_id(),
            final(self).notified() == old(self).notified() + notifications(old(self).subscribers(), *value),
    {
        self.subscribers.notify(value);
        proof {
            lemma_ids_and_values_append(old(self).subscribers.calls(), old(self).subscribers(), *value);
        }
    }

    /// Appends `callback` under the next identifier, which it returns.
    pub(crate) fn add_subscriber(&mut self, callback: SubscriberCallback<T>) -> (id: SubscriberId)
        requires
            old(self).wf(),
            old(self).next_id() < usize::MAX,
        ensures
            final(self).wf(),
            id == old(self).next_id(),
            final(self).next_id() == old(self).next_id() + 1,
            final(self).subscribers() == old(self).subscribers().push((id, callback)),
            final(self).current_index() == old(self).current_index(),
            forall|i: int| 0 <= i < 4 ==> final(self).slot(i) == old(self).slot(i),
            final(self).notified() == old(self).notified(),
    {
        let id = self.next_id;
        self.next_id = id + 1;
        self.subscribers.push(id, callback);
        id
    }
}

/// A Zustand-inspired state container for threaded runtimes.
///
/// Every operation returns a `Result`, the error being a poisoned lock; the
/// store is updated through `&mut`, so no lock is involved and every
/// operation succeeds. Sharing the store between threads is left to a lock
/// around it.
///
/// Besides the ring and the subscribers, the store's model records every
/// subscriber call made so far ([`Store::notified`]).
#[verifier::reject_recursive_types(T)]
pub struct Store<T: Send + Sync + 'static> {
    pub(crate) inner: InnerStore<T>,
}

impl<T: Send + Sync + 'static> Store<T> {
    /// The current state: the value of the current slot.
    pub open spec fn state(&self) -> T {
        self.slot(self.current_index())
    }

    /// The value held in slot `i` of the ring.
    pub closed spec fn slot(&self, i: int) -> T {
        self.inner.slot(i)
    }

    /// The index of the slot that holds the current state.
    pub closed spec fn current_index(&self) -> int {
        self.inner.current_index()
    }

    /// The subscribers, in the order they subscribed.
    pub closed spec fn subscribers(&self) -> Seq<(SubscriberId, SubscriberCallback<T>)> {
        self.inner.subscribers()
    }

    /// The identifier the next subscriber gets.
    pub closed spec fn next_id(&self) -> nat {
        self.inner.next_id()
    }

    /// Every subscriber call the store has made, in order: the subscriber's
    /// identifier and the value it was handed.
    pub closed spec fn notified(&self) -> Seq<(SubscriberId, T)> {
        self.inner.notified()
    }

    /// The current index lies in the ring, and subscriber identifiers are
    /// unique and below the next identifier.
    pub open spec fn wf(&self) -> bool {
        &&& 0 <= self.current_index() < 4
        &&& ids_ordered_below(self.subscribers(), self.next_id() as int)
    }

    /// Whether a subscriber can still get an identifier.
    pub fn has_free_id(&self) -> (r: bool)
        ensures
            r == (self.next_id() < usize::MAX),
    {
        self.inner.next_id < usize::MAX
    }

    /// Create a new store whose four slots hold clones of `initial`, with
    /// slot 0 current, no subscriber and no call made.
    pub fn new(initial: T) -> (store: Self)
        where
            T: Clone,
        ensures
            store.wf(),
            store.current_index() == 0,
            forall|i: int| 0 <= i < 4 ==> cloned(initial, #[trigger] store.slot(i)),
            store.subscribers() == Seq::<(SubscriberId, SubscriberCallback<T>)>::empty(),
            store.next_id() == 0,
            store.notified() == Seq::<(SubscriberId, T)>::empty(),
    {
        let inner = InnerStore::new(initial);
        assert(inner.slot(3) == initial);
        Store { inner }
    }

    /// Get a clone of the current state.
    pub fn get(&self) -> (r: Result<T, StoreError>)
        where
            T: Clone,
        requires
            self.wf(),
        ensures
            r matches Ok(v) && cloned(self.state(), v),
    {
        Ok(self.inner.read_current())
    }

    /// Update the state using a closure, then call every subscriber, in the
    /// order they subscribed, with a clone of the new state.
    ///
    /// `update` works on a clone of the current state in the next slot of the
    /// ring, which then becomes current; the other slots, the subscribers and
    /// the next identifier do not change. The calls made are one per
    /// subscriber, in list order, each with one clone of the new state.
    /// Always succeeds.
    pub fn set<F: FnOnce(&mut T) + Send + 'static>(&mut self, update: F) -> (r: Result<(), StoreError>)
        where
            T: Clone,
        requires
            old(self).wf(),
            forall|s: &mut T| cloned(old(self).state(), *s) ==> #[trigger] call_requires(update, (s,)),
        ensures
            r is Ok,
            final(self).wf(),
            final(self).current_index() == (old(self).current_index() + 1) % 4,
            exists|s: &mut T|
                cloned(old(self).state(), *s) && #[trigger] call_ensures(update, (s,), ()) && *final(s) == final(self).state(),
            forall|i: int| 0 <= i < 4 && i != final(self).current_index() ==> final(self).slot(i) == old(self).slot(i),
            final(self).subscribers() == old(self).subscribers(),
            final(self).next_id() == old(self).next_id(),
            exists|v: T|
                #[trigger] cloned(final(self).state(), v) && final(self).notified() == old(self).notified()
                    + notifications(old(self).subscribers(), v),
    {
        let snapshot = Arc::new(self.inner.advance(update));
        self.inner.notify_and_record(&*snapshot);
        Ok(())
    }

    /// Subscribe to state changes: `callback` joins the end of the list
    /// under the next identifier. Nothing is called and the state does not
    /// change. Always succeeds.
    pub fn subscribe(&mut self, callback: SubscriberCallback<T>) -> (r: Result<Subscription<T>, StoreError>)
        requires
            old(self).wf(),
            old(self).next_id() < usize::MAX,
        ensures
            final(self).wf(),
            r matches Ok(sub) && sub.spec_id() == old(self).next_id()
                && final(self).subscribers() == old(self).subscribers().push((sub.spec_id(), callback)),
            final(self).next_id() == old(self).next_id() + 1,
            final(self).current_index() == old(self).current_index(),
            forall|i: int| 0 <= i < 4 ==> final(self).slot(i) == old(self).slot(i),
            final(self).notified() == old(self).notified(),
    {
        let id = self.inner.add_subscriber(callback);
        Ok(Subscription::from_id(id))
    }

    /// Unsubscribe a subscriber by ID. Always succeeds.
    pub fn unsubscribe(&mut self, subscriber_id: SubscriberId) -> (r: Result<(), StoreError>)
        requires
            old(self).wf(),
        ensures
            r is Ok,
            final(self).wf(),
            final(self).subscribers() == without_id(old(self).subscribers(), subscriber_id),
            final(self).current_index() == old(self).current_index(),
            forall|i: int| 0 <= i < 4 ==> final(self).slot(i) == old(self).slot(i),
            final(self).next_id() == old(self).next_id(),
            final(self).notified() == old(self).notified(),
    {
        self.inner.unsubscribe(subscriber_id)
    }
}

/// An update never writes the slot that was current before it: that slot
/// moves out of the current position and still holds the previous state.
pub proof fn law_set_keeps_previous_slot<T: Send + Sync + 'static>(before: Store<T>, after: Store<T>)
    requires
        before.wf(),
        after.current_index() == (before.current_index() + 1) % 4,
        forall|i: int| 0 <= i < 4 && i != after.current_index() ==> after.slot(i) == before.slot(i),
    ensures
        after.current_index() != before.current_index(),
        after.slot(before.current_index()) == before.state(),
{
}

/// Unsubscribing the identifier that `subscribe` has just handed out gives
/// back the subscriber list the store had before the subscription.
pub proof fn law_unsubscribe_undoes_subscribe<T: Send + Sync + 'static>(
    before: Store<T>,
    after: Store<T>,
    id: SubscriberId,
    cb: SubscriberCallback<T>,
)
    requires
        before.wf(),
        id == before.next_id(),
        after.subscribers() == before.subscribers().push((id, cb)),
    ensures
        without_id(after.subscribers(), id) == before.subscribers(),
{
    lemma_without_pushed(before.subscribers(), id, cb);
}


/// An update calls every subscriber exactly once, in the order they
/// subscribed, with the value it hands out: the record of calls keeps what
/// it held, grows by as many calls as there are subscribers, the `k`-th new
/// call goes to the `k`-th subscriber, and the new calls go to strictly
/// increasing identifiers.
pub proof fn law_set_calls_subscribers_in_order<T: Send + Sync + 'static>(before: Store<T>, after: Store<T>, value: T)
    requires
        before.wf(),
        after.notified() == before.notified() + notifications(before.subscribers(), value),
    ensures
        after.notified().len() == before.notified().len() + before.subscribers().len(),
        after.notified().take(before.notified().len() as int) == before.notified(),
        forall|k: int|
            0 <= k < before.subscribers().len() ==> #[trigger] after.notified()[before.notified().len() + k] == (
            before.subscribers()[k].0,
            value,
        ),
        forall|i: int, j: int|
            before.notified().len() <= i < j < after.notified().len() ==> (#[trigger] after.notified()[i]).0 < (
            #[trigger] after.notified()[j]).0,
{
    lemma_round_in_order(before.notified(), before.subscribers(), before.next_id() as int, value);
    assert(after.notified().take(before.notified().len() as int) =~= before.notified());
}

/// Subscribing calls nobody: across a subscription and the update after it,
/// the calls made are one to each earlier subscriber, in order, and then one
/// to the new subscriber, all with the new value.
pub proof fn law_subscribe_then_set_calls_new_subscriber_last<T: Send + Sync + 'static>(
    before: Store<T>,
    mid: Store<T>,
    after: Store<T>,
    id: SubscriberId,
    cb: SubscriberCallback<T>,
    value: T,
)
    requires
        mid.subscribers() == before.subscribers().push((id, cb)),
        mid.notified() == before.notified(),
        after.notified() == mid.notified() + notifications(mid.subscribers(), value),
    ensures
        after.notified() == before.notified() + notifications(before.subscribers(), value).push((id, value)),
{
    assert(notifications(mid.subscribers(), value) =~= notifications(before.subscribers(), value).push((id, value)));
    assert(after.notified() =~= before.notified() + notifications(before.subscribers(), value).push((id, value)));
}

/// Unsubscribing calls nobody, and the update after it calls each remaining
/// subscriber once and never the removed one.
pub proof fn law_unsubscribe_then_set_skips_removed<T: Send + Sync + 'static>(
    before: Store<T>,
    mid: Store<T>,
    after: Store<T>,
    id: SubscriberId,
    value: T,
)
    requires
        mid.subscribers() == without_id(before.subscribers(), id),
        mid.notified() == before.notified(),
        after.notified() == mid.notified() + notifications(mid.subscribers(), value),
    ensures
        after.notified().take(before.notified().len() as int) == before.notified(),
        after.notified().len() == before.notified().len() + without_id(before.subscribers(), id).len(),
        forall|k: int| before.notified().len() <= k < after.notified().len() ==> (#[trigger] after.notified()[k]).0 != id,
{
    lemma_round_skips_removed(before.subscribers(), id, value);
    assert(after.notified().take(before.notified().len() as int) =~= before.notified());
    assert forall|k: int| before.notified().len() <= k < after.notified().len() implies (
    #[trigger] after.notified()[k]).0 != id by {
        assert(after.notified()[k] == notifications(without_id(before.subscribers(), id), value)[k
            - before.notified().len()]);
    }
}

} // verus!
