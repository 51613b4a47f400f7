//! A state container for single-threaded use.

use crate::common::registry::{
    lemma_round_in_order, lemma_round_skips_removed,
    calls_for, has_id, ids_and_values, lemma_ids_and_values_append, ids_ordered_below, lemma_without_idempotent, lemma_without_pushed, lemma_without_shape,
    notifications, without_id,
};
use crate::single_threaded::inner::InnerStore;
use crate::single_threaded::subscribers::CallRecord;
use crate::single_threaded::subscription::{SubscriberCallback, SubscriberId, Subscription};
use vstd::prelude::*;

verus! {

/// A state container optimized for single-threaded usage.
///
/// Updates take the store by `&mut`, so an update or a subscriber can never
/// reach back into the store it is running in: no `set` runs inside another
/// `set` or a subscriber, and no `get` runs inside an update.
///
/// Besides the state and the subscribers, the store's model records every
/// subscriber call made so far ([`Store::notified`]), so that contracts can
/// say whom each operation calls.
#[verifier::reject_recursive_types(T)]
pub struct Store<T: 'static> {
    pub(crate) inner: InnerStore<T>,
}

impl<T: 'static> Store<T> {
    /// The current state.
    pub closed spec fn state(&self) -> T {
        self.inner.state()
    }

    /// The subscribers, in the order they subscribed.
    pub closed spec fn subscribers(&self) -> Seq<(SubscriberId, SubscriberCallback<T>)> {
        self.inner.subscribers()
    }

    /// The identifier the next subscriber gets.
    pub closed spec fn next_id(&self) -> nat {
        self.inner.next_id()
    }

    /// Every subscriber call the store has made, in order: the subscriber's
    /// identifier and the state it was handed.
    pub closed spec fn notified(&self) -> Seq<(SubscriberId, T)> {
        self.inner.notified()
    }

    /// Subscriber identifiers are unique and below the next identifier.
    pub open spec fn wf(&self) -> bool {
        ids_ordered_below(self.subscribers(), self.next_id() as int)
    }

    /// Create a new store with initial state.
    pub fn new(initial: T) -> (store: Self)
        ensures
            store.wf(),
            store.state() == initial,
            store.subscribers() == Seq::<(SubscriberId, SubscriberCallback<T>)>::empty(),
            store.next_id() == 0,
            store.notified() == Seq::<(SubscriberId, T)>::empty(),
    {
        Store { inner: InnerStore::new(initial) }
    }

    /// Get a clone of the current state.
    pub fn get(&self) -> (r: T)
        where
            T: Clone,
        ensures
            cloned(self.state(), r),
    {
        self.inner.clone_state()
    }

    /// Update the state using a closure, then call every subscriber, in the
    /// order they subscribed, with the new state.
    ///
    /// The new state is what `update` leaves behind when handed the current
    /// state; the calls made are one per subscriber, in list order, each with
    /// the new state; the subscribers and the next identifier do not change.
    pub fn set<F: FnOnce(&mut T)>(&mut self, update: F)
        requires
            old(self).wf(),
            forall|s: &mut T| *s == old(self).state() ==> #[trigger] call_requires(update, (s,)),
        ensures
            final(self).wf(),
            exists|s: &mut T|
                *s == old(self).state() && #[trigger] call_ensures(update, (s,), ()) && *final(s) == final(self).state(),
            final(self).subscribers() == old(self).subscribers(),
            final(self).next_id() == old(self).next_id(),
            final(self).notified() == old(self).notified() + notifications(
                old(self).subscribers(),
                final(self).state(),
            ),
    {
        self.inner.apply(update);
        self.inner.notify_and_record();
    }

    /// Update the state using a closure without calling the subscribers.
    ///
    /// The new state is what `update` leaves behind when handed the current
    /// state; nothing else changes, and no subscriber is called.
    pub fn update<F: FnOnce(&mut T)>(&mut self, update: F)
        requires
            old(self).wf(),
            forall|s: &mut T| *s == old(self).state() ==> #[trigger] call_requires(update, (s,)),
        ensures
            final(self).wf(),
            exists|s: &mut T|
                *s == old(self).state() && #[trigger] call_ensures(update, (s,), ()) && *final(s) == final(self).state(),
            final(self).subscribers() == old(self).subscribers(),
            final(self).next_id() == old(self).next_id(),
            final(self).notified() == old(self).notified(),
    {
        self.inner.apply(update);
    }

    /// Call every subscriber, in the order they subscribed, with the current
    /// state. Returns the record of the calls made: one per subscriber, in
    /// list order, each with the subscriber's identifier and callback and the
    /// current state.
    pub fn notify(&self) -> (called: CallRecord<T>)
        ensures
            called.calls() == calls_for(self.subscribers(), self.state()),
            ids_and_values(called.calls()) == notifications(self.subscribers(), self.state()),
    {
        let called = self.inner.notify_all();
        proof {
            lemma_ids_and_values_append(Seq::empty(), self.subscribers(), self.state());
            assert(Seq::<(SubscriberId, SubscriberCallback<T>, T)>::empty() + called.calls() =~= called.calls());
            assert(Seq::<(SubscriberId, T)>::empty() + notifications(self.subscribers(), self.state())
                =~= notifications(self.subscribers(), self.state()));
        }
        called
    }

    /// Whether a subscriber can still get an identifier.
    pub fn has_free_id(&self) -> (r: bool)
        ensures
            r == (self.next_id() < usize::MAX),
    {
        self.inner.has_free_id()
    }

    /// The identifier the next subscriber gets.
    pub fn next_subscriber_id(&self) -> (r: SubscriberId)
        ensures
            r == self.next_id(),
    {
        self.inner.peek_next_id()
    }

    /// Subscribe to state changes: `callback` joins the end of the list under
    /// the next identifier. Nothing is called and the state does not change.
    pub fn subscribe(&mut self, callback: SubscriberCallback<T>) -> (sub: Subscription<T>)
        requires
            old(self).wf(),
            old(self).next_id() < usize::MAX,
        ensures
            final(self).wf(),
            sub.spec_id() == old(self).next_id(),
            final(self).next_id() == old(self).next_id() + 1,
            final(self).subscribers() == old(self).subscribers().push((sub.spec_id(), callback)),
            final(self).state() == old(self).state(),
            final(self).notified() == old(self).notified(),
    {
        let id = self.inner.add_subscriber(callback);
        Subscription::from_id(id)
    }

    /// Unsubscribe a subscriber by ID: every entry carrying the identifier
    /// leaves the list, the others keep their order. Nothing is called.
    pub fn unsubscribe(&mut self, subscriber_id: SubscriberId)
        requires
            old(self).wf(),
        ensures
            final(self).wf(),
            final(self).subscribers() == without_id(old(self).subscribers(), subscriber_id),
            final(self).state() == old(self).state(),
            final(self).next_id() == old(self).next_id(),
            final(self).notified() == old(self).notified(),
    {
        self.inner.unsubscribe(subscriber_id);
    }
}

/// Unsubscribing the identifier that `subscribe` has just handed out gives
/// back the subscriber list the store had before the subscription.
pub proof fn law_unsubscribe_undoes_subscribe<T>(
    before: Store<T>,
    after: Store<T>,
    id: SubscriberId,
    cb: SubscriberCallback<T>,
)
    requires
        before.wf(),
        id == before.next_id(),
        after.subscribers() == before.subscribers().push((id, cb)),
    ensures
        without_id(after.subscribers(), id) == before.subscribers(),
{
    lemma_without_pushed(before.subscribers(), id, cb);
}

/// Once unsubscribed, an identifier is carried by no subscriber, unsubscribing
/// it again changes nothing, and no later notification calls it.
pub proof fn law_unsubscribe_is_final<T>(store: Store<T>, id: SubscriberId, value: T)
    ensures
        !has_id(without_id(store.subscribers(), id), id),
        without_id(without_id(store.subscribers(), id), id) == without_id(store.subscribers(), id),
        forall|k: int|
            0 <= k < notifications(without_id(store.subscribers(), id), value).len()
                ==> #[trigger] notifications(without_id(store.subscribers(), id), value)[k].0 != id,
{
    lemma_without_shape(store.subscribers(), id);
    lemma_without_idempotent(store.subscribers(), id);
    let rest = without_id(store.subscribers(), id);
    assert forall|k: int| 0 <= k < notifications(rest, value).len()
        implies #[trigger] notifications(rest, value)[k].0 != id by {
        assert(notifications(rest, value)[k].0 == rest[k].0);
    }
}

/// A subscriber that has just joined is called by the next update, after
/// every earlier subscriber, with the new state; the earlier subscribers are
/// called as before.
pub proof fn law_subscribe_then_set_calls_subscriber<T>(
    before: Store<T>,
    after: Store<T>,
    id: SubscriberId,
    cb: SubscriberCallback<T>,
    value: T,
)
    requires
        after.subscribers() == before.subscribers().push((id, cb)),
    ensures
        notifications(after.subscribers(), value) == notifications(before.subscribers(), value).push((id, value)),
        notifications(after.subscribers(), value).last() == (id, value),
{
    assert(notifications(after.subscribers(), value) =~= notifications(before.subscribers(), value).push((id, value)));
}

/// A store with no subscribers calls nothing when it is set.
pub proof fn law_no_subscribers_no_calls<T>(store: Store<T>, value: T)
    requires
        store.subscribers().len() == 0,
    ensures
        notifications(store.subscribers(), value) == Seq::<(SubscriberId, T)>::empty(),
{
    assert(notifications(store.subscribers(), value) =~= Seq::<(SubscriberId, T)>::empty());
}


/// An update calls every subscriber exactly once, in the order they
/// subscribed, with the value it hands out: the record of calls keeps what
/// it held, grows by as many calls as there are subscribers, the `k`-th new
/// call goes to the `k`-th subscriber, and the new calls go to strictly
/// increasing identifiers.
pub proof fn law_set_calls_subscribers_in_order<T>(before: Store<T>, after: Store<T>, value: T)
    requires
        before.wf(),
        after.notified() == before.notified() + notifications(before.subscribers(), value),
    ensures
        after.notified().len() == before.notified().len() + before.subscribers().len(),
        after.notified().take(before.notified().len() as int) == before.notified(),
        forall|k: int|
            0 <= k < before.subscribers().len() ==> #[trigger] after.notified()[before.notified().len() + k] == (
            before.subscribers()[k].0,
            value,
        ),
        forall|i: int, j: int|
            before.notified().len() <= i < j < after.notified().len() ==> (#[trigger] after.notified()[i]).0 < (
            #[trigger] after.notified()[j]).0,
{
    lemma_round_in_order(before.notified(), before.subscribers(), before.next_id() as int, value);
    assert(after.notified().take(before.notified().len() as int) =~= before.notified());
}

/// Subscribing calls nobody: across a subscription and the update after it,
/// the calls made are one to each earlier subscriber, in order, and then one
/// to the new subscriber, all with the new value.
pub proof fn law_subscribe_then_set_calls_new_subscriber_last<T>(
    before: Store<T>,
    mid: Store<T>,
    after: Store<T>,
    id: SubscriberId,
    cb: SubscriberCallback<T>,
    value: T,
)
    requires
        mid.subscribers() == before.subscribers().push((id, cb)),
        mid.notified() == before.notified(),
        after.notified() == mid.notified() + notifications(mid.subscribers(), value),
    ensures
        after.notified() == before.notified() + notifications(before.subscribers(), value).push((id, value)),
{
    assert(notifications(mid.subscribers(), value) =~= notifications(before.subscribers(), value).push((id, value)));
    assert(after.notified() =~= before.notified() + notifications(before.subscribers(), value).push((id, value)));
}

/// Unsubscribing calls nobody, and the update after it calls each remaining
/// subscriber once and never the removed one.
pub proof fn law_unsubscribe_then_set_skips_removed<T>(
    before: Store<T>,
    mid: Store<T>,
    after: Store<T>,
    id: SubscriberId,
    value: T,
)
    requires
        mid.subscribers() == without_id(before.subscribers(), id),
        mid.notified() == before.notified(),
        after.notified() == mid.notified() + notifications(mid.subscribers(), value),
    ensures
        after.notified().take(before.notified().len() as int) == before.notified(),
        after.notified().len() == before.notified().len() + without_id(before.subscribers(), id).len(),
        forall|k: int| before.notified().len() <= k < after.notified().len() ==> (#[trigger] after.notified()[k]).0 != id,
{
    lemma_round_skips_removed(before.subscribers(), id, value);
    assert(after.notified().take(before.notified().len() as int) =~= before.notified());
    assert forall|k: int| before.notified().len() <= k < after.notified().len() implies (
    #[trigger] after.notified()[k]).0 != id by {
        assert(after.notified()[k] == notifications(without_id(before.subscribers(), id), value)[k
            - before.notified().len()]);
    }
}

} // verus!
