//! The state and subscriber list behind a single-threaded store.

use crate::common::registry::{
    calls_for, ids_and_values, ids_ordered_below, lemma_ids_and_values_append, lemma_without_ordered,
    notifications, without_id,
};
use crate::single_threaded::subscribers::{CallRecord, Subscribers};
use crate::single_threaded::subscription::{SubscriberCallback, SubscriberId};
use vstd::prelude::*;

verus! {

/// Internal store state: the current value, the subscribers in the order
/// they subscribed, the identifier the next subscriber gets, and the record
/// of every subscriber call made so far.
#[verifier::reject_recursive_types(T)]
pub struct InnerStore<T: 'static> {
    pub(crate) state: T,
    pub(crate) subscribers: Subscribers<T>,
    pub(crate) next_id: SubscriberId,
}

impl<T: 'static> InnerStore<T> {
    /// The current state.
    pub closed spec fn state(&self) -> T {
        self.state
    }

    /// The subscribers, in the order they subscribed.
    pub closed spec fn subscribers(&self) -> Seq<(SubscriberId, SubscriberCallback<T>)> {
        self.subscribers.entries()
    }

    /// The identifier the next subscriber gets.
    pub closed spec fn next_id(&self) -> nat {
        self.next_id as nat
    }

    /// Every subscriber call made so far, in order: the subscriber's
    /// identifier and the state it was handed.
    pub closed spec fn notified(&self) -> Seq<(SubscriberId, T)> {
        ids_and_values(self.subscribers.calls())
    }

    /// Subscriber identifiers are unique: they grow along the list and stay
    /// below the next identifier.
    pub open spec fn wf(&self) -> bool {
        ids_ordered_below(self.subscribers(), self.next_id() as int)
    }

    /// A store holding `initial`, with no subscribers and no call made.
    pub(crate) fn new(initial: T) -> (r: Self)
        ensures
            r.wf(),
            r.state() == initial,
            r.subscribers() == Seq::<(SubscriberId, SubscriberCallback<T>)>::empty(),
            r.next_id() == 0,
            r.notified() == Seq::<(SubscriberId, T)>::empty(),
    {
        let r = InnerStore { state: initial, subscribers: Subscribers::new(), next_id: 0 };
        assert(r.notified() =~= Seq::<(SubscriberId, T)>::empty());
        r
    }

    /// A clone of the current state.
    pub(crate) fn clone_state(&self) -> (r: T)
        where
            T: Clone,
        ensures
            cloned(self.state(), r),
    {
        self.state.clone()
    }

    /// Hands the state to `update`; nothing else changes.
    pub(crate) fn apply<F: FnOnce(&mut T)>(&mut self, update: F)
        requires
            old(self).wf(),
            forall|s: &mut T| *s == old(self).state() ==> #[trigger] call_requires(update, (s,)),
        ensures
            final(self).wf(),
            exists|s: &mut T|
                *s == old(self).state() && #[trigger] call_ensures(update, (s,), ()) && *final(s) == final(self).state(),
            final(self).subscribers() == old(self).subscribers(),
            final(self).next_id() == old(self).next_id(),
            final(self).notified() == old(self).notified(),
    {
        update(&mut self.state);
    }

    /// Calls every subscriber once, in the order they subscribed, with the
    /// state; returns the record of those calls.
    pub(crate) fn notify_all(&self) -> (called: CallRecord<T>)
        ensures
            called.calls() == calls_for(self.subscribers(), self.state()),
    {
        self.subscribers.notify_once(&self.state)
    }

    /// Calls every subscriber once, in the order they subscribed, with the
    /// state; the calls join the store's record.
    pub(crate) fn notify_and_record(&mut self)
        ensures
            final(self).state() == old(self).state(),
            final(self).subscribers() == old(self).subscribers(),
            final(self).next_id() == old(self).next_id(),
            final(self).notified() == old(self).notified() + notifications(old(self).subscribers(), old(self).state()),
    {
        self.subscribers.notify(&self.state);
        proof {
            lemma_ids_and_values_append(old(self).subscribers.calls(), old(self).subscribers(), self.state);
        }
    }

    /// The identifier the next subscriber gets.
    pub(crate) fn peek_next_id(&self) -> (r: SubscriberId)
        ensures
            r == self.next_id(),
    {
        self.next_id
    }

    /// Whether a subscriber can still get an identifier.
    pub(crate) fn has_free_id(&self) -> (r: bool)
        ensures
            r == (self.next_id() < usize::MAX),
    {
        self.next_id < usize::MAX
    }

    /// Appends `callback` under the next identifier, which it returns.
    pub(crate) fn add_subscriber(&mut self, callback: SubscriberCallback<T>) -> (id: SubscriberId)
        requires
            old(self).wf(),
            old(self).next_id() < usize::MAX,
        ensures
            final(self).wf(),
            id == old(self).next_id(),
            final(self).next_id() == old(self).next_id() + 1,
            final(self).subscribers() == old(self).subscribers().push((id, callback)),
            final(self).state() == old(self).state(),
            final(self).notified() == old(self).notified(),
    {
        let id = self.next_id;
        self.next_id = id + 1;
        self.subscribers.push(id, callback);
        id
    }

    /// Unsubscribe a subscriber by ID: every entry carrying `subscriber_id`
    /// leaves the list, the others keep their order. Unknown identifiers are
    /// ignored.
    pub fn unsubscribe(&mut self, subscriber_id: SubscriberId)
        requires
            old(self).wf(),
        ensures
            final(self).wf(),
            final(self).subscribers() == without_id(old(self).subscribers(), subscriber_id),
            final(self).state() == old(self).state(),
            final(self).next_id() == old(self).next_id(),
            final(self).notified() == old(self).notified(),
    {
        proof {
            lemma_without_ordered(self.subscribers.entries(), subscriber_id, self.next_id as int);
        }
        self.subscribers.remove_id(subscriber_id);
    }
}

} // verus!
