//! The subscriber list kept by the background worker of a channel-based
//! store, and how it reacts to each event.
//!
//! A channel-based store sends every state change, subscription and
//! unsubscription as a [`StoreEvent`] to one worker, which handles the events
//! in the order they were sent.

use crate::common::registry::{ids_and_values, lemma_ids_and_values_append, notifications, without_id};
use crate::common::store::SubscriberCallback;
use crate::common::subscribers::Subscribers;
use crate::common::types::{StoreEvent, SubscriberId};
use vstd::prelude::*;

verus! {

/// The subscribers known to the worker, in the order their `Subscribe`
/// events arrived, and the record of every subscriber call it has made.
#[verifier::reject_recursive_types(T)]
pub struct SubscriberWorker<T: 'static> {
    pub(crate) subscribers: Subscribers<T>,
}

impl<T: 'static> SubscriberWorker<T> {
    /// The subscribers, in the order their `Subscribe` events arrived.
    pub closed spec fn subscribers(&self) -> Seq<(SubscriberId, SubscriberCallback<T>)> {
        self.subscribers.entries()
    }

    /// Every subscriber call the worker has made, in order: the subscriber's
    /// identifier and the snapshot it was handed.
    pub closed spec fn notified(&self) -> Seq<(SubscriberId, T)> {
        ids_and_values(self.subscribers.calls())
    }

    /// A worker that knows no subscriber yet and has called nobody.
    pub fn new() -> (w: Self)
        ensures
            w.subscribers() == Seq::<(SubscriberId, SubscriberCallback<T>)>::empty(),
            w.notified() == Seq::<(SubscriberId, T)>::empty(),
    {
        let w = SubscriberWorker { subscribers: Subscribers::new() };
        assert(w.notified() =~= Seq::<(SubscriberId, T)>::empty());
        w
    }

    /// Handles one event: a state change calls every known subscriber once,
    /// in order, with the snapshot and leaves the list alone; a subscription
    /// joins the end of the list; an unsubscription removes every entry with
    /// its identifier. Only a state change calls anybody.
    pub fn handle(&mut self, event: StoreEvent<T, SubscriberCallback<T>>)
        ensures
            match event {
                StoreEvent::StateChanged(snap) => {
                    &&& final(self).subscribers() == old(self).subscribers()
                    &&& final(self).notified() == old(self).notified() + notifications(old(self).subscribers(), *snap)
                },
                StoreEvent::Subscribe(id, cb) => {
                    &&& final(self).subscribers() == old(self).subscribers().push((id, cb))
                    &&& final(self).notified() == old(self).notified()
                },
                StoreEvent::Unsubscribe(id) => {
                    &&& final(self).subscribers() == without_id(old(self).subscribers(), id)
                    &&& final(self).notified() == old(self).notified()
                },
            },
    {
        match event {
            StoreEvent::StateChanged(state) => {
                self.notify_all(&*state);
            },
            StoreEvent::Subscribe(id, cb) => {
                self.subscribers.push(id, cb);
            },
            StoreEvent::Unsubscribe(id) => {
                self.subscribers.remove_id(id);
            },
        }
    }

    /// Calls every known subscriber once, in order, with `value`, and
    /// records the calls.
    fn notify_all(&mut self, value: &T)
        ensures
            final(self).subscribers() == old(self).subscribers(),
            final(self).notified() == old(self).notified() + notifications(old(self).subscribers(), *value),
    {
        self.subscribers.notify(value);
        proof {
            lemma_ids_and_values_append(old(self).subscribers.calls(), old(self).subscribers(), *value);
        }
    }
}

} // verus!
