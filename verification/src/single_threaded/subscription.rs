//! Subscriber callbacks and subscription handles of the single-threaded store.

use crate::common::types;
use crate::single_threaded::store::Store;
use std::marker::PhantomData;
use std::rc::Rc;
use crate::single_threaded::subscribers::CallRecord;
use vstd::prelude::*;

verus! {

/// Unique identifier for a subscriber.
pub type SubscriberId = types::SubscriberId;

/// Callback function type for subscribers: a shared, type-erased `Fn(&T)`.
///
/// The callback is user code and opaque to the verifier: the store only
/// stores, copies and invokes it.
#[verifier::external_body]
#[verifier::reject_recursive_types(T)]
pub struct SubscriberCallback<T: 'static> {
    f: Rc<dyn Fn(&T)>,
}

impl<T: 'static> SubscriberCallback<T> {
    /// Wraps `f` (`Rc::new` and the coercion to `Rc<dyn Fn(&T)>`).
    /// Nothing is claimed of the result beyond its type; the callback must
    /// accept every state, so that invoking it never fails.
    #[verifier::external_body]
    pub fn new<F: Fn(&T) + 'static>(f: F) -> (cb: Self)
        requires
            forall|v: &T| call_requires(f, (v,)),
    {
        SubscriberCallback { f: Rc::new(f) }
    }

    /// Calls the wrapped closure on `value`, as the subscriber with
    /// identifier `id`. What the closure does is the subscriber's business;
    /// nothing is claimed of it. `record` holds no data at run time: the
    /// clause says that this call is the one written at its end, under `id`
    /// and this callback, with `value`.
    #[verifier::external_body]
    pub fn call(&self, id: SubscriberId, value: &T, record: &mut CallRecord<T>)
        ensures
            final(record).calls() == old(record).calls().push((id, *self, *value)),
    {
        (self.f)(value)
    }
}

/// A handle to an active subscription.
///
/// A store's value cannot be shared by the handle, so the handle carries the
/// subscriber's identifier and is handed back to the store by
/// [`Subscription::cancel`]. Clones carry the same identifier, so cancelling
/// any clone removes the one subscriber.
#[verifier::reject_recursive_types(T)]
pub struct Subscription<T: 'static> {
    pub(crate) id: SubscriberId,
    pub(crate) marker: PhantomData<T>,
}

impl<T: 'static> Subscription<T> {
    /// The identifier of the subscriber this handle stands for.
    pub closed spec fn spec_id(&self) -> SubscriberId {
        self.id
    }

    /// The handle of the subscriber with identifier `id`.
    pub(crate) fn from_id(id: SubscriberId) -> (s: Self)
        ensures
            s.spec_id() == id,
    {
        Subscription { id, marker: PhantomData }
    }

    /// The identifier of the subscriber this handle stands for.
    pub fn id(&self) -> (r: SubscriberId)
        ensures
            r == self.spec_id(),
    {
        self.id
    }

    /// Removes this subscriber from `store` (what dropping the handle does
    /// in a store that is shared behind a reference-counted pointer).
    pub fn cancel(self, store: &mut Store<T>)
        requires
            old(store).wf(),
        ensures
            final(store).wf(),
            final(store).subscribers() == crate::common::registry::without_id(
                old(store).subscribers(),
                self.spec_id(),
            ),
            final(store).state() == old(store).state(),
            final(store).next_id() == old(store).next_id(),
            final(store).notified() == old(store).notified(),
    {
        store.unsubscribe(self.id);
    }
}

impl<T: 'static> Clone for Subscription<T> {
    fn clone(&self) -> (r: Self)
        ensures
            r.spec_id() == self.spec_id(),
    {
        Subscription { id: self.id, marker: PhantomData }
    }
}

} // verus!
