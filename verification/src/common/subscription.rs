//! Subscription handles of the threaded store.

use crate::common::registry::without_id;
use crate::common::store::Store;
use crate::common::types::SubscriberId;
use std::marker::PhantomData;
use vstd::prelude::*;

verus! {

/// A handle to an active subscription: the subscriber's identifier.
#[verifier::reject_recursive_types(T)]
pub struct Subscription<T: Send + Sync + 'static> {
    pub(crate) id: SubscriberId,
    pub(crate) marker: PhantomData<T>,
}

impl<T: Send + Sync + 'static> Subscription<T> {
    /// The identifier of the subscriber this handle stands for.
    pub closed spec fn spec_id(&self) -> SubscriberId {
        self.id
    }

    /// The handle of the subscriber with identifier `id`.
    pub(crate) fn from_id(id: SubscriberId) -> (s: Self)
        ensures
            s.spec_id() == id,
    {
        Subscription { id, marker: PhantomData }
    }

    /// Removes this subscriber from `store` (what dropping the handle does
    /// in a store that is shared behind an `Arc`).
    pub fn cancel(self, store: &mut Store<T>)
        requires
            old(store).wf(),
        ensures
            final(store).wf(),
            final(store).subscribers() == without_id(old(store).subscribers(), self.spec_id()),
            final(store).current_index() == old(store).current_index(),
            forall|i: int| 0 <= i < 4 ==> final(store).slot(i) == old(store).slot(i),
            final(store).next_id() == old(store).next_id(),
            final(store).notified() == old(store).notified(),
    {
        let _ = store.unsubscribe(self.id);
    }

    /// The identifier of the subscriber this handle stands for.
    pub fn id(&self) -> (r: SubscriberId)
        ensures
            r == self.spec_id(),
    {
        self.id
    }
}

impl<T: Send + Sync + 'static> Clone for Subscription<T> {
    fn clone(&self) -> (r: Self)
        ensures
            r.spec_id() == self.spec_id(),
    {
        Subscription { id: self.id, marker: PhantomData }
    }
}

} // verus!
