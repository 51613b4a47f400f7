//! Identifiers and events shared by the store variants.

use std::sync::Arc;
use vstd::prelude::*;

verus! {

/// Unique identifier for a subscriber.
pub type SubscriberId = usize;

/// Events processed by the subscriber worker of a threaded store.
pub enum StoreEvent<T, Cb> {
    /// State has changed, notify subscribers with the new snapshot.
    StateChanged(Arc<T>),
    /// A new subscriber has joined.
    Subscribe(SubscriberId, Cb),
    /// A subscriber has left.
    Unsubscribe(SubscriberId),
}

} // verus!
