//! rustand: a small state container with subscriptions, in the style of Zustand.
//!
//! A store holds one value of the state, lets callers replace it through an
//! update closure, and calls its subscribers, in the order they subscribed,
//! after every update.
//!
//! - [`single_threaded`]: the store for single-threaded use (the default
//!   `Store` of the crate root).
//! - [`common`]: the store for threaded runtimes, whose operations return a
//!   `Result`, its ring of state slots, the variant whose slots count their
//!   readers, and the subscriber worker of channel-based stores.
//! - [`fuzz`]: the operations of the fuzzing harness.

pub mod common;
pub mod error;
pub mod fuzz;
pub mod single_threaded;

pub use error::StoreError;
pub use single_threaded::store::Store;
pub use single_threaded::subscription::{SubscriberCallback, SubscriberId, Subscription};
