//! The single-threaded store.

pub mod inner;
pub mod store;
pub mod subscription;
pub mod subscribers;
