//! Pieces shared by the store variants.

pub mod registry;
pub mod types;
pub mod store;
pub mod subscribers;
pub mod subscription;
pub mod worker;
pub mod store_ring_unsafe;
