//! Error types for rustand.

use vstd::prelude::*;

verus! {

/// Error types returned by the threaded [`Store`](crate::common::store::Store) operations.
#[derive(Debug, Clone, Copy, PartialEq, Eq, Structural)]
pub enum StoreError {
    /// The internal lock was poisoned.
    ///
    /// This occurs if a thread panicked while holding a lock.
    Poisoned,
}

impl StoreError {
    /// The text shown for the error.
    pub open spec fn spec_message(&self) -> Seq<char> {
        match self {
            StoreError::Poisoned => "Lock poisoned"@,
        }
    }

    /// The text shown for the error (what `Display` prints).
    pub fn message(&self) -> (r: String)
        ensures
            r@ == self.spec_message(),
    {
        match self {
            StoreError::Poisoned => "Lock poisoned".to_owned(),
        }
    }
}

} // verus!
