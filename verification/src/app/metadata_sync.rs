use vstd::prelude::*;

verus! {

/// Outcome of a successful system-metadata sync.
#[derive(Debug, Clone, Copy, PartialEq, Eq, Structural)]
pub enum Synced {
    /// The live metadata matched the cache; no device update was made.
    Unchanged,
    /// The live metadata differed from the cache (or there was no cache); the device
    /// was updated and the cache refreshed.
    Updated,
}

} // verus!
