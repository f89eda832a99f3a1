//! Component state storage.

use vstd::prelude::*;

verus! {

/// Storage for component state.
pub struct ComponentStateStorage {
    _inner: (),
}

impl ComponentStateStorage {
    /// The storage carries no data yet: every value is the same.
    pub fn new() -> (res: Self) {
        Self { _inner: () }
    }
}

impl Default for ComponentStateStorage {
    fn default() -> (res: Self) {
        Self::new()
    }
}

} // verus!
