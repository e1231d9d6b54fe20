//! A mock of the data kept on a sprout node.

use vstd::prelude::*;

verus! {

/// The data stored on a sprout node. A simple mock at this stage: one
/// number stands in for the future store.
pub struct DataStorage {
    number: i32,
}

impl DataStorage {
    /// The number the mock holds.
    pub closed spec fn stored(&self) -> i32 {
        self.number
    }

    /// Creates the mock store, holding zero.
    pub fn new() -> (result: DataStorage)
        ensures
            result.stored() == 0,
    {
        DataStorage { number: 0 }
    }

    /// Returns the number the mock holds.
    pub fn get_number(&self) -> (n: i32)
        ensures
            n == self.stored(),
    {
        self.number
    }
}

} // verus!
