//! The sprout node itself: data store and passport, bundled.

use vstd::prelude::*;

use crate::sprout::data_storage::DataStorage;
use crate::sprout::passport::Passport;

verus! {

/// A sprout node: the earliest, highly simplified node shape.
pub struct Sprout {
    data_storage: DataStorage,
    passport: Passport,
}

impl Sprout {
    /// The number the node's mock store holds.
    pub closed spec fn stored_number(&self) -> i32 {
        self.data_storage.stored()
    }

    /// The name on the node's passport.
    pub closed spec fn passport_name(&self) -> Seq<char> {
        self.passport.spec_name()
    }

    /// Creates a sprout with default data storage and passport.
    pub fn new() -> (result: Sprout)
        ensures
            result.stored_number() == 0,
            result.passport_name() == "default name"@,
    {
        Sprout { data_storage: DataStorage::new(), passport: Passport::new() }
    }

    /// The node's data storage.
    pub fn get_data_storage(&self) -> (d: &DataStorage)
        ensures
            d.stored() == self.stored_number(),
    {
        &self.data_storage
    }

    /// The node's passport.
    pub fn get_passport(&self) -> (p: &Passport)
        ensures
            p.spec_name() == self.passport_name(),
    {
        &self.passport
    }
}

} // verus!
