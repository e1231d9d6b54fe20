//! The identity record of a sprout node.

use vstd::prelude::*;

verus! {

/// The passport of a sprout node: a name, taken at its word.
pub struct Passport {
    name: String,
}

impl Passport {
    /// The node's name.
    pub closed spec fn spec_name(&self) -> Seq<char> {
        self.name@
    }

    /// Creates a passport with the default name.
    pub fn new() -> (result: Passport)
        ensures
            result.spec_name() == "default name"@,
    {
        Passport { name: "default name".to_owned() }
    }

    /// Returns the node's name.
    pub fn get_name(&self) -> (name: &String)
        ensures
            name@ == self.spec_name(),
    {
        &self.name
    }
}

} // verus!
