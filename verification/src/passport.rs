//! The per-node identity record: one mutable, descriptive field.

use vstd::prelude::*;

verus! {

/// Ways a passport operation can fail.
#[derive(Debug)]
pub enum PassportError {
    InitializationError,
    FieldRetrievalError,
    FieldModificationError,
}

/// The passport of a node: a highly simplified identity record whose one
/// field is never left empty by a successful modification.
pub struct Passport {
    pub field: String,
}

impl Passport {
    /// Creates a new `Passport` with a default field value.
    pub fn new() -> (result: Result<Passport, PassportError>)
        ensures
            result matches Ok(p) && p.field@ == "lawn"@,
    {
        Ok(Passport { field: "lawn".to_owned() })
    }

    /// Returns a reference to the field; fails if the field is empty.
    pub fn get_field(&self) -> (result: Result<&String, PassportError>)
        ensures
            self.field@.len() == 0 <==> (result matches Err(PassportError::FieldRetrievalError)),
            self.field@.len() > 0 ==> (result matches Ok(f) && f@ == self.field@),
    {
        if self.field.as_str().is_empty() {
            Err(PassportError::FieldRetrievalError)
        } else {
            Ok(&self.field)
        }
    }

    /// Sets the field to a new value; fails if the new value is empty,
    /// leaving the field unchanged.
    pub fn set_field(&mut self, new_field: String) -> (result: Result<(), PassportError>)
        ensures
            new_field@.len() == 0 ==> (result matches Err(PassportError::FieldModificationError)
                && final(self).field@ == old(self).field@),
            new_field@.len() > 0 ==> (result matches Ok(u) && final(self).field@ == new_field@),
    {
        if new_field.as_str().is_empty() {
            Err(PassportError::FieldModificationError)
        } else {
            self.field = new_field;
            Ok(())
        }
    }
}

} // verus!
