//! The data kept on a node: a keyspace engine behind a uniform
//! command-handling face.

use vstd::prelude::*;

use crate::commands::{Command, CommandResult};
use crate::model::{command_post, command_result};
use crate::string_store::StringStore;

verus! {

/// Ways the node's data can fail to be served.
#[derive(Debug)]
pub enum DataStorageError {
    InitializationError,
    DataRetrievalError,
    DataModificationError,
}

/// The data stored on a node. The string-typed engine is the one backing
/// store at this stage; further data types are anticipated.
pub struct DataStorage {
    storage: StringStore,
}

impl View for DataStorage {
    type V = Map<Seq<char>, Seq<char>>;

    closed spec fn view(&self) -> Map<Seq<char>, Seq<char>> {
        self.storage@
    }
}

impl DataStorage {
    /// Creates a storage with an empty keyspace.
    pub fn new() -> (result: Result<DataStorage, DataStorageError>)
        ensures
            result matches Ok(d) && d@ == Map::<Seq<char>, Seq<char>>::empty(),
    {
        match StringStore::new() {
            Ok(store) => Ok(DataStorage { storage: store }),
            Err(_) => Err(DataStorageError::InitializationError),
        }
    }

    /// Executes one command against the keyspace and returns its result.
    /// Every command variant is supported, so this never fails.
    pub fn handle_command(&mut self, command: Command) -> (result: Result<
        CommandResult,
        DataStorageError,
    >)
        ensures
            final(self)@ == command_post(old(self)@, command@),
            (result matches Ok(r) && r@ == command_result(old(self)@, command@)),
    {
        match self.storage.handle_command(command) {
            Ok(r) => Ok(r),
            Err(_) => Err(DataStorageError::DataModificationError),
        }
    }
}

} // verus!
