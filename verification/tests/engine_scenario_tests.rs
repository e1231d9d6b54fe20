//! The spelled-out engine scenarios: creation on append, counting with
//! duplicates, deleting a mixed key list.

use sphagnumdb::commands::{Command, CommandResult, GenericCommand, StringCommand};
use sphagnumdb::data_storage::DataStorage;

fn set(store: &mut DataStorage, key: &str, value: &str) {
    let r = store
        .handle_command(Command::String(StringCommand::Put {
            key: key.to_string(),
            value: value.to_string(),
        }))
        .unwrap();
    assert_eq!(r, CommandResult::String("OK".to_string()));
}

fn get(store: &mut DataStorage, key: &str) -> CommandResult {
    store
        .handle_command(Command::String(StringCommand::Get {
            key: key.to_string(),
        }))
        .unwrap()
}

#[test]
fn test_append_on_fresh_engine_creates_the_key() {
    let mut store = DataStorage::new().unwrap();
    let appended = store
        .handle_command(Command::String(StringCommand::Append {
            key: "k".to_string(),
            value: "value".to_string(),
        }))
        .unwrap();
    assert_eq!(appended, CommandResult::Int(5));
    assert_eq!(
        get(&mut store, "k"),
        CommandResult::String("value".to_string())
    );
}

#[test]
fn test_exists_counts_duplicates_independently() {
    let mut store = DataStorage::new().unwrap();
    set(&mut store, "a", "1");
    let counted = store
        .handle_command(Command::Generic(GenericCommand::Exists {
            keys: vec!["a".to_string(), "a".to_string(), "b".to_string()],
        }))
        .unwrap();
    assert_eq!(counted, CommandResult::Int(2));
}

#[test]
fn test_delete_counts_distinct_present_keys() {
    let mut store = DataStorage::new().unwrap();
    set(&mut store, "a", "1");
    set(&mut store, "b", "2");
    let removed = store
        .handle_command(Command::Generic(GenericCommand::Delete {
            keys: vec!["a".to_string(), "b".to_string(), "c".to_string()],
        }))
        .unwrap();
    assert_eq!(removed, CommandResult::Int(2));
    assert_eq!(get(&mut store, "a"), CommandResult::Nil);
    assert_eq!(get(&mut store, "b"), CommandResult::Nil);
    let left = store
        .handle_command(Command::Generic(GenericCommand::Exists {
            keys: vec!["a".to_string(), "b".to_string(), "c".to_string()],
        }))
        .unwrap();
    assert_eq!(left, CommandResult::Int(0));
}

#[test]
fn test_delete_with_repeated_key_counts_it_once() {
    let mut store = DataStorage::new().unwrap();
    set(&mut store, "a", "1");
    set(&mut store, "b", "2");
    let removed = store
        .handle_command(Command::Generic(GenericCommand::Delete {
            keys: vec!["a".to_string(), "a".to_string(), "b".to_string()],
        }))
        .unwrap();
    assert_eq!(removed, CommandResult::Int(2));
}

#[test]
fn test_set_then_get_and_exists() {
    let mut store = DataStorage::new().unwrap();
    set(&mut store, "k", "v");
    assert_eq!(get(&mut store, "k"), CommandResult::String("v".to_string()));
    let counted = store
        .handle_command(Command::Generic(GenericCommand::Exists {
            keys: vec!["k".to_string()],
        }))
        .unwrap();
    assert_eq!(counted, CommandResult::Int(1));
}

#[test]
fn test_set_append_reports_summed_byte_length() {
    let mut store = DataStorage::new().unwrap();
    set(&mut store, "k", "value1");
    let appended = store
        .handle_command(Command::String(StringCommand::Append {
            key: "k".to_string(),
            value: "value2".to_string(),
        }))
        .unwrap();
    assert_eq!(appended, CommandResult::Int(12));
    assert_eq!(
        get(&mut store, "k"),
        CommandResult::String("value1value2".to_string())
    );
}

#[test]
fn test_append_length_is_in_bytes_not_characters() {
    let mut store = DataStorage::new().unwrap();
    // A two-byte UTF-8 character: the reported length counts its bytes.
    let appended = store
        .handle_command(Command::String(StringCommand::Append {
            key: "k".to_string(),
            value: "\u{00e9}".to_string(),
        }))
        .unwrap();
    assert_eq!(appended, CommandResult::Int(2));
}

#[test]
fn test_set_with_empty_value_keeps_the_key_present() {
    let mut store = DataStorage::new().unwrap();
    set(&mut store, "k", "");
    assert_eq!(get(&mut store, "k"), CommandResult::String("".to_string()));
    let counted = store
        .handle_command(Command::Generic(GenericCommand::Exists {
            keys: vec!["k".to_string()],
        }))
        .unwrap();
    assert_eq!(counted, CommandResult::Int(1));
}
