//! The string-typed keyspace engine: an in-memory mapping from keys to
//! string values, together with the command executor over it.

use vstd::prelude::*;
use vstd::hash_map::StringHashMap;

use crate::commands::{Command, CommandResult, GenericCommand, StringCommand};
use crate::model::{
    append_value, byte_len, command_post, command_result, delete_count, delete_post, exists_count,
};

verus! {

/// The one way this engine can fail: a command variant it does not
/// support. Every current command variant is supported, so none of the
/// operations below ever returns it.
#[derive(Debug)]
pub enum EngineError {
    UnsupportedCommand,
}

/// An in-memory store of string values, keyed by strings.
pub struct StringStore {
    data: StringHashMap<String>,
}

impl View for StringStore {
    type V = Map<Seq<char>, Seq<char>>;

    closed spec fn view(&self) -> Map<Seq<char>, Seq<char>> {
        self.data@.map_values(|v: String| v@)
    }
}

impl StringStore {
    /// Creates an empty store.
    pub fn new() -> (result: Result<StringStore, EngineError>)
        ensures
            result matches Ok(s) && s@ == Map::<Seq<char>, Seq<char>>::empty(),
    {
        let store = StringStore { data: StringHashMap::new() };
        proof {
            assert(store@ =~= Map::<Seq<char>, Seq<char>>::empty());
        }
        Ok(store)
    }

    /// Binds `key` to `value`, overwriting any previous binding.
    pub fn set(&mut self, key: &str, value: &str) -> (result: Result<(), EngineError>)
        ensures
            result is Ok,
            final(self)@ == old(self)@.insert(key@, value@),
    {
        self.data.insert(key.to_owned(), value.to_owned());
        proof {
            assert(self@ =~= old(self)@.insert(key@, value@));
        }
        Ok(())
    }

    /// Looks `key` up: its value when present, `None` otherwise.
    pub fn get(&self, key: &str) -> (result: Result<Option<&str>, EngineError>)
        ensures
            (result matches Ok(o) && match o {
                Some(s) => self@.dom().contains(key@) && s@ == self@[key@],
                None => !self@.dom().contains(key@),
            }),
    {
        match self.data.get(key) {
            Some(v) => Ok(Some(v.as_str())),
            None => Ok(None),
        }
    }

    /// Extends the value bound to `key` by `value`, binding `key` to
    /// `value` alone when it was absent; returns the byte length of the
    /// resulting value.
    pub fn append(&mut self, key: &str, value: &str) -> (result: Result<u64, EngineError>)
        ensures
            final(self)@ == old(self)@.insert(key@, append_value(old(self)@, key@, value@)),
            (result matches Ok(n) && n as nat == byte_len(
                append_value(old(self)@, key@, value@),
            )),
    {
        let appended: String = match self.data.get(key) {
            Some(current) => {
                let mut s = current.clone();
                s.append(value);
                s
            },
            None => value.to_owned(),
        };
        let n: usize = appended.as_str().as_bytes().len();
        self.data.insert(key.to_owned(), appended);
        proof {
            assert(self@ =~= old(self)@.insert(key@, append_value(old(self)@, key@, value@)));
        }
        Ok(n as u64)
    }

    /// Counts how many of the given keys are present; a key given several
    /// times is counted several times.
    pub fn exists_keys(&self, keys: Vec<&str>) -> (result: Result<u64, EngineError>)
        ensures
            (result matches Ok(n) && n as nat == exists_count(self@, keys.deep_view())),
    {
        let mut count: u64 = 0;
        let mut i: usize = 0;
        while i < keys.len()
            invariant
                i <= keys.len(),
                count <= i,
                count as nat == exists_count(self@, keys.deep_view().take(i as int)),
            decreases keys.len() - i,
        {
            proof {
                lemma_count_take_step(self@, keys.deep_view(), i as int);
            }
            if self.data.contains_key(keys[i]) {
                count = count + 1;
            }
            i += 1;
        }
        proof {
            assert(keys.deep_view().take(keys@.len() as int) =~= keys.deep_view());
        }
        Ok(count)
    }

    /// Removes the given keys in order, ignoring absent ones; returns how
    /// many were actually removed.
    pub fn delete(&mut self, keys: Vec<&str>) -> (result: Result<u64, EngineError>)
        ensures
            final(self)@ == delete_post(old(self)@, keys.deep_view()),
            (result matches Ok(n) && n as nat == delete_count(old(self)@, keys.deep_view())),
    {
        let ghost m0 = self@;
        let ghost kv = keys.deep_view();
        let mut count: u64 = 0;
        let mut i: usize = 0;
        while i < keys.len()
            invariant
                i <= keys.len(),
                count <= i,
                self@ == delete_post(m0, kv.take(i as int)),
                count as nat == delete_count(m0, kv.take(i as int)),
                kv == keys.deep_view(),
            decreases keys.len() - i,
        {
            proof {
                assert(kv.take(i as int + 1) =~= kv.take(i as int).push(kv[i as int]));
                lemma_delete_snoc(m0, kv.take(i as int), kv[i as int]);
            }
            if self.data.contains_key(keys[i]) {
                self.data.remove(keys[i]);
                count = count + 1;
                proof {
                    assert(self@ =~= delete_post(m0, kv.take(i as int)).remove(kv[i as int]));
                }
            } else {
                proof {
                    assert(self@ =~= delete_post(m0, kv.take(i as int)).remove(kv[i as int]));
                }
            }
            i += 1;
        }
        proof {
            assert(kv.take(keys@.len() as int) =~= kv);
        }
        Ok(count)
    }

    /// Executes one command against this store and returns its result.
    /// Every command variant is supported, so this never fails.
    pub fn handle_command(&mut self, command: Command) -> (result: Result<
        CommandResult,
        EngineError,
    >)
        ensures
            final(self)@ == command_post(old(self)@, command@),
            (result matches Ok(r) && r@ == command_result(old(self)@, command@)),
    {
        match command {
            Command::String(cmd) => match cmd {
                StringCommand::Put { key, value } => {
                    let r = self.set(key.as_str(), value.as_str());
                    match r {
                        Ok(_) => Ok(CommandResult::String("OK".to_owned())),
                        Err(e) => Err(e),
                    }
                },
                StringCommand::Get { key } => {
                    let r = self.get(key.as_str());
                    match r {
                        Ok(Some(s)) => Ok(CommandResult::String(s.to_owned())),
                        Ok(None) => Ok(CommandResult::Nil),
                        Err(e) => Err(e),
                    }
                },
                StringCommand::Append { key, value } => {
                    let r = self.append(key.as_str(), value.as_str());
                    match r {
                        Ok(len) => Ok(CommandResult::Int(len)),
                        Err(e) => Err(e),
                    }
                },
            },
            Command::Generic(cmd) => match cmd {
                GenericCommand::Exists { keys } => {
                    let refs = key_slices(&keys);
                    let r = self.exists_keys(refs);
                    match r {
                        Ok(n) => Ok(CommandResult::Int(n)),
                        Err(e) => Err(e),
                    }
                },
                GenericCommand::Delete { keys } => {
                    let refs = key_slices(&keys);
                    let r = self.delete(refs);
                    match r {
                        Ok(n) => Ok(CommandResult::Int(n)),
                        Err(e) => Err(e),
                    }
                },
            },
        }
    }
}

/// Borrows each key of a key list as a string slice.
fn key_slices(keys: &Vec<String>) -> (out: Vec<&str>)
    ensures
        out.deep_view() == keys.deep_view(),
{
    let mut out: Vec<&str> = Vec::new();
    let mut i: usize = 0;
    while i < keys.len()
        invariant
            i <= keys.len(),
            out@.len() == i as int,
            forall|j: int| 0 <= j < i ==> #[trigger] out@[j]@ == keys@[j]@,
        decreases keys.len() - i,
    {
        out.push(keys[i].as_str());
        i += 1;
    }
    assert(out.deep_view() =~~= keys.deep_view());
    out
}

/// One step of `exists_count` over a growing prefix of the key list.
proof fn lemma_count_take_step(m: Map<Seq<char>, Seq<char>>, keys: Seq<Seq<char>>, i: int)
    requires
        0 <= i < keys.len(),
    ensures
        exists_count(m, keys.take(i + 1)) == exists_count(m, keys.take(i)) + (if m.dom().contains(
            keys[i],
        ) {
            1nat
        } else {
            0nat
        }),
{
    assert(keys.take(i + 1).drop_last() =~= keys.take(i));
    assert(keys.take(i + 1).last() == keys[i]);
}

/// Removing one more key at the end of the key list removes it from the
/// state so far, and counts it when it was still present.
proof fn lemma_delete_snoc(m: Map<Seq<char>, Seq<char>>, keys: Seq<Seq<char>>, k: Seq<char>)
    ensures
        delete_post(m, keys.push(k)) == delete_post(m, keys).remove(k),
        delete_count(m, keys.push(k)) == delete_count(m, keys) + (if delete_post(
            m,
            keys,
        ).dom().contains(k) {
            1nat
        } else {
            0nat
        }),
    decreases keys.len(),
{
    let pushed = keys.push(k);
    if keys.len() == 0 {
        assert(pushed.first() == k);
        assert(pushed.drop_first() =~= keys);
        assert(delete_post(m, pushed) == delete_post(m.remove(k), keys));
        assert(delete_post(m.remove(k), keys) == m.remove(k));
        assert(delete_post(m, keys) == m);
        assert(delete_count(m.remove(k), keys) == 0);
        assert(delete_count(m, keys) == 0);
    } else {
        assert(pushed.first() == keys.first());
        assert(pushed.drop_first() =~= keys.drop_first().push(k));
        lemma_delete_snoc(m.remove(keys.first()), keys.drop_first(), k);
        assert(delete_post(m, pushed) == delete_post(
            m.remove(keys.first()),
            keys.drop_first().push(k),
        ));
        assert(delete_post(m, keys) == delete_post(m.remove(keys.first()), keys.drop_first()));
        assert(delete_count(m, pushed) == (if m.dom().contains(keys.first()) {
            1nat
        } else {
            0nat
        }) + delete_count(m.remove(keys.first()), keys.drop_first().push(k)));
        assert(delete_count(m, keys) == (if m.dom().contains(keys.first()) {
            1nat
        } else {
            0nat
        }) + delete_count(m.remove(keys.first()), keys.drop_first()));
    }
}

} // verus!
