//! The typed store: string keys, kind-tagged values, kind-checked reads.
use vstd::prelude::*;
use vstd::hash_map::StringHashMap;
use crate::error::{mismatch_message, mismatch_text, StoreError};
use crate::value::{Value, ValueKind};

verus! {

/// What a store holds: at most one value under each key.
pub type Contents = Map<Seq<char>, Value>;

/// The three ways in which a read can end.
pub ghost enum Reading {
    /// The key holds this value, and it is of the expected kind.
    Hit(Value),
    /// The key holds nothing.
    Absent,
    /// The key holds a value of another kind; the message says which.
    WrongKind(Seq<char>),
}

/// The outcome that a kind-checked read of `key` owes on `contents`.
pub open spec fn reading(contents: Contents, key: Seq<char>, expected: ValueKind) -> Reading {
    if !contents.contains_key(key) {
        Reading::Absent
    } else if contents[key].kind == expected {
        Reading::Hit(contents[key])
    } else {
        Reading::WrongKind(mismatch_message(key, expected, contents[key].kind))
    }
}

/// The outcome that a result of `get` stands for.
pub open spec fn outcome(result: Result<&Value, StoreError>) -> Reading {
    match result {
        Ok(value) => Reading::Hit(*value),
        Err(StoreError::KeyNotFoundError) => Reading::Absent,
        Err(StoreError::KeyMismatchError(message)) => Reading::WrongKind(message@),
    }
}

/// The contents after a sequence of writes to an empty store, the first
/// write first.
pub open spec fn after_writes(writes: Seq<(Seq<char>, Value)>) -> Contents
    decreases writes.len(),
{
    if writes.len() == 0 {
        Map::empty()
    } else {
        after_writes(writes.drop_last()).insert(writes.last().0, writes.last().1)
    }
}

/// Defines the storage interface.
///
/// A backend may refuse a write; it never accepts one in part, and it
/// checks the kind on every read.
pub trait IStore {
    /// The mapping that the store holds.
    spec fn contents(&self) -> Contents;

    /// Set given value using specified key. An accepted write replaces
    /// whatever the key held; a refused one changes nothing.
    fn set(&mut self, k: String, v: Value) -> (result: Result<(), StoreError>)
        ensures
            result is Ok ==> final(self).contents() == old(self).contents().insert(k@, v),
            result is Err ==> final(self).contents() == old(self).contents(),
    ;

    /// Retrieves a key from the store, provided that it holds a value of
    /// kind `vk`.
    fn get(&self, k: String, vk: ValueKind) -> (result: Result<&Value, StoreError>)
        ensures
            outcome(result) == reading(self.contents(), k@, vk),
    ;
}

/// Default implementation of the store trait: an unbounded in-memory
/// mapping.
pub struct RedisStore {
    store: StringHashMap<Value>,
}

impl View for RedisStore {
    type V = Contents;

    closed spec fn view(&self) -> Contents {
        self.store@
    }
}

impl Default for RedisStore {
    fn default() -> (store: Self)
        ensures
            store@ == Map::<Seq<char>, Value>::empty(),
    {
        RedisStore { store: StringHashMap::new() }
    }
}

impl IStore for RedisStore {
    open spec fn contents(&self) -> Contents {
        self@
    }

    fn set(&mut self, k: String, v: Value) -> (result: Result<(), StoreError>)
        ensures
            result is Ok,
    {
        self.store.insert(k, v);
        Ok(())
    }

    fn get(&self, k: String, vk: ValueKind) -> (result: Result<&Value, StoreError>) {
        match self.store.get(k.as_str()) {
            Some(value) => {
                if value.kind == vk {
                    Ok(value)
                } else {
                    Err(StoreError::KeyMismatchError(mismatch_text(k.as_str(), vk, value.kind)))
                }
            },
            None => Err(StoreError::KeyNotFoundError),
        }
    }
}

/// A stand-in for a store that keeps nothing and answers a write as it is
/// told to. It serves to drive a handler down its success and failure paths.
pub struct Teststore {
    /// Allow the consumer to raise an error while running the tests
    pub err: bool,
}

impl Teststore {
    /// Answers a write without keeping it: the error that the store was
    /// made with, or success.
    pub fn set(&mut self, k: String, v: Value) -> (result: Result<(), StoreError>)
        ensures
            *final(self) == *old(self),
            old(self).err ==> result == Err::<(), StoreError>(StoreError::KeyNotFoundError),
            !old(self).err ==> result is Ok,
    {
        if self.err {
            return Err(StoreError::KeyNotFoundError);
        }
        Ok(())
    }
}

/// A write followed by a read of the same key under the value's own kind
/// gives back the value that was written.
pub proof fn law_read_after_write(contents: Contents, key: Seq<char>, value: Value)
    ensures
        reading(contents.insert(key, value), key, value.kind) == Reading::Hit(value),
{
}

/// A write followed by a read of the same key under another kind fails
/// with a mismatch that names the key and both kinds.
pub proof fn law_read_under_other_kind(
    contents: Contents,
    key: Seq<char>,
    value: Value,
    expected: ValueKind,
)
    requires
        expected != value.kind,
    ensures
        reading(contents.insert(key, value), key, expected) == Reading::WrongKind(
            mismatch_message(key, expected, value.kind),
        ),
{
}

/// A key that no write has named holds nothing, whatever kind is asked for.
pub proof fn law_unwritten_key_is_absent(
    writes: Seq<(Seq<char>, Value)>,
    key: Seq<char>,
    expected: ValueKind,
)
    requires
        forall|i: int| 0 <= i < writes.len() ==> (#[trigger] writes[i]).0 != key,
    ensures
        reading(after_writes(writes), key, expected) == Reading::Absent,
    decreases writes.len(),
{
    if writes.len() > 0 {
        law_unwritten_key_is_absent(writes.drop_last(), key, expected);
    }
}

/// Of two writes to one key the second one stands: a read under its kind
/// gives back the second value, whatever the first one was.
pub proof fn law_last_write_wins(contents: Contents, key: Seq<char>, first: Value, second: Value)
    ensures
        contents.insert(key, first).insert(key, second) == contents.insert(key, second),
        reading(contents.insert(key, first).insert(key, second), key, second.kind) == Reading::Hit(
            second,
        ),
{
}

/// A write to one key leaves every other key as it was.
pub proof fn law_write_leaves_other_keys(
    contents: Contents,
    key: Seq<char>,
    value: Value,
    other: Seq<char>,
    expected: ValueKind,
)
    requires
        other != key,
    ensures
        reading(contents.insert(key, value), other, expected) == reading(contents, other, expected),
{
}

} // verus!
