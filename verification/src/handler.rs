//! The interface of command handlers.
use vstd::prelude::*;
use crate::command::RedisCommand;
use crate::store::IStore;

verus! {

/// Defines the behaviour of the redis command handlers.
///
/// A handler is a stateless value that executes one decoded command against
/// a store and returns the response frame. The caller holds whatever lock
/// guards the store for the duration of the call.
pub trait RedisCommandHandler {
    /// Executes a single redis command on the store.
    fn exec<S: IStore>(&self, store: &mut S, command: &RedisCommand<'_>) -> String;
}

} // verus!
