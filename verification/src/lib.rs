//! The nucleus of a small in-memory key-value store that speaks a
//! Redis-like wire protocol: a decoder that turns one request frame into a
//! command name and its arguments, and a store that maps string keys to
//! kind-tagged values and checks the kind on every read.
pub mod command;
pub mod error;
pub mod handler;
pub mod store;
pub mod value;

pub use command::RedisCommand;
pub use error::{DecodeError, StoreError};
pub use handler::RedisCommandHandler;
pub use store::{IStore, RedisStore, Teststore};
pub use value::{Value, ValueKind};
