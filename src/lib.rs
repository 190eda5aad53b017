//! A small proof-of-authority chain node core: transaction admission, a
//! built-in token contract over a namespaced key-value store, and block
//! production and replication among a fixed validator set.
pub mod admission;
pub mod consensus;
pub mod contracts;
pub mod json;
pub mod pq;
pub mod runtime;
pub mod security;
pub mod store;
pub mod types;
pub mod util;
