//! Core of a key-value store explorer: a byte-format classifier that turns
//! opaque byte strings into tagged semantic values, and a transactional
//! full-keyspace scanner with batched pagination and commit/rollback
//! semantics.

pub mod codec;
pub mod keys;
pub mod retrieve;
pub mod scan;
pub mod value;
