//! A bounded in-memory hash index for hash joins.
//!
//! The index is built over the join-key columns of one relation and then
//! probed with the rows of the other. Keys are tuples of typed scalar values,
//! hashed with FNV-1a and compared position by position; collisions are
//! resolved by chaining inside a fixed array of buckets; memory use is
//! accounted for against a budget on every insert.

pub mod auto_extension;
pub mod entry;
pub mod error;
pub mod key_equal;
pub mod key_hash;
pub mod model;
pub mod property;
pub mod table;
pub mod theorems;
pub mod value;
