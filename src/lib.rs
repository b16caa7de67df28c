//! A durable key-value store kept in one directory: each key is a file
//! holding its value, and a value is written to a sibling temporary file,
//! synced, then renamed over the key's file.

pub mod error;
pub mod key;
pub mod store;
pub mod write;
pub mod durability;
