//! The chunks that an adult holds.

pub mod chunk_storage;
pub mod chunk_store;
