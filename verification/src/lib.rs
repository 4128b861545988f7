//! Chunk replication and adult liveness tracking for a storage node of a
//! sharded, content-addressed blob network.
//!
//! An elder places each chunk on the adults nearest to its name
//! (`metadata::blob_records`), tracks which adults owe replies and which of
//! them lag behind their neighbours (`metadata::adult_liveness`), and plans
//! the journeys of its outgoing messages (`messaging`). An adult keeps its
//! chunks in a store with a capacity and answers for them
//! (`chunks::chunk_storage`). The store keeps the chunks in memory; writing
//! them to disk is left to the caller.

pub mod chunks;
pub mod data;
pub mod distance;
pub mod error;
pub mod messages;
pub mod messaging;
pub mod metadata;
pub mod name;
pub mod name_map;
pub mod name_set;
pub mod node;
pub mod node_ops;
pub mod prefix;
