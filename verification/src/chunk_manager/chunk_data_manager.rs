//! Chunk data lifecycle: storage of loaded chunks and the decisions that load them.

pub mod chunk_storage;
pub mod world_event_handler;
