//! Chunk mesh builders: queues that turn chunks into meshes.

pub mod chunk_builder;
pub mod delayed_dummy_chunk_builder;
pub mod dummy_chunk_builder;
pub mod versioned_chunk_builder;
pub mod async_chunk_builder;
