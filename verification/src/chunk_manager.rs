//! Chunk streaming: which chunks are loaded and which are meshed.

pub mod chunk_state;
pub mod chunk_state_manager;
pub mod mesh_state;
pub mod physical_world;
pub mod chunk_data_manager;
pub mod events;
pub mod chunk_streamer;
pub mod world_event_handler;
pub mod chunk_manager;
pub mod pending_chunk_queue;
pub mod chunk_pos_generator;
pub mod chunk_loader;
pub mod chunk_builder;
pub mod world_state_manager;
pub mod voxel_edit;
