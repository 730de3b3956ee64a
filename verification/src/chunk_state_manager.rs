//! Chunk lifecycle that covers both data and mesh in one state machine.

pub mod chunk_state;
pub mod physical_world;
pub mod chunk_state_manager;
