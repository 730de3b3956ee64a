//! Messages between the chunk streamer, the world, the loader and the builder.
use vstd::prelude::*;
use crate::types::{Chunk, ChunkPos};
use crate::chunk_mesh_builder::chunk_mesh::ChunkMesh;
use crate::chunk_state_manager::chunk_state::{ChunkState, ChunkStatus, ChunkTransition};

verus! {

/// Chunks loaded by the chunk loader, not added to world.
#[derive(Debug)]
pub struct ChunkLoaded {
    pub chunk_pos: ChunkPos,
    pub chunk: Chunk,
}

/// Chunks requested to load by the chunk loader.
#[derive(Debug)]
pub struct ChunkLoadRequest {
    pub chunk_pos: ChunkPos,
}

/// Chunk meshes built by the chunk builder, not added to world.
#[derive(Debug)]
pub struct ChunkBuilt {
    pub chunk_pos: ChunkPos,
    pub chunk_mesh: ChunkMesh,
}

/// Chunks requested to build by the chunk builder.
#[derive(Debug)]
pub struct ChunkBuildRequest {
    pub chunk_pos: ChunkPos,
    pub chunk: Chunk,
}

/// The chunk streamer's requests to change world state.
#[derive(Debug, Clone, Copy, PartialEq, Eq, Structural)]
pub enum ChunkStreamerRequest {
    /// Request to update the chunk state based on its status.
    Update(ChunkPos),
    /// Request to load the chunk if it is empty.
    Load(ChunkPos),
    /// Request to remove chunk.
    Remove(ChunkPos),
}

/// A chunk's current state and status, to be run through the state machine.
#[derive(Debug, Clone, Copy, PartialEq, Eq, Structural)]
pub struct StateUpdateRequest {
    pub chunk_pos: ChunkPos,
    pub curr_state: ChunkState,
    pub chunk_status: ChunkStatus,
}

/// A state change the state machine decided for a chunk.
#[derive(Debug, Clone, Copy, PartialEq, Eq, Structural)]
pub struct ChunkStateTransition {
    pub chunk_pos: ChunkPos,
    pub new_state: ChunkState,
    pub transition: ChunkTransition,
}

/// Requests to the chunk builder.
#[derive(Debug)]
pub enum ChunkBuilderRequest {
    Build(ChunkPos, Chunk),
    CancelBuilding(ChunkPos),
}

/// Requests to create or remove the rendered object of a chunk.
#[derive(Debug)]
pub enum ChunkEntityEvent {
    Create(ChunkPos, ChunkMesh),
    Remove(ChunkPos),
}

} // verus!
