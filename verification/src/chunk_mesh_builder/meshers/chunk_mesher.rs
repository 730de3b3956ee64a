//! The data a mesher produces.
use vstd::prelude::*;
use crate::types::{BlockID, BlockInChunkPos, BlockSide};

verus! {

/// One visible block face.
#[derive(Debug, Clone, Copy, PartialEq, Eq, Structural)]
pub struct FaceData {
    /// The side of the block the face lies on.
    pub facing_side: BlockSide,
    /// The block the face belongs to.
    pub block_pos: BlockInChunkPos,
    /// Storage index passed to the shader (texture or colour of the face).
    pub uv_2: u32,
}

/// Faces of one material layer of a chunk.
#[derive(Debug, Clone, PartialEq, Eq)]
pub struct ChunkMeshData {
    pub faces: Vec<FaceData>,
}

impl ChunkMeshData {
    /// A layer without faces.
    pub fn new() -> (r: ChunkMeshData)
        ensures
            r.faces@ == Seq::<FaceData>::empty(),
    {
        ChunkMeshData { faces: Vec::new() }
    }
}

/// A non-fatal issue met while meshing.
#[derive(Debug, Clone, Copy, PartialEq, Eq, Hash, Structural)]
pub enum MesherWarning {
    /// A block id without a render shape.
    UnknownRenderShape(BlockID),
}

} // verus!
