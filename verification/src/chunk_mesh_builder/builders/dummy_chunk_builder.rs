//! A builder that completes every chunk at once with an empty mesh.
use vstd::prelude::*;
use crate::types::{BlockID, Chunk, ChunkPos};
use crate::pos_map::PosMap;
use crate::chunk_mesh_builder::chunk_mesh::ChunkMesh;
use super::chunk_builder::{BuilderError, ChunkBuilder};

verus! {

/// Simulates chunk building without delay; useful for testing.
pub struct DummyChunkBuilder<T> {
    built_chunks: PosMap<(ChunkMesh, T)>,
    /// The blocks of the chunk last handed in for each position.
    given: Ghost<Map<ChunkPos, Seq<BlockID>>>,
}

impl<T> DummyChunkBuilder<T> {
    /// The built chunks' data, by position.
    pub closed spec fn built(&self) -> Map<ChunkPos, (ChunkMesh, T)> {
        self.built_chunks@
    }

    /// An empty builder.
    pub fn new() -> (r: Self)
        ensures
            r.wf(),
            r.built() == Map::<ChunkPos, (ChunkMesh, T)>::empty(),
    {
        DummyChunkBuilder { built_chunks: PosMap::new(), given: Ghost(Map::empty()) }
    }
}

impl<T> ChunkBuilder<T> for DummyChunkBuilder<T> {
    closed spec fn wf(&self) -> bool {
        self.built_chunks.wf()
    }

    /// Every chunk is built as soon as it is added.
    open spec fn holds_chunk(&self, pos: ChunkPos) -> bool {
        self.built().contains_key(pos)
    }

    open spec fn completed_chunk(&self, pos: ChunkPos) -> bool {
        self.built().contains_key(pos)
    }

    open spec fn held_data(&self, pos: ChunkPos) -> T {
        self.built()[pos].1
    }

    open spec fn completed_mesh(&self, pos: ChunkPos) -> ChunkMesh {
        self.built()[pos].0
    }

    closed spec fn held_chunk(&self, pos: ChunkPos) -> Seq<BlockID> {
        self.given@[pos]
    }

    /// Nothing waits for an update.
    open spec fn completes_on_update(&self, pos: ChunkPos) -> bool {
        false
    }

    open spec fn update_result(&self, pos: ChunkPos) -> (ChunkMesh, T) {
        self.built()[pos]
    }

    fn force_build(&mut self, chunk_pos: ChunkPos, chunk: &Chunk, additional_data: T)
        ensures
            final(self).built().contains_key(chunk_pos),
            final(self).built()[chunk_pos].0.is_empty_mesh(),
            final(self).built()[chunk_pos].1 == additional_data,
            final(self).built().remove(chunk_pos) == old(self).built().remove(chunk_pos),
    {
        self.built_chunks.insert(chunk_pos, (ChunkMesh::new(), additional_data));
        self.given = Ghost(self.given@.insert(chunk_pos, chunk@));
    }

    fn try_build(&mut self, chunk_pos: ChunkPos, chunk: &Chunk, additional_data: T) -> (r: Result<(), BuilderError>)
        ensures
            old(self).built().contains_key(chunk_pos) ==> r == Err::<(), BuilderError>(BuilderError::ChunkAlreadyExists(chunk_pos))
                && final(self).built() == old(self).built(),
            !old(self).built().contains_key(chunk_pos) ==> r is Ok
                && final(self).built().contains_key(chunk_pos)
                && final(self).built()[chunk_pos].0.is_empty_mesh()
                && final(self).built()[chunk_pos].1 == additional_data
                && final(self).built().remove(chunk_pos) == old(self).built(),
    {
        if self.built_chunks.contains_key(chunk_pos) {
            return Err(BuilderError::ChunkAlreadyExists(chunk_pos));
        }
        self.built_chunks.insert(chunk_pos, (ChunkMesh::new(), additional_data));
        self.given = Ghost(self.given@.insert(chunk_pos, chunk@));
        proof {
            assert(self.built_chunks@.remove(chunk_pos) =~= old(self).built_chunks@);
        }
        Ok(())
    }

    fn update(&mut self, _player_pos: ChunkPos)
        ensures
            final(self).built() == old(self).built(),
    {
    }

    fn remove_chunk(&mut self, chunk_pos: ChunkPos)
        ensures
            final(self).built() == old(self).built().remove(chunk_pos),
    {
        self.built_chunks.remove(chunk_pos);
    }

    fn clear_all(&mut self)
        ensures
            final(self).built() == Map::<ChunkPos, (ChunkMesh, T)>::empty(),
    {
        self.built_chunks.clear();
    }

    fn poll_completed(&mut self) -> (r: PosMap<(ChunkMesh, T)>)
        ensures
            r@ == old(self).built(),
            final(self).built() == Map::<ChunkPos, (ChunkMesh, T)>::empty(),
    {
        let mut out = PosMap::new();
        std::mem::swap(&mut out, &mut self.built_chunks);
        out
    }
}

} // verus!
