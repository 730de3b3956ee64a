//! The interface of chunk mesh builders.
use vstd::prelude::*;
use crate::types::{BlockID, Chunk, ChunkPos};
use crate::pos_map::PosMap;
use crate::chunk_mesh_builder::chunk_mesh::ChunkMesh;

verus! {

/// Errors of a chunk builder.
#[derive(Debug, Clone, Copy, PartialEq, Eq, Structural)]
pub enum BuilderError {
    /// A chunk at this position is already in the builder.
    ChunkAlreadyExists(ChunkPos),
}

/// A builder that turns chunks into meshes, carrying along per-chunk data.
pub trait ChunkBuilder<T> {
    /// The builder's internal invariant; none unless an implementation states one.
    open spec fn wf(&self) -> bool {
        true
    }

    /// Whether a chunk at `pos` is in the builder: waiting, being built, or
    /// built and not handed out yet.
    spec fn holds_chunk(&self, pos: ChunkPos) -> bool;

    /// Whether the chunk at `pos` is built and waits to be handed out.
    spec fn completed_chunk(&self, pos: ChunkPos) -> bool;

    /// The data that came with the chunk held at `pos`.
    spec fn held_data(&self, pos: ChunkPos) -> T;

    /// The blocks of the chunk handed in for `pos`.
    spec fn held_chunk(&self, pos: ChunkPos) -> Seq<BlockID>;

    /// The mesh of the built chunk at `pos`.
    spec fn completed_mesh(&self, pos: ChunkPos) -> ChunkMesh;

    /// Whether the next update builds the chunk at `pos`.
    spec fn completes_on_update(&self, pos: ChunkPos) -> bool;

    /// The mesh and data the chunk at `pos` has once the next update built it.
    spec fn update_result(&self, pos: ChunkPos) -> (ChunkMesh, T);

    /// Always adds a chunk to the builder; a chunk at the same position is
    /// overwritten. The additional data can hold a version or other metadata.
    fn force_build(&mut self, chunk_pos: ChunkPos, chunk: &Chunk, additional_data: T)
        requires
            old(self).wf(),
        ensures
            final(self).wf(),
            final(self).holds_chunk(chunk_pos),
            final(self).held_data(chunk_pos) == additional_data,
            final(self).held_chunk(chunk_pos) == chunk@,
            forall|q: ChunkPos| q != chunk_pos ==> #[trigger] final(self).held_chunk(q) == old(self).held_chunk(q),
            forall|q: ChunkPos| q != chunk_pos ==> #[trigger] final(self).holds_chunk(q) == old(self).holds_chunk(q),
            forall|q: ChunkPos| q != chunk_pos ==> #[trigger] final(self).completed_chunk(q) == old(self).completed_chunk(q),
            forall|q: ChunkPos| q != chunk_pos && old(self).holds_chunk(q) ==> #[trigger] final(self).held_data(q) == old(self).held_data(q),
            forall|q: ChunkPos| q != chunk_pos && old(self).completed_chunk(q) ==> #[trigger] final(self).completed_mesh(q) == old(self).completed_mesh(q),
    ;

    /// Adds a chunk to the builder; fails when a chunk at the same position
    /// is already inside.
    fn try_build(&mut self, chunk_pos: ChunkPos, chunk: &Chunk, additional_data: T) -> (r: Result<(), BuilderError>)
        requires
            old(self).wf(),
        ensures
            final(self).wf(),
            r is Err <==> old(self).holds_chunk(chunk_pos),
            r is Err ==> r == Err::<(), BuilderError>(BuilderError::ChunkAlreadyExists(chunk_pos)),
            final(self).holds_chunk(chunk_pos),
            r is Ok ==> final(self).held_data(chunk_pos) == additional_data,
            r is Ok ==> final(self).held_chunk(chunk_pos) == chunk@,
            forall|q: ChunkPos| q != chunk_pos ==> #[trigger] final(self).holds_chunk(q) == old(self).holds_chunk(q),
            forall|q: ChunkPos| q != chunk_pos ==> #[trigger] final(self).completed_chunk(q) == old(self).completed_chunk(q),
            forall|q: ChunkPos| (q != chunk_pos || r is Err) && old(self).holds_chunk(q) ==> #[trigger] final(self).held_data(q) == old(self).held_data(q),
            forall|q: ChunkPos| (q != chunk_pos || r is Err) && old(self).completed_chunk(q) ==> #[trigger] final(self).completed_mesh(q) == old(self).completed_mesh(q),
    ;

    /// Advances building by one frame; the player position may steer the
    /// order. Built chunks stay as they are, and the chunks due are built.
    fn update(&mut self, player_pos: ChunkPos)
        requires
            old(self).wf(),
        ensures
            final(self).wf(),
            forall|q: ChunkPos| #[trigger] final(self).holds_chunk(q) == old(self).holds_chunk(q),
            forall|q: ChunkPos| old(self).completed_chunk(q) ==> #[trigger] final(self).completed_chunk(q)
                && final(self).completed_mesh(q) == old(self).completed_mesh(q)
                && final(self).held_data(q) == old(self).held_data(q),
            forall|q: ChunkPos| #[trigger] final(self).completed_chunk(q)
                <==> (old(self).completed_chunk(q) || old(self).completes_on_update(q)),
            forall|q: ChunkPos| !old(self).completed_chunk(q) && #[trigger] old(self).completes_on_update(q)
                ==> final(self).completed_mesh(q) == old(self).update_result(q).0
                && final(self).held_data(q) == old(self).update_result(q).1,
    ;

    /// Removes a chunk from the builder, cancelling its build.
    fn remove_chunk(&mut self, chunk_pos: ChunkPos)
        requires
            old(self).wf(),
        ensures
            final(self).wf(),
            !final(self).holds_chunk(chunk_pos),
            !final(self).completed_chunk(chunk_pos),
            forall|q: ChunkPos| q != chunk_pos ==> #[trigger] final(self).holds_chunk(q) == old(self).holds_chunk(q),
            forall|q: ChunkPos| q != chunk_pos ==> #[trigger] final(self).completed_chunk(q) == old(self).completed_chunk(q),
    ;

    /// Removes all chunks, cancelling all builds.
    fn clear_all(&mut self)
        requires
            old(self).wf(),
        ensures
            final(self).wf(),
            forall|q: ChunkPos| !#[trigger] final(self).holds_chunk(q),
            forall|q: ChunkPos| !#[trigger] final(self).completed_chunk(q),
    ;

    /// Returns all built chunks with their data and removes them from the builder.
    fn poll_completed(&mut self) -> (r: PosMap<(ChunkMesh, T)>)
        requires
            old(self).wf(),
        ensures
            final(self).wf(),
            r.wf(),
            forall|q: ChunkPos| #[trigger] r@.contains_key(q) <==> old(self).completed_chunk(q),
            forall|q: ChunkPos| #[trigger] r@.contains_key(q) ==> old(self).holds_chunk(q)
                && r@[q] == (old(self).completed_mesh(q), old(self).held_data(q)),
            forall|q: ChunkPos| !#[trigger] final(self).completed_chunk(q),
            forall|q: ChunkPos| #[trigger] final(self).holds_chunk(q) ==> old(self).holds_chunk(q),
            forall|q: ChunkPos| #[trigger] r@.contains_key(q) ==> !final(self).holds_chunk(q),
            forall|q: ChunkPos| old(self).holds_chunk(q) && !r@.contains_key(q) ==> #[trigger] final(self).holds_chunk(q),
    ;
}

/// A builder that tracks the latest version of each chunk.
pub trait Versioned<T> {
    /// The builder's internal invariant; none unless an implementation states one.
    open spec fn versioned_wf(&self) -> bool {
        true
    }

    /// Returns true if a chunk is built with its latest version.
    fn is_chunk_with_latest_version_built(&self, chunk_pos: ChunkPos) -> bool
        requires
            self.versioned_wf(),
    ;

    /// Returns the chunk built with its latest version and removes it from
    /// the builder; `None` when no such chunk is built.
    fn take_chunk_built_with_latest_version(&mut self, chunk_pos: ChunkPos) -> (r: Option<(ChunkMesh, T)>)
        requires
            old(self).versioned_wf(),
        ensures
            final(self).versioned_wf(),
    ;
}

} // verus!
