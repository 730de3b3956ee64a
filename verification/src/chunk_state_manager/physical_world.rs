//! The client's copy of the world: chunk data, meshes, states and mesh versions.
use vstd::prelude::*;
use crate::types::{Chunk, ChunkPos};
use crate::pos_map::PosMap;
use crate::chunk_mesh_builder::chunk_mesh::ChunkMesh;
use crate::chunk_mesh_builder::builders::versioned_chunk_builder::{version_in, next_version};
use super::chunk_state::ChunkState;

verus! {

/// Version of a chunk's mesh.
pub type Version = u64;

/// State of `pos` in a state map: its entry, or `Empty`.
pub open spec fn state_of(states: Map<ChunkPos, ChunkState>, pos: ChunkPos) -> ChunkState {
    if states.contains_key(pos) {
        states[pos]
    } else {
        ChunkState::Empty
    }
}

/// Chunk data, meshes, states, mesh versions and pending rebuilds by position.
pub struct PhysicalWorld {
    chunks: PosMap<Chunk>,
    chunk_meshes: PosMap<ChunkMesh>,
    chunk_states: PosMap<ChunkState>,
    chunk_mesh_versions: PosMap<Version>,
    chunks_need_rebuild: PosMap<()>,
}

impl PhysicalWorld {
    /// Loaded chunk data.
    pub closed spec fn chunks(&self) -> Map<ChunkPos, Chunk> {
        self.chunks@
    }

    /// Built meshes.
    pub closed spec fn meshes(&self) -> Map<ChunkPos, ChunkMesh> {
        self.chunk_meshes@
    }

    /// Recorded chunk states.
    pub closed spec fn states(&self) -> Map<ChunkPos, ChunkState> {
        self.chunk_states@
    }

    /// Latest mesh version per chunk.
    pub closed spec fn versions(&self) -> Map<ChunkPos, Version> {
        self.chunk_mesh_versions@
    }

    /// Chunks whose mesh must be rebuilt.
    pub closed spec fn rebuilds(&self) -> Set<ChunkPos> {
        self.chunks_need_rebuild@.dom()
    }

    /// State of `pos`; `Empty` when none is recorded.
    pub open spec fn state(&self, pos: ChunkPos) -> ChunkState {
        state_of(self.states(), pos)
    }

    /// Well-formedness of the underlying maps.
    pub closed spec fn wf(&self) -> bool {
        &&& self.chunks.wf()
        &&& self.chunk_meshes.wf()
        &&& self.chunk_states.wf()
        &&& self.chunk_mesh_versions.wf()
        &&& self.chunks_need_rebuild.wf()
    }

    /// Whether `other` differs from `self` in nothing but the mesh table.
    pub open spec fn same_but_meshes(&self, other: &PhysicalWorld) -> bool {
        &&& other.chunks() == self.chunks()
        &&& other.states() == self.states()
        &&& other.versions() == self.versions()
        &&& other.rebuilds() == self.rebuilds()
    }

    /// An empty world.
    pub fn new() -> (r: PhysicalWorld)
        ensures
            r.wf(),
            r.chunks() == Map::<ChunkPos, Chunk>::empty(),
            r.meshes() == Map::<ChunkPos, ChunkMesh>::empty(),
            r.states() == Map::<ChunkPos, ChunkState>::empty(),
            r.versions() == Map::<ChunkPos, Version>::empty(),
            r.rebuilds() == Set::<ChunkPos>::empty(),
    {
        PhysicalWorld {
            chunks: PosMap::new(),
            chunk_meshes: PosMap::new(),
            chunk_states: PosMap::new(),
            chunk_mesh_versions: PosMap::new(),
            chunks_need_rebuild: PosMap::new(),
        }
    }

    /// Stores the mesh of `pos`.
    pub fn add_chunk_mesh(&mut self, pos: ChunkPos, chunk_mesh: ChunkMesh)
        requires
            old(self).wf(),
        ensures
            final(self).wf(),
            final(self).meshes() == old(self).meshes().insert(pos, chunk_mesh),
            old(self).same_but_meshes(&*final(self)),
    {
        self.chunk_meshes.insert(pos, chunk_mesh);
    }

    /// The mesh of `pos`, if one is stored.
    pub fn get_chunk_mesh(&self, pos: ChunkPos) -> (r: Option<&ChunkMesh>)
        requires
            self.wf(),
        ensures
            match r {
                Some(m) => self.meshes().contains_key(pos) && *m == self.meshes()[pos],
                None => !self.meshes().contains_key(pos),
            },
    {
        self.chunk_meshes.get(pos)
    }

    /// Drops the mesh of `pos`.
    pub fn remove_chunk_mesh(&mut self, pos: ChunkPos)
        requires
            old(self).wf(),
        ensures
            final(self).wf(),
            final(self).meshes() == old(self).meshes().remove(pos),
            old(self).same_but_meshes(&*final(self)),
    {
        self.chunk_meshes.remove(pos);
    }

    /// Records `state` for `pos`.
    pub fn set_chunk_state(&mut self, pos: ChunkPos, state: ChunkState)
        requires
            old(self).wf(),
        ensures
            final(self).wf(),
            final(self).states() == old(self).states().insert(pos, state),
            final(self).chunks() == old(self).chunks(),
            final(self).meshes() == old(self).meshes(),
            final(self).versions() == old(self).versions(),
            final(self).rebuilds() == old(self).rebuilds(),
    {
        self.chunk_states.insert(pos, state);
    }

    /// The state of `pos`; `Empty` when none is recorded.
    pub fn get_chunk_state(&self, pos: ChunkPos) -> (r: ChunkState)
        requires
            self.wf(),
        ensures
            r == self.state(pos),
    {
        match self.chunk_states.get(pos) {
            Some(s) => *s,
            None => ChunkState::Empty,
        }
    }

    /// Whether a state is recorded for `pos`.
    pub fn has_chunk_state(&self, pos: ChunkPos) -> (r: bool)
        requires
            self.wf(),
        ensures
            r == self.states().contains_key(pos),
    {
        self.chunk_states.contains_key(pos)
    }

    /// Advances the mesh version of `pos` (a chunk never versioned gets 1,
    /// and the version wraps around) and returns it.
    pub fn increment_chunk_mesh_version(&mut self, pos: ChunkPos) -> (r: Version)
        requires
            old(self).wf(),
        ensures
            final(self).wf(),
            r == next_version(version_in(old(self).versions(), pos)),
            final(self).versions() == old(self).versions().insert(pos, r),
            final(self).chunks() == old(self).chunks(),
            final(self).meshes() == old(self).meshes(),
            final(self).states() == old(self).states(),
            final(self).rebuilds() == old(self).rebuilds(),
    {
        let incremented_version = match self.chunk_mesh_versions.get(pos) {
            Some(v) => v.wrapping_add(1),
            None => 1,
        };
        self.chunk_mesh_versions.insert(pos, incremented_version);
        incremented_version
    }

    /// The mesh version of `pos`; 0 when it was never versioned.
    pub fn get_chunk_mesh_version(&self, pos: ChunkPos) -> (r: Version)
        requires
            self.wf(),
        ensures
            r == version_in(self.versions(), pos),
    {
        match self.chunk_mesh_versions.get(pos) {
            Some(v) => *v,
            None => 0,
        }
    }

    /// Marks the mesh of `pos` as outdated.
    pub fn set_chunk_need_rebuild(&mut self, pos: ChunkPos)
        requires
            old(self).wf(),
        ensures
            final(self).wf(),
            final(self).rebuilds() == old(self).rebuilds().insert(pos),
            final(self).chunks() == old(self).chunks(),
            final(self).meshes() == old(self).meshes(),
            final(self).states() == old(self).states(),
            final(self).versions() == old(self).versions(),
    {
        self.chunks_need_rebuild.insert(pos, ());
    }

    /// Whether the mesh of `pos` is outdated.
    pub fn get_chunk_need_rebuild(&self, pos: ChunkPos) -> (r: bool)
        requires
            self.wf(),
        ensures
            r == self.rebuilds().contains(pos),
    {
        self.chunks_need_rebuild.contains_key(pos)
    }

    /// Clears the outdated mark of `pos`.
    pub fn remove_chunk_need_rebuild(&mut self, pos: ChunkPos)
        requires
            old(self).wf(),
        ensures
            final(self).wf(),
            final(self).rebuilds() == old(self).rebuilds().remove(pos),
            final(self).chunks() == old(self).chunks(),
            final(self).meshes() == old(self).meshes(),
            final(self).states() == old(self).states(),
            final(self).versions() == old(self).versions(),
    {
        self.chunks_need_rebuild.remove(pos);
    }

    /// All positions whose recorded state is `state`, each once.
    pub fn get_chunks_with_state(&self, state: ChunkState) -> (r: Vec<ChunkPos>)
        requires
            self.wf(),
        ensures
            r@.no_duplicates(),
            forall|p: ChunkPos| r@.contains(p) <==> (self.states().contains_key(p) && self.states()[p] == state),
    {
        let f = |s: &ChunkState| -> (b: bool)
            ensures
                b == (*s == state),
        {
            *s == state
        };
        self.chunk_states.keys_where(f, Ghost(|s: ChunkState| s == state))
    }

    /// All positions with a recorded state, each once.
    pub fn get_chunks_with_any_state(&self) -> (r: Vec<ChunkPos>)
        requires
            self.wf(),
        ensures
            r@.no_duplicates(),
            r@.to_set() == self.states().dom(),
    {
        self.chunk_states.keys()
    }

    /// Stores the data of `pos`.
    pub fn set_chunk(&mut self, pos: ChunkPos, new_chunk: Chunk)
        requires
            old(self).wf(),
        ensures
            final(self).wf(),
            final(self).chunks() == old(self).chunks().insert(pos, new_chunk),
            final(self).meshes() == old(self).meshes(),
            final(self).states() == old(self).states(),
            final(self).versions() == old(self).versions(),
            final(self).rebuilds() == old(self).rebuilds(),
    {
        self.chunks.insert(pos, new_chunk);
    }

    /// Forgets the data, mesh, state and mesh version of `pos` (an outdated
    /// mark stays).
    pub fn remove_chunk(&mut self, pos: ChunkPos)
        requires
            old(self).wf(),
        ensures
            final(self).wf(),
            final(self).chunks() == old(self).chunks().remove(pos),
            final(self).meshes() == old(self).meshes().remove(pos),
            final(self).states() == old(self).states().remove(pos),
            final(self).versions() == old(self).versions().remove(pos),
            final(self).rebuilds() == old(self).rebuilds(),
    {
        self.chunk_meshes.remove(pos);
        self.chunk_states.remove(pos);
        self.chunk_mesh_versions.remove(pos);
        self.chunks.remove(pos);
    }

    /// Forgets only the data of `pos`.
    pub fn remove_chunk_data(&mut self, pos: ChunkPos)
        requires
            old(self).wf(),
        ensures
            final(self).wf(),
            final(self).chunks() == old(self).chunks().remove(pos),
            final(self).meshes() == old(self).meshes(),
            final(self).states() == old(self).states(),
            final(self).versions() == old(self).versions(),
            final(self).rebuilds() == old(self).rebuilds(),
    {
        self.chunks.remove(pos);
    }

    /// The data of `pos`, if loaded.
    pub fn get_chunk(&self, pos: ChunkPos) -> (r: Option<&Chunk>)
        requires
            self.wf(),
        ensures
            match r {
                Some(c) => self.chunks().contains_key(pos) && *c == self.chunks()[pos],
                None => !self.chunks().contains_key(pos),
            },
    {
        self.chunks.get(pos)
    }
}

} // verus!
