//! Storage of chunk data together with each chunk's state.
use vstd::prelude::*;
use crate::types::{Chunk, ChunkPos};
use crate::pos_map::PosMap;
use crate::chunk_manager::chunk_state::{ChunkState, ChunkTransition, chunk_transition};
use crate::chunk_manager::physical_world::state_in;

verus! {

/// Storage of chunk data and its state.
///
/// A chunk's data is stored exactly when its state is `Loaded`, and an
/// `Empty` chunk has no entry at all.
pub struct ChunkStorage {
    chunks: PosMap<Chunk>,
    chunk_states: PosMap<ChunkState>,
}

impl ChunkStorage {
    /// The recorded states.
    pub closed spec fn states(&self) -> Map<ChunkPos, ChunkState> {
        self.chunk_states@
    }

    /// The stored chunk data.
    pub closed spec fn data(&self) -> Map<ChunkPos, Chunk> {
        self.chunks@
    }

    /// The storage invariant.
    pub closed spec fn wf(&self) -> bool {
        &&& self.chunks.wf()
        &&& self.chunk_states.wf()
        &&& forall|p: ChunkPos| #[trigger] self.chunks@.contains_key(p) <==> (
            self.chunk_states@.contains_key(p) && self.chunk_states@[p] == ChunkState::Loaded)
        &&& forall|p: ChunkPos| #[trigger] self.chunk_states@.contains_key(p)
            ==> self.chunk_states@[p] != ChunkState::Empty
    }

    /// An empty storage.
    pub fn new() -> (r: ChunkStorage)
        ensures
            r.wf(),
            r.states() == Map::<ChunkPos, ChunkState>::empty(),
            r.data() == Map::<ChunkPos, Chunk>::empty(),
    {
        ChunkStorage { chunks: PosMap::new(), chunk_states: PosMap::new() }
    }

    /// Returns true if the chunk is in storage and its state is `Loaded`.
    pub fn is_loaded(&self, pos: ChunkPos) -> (r: bool)
        requires
            self.wf(),
        ensures
            r == self.data().contains_key(pos),
            r == (state_in(self.states(), pos) == ChunkState::Loaded),
    {
        let chunk_in_storage = self.contains_chunk(pos);
        let state_is_loaded = match self.get_chunk_state(pos) {
            ChunkState::Loaded => true,
            _ => false,
        };
        chunk_in_storage && state_is_loaded
    }

    /// Inserts the chunk; the chunk must be `Loading`, the only state with a
    /// transition to `Loaded`.
    pub fn load(&mut self, pos: ChunkPos, chunk: Chunk)
        requires
            old(self).wf(),
            chunk_transition(state_in(old(self).states(), pos), ChunkState::Loaded) is Some,
        ensures
            final(self).wf(),
            final(self).states() == old(self).states().insert(pos, ChunkState::Loaded),
            final(self).data() == old(self).data().insert(pos, chunk),
    {
        self.chunk_states.insert(pos, ChunkState::Loaded);
        self.chunks.insert(pos, chunk);
    }

    /// Carries out `transition` at `pos`: the chunk must be in the
    /// transition's source state, and the transition may not lead to
    /// `Loaded` (use `load` for that). A transition to `Empty` removes the chunk.
    pub fn change_state(&mut self, pos: ChunkPos, transition: ChunkTransition)
        requires
            old(self).wf(),
            transition.from_state() == state_in(old(self).states(), pos),
            transition.to_state() != ChunkState::Loaded,
        ensures
            final(self).wf(),
            transition.to_state() == ChunkState::Empty ==> final(self).states() == old(
                self,
            ).states().remove(pos) && final(self).data() == old(self).data().remove(pos),
            transition.to_state() != ChunkState::Empty ==> final(self).states() == old(
                self,
            ).states().insert(pos, transition.to_state()) && final(self).data() == old(
                self,
            ).data(),
    {
        let to = transition.to();
        match to {
            ChunkState::Empty => {
                self.remove_chunk(pos);
            },
            _ => {
                self.chunk_states.insert(pos, to);
                proof {
                    assert(!self.chunks@.contains_key(pos));
                }
            },
        }
    }

    /// Returns the chunk state, `Empty` when the chunk is not recorded.
    pub fn get_chunk_state(&self, pos: ChunkPos) -> (r: ChunkState)
        requires
            self.wf(),
        ensures
            r == state_in(self.states(), pos),
    {
        match self.chunk_states.get(pos) {
            Some(s) => *s,
            None => ChunkState::Empty,
        }
    }

    /// The stored data of `pos`, if loaded.
    pub fn get_chunk(&self, pos: ChunkPos) -> (r: Option<&Chunk>)
        requires
            self.wf(),
        ensures
            match r {
                Some(c) => self.data().contains_key(pos) && *c == self.data()[pos],
                None => !self.data().contains_key(pos),
            },
    {
        self.chunks.get(pos)
    }

    /// Whether data of `pos` is stored.
    pub fn contains_chunk(&self, pos: ChunkPos) -> (r: bool)
        requires
            self.wf(),
        ensures
            r == self.data().contains_key(pos),
    {
        self.chunks.contains_key(pos)
    }

    /// All recorded positions whose state is `state`, each once.
    pub fn get_chunks_with_state(&self, state: ChunkState) -> (r: Vec<ChunkPos>)
        requires
            self.wf(),
        ensures
            r@.no_duplicates(),
            forall|p: ChunkPos|
                r@.contains(p) <==> (self.states().contains_key(p) && self.states()[p] == state),
    {
        proof {
            self.chunk_states.lemma_wf();
        }
        let ghost es = self.chunk_states.entry_seq();
        let mut out: Vec<ChunkPos> = Vec::new();
        let n = self.chunk_states.entry_count();
        let mut i: usize = 0;
        while i < n
            invariant
                n == es.len(),
                es == self.chunk_states.entry_seq(),
                i <= n,
                out@.no_duplicates(),
                forall|k: int| #![trigger out@[k]] 0 <= k < out@.len() ==> exists|j: int| 0 <= j < i && #[trigger] es[j].0 == out@[k],
                forall|p: ChunkPos|
                    out@.contains(p) <==> exists|j: int|
                        0 <= j < i && #[trigger] es[j].0 == p && es[j].1 == state,
                forall|a: int, b: int| 0 <= a < es.len() && 0 <= b < es.len() && a != b ==> #[trigger] es[a].0 != #[trigger] es[b].0,
            decreases n - i,
        {
            let key = self.chunk_states.key_at(i);
            let value = self.chunk_states.value_at(i);
            if *value == state {
                let ghost old_out = out@;
                proof {
                    assert forall|k: int| 0 <= k < old_out.len() implies old_out[k] != key by {
                        let j = choose|j: int| 0 <= j < i && #[trigger] es[j].0 == old_out[k];
                        assert(es[i as int].0 == key);
                    }
                }
                out.push(key);
                proof {
                    assert(out@ == old_out.push(key));
                    assert forall|p: ChunkPos|
                        out@.contains(p) <==> exists|j: int|
                            0 <= j < i + 1 && #[trigger] es[j].0 == p && es[j].1 == state by {
                        if out@.contains(p) {
                            let k = choose|k: int| 0 <= k < out@.len() && out@[k] == p;
                            if k == out@.len() - 1 {
                                assert(es[i as int].0 == p);
                            } else {
                                assert(old_out[k] == p);
                                assert(old_out.contains(p));
                            }
                        }
                        if exists|j: int| 0 <= j < i + 1 && #[trigger] es[j].0 == p && es[j].1 == state {
                            let j = choose|j: int| 0 <= j < i + 1 && #[trigger] es[j].0 == p && es[j].1 == state;
                            if j == i {
                                assert(out@[out@.len() - 1] == p);
                            } else {
                                assert(old_out.contains(p));
                                let k = choose|k: int| 0 <= k < old_out.len() && #[trigger] old_out[k] == p;
                                assert(out@[k] == p);
                            }
                        }
                    }
                    assert forall|k: int| #![trigger out@[k]] 0 <= k < out@.len() implies exists|j: int| 0 <= j < i + 1 && #[trigger] es[j].0 == out@[k] by {
                        if k == out@.len() - 1 {
                            assert(es[i as int].0 == out@[k]);
                        } else {
                            assert(out@[k] == old_out[k]);
                            let j = choose|j: int| 0 <= j < i && #[trigger] es[j].0 == old_out[k];
                            assert(es[j].0 == out@[k]);
                        }
                    }
                }
            }
            i = i + 1;
        }
        proof {
            assert forall|p: ChunkPos|
                out@.contains(p) <==> (self.states().contains_key(p) && self.states()[p] == state) by {
                if self.states().contains_key(p) {
                    let j = choose|j: int| 0 <= j < es.len() && #[trigger] es[j].0 == p;
                    assert(self.chunk_states@[es[j].0] == es[j].1);
                }
                if out@.contains(p) {
                    let j = choose|j: int| 0 <= j < n && #[trigger] es[j].0 == p && es[j].1 == state;
                    assert(self.chunk_states@.contains_key(es[j].0));
                }
            }
        }
        out
    }

    /// All recorded positions, each once.
    pub fn get_all_chunks(&self) -> (r: Vec<ChunkPos>)
        requires
            self.wf(),
        ensures
            r@.no_duplicates(),
            r@.to_set() == self.states().dom(),
    {
        self.chunk_states.keys()
    }

    /// Removes the chunk; it must be `Loading` or `Loaded`, the states with a
    /// transition to `Empty`.
    fn remove_chunk(&mut self, pos: ChunkPos)
        requires
            old(self).wf(),
            chunk_transition(state_in(old(self).states(), pos), ChunkState::Empty) is Some,
        ensures
            final(self).wf(),
            final(self).states() == old(self).states().remove(pos),
            final(self).data() == old(self).data().remove(pos),
    {
        self.chunks.remove(pos);
        self.chunk_states.remove(pos);
    }
}

/// The data of a chunk is stored exactly when its state is `Loaded`; this is
/// what makes `is_loaded` consistent.
pub proof fn lemma_data_matches_loaded_state(storage: &ChunkStorage, pos: ChunkPos)
    requires
        storage.wf(),
    ensures
        storage.data().contains_key(pos) <==> state_in(storage.states(), pos) == ChunkState::Loaded,
        storage.states().contains_key(pos) ==> storage.states()[pos] != ChunkState::Empty,
{
}

} // verus!
