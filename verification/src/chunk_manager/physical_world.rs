//! The chunk states known to the chunk manager.
use vstd::prelude::*;
use crate::types::ChunkPos;
use crate::pos_map::PosMap;
use super::chunk_state::ChunkState;

verus! {

/// States of the chunks the manager tracks; an absent chunk is `Empty`.
pub struct PhysicalWorld {
    pub chunk_states: PosMap<ChunkState>,
}

impl View for PhysicalWorld {
    type V = Map<ChunkPos, ChunkState>;

    open spec fn view(&self) -> Map<ChunkPos, ChunkState> {
        self.chunk_states@
    }
}

/// State of `pos` in a state map: its entry, or `Empty`.
pub open spec fn state_in(states: Map<ChunkPos, ChunkState>, pos: ChunkPos) -> ChunkState {
    if states.contains_key(pos) {
        states[pos]
    } else {
        ChunkState::Empty
    }
}

impl PhysicalWorld {
    /// Well-formedness of the underlying map.
    pub open spec fn wf(&self) -> bool {
        self.chunk_states.wf()
    }

    /// An empty world.
    pub fn new() -> (r: PhysicalWorld)
        ensures
            r.wf(),
            r@ == Map::<ChunkPos, ChunkState>::empty(),
    {
        PhysicalWorld { chunk_states: PosMap::new() }
    }

    /// Records `state` for `pos`.
    pub fn set_chunk_state(&mut self, pos: ChunkPos, state: ChunkState)
        requires
            old(self).wf(),
        ensures
            final(self).wf(),
            final(self)@ == old(self)@.insert(pos, state),
    {
        self.chunk_states.insert(pos, state);
    }

    /// The state of `pos`; `Empty` when it is not tracked.
    pub fn get_chunk_state(&self, pos: ChunkPos) -> (r: ChunkState)
        requires
            self.wf(),
        ensures
            r == state_in(self@, pos),
    {
        match self.chunk_states.get(pos) {
            Some(s) => *s,
            None => ChunkState::Empty,
        }
    }

    /// All tracked positions whose state is `state`, each once.
    pub fn get_chunks_with_state(&self, state: ChunkState) -> (r: Vec<ChunkPos>)
        requires
            self.wf(),
        ensures
            r@.no_duplicates(),
            forall|p: ChunkPos|
                r@.contains(p) <==> (self@.contains_key(p) && self@[p] == state),
    {
        let f = |s: &ChunkState| -> (b: bool)
            ensures
                b == (*s == state),
        {
            *s == state
        };
        self.chunk_states.keys_where(f, Ghost(|s: ChunkState| s == state))
    }

    /// Stops tracking `pos`.
    pub fn remove_chunk(&mut self, pos: ChunkPos)
        requires
            old(self).wf(),
        ensures
            final(self).wf(),
            final(self)@ == old(self)@.remove(pos),
    {
        self.chunk_states.remove(pos);
    }
}

} // verus!
