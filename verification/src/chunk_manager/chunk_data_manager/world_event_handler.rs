//! Decisions on chunk data: which chunks to update, and what each state change asks of the loader.
use vstd::prelude::*;
use crate::types::{Chunk, ChunkPos, air_blocks};
use crate::chunk_manager::chunk_state::{
    ChunkState, ChunkStatus, ChunkTransition, chunk_transition, next_chunk_state,
    lemma_next_state_change_is_supported,
};
use crate::chunk_manager::chunk_state_manager::within_distance;
use crate::chunk_manager::physical_world::state_in;
use super::chunk_storage::ChunkStorage;

verus! {

/// Distances that drive the data manager.
#[derive(Debug, Clone, Copy, PartialEq)]
pub struct WorldEventHandlerConfig {
    /// Horizontal radius (in chunks) within which chunks are loaded.
    pub load_distance: usize,
    /// If true, the engine dynamically loads chunks above and below the player based on vertical position.
    pub dynamic_vertical_loading: bool,
}

/// Requests to the chunk loader.
#[derive(Debug, Clone, Copy, PartialEq, Eq, Structural)]
pub enum ChunkLoaderRequest {
    Load(ChunkPos),
    CancelLoading(ChunkPos),
}

/// Computes chunk statuses relative to the controller position.
pub struct ChunkUpdateHandler {
    pub controller_pos: ChunkPos,
    pub config: WorldEventHandlerConfig,
}

/// The loader request that a transition at `pos` asks for.
pub open spec fn loader_request_for(pos: ChunkPos, transition: ChunkTransition) -> Option<ChunkLoaderRequest> {
    match transition {
        ChunkTransition::EmptyToLoading => Some(ChunkLoaderRequest::Load(pos)),
        ChunkTransition::LoadingToEmpty => Some(ChunkLoaderRequest::CancelLoading(pos)),
        _ => None,
    }
}

impl ChunkUpdateHandler {
    /// A handler for the given controller position.
    pub fn new(controller_pos: ChunkPos, config: WorldEventHandlerConfig) -> (r: Self)
        ensures
            r.controller_pos == controller_pos,
            r.config == config,
    {
        ChunkUpdateHandler { controller_pos, config }
    }

    /// Whether `pos` lies within the load distance of the controller.
    pub open spec fn within_load(&self, pos: ChunkPos) -> bool {
        if self.config.dynamic_vertical_loading {
            pos.within_distance_3d(self.controller_pos, self.config.load_distance as int)
        } else {
            pos.within_distance_2d(self.controller_pos, self.config.load_distance as int)
        }
    }

    /// Whether `pos` lies within `distance_in_chunks` of the controller.
    pub fn is_player_within_distance(&self, pos: ChunkPos, distance_in_chunks: usize) -> (r: bool)
        ensures
            r == (if self.config.dynamic_vertical_loading {
                pos.within_distance_3d(self.controller_pos, distance_in_chunks as int)
            } else {
                pos.within_distance_2d(self.controller_pos, distance_in_chunks as int)
            }),
    {
        match self.config.dynamic_vertical_loading {
            true => pos.is_within_distance(self.controller_pos, distance_in_chunks),
            false => pos.is_within_distance_2d(self.controller_pos, distance_in_chunks),
        }
    }

    /// The status of `pos`: in load distance, and loaded in `storage`.
    pub fn create_chunk_status(&self, pos: ChunkPos, storage: &ChunkStorage) -> (r: ChunkStatus)
        requires
            storage.wf(),
        ensures
            r.is_within_load == self.within_load(pos),
            r.loaded == storage.data().contains_key(pos),
    {
        let is_within_load = self.is_player_within_distance(pos, self.config.load_distance);
        let loaded = storage.is_loaded(pos);
        ChunkStatus { is_within_load, loaded }
    }
}

/// Applies `transition` at `pos` to the storage and returns the request it
/// asks of the loader. A transition to `Loaded` stores an empty chunk.
pub fn process_transition(storage: &mut ChunkStorage, pos: ChunkPos, transition: ChunkTransition) -> (r: Option<ChunkLoaderRequest>)
    requires
        old(storage).wf(),
        transition.from_state() == state_in(old(storage).states(), pos),
    ensures
        final(storage).wf(),
        r == loader_request_for(pos, transition),
        transition.to_state() == ChunkState::Empty ==> final(storage).states() == old(storage).states().remove(pos)
            && final(storage).data() == old(storage).data().remove(pos),
        transition.to_state() == ChunkState::Loading ==> final(storage).states() == old(storage).states().insert(pos, ChunkState::Loading)
            && final(storage).data() == old(storage).data(),
        transition.to_state() == ChunkState::Loaded ==> final(storage).states() == old(storage).states().insert(pos, ChunkState::Loaded)
            && final(storage).data() == old(storage).data().insert(pos, final(storage).data()[pos])
            && final(storage).data()[pos]@ == air_blocks(),
{
    match transition.to() {
        ChunkState::Loaded => {
            storage.load(pos, Chunk::empty());
        },
        _ => {
            storage.change_state(pos, transition);
        },
    }
    match transition {
        ChunkTransition::EmptyToLoading => Some(ChunkLoaderRequest::Load(pos)),
        ChunkTransition::LoadingToEmpty => Some(ChunkLoaderRequest::CancelLoading(pos)),
        ChunkTransition::LoadingToLoaded => None,
        ChunkTransition::LoadedToEmpty => None,
    }
}

/// Moves the state of `pos` one step under its current status, and returns
/// the request that step asks of the loader.
pub fn process_state_update_request(handler: &ChunkUpdateHandler, storage: &mut ChunkStorage, pos: ChunkPos) -> (r: Option<ChunkLoaderRequest>)
    requires
        old(storage).wf(),
    ensures
        final(storage).wf(),
        ({
            let prev = state_in(old(storage).states(), pos);
            let status = ChunkStatus {
                is_within_load: handler.within_load(pos),
                loaded: old(storage).data().contains_key(pos),
            };
            let next = next_chunk_state(prev, status);
            &&& state_in(final(storage).states(), pos) == next
            &&& forall|q: ChunkPos| q != pos ==> (#[trigger] final(storage).states().contains_key(q) == old(storage).states().contains_key(q)
                && (old(storage).states().contains_key(q) ==> final(storage).states()[q] == old(storage).states()[q]))
            &&& forall|q: ChunkPos| q != pos ==> (#[trigger] final(storage).data().contains_key(q) == old(storage).data().contains_key(q)
                && (old(storage).data().contains_key(q) ==> final(storage).data()[q] == old(storage).data()[q]))
            &&& r == (if next == prev { None } else { loader_request_for(pos, chunk_transition(prev, next)->0) })
        }),
{
    let chunk_status = handler.create_chunk_status(pos, storage);
    let prev_state = storage.get_chunk_state(pos);
    let next_state = prev_state.get_next_chunk_state(chunk_status);
    let transition = prev_state.get_chunk_transition(next_state);
    proof {
        lemma_next_state_change_is_supported(prev_state, chunk_status);
    }
    match transition {
        Some(t) => process_transition(storage, pos, t),
        None => None,
    }
}

/// The positions to update after a frame's events: every loaded position
/// and every requested one, each once.
pub fn collect_chunks_to_update(loaded: &Vec<ChunkPos>, requested: &Vec<ChunkPos>) -> (r: Vec<ChunkPos>)
    ensures
        r@.no_duplicates(),
        forall|p: ChunkPos| r@.contains(p) <==> (loaded@.contains(p) || requested@.contains(p)),
{
    let mut out: Vec<ChunkPos> = Vec::new();
    let mut i: usize = 0;
    while i < loaded.len()
        invariant
            i <= loaded@.len(),
            out@.no_duplicates(),
            forall|p: ChunkPos| out@.contains(p) <==> loaded@.subrange(0, i as int).contains(p),
        decreases loaded@.len() - i,
    {
        let p = loaded[i];
        push_unique(&mut out, p);
        proof {
            let s0 = loaded@.subrange(0, i as int);
            assert(loaded@.subrange(0, i + 1) =~= s0.push(p));
            assert forall|q: ChunkPos| s0.push(p).contains(q) <==> (s0.contains(q) || q == p) by {
                if s0.push(p).contains(q) {
                    let m = choose|m: int| 0 <= m < s0.len() + 1 && s0.push(p)[m] == q;
                    if m < s0.len() {
                        assert(s0[m] == q);
                    }
                }
                if s0.contains(q) {
                    let m = choose|m: int| 0 <= m < s0.len() && s0[m] == q;
                    assert(s0.push(p)[m] == q);
                }
                if q == p {
                    assert(s0.push(p)[s0.len() as int] == q);
                }
            }
        }
        i = i + 1;
    }
    proof {
        assert(loaded@.subrange(0, i as int) =~= loaded@);
    }
    let mut j: usize = 0;
    while j < requested.len()
        invariant
            j <= requested@.len(),
            out@.no_duplicates(),
            forall|p: ChunkPos| out@.contains(p) <==> (loaded@.contains(p) || requested@.subrange(0, j as int).contains(p)),
        decreases requested@.len() - j,
    {
        let p = requested[j];
        push_unique(&mut out, p);
        proof {
            let s0 = requested@.subrange(0, j as int);
            assert(requested@.subrange(0, j + 1) =~= s0.push(p));
            assert forall|q: ChunkPos| s0.push(p).contains(q) <==> (s0.contains(q) || q == p) by {
                if s0.push(p).contains(q) {
                    let m = choose|m: int| 0 <= m < s0.len() + 1 && s0.push(p)[m] == q;
                    if m < s0.len() {
                        assert(s0[m] == q);
                    }
                }
                if s0.contains(q) {
                    let m = choose|m: int| 0 <= m < s0.len() && s0[m] == q;
                    assert(s0.push(p)[m] == q);
                }
                if q == p {
                    assert(s0.push(p)[s0.len() as int] == q);
                }
            }
        }
        j = j + 1;
    }
    proof {
        assert(requested@.subrange(0, j as int) =~= requested@);
    }
    out
}

/// Appends `p` unless it is already present.
fn push_unique(out: &mut Vec<ChunkPos>, p: ChunkPos)
    requires
        old(out)@.no_duplicates(),
    ensures
        final(out)@.no_duplicates(),
        forall|q: ChunkPos| final(out)@.contains(q) <==> (old(out)@.contains(q) || q == p),
{
    let mut k: usize = 0;
    while k < out.len()
        invariant
            k <= out@.len(),
            out@ == old(out)@,
            old(out)@.no_duplicates(),
            forall|m: int| 0 <= m < k ==> out@[m] != p,
        decreases out@.len() - k,
    {
        if out[k] == p {
            proof {
                assert forall|q: ChunkPos| out@.contains(q) <==> (old(out)@.contains(q) || q == p) by {
                    if q == p {
                        assert(out@[k as int] == q);
                    }
                }
            }
            return;
        }
        k = k + 1;
    }
    out.push(p);
    proof {
        assert forall|q: ChunkPos| out@.contains(q) <==> (old(out)@.contains(q) || q == p) by {
            if out@.contains(q) {
                let m = choose|m: int| 0 <= m < out@.len() && out@[m] == q;
                if m < old(out)@.len() {
                    assert(old(out)@[m] == q);
                }
            }
            if old(out)@.contains(q) {
                let m = choose|m: int| 0 <= m < old(out)@.len() && old(out)@[m] == q;
                assert(out@[m] == q);
            }
            if q == p {
                assert(out@[out@.len() - 1] == q);
            }
        }
    }
}

} // verus!
