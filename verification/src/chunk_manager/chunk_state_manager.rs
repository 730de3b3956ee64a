//! Keeps the chunk states in step with the controller position.
use vstd::prelude::*;
use crate::types::{Chunk, ChunkPos};
use crate::pos_map::PosMap;
use super::chunk_state::{
    ChunkState, ChunkStatus, ChunkTransition, chunk_transition, get_chunk_transition,
    get_next_chunk_state, next_chunk_state, lemma_next_state_change_is_supported,
};
use super::physical_world::{PhysicalWorld, state_in};

verus! {

/// Distances that drive the chunk manager.
#[derive(Debug, Clone, Copy, PartialEq)]
pub struct Config {
    /// Horizontal radius (in chunks) within which chunks are loaded.
    pub load_distance: usize,
    /// Horizontal radius (in chunks) within which chunks are rendered.
    pub render_distance: usize,
    /// If true, the engine dynamically loads chunks above and below the player based on vertical position.
    pub dynamic_vertical_loading: bool,
}

impl Config {
    /// A configuration with vertical loading off; the render distance may not
    /// exceed the load distance.
    pub fn new(load_distance: usize, render_distance: usize) -> (r: Config)
        requires
            render_distance <= load_distance,
        ensures
            r == (Config { load_distance, render_distance, dynamic_vertical_loading: false }),
    {
        Config { load_distance, render_distance, dynamic_vertical_loading: false }
    }
}

/// The chunk position of the controller (the player).
pub struct ControllerPos(pub ChunkPos);

/// Whether `pos` lies within `distance` chunks of `controller` under `config`.
pub open spec fn within_distance(
    config: Config,
    pos: ChunkPos,
    distance: int,
    controller: ChunkPos,
) -> bool {
    if config.dynamic_vertical_loading {
        pos.within_distance_3d(controller, distance)
    } else {
        pos.within_distance_2d(controller, distance)
    }
}

/// The state a chunk inside the load distance settles in.
pub open spec fn settled_state(s: ChunkState, loaded: bool) -> ChunkState {
    if s == ChunkState::Loaded || loaded {
        ChunkState::Loaded
    } else {
        ChunkState::Loading
    }
}

/// Number of state changes left before a chunk settles.
pub open spec fn steps_left(s: ChunkState, within: bool, loaded: bool) -> int {
    if within {
        match s {
            ChunkState::Empty => if loaded { 2 } else { 1 },
            ChunkState::Loading => if loaded { 1 } else { 0 },
            ChunkState::Loaded => 0,
        }
    } else {
        match s {
            ChunkState::Empty => 0,
            _ => 1,
        }
    }
}

/// Upper bound on state changes in one update of a chunk.
const MAX_ITERATIONS: u32 = 16;

/// Manages chunk states dependent on the controller position.
pub struct ChunkManager {
    world: PhysicalWorld,
    config: Config,
}

impl ChunkManager {
    /// Well-formedness of the tracked states.
    pub closed spec fn wf(&self) -> bool {
        self.world.wf()
    }

    /// The tracked chunk states.
    pub closed spec fn states(&self) -> Map<ChunkPos, ChunkState> {
        self.world@
    }

    /// The configuration.
    pub closed spec fn spec_config(&self) -> Config {
        self.config
    }

    /// Whether `pos` lies in the load distance of `controller`.
    pub open spec fn within_load(&self, pos: ChunkPos, controller: ChunkPos) -> bool {
        within_distance(self.spec_config(), pos, self.spec_config().load_distance as int, controller)
    }

    /// The states after an update for `controller`: chunks outside the load
    /// distance are dropped, the others settle.
    pub open spec fn updated_states(
        &self,
        chunks: Map<ChunkPos, Chunk>,
        controller: ChunkPos,
    ) -> Map<ChunkPos, ChunkState> {
        Map::new(
            |p: ChunkPos| self.states().contains_key(p) && self.within_load(p, controller),
            |p: ChunkPos| settled_state(self.states()[p], chunks.contains_key(p)),
        )
    }

    /// The chunks after an update for `controller`: those of tracked
    /// positions outside the load distance are dropped.
    pub open spec fn updated_chunks(
        &self,
        chunks: Map<ChunkPos, Chunk>,
        controller: ChunkPos,
    ) -> Map<ChunkPos, Chunk> {
        chunks.remove_keys(
            self.states().dom().filter(|p: ChunkPos| !self.within_load(p, controller)),
        )
    }

    /// A manager with no tracked chunks.
    pub fn new(config: Config) -> (r: ChunkManager)
        ensures
            r.wf(),
            r.states() == Map::<ChunkPos, ChunkState>::empty(),
            r.spec_config() == config,
    {
        ChunkManager { world: PhysicalWorld::new(), config }
    }

    /// Updates the controller position and, if it changed, the chunk states.
    pub fn update_controller_pos(
        &mut self,
        controller_pos: &mut ControllerPos,
        new_controller_pos: ChunkPos,
        chunks: &mut PosMap<Chunk>,
    )
        requires
            old(self).wf(),
            old(chunks).wf(),
        ensures
            final(self).wf(),
            final(chunks).wf(),
            final(self).spec_config() == old(self).spec_config(),
            final(controller_pos).0 == new_controller_pos,
            new_controller_pos == old(controller_pos).0 ==> final(self).states() == old(
                self,
            ).states() && final(chunks)@ == old(chunks)@,
            new_controller_pos != old(controller_pos).0 ==> final(self).states() == old(
                self,
            ).updated_states(old(chunks)@, new_controller_pos) && final(chunks)@ == old(
                self,
            ).updated_chunks(old(chunks)@, new_controller_pos),
    {
        if new_controller_pos != controller_pos.0 {
            controller_pos.0 = new_controller_pos;
            self.update_chunk_states_in_world(chunks, controller_pos);
        }
    }

    /// The tracked chunk states.
    pub fn get_world(&self) -> (r: &PhysicalWorld)
        ensures
            r@ == self.states(),
            r.wf() == self.wf(),
    {
        &self.world
    }

    fn update_chunk_states_in_world(&mut self, chunks: &mut PosMap<Chunk>, controller_pos: &ControllerPos)
        requires
            old(self).wf(),
            old(chunks).wf(),
        ensures
            final(self).wf(),
            final(chunks).wf(),
            final(self).spec_config() == old(self).spec_config(),
            final(self).states() == old(self).updated_states(old(chunks)@, controller_pos.0),
            final(chunks)@ == old(self).updated_chunks(old(chunks)@, controller_pos.0),
    {
        let ghost old_states = self.world@;
        let ghost old_chunks = chunks@;
        let ghost c = controller_pos.0;
        // Update all existing chunks in the world.
        let chunks_in_world: Vec<ChunkPos> = self.world.chunk_states.keys();
        let ghost ks = chunks_in_world@;
        let mut i: usize = 0;
        while i < chunks_in_world.len()
            invariant
                self.wf(),
                chunks.wf(),
                self.config == old(self).config,
                c == controller_pos.0,
                old_states == old(self).world@,
                old_chunks == old(chunks)@,
                ks == chunks_in_world@,
                ks.no_duplicates(),
                ks.to_set() == old_states.dom(),
                0 <= i <= ks.len(),
                self.world@.dom() == old_states.dom(),
                forall|p: ChunkPos| #[trigger] self.world@.contains_key(p) ==> {
                    let processed = exists|j: int| 0 <= j < i && ks[j] == p;
                    if processed {
                        if self.within_load(p, c) {
                            self.world@[p] == settled_state(old_states[p], old_chunks.contains_key(p))
                        } else {
                            self.world@[p] == ChunkState::Empty
                        }
                    } else {
                        self.world@[p] == old_states[p]
                    }
                },
                forall|p: ChunkPos| #[trigger] chunks@.contains_key(p) ==> old_chunks.contains_key(p) && chunks@[p] == old_chunks[p],
                forall|p: ChunkPos| #[trigger] old_chunks.contains_key(p) && !(old_states.contains_key(p) && !self.within_load(p, c)) ==> chunks@.contains_key(p),
            decreases ks.len() - i,
        {
            let pos = chunks_in_world[i];
            proof {
                assert(ks.to_set().contains(pos));
                assert forall|j: int| 0 <= j < i implies ks[j] != pos by {}
            }
            self.update_chunk_state(pos, chunks, controller_pos);
            proof {
                assert forall|p: ChunkPos| #[trigger] self.world@.contains_key(p) implies {
                    let processed = exists|j: int| 0 <= j < i + 1 && ks[j] == p;
                    if processed {
                        if self.within_load(p, c) {
                            self.world@[p] == settled_state(old_states[p], old_chunks.contains_key(p))
                        } else {
                            self.world@[p] == ChunkState::Empty
                        }
                    } else {
                        self.world@[p] == old_states[p]
                    }
                } by {
                    if p == pos {
                        assert(ks[i as int] == p);
                    } else {
                        if exists|j: int| 0 <= j < i + 1 && ks[j] == p {
                            let j = choose|j: int| 0 <= j < i + 1 && ks[j] == p;
                            assert(j != i);
                        }
                    }
                }
            }
            i = i + 1;
        }
        // Remove all chunks that are still empty.
        let empty_chunks_in_world: Vec<ChunkPos> = self.world.get_chunks_with_state(ChunkState::Empty);
        let ghost mid_states = self.world@;
        let ghost mid_chunks = chunks@;
        proof {
            assert forall|p: ChunkPos| #[trigger] mid_states.contains_key(p) implies
                (mid_states[p] == ChunkState::Empty <==> !self.within_load(p, c))
                && (self.within_load(p, c) ==> mid_states[p] == settled_state(old_states[p], old_chunks.contains_key(p))) by {
                assert(ks.to_set().contains(p));
                let j = choose|j: int| 0 <= j < ks.len() && ks[j] == p;
                assert(exists|j: int| 0 <= j < i && ks[j] == p);
            }
        }
        let mut k: usize = 0;
        while k < empty_chunks_in_world.len()
            invariant
                self.wf(),
                chunks.wf(),
                self.config == old(self).config,
                c == controller_pos.0,
                old_states == old(self).world@,
                old_chunks == old(chunks)@,
                0 <= k <= empty_chunks_in_world@.len(),
                empty_chunks_in_world@.no_duplicates(),
                forall|p: ChunkPos| empty_chunks_in_world@.contains(p) <==> (mid_states.contains_key(p) && mid_states[p] == ChunkState::Empty),
                self.world@ == mid_states.remove_keys(empty_chunks_in_world@.subrange(0, k as int).to_set()),
                chunks@ == mid_chunks.remove_keys(empty_chunks_in_world@.subrange(0, k as int).to_set()),
            decreases empty_chunks_in_world@.len() - k,
        {
            let pos = empty_chunks_in_world[k];
            self.world.remove_chunk(pos);
            chunks.remove(pos);
            proof {
                let e = empty_chunks_in_world@;
                assert(e.subrange(0, k + 1) =~= e.subrange(0, k as int).push(pos));
                e.subrange(0, k as int).lemma_push_to_set_commute(pos);
                assert(self.world@ =~= mid_states.remove_keys(e.subrange(0, k + 1).to_set()));
                assert(chunks@ =~= mid_chunks.remove_keys(e.subrange(0, k + 1).to_set()));
            }
            k = k + 1;
        }
        proof {
            let e = empty_chunks_in_world@;
            assert(e.subrange(0, k as int) =~= e);
            let removed = old_states.dom().filter(|p: ChunkPos| !self.within_load(p, c));
            assert(e.to_set() =~= removed) by {
                assert forall|q: ChunkPos| e.to_set().contains(q) <==> removed.contains(q) by {
                    if removed.contains(q) {
                        assert(mid_states.contains_key(q));
                    }
                }
            }
            assert(self.world@ =~= old(self).updated_states(old_chunks, c));
            assert forall|p: ChunkPos| #[trigger] chunks@.contains_key(p) <==> old(self).updated_chunks(old_chunks, c).contains_key(p) by {
                if old_chunks.contains_key(p) && !removed.contains(p) {
                    assert(mid_chunks.contains_key(p));
                }
            }
            assert(chunks@ =~= old(self).updated_chunks(old_chunks, c));
        }
    }

    /// Whether `pos` is inside the part of the world the manager handles.
    fn is_in_world_scope(&self, pos: ChunkPos) -> (r: bool)
        ensures
            r == (self.config.dynamic_vertical_loading || pos.z == 0),
    {
        if !self.config.dynamic_vertical_loading && pos.z != 0 {
            return false;
        }
        true
    }

    /// Changes the state of `pos`, carrying out the transition. The change
    /// must be a supported transition.
    fn change_chunk_state(&mut self, pos: ChunkPos, new_state: ChunkState, chunks: &mut PosMap<Chunk>)
        requires
            old(self).wf(),
            old(chunks).wf(),
            state_in(old(self).world@, pos) == new_state || chunk_transition(
                state_in(old(self).world@, pos),
                new_state,
            ) is Some,
        ensures
            final(self).wf(),
            final(chunks).wf(),
            final(self).config == old(self).config,
            state_in(old(self).world@, pos) == new_state ==> final(self).world@ == old(self).world@
                && final(chunks)@ == old(chunks)@,
            state_in(old(self).world@, pos) != new_state ==> final(self).world@ == old(
                self,
            ).world@.insert(pos, new_state),
            state_in(old(self).world@, pos) != new_state ==> final(chunks)@ == (if state_in(
                old(self).world@,
                pos,
            ) == ChunkState::Loaded && new_state == ChunkState::Empty {
                old(chunks)@.remove(pos)
            } else {
                old(chunks)@
            }),
    {
        let prev_state = self.world.get_chunk_state(pos);
        if prev_state != new_state {
            let transition = get_chunk_transition(prev_state, new_state);
            match transition {
                Some(t) => {
                    self.apply_transition(pos, t, chunks);
                    self.world.set_chunk_state(pos, new_state);
                    proof {
                        assert(self.world@ =~= old(self).world@.insert(pos, new_state));
                    }
                },
                None => {},
            }
        }
    }

    /// Brings the state of `pos` to rest under the current status.
    fn update_chunk_state(&mut self, pos: ChunkPos, chunks: &mut PosMap<Chunk>, controller_pos: &ControllerPos)
        requires
            old(self).wf(),
            old(chunks).wf(),
        ensures
            final(self).wf(),
            final(chunks).wf(),
            final(self).config == old(self).config,
            ({
                let s0 = state_in(old(self).world@, pos);
                let loaded0 = old(chunks)@.contains_key(pos);
                if old(self).within_load(pos, controller_pos.0) {
                    &&& final(self).world@ == old(self).world@.insert(pos, settled_state(s0, loaded0))
                    &&& final(chunks)@ == old(chunks)@
                } else {
                    &&& final(self).world@ == (if old(self).world@.contains_key(pos) {
                        old(self).world@.insert(pos, ChunkState::Empty)
                    } else {
                        old(self).world@
                    })
                    &&& final(chunks)@ == (if s0 == ChunkState::Loaded {
                        old(chunks)@.remove(pos)
                    } else {
                        old(chunks)@
                    })
                }
            }),
    {
        let ghost s0 = state_in(self.world@, pos);
        let ghost loaded0 = chunks@.contains_key(pos);
        let ghost within = self.within_load(pos, controller_pos.0);
        let ghost old_world = self.world@;
        let ghost old_chunks = chunks@;
        let mut iterations: u32 = 1;
        let mut prev_state = self.world.get_chunk_state(pos);
        loop
            invariant
                self.wf(),
                chunks.wf(),
                self.config == old(self).config,
                prev_state == state_in(self.world@, pos),
                1 <= iterations,
                iterations + steps_left(prev_state, within, loaded0) <= 3,
                within == self.within_load(pos, controller_pos.0),
                loaded0 == old_chunks.contains_key(pos),
                s0 == state_in(old_world, pos),
                within ==> chunks@ == old_chunks && self.world@ == (if prev_state == s0 {
                    old_world
                } else {
                    old_world.insert(pos, prev_state)
                }) && settled_state(prev_state, loaded0) == settled_state(s0, loaded0),
                !within ==> (prev_state == s0 && self.world@ == old_world && chunks@ == old_chunks)
                    || (prev_state == ChunkState::Empty && s0 != ChunkState::Empty
                    && self.world@ == old_world.insert(pos, ChunkState::Empty)
                    && chunks@ == (if s0 == ChunkState::Loaded {
                        old_chunks.remove(pos)
                    } else {
                        old_chunks
                    })),
            ensures
                self.wf(),
                chunks.wf(),
                self.config == old(self).config,
                prev_state == state_in(self.world@, pos),
                within ==> chunks@ == old_chunks && self.world@ == (if prev_state == s0 {
                    old_world
                } else {
                    old_world.insert(pos, prev_state)
                }) && prev_state == settled_state(s0, loaded0),
                !within ==> (prev_state == s0 && s0 == ChunkState::Empty && self.world@ == old_world && chunks@ == old_chunks)
                    || (prev_state == ChunkState::Empty && s0 != ChunkState::Empty
                    && self.world@ == old_world.insert(pos, ChunkState::Empty)
                    && chunks@ == (if s0 == ChunkState::Loaded {
                        old_chunks.remove(pos)
                    } else {
                        old_chunks
                    })),
            decreases steps_left(prev_state, within, loaded0),
        {
            let chunk_status = self.create_chunk_status(pos, chunks, controller_pos);
            let next_state = get_next_chunk_state(prev_state, chunk_status);
            proof {
                if within {
                    assert(chunks@ == old_chunks);
                    assert(chunks@.contains_key(pos) == old_chunks.contains_key(pos));
                    assert(chunk_status.loaded == chunks@.contains_key(pos));
                    assert(chunk_status.loaded == loaded0);
                }
            }
            if next_state == prev_state {
                break;
            }
            proof {
                lemma_next_state_change_is_supported(prev_state, chunk_status);
                assert(steps_left(next_state, within, loaded0) < steps_left(prev_state, within, loaded0));
                assert(steps_left(next_state, within, loaded0) >= 0);
                assert(iterations < MAX_ITERATIONS);
            }
            self.change_chunk_state(pos, next_state, chunks);
            if iterations >= MAX_ITERATIONS {
                break;
            }
            prev_state = next_state;
            iterations = iterations + 1;
        }
        proof {
            if within {
                if prev_state == s0 {
                    assert(old_world.contains_key(pos));
                    assert(old_world.insert(pos, prev_state) =~= old_world);
                }
            } else {
                if prev_state == s0 && old_world.contains_key(pos) {
                    assert(old_world.insert(pos, ChunkState::Empty) =~= old_world);
                }
            }
        }
    }

    /// Whether `pos` lies within `distance_in_chunks` of the controller.
    fn is_within_distance(&self, pos: ChunkPos, distance_in_chunks: usize, controller_pos: &ControllerPos) -> (r: bool)
        ensures
            r == within_distance(self.config, pos, distance_in_chunks as int, controller_pos.0),
    {
        match self.config.dynamic_vertical_loading {
            true => pos.is_within_distance(controller_pos.0, distance_in_chunks),
            false => pos.is_within_distance_2d(controller_pos.0, distance_in_chunks),
        }
    }

    /// Carries out the side effects of `transition` at `pos`.
    fn apply_transition(&mut self, pos: ChunkPos, transition: ChunkTransition, chunks: &mut PosMap<Chunk>)
        requires
            old(self).wf(),
            old(chunks).wf(),
        ensures
            final(self).wf(),
            final(chunks).wf(),
            final(self).config == old(self).config,
            transition == ChunkTransition::LoadedToEmpty ==> final(self).world@ == old(
                self,
            ).world@.remove(pos) && final(chunks)@ == old(chunks)@.remove(pos),
            transition != ChunkTransition::LoadedToEmpty ==> final(self).world@ == old(
                self,
            ).world@ && final(chunks)@ == old(chunks)@,
    {
        match transition {
            ChunkTransition::EmptyToLoading => {},
            ChunkTransition::LoadingToEmpty => {},
            ChunkTransition::LoadingToLoaded => {},
            ChunkTransition::LoadedToEmpty => {
                chunks.remove(pos);
                self.world.remove_chunk(pos);
            },
        }
    }

    /// The status of `pos`: whether it is in load distance and whether its data is stored.
    fn create_chunk_status(&self, pos: ChunkPos, chunks: &PosMap<Chunk>, controller_pos: &ControllerPos) -> (r: ChunkStatus)
        requires
            chunks.wf(),
        ensures
            r.is_within_load == self.within_load(pos, controller_pos.0),
            r.loaded == chunks@.contains_key(pos),
    {
        let is_within_load = self.is_within_distance(pos, self.config.load_distance, controller_pos);
        let loaded = chunks.contains_key(pos);
        ChunkStatus { is_within_load, loaded }
    }
}

} // verus!
