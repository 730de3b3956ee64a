//! Which chunks the world should hold around the player.
use vstd::prelude::*;
use crate::types::ChunkPos;
use crate::chunk_state_manager::chunk_state::ChunkState;
use crate::chunk_state_manager::physical_world::PhysicalWorld;
use crate::chunk_state_manager::chunk_state_manager::{visit_chunks_in_distance, in_visit_range, visit_fits};
use super::events::ChunkStreamerRequest;

verus! {

/// Distances that drive the chunk streamer.
#[derive(Debug, Clone, Copy, PartialEq)]
pub struct StreamerConfig {
    /// Horizontal radius (in chunks) within which chunks are loaded.
    pub load_distance: usize,
    /// Horizontal radius (in chunks) within which chunks are rendered.
    pub render_distance: usize,
    /// If true, the engine dynamically loads chunks above and below the player based on vertical position.
    pub dynamic_vertical_loading: bool,
}

impl StreamerConfig {
    /// A configuration with vertical loading off; the render distance may not
    /// exceed the load distance.
    pub fn new(load_distance: usize, render_distance: usize) -> (r: StreamerConfig)
        requires
            render_distance <= load_distance,
        ensures
            r == (StreamerConfig { load_distance, render_distance, dynamic_vertical_loading: false }),
    {
        StreamerConfig { load_distance, render_distance, dynamic_vertical_loading: false }
    }

    /// Whether `pos` lies within `distance` chunks of `controller` under this configuration.
    pub open spec fn within(self, pos: ChunkPos, distance: int, controller: ChunkPos) -> bool {
        if self.dynamic_vertical_loading {
            pos.within_distance_3d(controller, distance)
        } else {
            pos.within_distance_2d(controller, distance)
        }
    }
}

/// The order in which the streamer sends its requests: removals, then
/// loads, then updates.
pub open spec fn request_rank(r: ChunkStreamerRequest) -> int {
    match r {
        ChunkStreamerRequest::Remove(_) => 0,
        ChunkStreamerRequest::Load(_) => 1,
        ChunkStreamerRequest::Update(_) => 2,
    }
}

/// The request of rank `rank` for `pos`.
pub open spec fn request_of_rank(rank: int, pos: ChunkPos) -> ChunkStreamerRequest {
    if rank == 0 {
        ChunkStreamerRequest::Remove(pos)
    } else if rank == 1 {
        ChunkStreamerRequest::Load(pos)
    } else {
        ChunkStreamerRequest::Update(pos)
    }
}

/// Appends the request of rank `rank` for each of `positions`, in order.
fn append_requests(out: &mut Vec<ChunkStreamerRequest>, positions: &Vec<ChunkPos>, rank: u8)
    requires
        rank <= 2,
    ensures
        final(out)@ == old(out)@ + positions@.map_values(|p: ChunkPos| request_of_rank(rank as int, p)),
{
    let mut i: usize = 0;
    while i < positions.len()
        invariant
            rank <= 2,
            i <= positions@.len(),
            out@ == old(out)@ + positions@.subrange(0, i as int).map_values(|p: ChunkPos| request_of_rank(rank as int, p)),
        decreases positions@.len() - i,
    {
        let p = positions[i];
        let req = if rank == 0 {
            ChunkStreamerRequest::Remove(p)
        } else if rank == 1 {
            ChunkStreamerRequest::Load(p)
        } else {
            ChunkStreamerRequest::Update(p)
        };
        out.push(req);
        proof {
            assert(positions@.subrange(0, i + 1) =~= positions@.subrange(0, i as int).push(p));
            assert(positions@.subrange(0, i + 1).map_values(|p: ChunkPos| request_of_rank(rank as int, p))
                =~= positions@.subrange(0, i as int).map_values(|p: ChunkPos| request_of_rank(rank as int, p)).push(req));
        }
        i = i + 1;
    }
    proof {
        assert(positions@.subrange(0, i as int) =~= positions@);
    }
}

/// The requests the streamer sends when the player enters the chunk at
/// `player_pos`: remove every chunk that is still `Empty`, load every chunk
/// around the player (horizontally, within the load distance), and update
/// every chunk of the world; in that order, each request once.
pub fn chunk_streamer_requests(world: &PhysicalWorld, player_pos: ChunkPos, config: &StreamerConfig) -> (r: Vec<ChunkStreamerRequest>)
    requires
        world.wf(),
        visit_fits(player_pos, config.load_distance as int, false),
    ensures
        r@.no_duplicates(),
        forall|i: int, j: int| 0 <= i <= j < r@.len() ==> request_rank(#[trigger] r@[i]) <= request_rank(#[trigger] r@[j]),
        forall|p: ChunkPos| r@.contains(ChunkStreamerRequest::Remove(p))
            <==> (world.states().contains_key(p) && world.states()[p] == ChunkState::Empty),
        forall|p: ChunkPos| r@.contains(ChunkStreamerRequest::Load(p))
            <==> in_visit_range(player_pos, config.load_distance as int, false, p),
        forall|p: ChunkPos| r@.contains(ChunkStreamerRequest::Update(p)) <==> world.states().contains_key(p),
{
    let mut out: Vec<ChunkStreamerRequest> = Vec::new();
    // Remove all chunks that are still empty.
    let empty_chunks_in_world = world.get_chunks_with_state(ChunkState::Empty);
    append_requests(&mut out, &empty_chunks_in_world, 0);
    // Load missing chunks within the load distance.
    let to_load = visit_chunks_in_distance(player_pos, config.load_distance, false);
    append_requests(&mut out, &to_load, 1);
    // Update all existing chunks in the world.
    let chunks_in_world = world.get_chunks_with_any_state();
    append_requests(&mut out, &chunks_in_world, 2);
    proof {
        let a = empty_chunks_in_world@.map_values(|p: ChunkPos| request_of_rank(0, p));
        let b = to_load@.map_values(|p: ChunkPos| request_of_rank(1, p));
        let c = chunks_in_world@.map_values(|p: ChunkPos| request_of_rank(2, p));
        assert(out@ =~= a + b + c);
        let na = a.len() as int;
        let nb = b.len() as int;
        assert forall|i: int| 0 <= i < out@.len() implies
            (i < na ==> out@[i] == a[i]) && (na <= i < na + nb ==> out@[i] == b[i - na])
            && (na + nb <= i ==> out@[i] == c[i - na - nb]) by {}
        assert forall|i: int, j: int| 0 <= i <= j < out@.len() implies request_rank(#[trigger] out@[i]) <= request_rank(#[trigger] out@[j]) by {}
        assert forall|i: int, j: int| 0 <= i < out@.len() && 0 <= j < out@.len() && i != j implies out@[i] != out@[j] by {
            if i < na && j < na {
                assert(empty_chunks_in_world@[i] != empty_chunks_in_world@[j]);
            } else if na <= i < na + nb && na <= j < na + nb {
                assert(to_load@[i - na] != to_load@[j - na]);
            } else if na + nb <= i && na + nb <= j {
                assert(chunks_in_world@[i - na - nb] != chunks_in_world@[j - na - nb]);
            }
        }
        assert forall|p: ChunkPos| out@.contains(ChunkStreamerRequest::Remove(p))
            <==> (world.states().contains_key(p) && world.states()[p] == ChunkState::Empty) by {
            if out@.contains(ChunkStreamerRequest::Remove(p)) {
                let i = choose|i: int| 0 <= i < out@.len() && out@[i] == ChunkStreamerRequest::Remove(p);
                assert(i < na);
                assert(empty_chunks_in_world@[i] == p);
            }
            if world.states().contains_key(p) && world.states()[p] == ChunkState::Empty {
                assert(empty_chunks_in_world@.contains(p));
                let i = choose|i: int| 0 <= i < empty_chunks_in_world@.len() && empty_chunks_in_world@[i] == p;
                assert(out@[i] == ChunkStreamerRequest::Remove(p));
            }
        }
        assert forall|p: ChunkPos| out@.contains(ChunkStreamerRequest::Load(p))
            <==> in_visit_range(player_pos, config.load_distance as int, false, p) by {
            if out@.contains(ChunkStreamerRequest::Load(p)) {
                let i = choose|i: int| 0 <= i < out@.len() && out@[i] == ChunkStreamerRequest::Load(p);
                assert(na <= i < na + nb);
                assert(to_load@[i - na] == p);
                assert(to_load@.contains(p));
            }
            if in_visit_range(player_pos, config.load_distance as int, false, p) {
                assert(to_load@.contains(p));
                let i = choose|i: int| 0 <= i < to_load@.len() && to_load@[i] == p;
                assert(out@[na + i] == ChunkStreamerRequest::Load(p));
            }
        }
        assert forall|p: ChunkPos| out@.contains(ChunkStreamerRequest::Update(p)) <==> world.states().contains_key(p) by {
            if out@.contains(ChunkStreamerRequest::Update(p)) {
                let i = choose|i: int| 0 <= i < out@.len() && out@[i] == ChunkStreamerRequest::Update(p);
                assert(na + nb <= i);
                assert(chunks_in_world@[i - na - nb] == p);
                assert(chunks_in_world@.to_set().contains(p));
            }
            if world.states().contains_key(p) {
                assert(chunks_in_world@.to_set().contains(p));
                let i = choose|i: int| 0 <= i < chunks_in_world@.len() && chunks_in_world@[i] == p;
                assert(out@[na + nb + i] == ChunkStreamerRequest::Update(p));
            }
        }
    }
    out
}

} // verus!
