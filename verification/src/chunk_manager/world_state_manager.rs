//! Adds loaded chunks and built meshes to the world, and computes the status
//! of each chunk they concern.
use vstd::prelude::*;
use crate::types::ChunkPos;
use crate::chunk_state_manager::chunk_state::ChunkStatus;
use crate::chunk_state_manager::physical_world::PhysicalWorld;
use super::chunk_streamer::StreamerConfig;
use super::events::{ChunkBuilt, ChunkLoaded, ChunkStreamerRequest};

verus! {

/// The status of `pos` in `world` for a controller at `controller_pos`.
pub open spec fn status_in(pos: ChunkPos, controller_pos: ChunkPos, config: StreamerConfig, world: PhysicalWorld) -> ChunkStatus {
    ChunkStatus {
        is_within_render: config.within(pos, config.render_distance as int, controller_pos),
        is_within_load: config.within(pos, config.load_distance as int, controller_pos),
        loaded: world.chunks().contains_key(pos),
        mesh_built: world.meshes().contains_key(pos),
        needs_rebuild: world.rebuilds().contains(pos),
    }
}

/// Whether `pos` lies within `distance_in_chunks` of the controller.
pub fn is_within_distance(controller_pos: ChunkPos, config: &StreamerConfig, pos: ChunkPos, distance_in_chunks: usize) -> (r: bool)
    ensures
        r == config.within(pos, distance_in_chunks as int, controller_pos),
{
    match config.dynamic_vertical_loading {
        true => pos.is_within_distance(controller_pos, distance_in_chunks),
        false => pos.is_within_distance_2d(controller_pos, distance_in_chunks),
    }
}

/// The status of `pos` in `world` for a controller at `controller_pos`.
pub fn create_chunk_status(pos: ChunkPos, controller_pos: ChunkPos, config: &StreamerConfig, world: &PhysicalWorld) -> (r: ChunkStatus)
    requires
        world.wf(),
    ensures
        r == status_in(pos, controller_pos, *config, *world),
{
    let is_within_render = is_within_distance(controller_pos, config, pos, config.render_distance);
    let is_within_load = is_within_distance(controller_pos, config, pos, config.load_distance);
    let loaded = world.get_chunk(pos).is_some();
    let mesh_built = world.get_chunk_mesh(pos).is_some();
    let needs_rebuild = world.get_chunk_need_rebuild(pos);
    ChunkStatus { is_within_render, is_within_load, loaded, mesh_built, needs_rebuild }
}

/// Stores a loaded chunk and returns the status of its position.
pub fn handle_loaded(ev: &ChunkLoaded, controller_pos: ChunkPos, config: &StreamerConfig, world: &mut PhysicalWorld) -> (r: ChunkStatus)
    requires
        old(world).wf(),
    ensures
        final(world).wf(),
        final(world).chunks().contains_key(ev.chunk_pos),
        final(world).chunks()[ev.chunk_pos]@ == ev.chunk@,
        final(world).chunks().remove(ev.chunk_pos) == old(world).chunks().remove(ev.chunk_pos),
        final(world).meshes() == old(world).meshes(),
        final(world).states() == old(world).states(),
        r == status_in(ev.chunk_pos, controller_pos, *config, *final(world)),
{
    world.set_chunk(ev.chunk_pos, ev.chunk.clone());
    proof {
        assert(world.chunks().remove(ev.chunk_pos) =~= old(world).chunks().remove(ev.chunk_pos));
    }
    create_chunk_status(ev.chunk_pos, controller_pos, config, world)
}

/// Stores a built mesh and returns the status of its position.
pub fn handle_built(ev: &ChunkBuilt, controller_pos: ChunkPos, config: &StreamerConfig, world: &mut PhysicalWorld) -> (r: ChunkStatus)
    requires
        old(world).wf(),
    ensures
        final(world).wf(),
        old(world).same_but_meshes(&*final(world)),
        final(world).meshes().contains_key(ev.chunk_pos),
        final(world).meshes()[ev.chunk_pos].spec_layers() == ev.chunk_mesh.spec_layers(),
        final(world).meshes().remove(ev.chunk_pos) == old(world).meshes().remove(ev.chunk_pos),
        r == status_in(ev.chunk_pos, controller_pos, *config, *final(world)),
{
    world.add_chunk_mesh(ev.chunk_pos, ev.chunk_mesh.clone());
    proof {
        assert(world.meshes().remove(ev.chunk_pos) =~= old(world).meshes().remove(ev.chunk_pos));
    }
    create_chunk_status(ev.chunk_pos, controller_pos, config, world)
}

/// Handles a streamer request: `Update` gives the chunk's status, `Load` its
/// status as if it were in load distance, and `Remove` drops the chunk.
pub fn handle_streamer_request(
    ev: &ChunkStreamerRequest,
    controller_pos: ChunkPos,
    config: &StreamerConfig,
    world: &mut PhysicalWorld,
) -> (r: Option<ChunkStatus>)
    requires
        old(world).wf(),
    ensures
        final(world).wf(),
        match *ev {
            ChunkStreamerRequest::Update(pos) => *final(world) == *old(world)
                && r == Some(status_in(pos, controller_pos, *config, *old(world))),
            ChunkStreamerRequest::Remove(pos) => r is None
                && final(world).chunks() == old(world).chunks().remove(pos)
                && final(world).meshes() == old(world).meshes().remove(pos)
                && final(world).states() == old(world).states().remove(pos),
            ChunkStreamerRequest::Load(pos) => *final(world) == *old(world)
                && r == Some(ChunkStatus { is_within_load: true, ..status_in(pos, controller_pos, *config, *old(world)) }),
        },
{
    match ev {
        ChunkStreamerRequest::Update(pos) => Some(create_chunk_status(*pos, controller_pos, config, world)),
        ChunkStreamerRequest::Remove(pos) => {
            world.remove_chunk(*pos);
            None
        },
        ChunkStreamerRequest::Load(pos) => {
            let mut chunk_status = create_chunk_status(*pos, controller_pos, config, world);
            chunk_status.is_within_load = true;
            Some(chunk_status)
        },
    }
}

} // verus!
