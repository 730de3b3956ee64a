//! Applies loader, builder and streamer events to the world, and turns state
//! transitions into requests for the loader, the builder and the renderer.
use vstd::prelude::*;
use crate::types::{Chunk, ChunkPos};
use crate::chunk_state_manager::chunk_state::{ChunkState, ChunkStatus, ChunkTransition};
use crate::chunk_state_manager::physical_world::PhysicalWorld;
use super::chunk_streamer::StreamerConfig;
use super::chunk_data_manager::world_event_handler::ChunkLoaderRequest;
use super::events::{
    ChunkBuilderRequest, ChunkBuilt, ChunkEntityEvent, ChunkLoaded, ChunkStateTransition,
    ChunkStreamerRequest, StateUpdateRequest,
};

verus! {

/// Computes chunk statuses relative to the controller position.
pub struct ChunkUpdateHandler {
    pub controller_pos: ChunkPos,
    pub config: StreamerConfig,
}

/// What a state transition asks of the rest of the client.
#[derive(Debug)]
pub enum TransitionRequest {
    /// A request to the chunk loader.
    Loader(ChunkLoaderRequest),
    /// A request to the chunk builder.
    Builder(ChunkBuilderRequest),
    /// A request to create or remove a chunk's rendered object.
    Entity(ChunkEntityEvent),
    /// The chunk must go through the state machine again.
    StateUpdate(StateUpdateRequest),
    /// Nothing to ask.
    Nothing,
}

impl ChunkUpdateHandler {
    /// A handler for the given controller position.
    pub fn new(controller_pos: ChunkPos, config: StreamerConfig) -> (r: Self)
        ensures
            r.controller_pos == controller_pos,
            r.config == config,
    {
        ChunkUpdateHandler { controller_pos, config }
    }

    /// Whether `pos` lies within `distance` chunks of the controller.
    pub open spec fn within(&self, pos: ChunkPos, distance: int) -> bool {
        self.config.within(pos, distance, self.controller_pos)
    }

    /// The status of `pos` in `world`.
    pub open spec fn status_of(&self, pos: ChunkPos, world: PhysicalWorld) -> ChunkStatus {
        ChunkStatus {
            is_within_render: self.within(pos, self.config.render_distance as int),
            is_within_load: self.within(pos, self.config.load_distance as int),
            loaded: world.chunks().contains_key(pos),
            mesh_built: world.meshes().contains_key(pos),
            needs_rebuild: world.rebuilds().contains(pos),
        }
    }

    /// The state update request of `pos` in `world`.
    pub open spec fn request_of(&self, pos: ChunkPos, world: PhysicalWorld) -> StateUpdateRequest {
        StateUpdateRequest {
            chunk_pos: pos,
            curr_state: world.state(pos),
            chunk_status: self.status_of(pos, world),
        }
    }

    /// Whether `pos` lies within `distance_in_chunks` of the controller.
    pub fn is_player_within_distance(&self, pos: ChunkPos, distance_in_chunks: usize) -> (r: bool)
        ensures
            r == self.within(pos, distance_in_chunks as int),
    {
        match self.config.dynamic_vertical_loading {
            true => pos.is_within_distance(self.controller_pos, distance_in_chunks),
            false => pos.is_within_distance_2d(self.controller_pos, distance_in_chunks),
        }
    }

    /// The status of `pos` in `world`.
    pub fn create_chunk_status(&self, pos: ChunkPos, world: &PhysicalWorld) -> (r: ChunkStatus)
        requires
            world.wf(),
        ensures
            r == self.status_of(pos, *world),
    {
        let is_within_render = self.is_player_within_distance(pos, self.config.render_distance);
        let is_within_load = self.is_player_within_distance(pos, self.config.load_distance);
        let loaded = world.get_chunk(pos).is_some();
        let mesh_built = world.get_chunk_mesh(pos).is_some();
        let needs_rebuild = world.get_chunk_need_rebuild(pos);
        ChunkStatus { is_within_render, is_within_load, loaded, mesh_built, needs_rebuild }
    }

    /// The state update request of `pos` in `world`.
    pub fn create_state_update_request(&self, pos: ChunkPos, world: &PhysicalWorld) -> (r: StateUpdateRequest)
        requires
            world.wf(),
        ensures
            r == self.request_of(pos, *world),
    {
        let chunk_status = self.create_chunk_status(pos, world);
        StateUpdateRequest { chunk_pos: pos, curr_state: world.get_chunk_state(pos), chunk_status }
    }

    /// A request that loads `pos` whatever its distance; `None` unless the
    /// chunk is `Empty`.
    pub fn create_load_chunk_request(&self, pos: ChunkPos, world: &PhysicalWorld) -> (r: Option<StateUpdateRequest>)
        requires
            world.wf(),
        ensures
            world.state(pos) != ChunkState::Empty ==> r is None,
            world.state(pos) == ChunkState::Empty ==> r == Some(StateUpdateRequest {
                chunk_pos: pos,
                curr_state: ChunkState::Empty,
                chunk_status: ChunkStatus {
                    is_within_load: true,
                    ..self.status_of(pos, *world)
                },
            }),
    {
        if world.get_chunk_state(pos) != ChunkState::Empty {
            return None;
        }
        let mut chunk_status = self.create_chunk_status(pos, world);
        chunk_status.is_within_load = true;
        Some(StateUpdateRequest { chunk_pos: pos, curr_state: world.get_chunk_state(pos), chunk_status })
    }

    /// Stores a loaded chunk, if the world is still waiting for it.
    pub fn apply_chunk_loaded(&self, ev: &ChunkLoaded, world: &mut PhysicalWorld)
        requires
            old(world).wf(),
        ensures
            final(world).wf(),
            final(world).meshes() == old(world).meshes(),
            final(world).states() == old(world).states(),
            final(world).versions() == old(world).versions(),
            final(world).rebuilds() == old(world).rebuilds(),
            old(world).state(ev.chunk_pos) != ChunkState::Loading ==> final(world).chunks() == old(world).chunks(),
            old(world).state(ev.chunk_pos) == ChunkState::Loading ==> final(world).chunks().contains_key(ev.chunk_pos)
                && final(world).chunks()[ev.chunk_pos]@ == ev.chunk@
                && final(world).chunks().remove(ev.chunk_pos) == old(world).chunks().remove(ev.chunk_pos),
    {
        if world.get_chunk_state(ev.chunk_pos) == ChunkState::Loading {
            world.set_chunk(ev.chunk_pos, ev.chunk.clone());
        }
    }

    /// Stores a built mesh, if the world is still waiting for it.
    pub fn apply_chunk_built(&self, ev: &ChunkBuilt, world: &mut PhysicalWorld)
        requires
            old(world).wf(),
        ensures
            final(world).wf(),
            old(world).same_but_meshes(&*final(world)),
            old(world).state(ev.chunk_pos) != ChunkState::ToDraw ==> final(world).meshes() == old(world).meshes(),
            old(world).state(ev.chunk_pos) == ChunkState::ToDraw ==> final(world).meshes().contains_key(ev.chunk_pos)
                && final(world).meshes()[ev.chunk_pos].spec_layers() == ev.chunk_mesh.spec_layers()
                && final(world).meshes()[ev.chunk_pos].spec_vertex_count() == ev.chunk_mesh.spec_vertex_count()
                && final(world).meshes().remove(ev.chunk_pos) == old(world).meshes().remove(ev.chunk_pos),
    {
        if world.get_chunk_state(ev.chunk_pos) == ChunkState::ToDraw {
            world.add_chunk_mesh(ev.chunk_pos, ev.chunk_mesh.clone());
        }
    }

    /// Applies a loaded chunk and returns the state update request of its position.
    pub fn handle_chunk_loaded(&self, ev: &ChunkLoaded, world: &mut PhysicalWorld) -> (r: StateUpdateRequest)
        requires
            old(world).wf(),
        ensures
            final(world).wf(),
            r == self.request_of(ev.chunk_pos, *final(world)),
            final(world).states() == old(world).states(),
            old(world).state(ev.chunk_pos) == ChunkState::Loading ==> final(world).chunks().contains_key(ev.chunk_pos)
                && final(world).chunks()[ev.chunk_pos]@ == ev.chunk@,
            old(world).state(ev.chunk_pos) != ChunkState::Loading ==> final(world).chunks() == old(world).chunks(),
    {
        self.apply_chunk_loaded(ev, world);
        self.create_state_update_request(ev.chunk_pos, world)
    }

    /// Applies a built mesh and returns the state update request of its position.
    pub fn handle_chunk_built(&self, ev: &ChunkBuilt, world: &mut PhysicalWorld) -> (r: StateUpdateRequest)
        requires
            old(world).wf(),
        ensures
            final(world).wf(),
            r == self.request_of(ev.chunk_pos, *final(world)),
            old(world).same_but_meshes(&*final(world)),
            old(world).state(ev.chunk_pos) == ChunkState::ToDraw ==> final(world).meshes().contains_key(ev.chunk_pos),
            old(world).state(ev.chunk_pos) != ChunkState::ToDraw ==> final(world).meshes() == old(world).meshes(),
    {
        self.apply_chunk_built(ev, world);
        self.create_state_update_request(ev.chunk_pos, world)
    }

    /// Handles a streamer request: `Update` asks for a state update, `Load`
    /// for a load of an `Empty` chunk, and `Remove` drops the chunk at once.
    pub fn handle_streamer_request(&self, ev: &ChunkStreamerRequest, world: &mut PhysicalWorld) -> (r: Option<StateUpdateRequest>)
        requires
            old(world).wf(),
        ensures
            final(world).wf(),
            match *ev {
                ChunkStreamerRequest::Update(pos) => *final(world) == *old(world)
                    && r == Some(self.request_of(pos, *old(world))),
                ChunkStreamerRequest::Remove(pos) => r is None
                    && final(world).chunks() == old(world).chunks().remove(pos)
                    && final(world).meshes() == old(world).meshes().remove(pos)
                    && final(world).states() == old(world).states().remove(pos)
                    && final(world).versions() == old(world).versions().remove(pos)
                    && final(world).rebuilds() == old(world).rebuilds(),
                ChunkStreamerRequest::Load(pos) => *final(world) == *old(world)
                    && (old(world).state(pos) != ChunkState::Empty ==> r is None)
                    && (old(world).state(pos) == ChunkState::Empty ==> r == Some(StateUpdateRequest {
                        chunk_pos: pos,
                        curr_state: ChunkState::Empty,
                        chunk_status: ChunkStatus {
                            is_within_load: true,
                            ..self.status_of(pos, *old(world))
                        },
                    })),
            },
    {
        match ev {
            ChunkStreamerRequest::Update(pos) => Some(self.create_state_update_request(*pos, world)),
            ChunkStreamerRequest::Remove(pos) => {
                world.remove_chunk(*pos);
                None
            },
            ChunkStreamerRequest::Load(pos) => self.create_load_chunk_request(*pos, world),
        }
    }

    /// The data of `pos`, handed to the builder; its rebuild mark is cleared.
    pub fn get_chunk_to_draw(&self, pos: ChunkPos, world: &mut PhysicalWorld) -> (r: Chunk)
        requires
            old(world).wf(),
            old(world).chunks().contains_key(pos),
        ensures
            final(world).wf(),
            r@ == old(world).chunks()[pos]@,
            final(world).rebuilds() == old(world).rebuilds().remove(pos),
            final(world).chunks() == old(world).chunks(),
            final(world).meshes() == old(world).meshes(),
            final(world).states() == old(world).states(),
            final(world).versions() == old(world).versions(),
    {
        world.remove_chunk_need_rebuild(pos);
        match world.get_chunk(pos) {
            Some(chunk) => chunk.clone(),
            None => Chunk::empty(),
        }
    }
}

/// Records the new state of a transition and returns what it asks of the
/// rest of the client. Moving to `ToDraw` needs the chunk's data, and moving
/// to `Drawn` its mesh.
pub fn process_transition_event(
    handler: &ChunkUpdateHandler,
    world: &mut PhysicalWorld,
    ev: &ChunkStateTransition,
) -> (r: TransitionRequest)
    requires
        old(world).wf(),
        (ev.transition == ChunkTransition::LoadedToToDraw || ev.transition == ChunkTransition::DrawnToToDraw)
            ==> old(world).chunks().contains_key(ev.chunk_pos),
        ev.transition == ChunkTransition::ToDrawToDrawn ==> old(world).meshes().contains_key(ev.chunk_pos),
    ensures
        final(world).wf(),
        ({
            let pos = ev.chunk_pos;
            let w = old(world).states().insert(pos, ev.new_state);
            match ev.transition {
                ChunkTransition::EmptyToLoading => final(world).states() == w
                    && final(world).chunks() == old(world).chunks()
                    && final(world).meshes() == old(world).meshes()
                    && r == TransitionRequest::Loader(ChunkLoaderRequest::Load(pos)),
                ChunkTransition::LoadingToEmpty => final(world).states() == w
                    && final(world).chunks() == old(world).chunks()
                    && final(world).meshes() == old(world).meshes()
                    && r == TransitionRequest::Loader(ChunkLoaderRequest::CancelLoading(pos)),
                ChunkTransition::LoadingToLoaded => final(world).states() == w
                    && final(world).chunks() == old(world).chunks()
                    && final(world).meshes() == old(world).meshes()
                    && r == TransitionRequest::StateUpdate(handler.request_of(pos, *final(world))),
                ChunkTransition::LoadedToEmpty => final(world).states() == w.remove(pos)
                    && final(world).chunks() == old(world).chunks().remove(pos)
                    && final(world).meshes() == old(world).meshes().remove(pos)
                    && r is Nothing,
                ChunkTransition::LoadedToToDraw | ChunkTransition::DrawnToToDraw => final(world).states() == w
                    && final(world).chunks() == old(world).chunks()
                    && final(world).meshes() == old(world).meshes()
                    && final(world).rebuilds() == old(world).rebuilds().remove(pos)
                    && (r matches TransitionRequest::Builder(ChunkBuilderRequest::Build(p, c))
                        && p == pos && c@ == old(world).chunks()[pos]@),
                ChunkTransition::ToDrawToLoaded => final(world).states() == w
                    && final(world).chunks() == old(world).chunks()
                    && final(world).meshes() == old(world).meshes()
                    && r == TransitionRequest::Builder(ChunkBuilderRequest::CancelBuilding(pos)),
                ChunkTransition::ToDrawToDrawn => final(world).states() == w
                    && final(world).chunks() == old(world).chunks()
                    && final(world).meshes() == old(world).meshes()
                    && (r matches TransitionRequest::Entity(ChunkEntityEvent::Create(p, m))
                        && p == pos && m.spec_layers() == old(world).meshes()[pos].spec_layers()
                        && m.spec_vertex_count() == old(world).meshes()[pos].spec_vertex_count()),
                ChunkTransition::DrawnToLoaded => final(world).states() == w
                    && final(world).chunks() == old(world).chunks()
                    && final(world).meshes() == old(world).meshes().remove(pos)
                    && r == TransitionRequest::Entity(ChunkEntityEvent::Remove(pos)),
            }
        }),
{
    let pos = ev.chunk_pos;
    world.set_chunk_state(pos, ev.new_state);
    match ev.transition {
        ChunkTransition::EmptyToLoading => TransitionRequest::Loader(ChunkLoaderRequest::Load(pos)),
        ChunkTransition::LoadingToEmpty => TransitionRequest::Loader(ChunkLoaderRequest::CancelLoading(pos)),
        ChunkTransition::LoadingToLoaded => {
            // The chunk may now be within render distance, outside the load
            // distance, or still only in load distance.
            TransitionRequest::StateUpdate(handler.create_state_update_request(pos, world))
        },
        ChunkTransition::LoadedToEmpty => {
            world.remove_chunk(pos);
            TransitionRequest::Nothing
        },
        ChunkTransition::LoadedToToDraw => {
            let chunk = handler.get_chunk_to_draw(pos, world);
            TransitionRequest::Builder(ChunkBuilderRequest::Build(pos, chunk))
        },
        ChunkTransition::ToDrawToLoaded => TransitionRequest::Builder(ChunkBuilderRequest::CancelBuilding(pos)),
        ChunkTransition::ToDrawToDrawn => {
            let mesh = match world.get_chunk_mesh(pos) {
                Some(m) => m.clone(),
                None => crate::chunk_mesh_builder::chunk_mesh::ChunkMesh::new(),
            };
            TransitionRequest::Entity(ChunkEntityEvent::Create(pos, mesh))
        },
        ChunkTransition::DrawnToToDraw => {
            let chunk = handler.get_chunk_to_draw(pos, world);
            TransitionRequest::Builder(ChunkBuilderRequest::Build(pos, chunk))
        },
        ChunkTransition::DrawnToLoaded => {
            world.remove_chunk_mesh(pos);
            TransitionRequest::Entity(ChunkEntityEvent::Remove(pos))
        },
    }
}

} // verus!
