use voxel_client::chunk_manager::chunk_builder::{
    accum_mesher_warnings, build_chunk_mesh, build_chunks, create_chunk_with_neighbors, desired_build_positions, iter_neighbors,
    rebuild_chunks, try_build_chunk_mesh, update_desired_chunks as update_builder_desired, BuilderResources,
    ChunkBuilderConfig, ChunkRemoved,
};
use voxel_client::chunk_manager::chunk_loader::{
    desired_positions, load_chunks, update_desired_chunks as update_loader_desired, ChunkLoaderConfig,
    ChunkUnloaded, LoaderResources,
};
use voxel_client::chunk_manager::chunk_pos_generator::{chunk_positions_2d, chunk_positions_3d};
use voxel_client::chunk_manager::chunk_streamer::{chunk_streamer_requests, StreamerConfig};
use voxel_client::chunk_manager::events::{
    ChunkBuilt, ChunkLoaded, ChunkStateTransition, ChunkStreamerRequest, ChunkBuilderRequest, ChunkEntityEvent,
};
use voxel_client::chunk_manager::chunk_data_manager::world_event_handler::ChunkLoaderRequest;
use voxel_client::chunk_manager::pending_chunk_queue::{manhattan_distance, PendingChunkQueue};
use voxel_client::chunk_manager::voxel_edit::{apply_voxel_edit, locate_block, BlockPos, VoxelEdit};
use voxel_client::chunk_manager::world_event_handler::{process_transition_event, ChunkUpdateHandler, TransitionRequest};
use voxel_client::chunk_manager::world_state_manager;
use voxel_client::chunk_mesh_builder::chunk_mesh::ChunkMesh;
use voxel_client::chunk_mesh_builder::meshers::chunk_mesher::{ChunkMeshData, FaceData};
use voxel_client::chunk_mesh_builder::meshers::naive_mesher::{ChunkMesher, MesherOutput};
use voxel_client::chunk_mesh_builder::storage::chunk_with_neighbors::ChunkWithNeighbors;
use voxel_client::chunk_state_manager::chunk_state::{ChunkState, ChunkTransition};
use voxel_client::chunk_state_manager::chunk_state_manager::ChunkLoader;
use voxel_client::chunk_state_manager::physical_world::PhysicalWorld;
use voxel_client::pos_map::PosMap;
use voxel_client::types::{BlockInChunkPos, BlockSide, Chunk, ChunkPos};
use std::collections::{HashMap, HashSet};

struct FlatLoader;

impl ChunkLoader for FlatLoader {
    fn load_chunk(&mut self, _pos: ChunkPos) -> Chunk {
        Chunk::empty()
    }
}

/// Puts one top face of storage index `uv_2` into layer 0.
struct OneFaceMesher {
    uv_2: u32,
}

impl ChunkMesher for OneFaceMesher {
    fn create_mesh(&self, _chunk: &ChunkWithNeighbors) -> MesherOutput {
        let mut layers = HashMap::new();
        let face = FaceData { facing_side: BlockSide::Top, block_pos: BlockInChunkPos::new(0, 0, 0), uv_2: self.uv_2 };
        layers.insert(0u8, ChunkMeshData { faces: vec![face] });
        MesherOutput { layers, warnings: HashMap::new() }
    }
}

#[test]
fn streamer_requests_remove_then_load_then_update() {
    let mut world = PhysicalWorld::new();
    world.set_chunk_state(ChunkPos::new(160, 0, 0), ChunkState::Empty);
    world.set_chunk_state(ChunkPos::new(0, 0, 0), ChunkState::Loaded);
    let config = StreamerConfig::new(1, 0);
    let requests = chunk_streamer_requests(&world, ChunkPos::new(0, 0, 0), &config);
    assert_eq!(requests.len(), 1 + 9 + 2);
    assert_eq!(requests[0], ChunkStreamerRequest::Remove(ChunkPos::new(160, 0, 0)));
    assert!(requests[1..10].iter().all(|r| matches!(r, ChunkStreamerRequest::Load(_))));
    assert!(requests.contains(&ChunkStreamerRequest::Load(ChunkPos::new(-16, 16, 0))));
    assert!(requests[10..].iter().all(|r| matches!(r, ChunkStreamerRequest::Update(_))));
}

#[test]
fn handler_requests_load_only_for_empty_chunks() {
    let mut world = PhysicalWorld::new();
    let handler = ChunkUpdateHandler::new(ChunkPos::new(0, 0, 0), StreamerConfig::new(1, 0));
    let far = ChunkPos::new(800, 0, 0);
    let req = handler.handle_streamer_request(&ChunkStreamerRequest::Load(far), &mut world).unwrap();
    assert!(req.chunk_status.is_within_load);
    assert!(!req.chunk_status.is_within_render);
    assert_eq!(req.curr_state, ChunkState::Empty);
    world.set_chunk_state(far, ChunkState::Loading);
    assert!(handler.handle_streamer_request(&ChunkStreamerRequest::Load(far), &mut world).is_none());
    assert!(handler.handle_streamer_request(&ChunkStreamerRequest::Remove(far), &mut world).is_none());
    assert_eq!(world.get_chunk_state(far), ChunkState::Empty);
}

#[test]
fn loaded_chunk_is_kept_only_while_loading() {
    let mut world = PhysicalWorld::new();
    let handler = ChunkUpdateHandler::new(ChunkPos::new(0, 0, 0), StreamerConfig::new(1, 1));
    let pos = ChunkPos::new(16, 0, 0);
    let req = handler.handle_chunk_loaded(&ChunkLoaded { chunk_pos: pos, chunk: Chunk::empty() }, &mut world);
    assert!(!req.chunk_status.loaded);
    world.set_chunk_state(pos, ChunkState::Loading);
    let req = handler.handle_chunk_loaded(&ChunkLoaded { chunk_pos: pos, chunk: Chunk::empty() }, &mut world);
    assert!(req.chunk_status.loaded);
    assert!(req.chunk_status.is_within_render);
    let req = handler.handle_chunk_built(&ChunkBuilt { chunk_pos: pos, chunk_mesh: ChunkMesh::new() }, &mut world);
    assert!(!req.chunk_status.mesh_built);
    world.set_chunk_state(pos, ChunkState::ToDraw);
    let req = handler.handle_chunk_built(&ChunkBuilt { chunk_pos: pos, chunk_mesh: ChunkMesh::new() }, &mut world);
    assert!(req.chunk_status.mesh_built);
}

#[test]
fn transitions_ask_the_right_service() {
    let mut world = PhysicalWorld::new();
    let handler = ChunkUpdateHandler::new(ChunkPos::new(0, 0, 0), StreamerConfig::new(1, 1));
    let pos = ChunkPos::new(0, 0, 0);
    let r = process_transition_event(&handler, &mut world, &ChunkStateTransition {
        chunk_pos: pos, new_state: ChunkState::Loading, transition: ChunkTransition::EmptyToLoading,
    });
    assert!(matches!(r, TransitionRequest::Loader(ChunkLoaderRequest::Load(p)) if p == pos));
    assert_eq!(world.get_chunk_state(pos), ChunkState::Loading);
    let far = ChunkPos::new(160, 0, 0);
    world.set_chunk_state(far, ChunkState::Loading);
    let r = process_transition_event(&handler, &mut world, &ChunkStateTransition {
        chunk_pos: far, new_state: ChunkState::Empty, transition: ChunkTransition::LoadingToEmpty,
    });
    assert!(matches!(r, TransitionRequest::Loader(ChunkLoaderRequest::CancelLoading(p)) if p == far));
    assert_eq!(world.get_chunk_state(far), ChunkState::Empty);
    world.set_chunk(pos, Chunk::empty());
    world.set_chunk_need_rebuild(pos);
    let r = process_transition_event(&handler, &mut world, &ChunkStateTransition {
        chunk_pos: pos, new_state: ChunkState::ToDraw, transition: ChunkTransition::LoadedToToDraw,
    });
    assert!(matches!(r, TransitionRequest::Builder(ChunkBuilderRequest::Build(p, _)) if p == pos));
    assert!(!world.get_chunk_need_rebuild(pos));
    world.add_chunk_mesh(pos, ChunkMesh::new());
    let r = process_transition_event(&handler, &mut world, &ChunkStateTransition {
        chunk_pos: pos, new_state: ChunkState::Drawn, transition: ChunkTransition::ToDrawToDrawn,
    });
    assert!(matches!(r, TransitionRequest::Entity(ChunkEntityEvent::Create(p, _)) if p == pos));
    let r = process_transition_event(&handler, &mut world, &ChunkStateTransition {
        chunk_pos: pos, new_state: ChunkState::Loaded, transition: ChunkTransition::DrawnToLoaded,
    });
    assert!(matches!(r, TransitionRequest::Entity(ChunkEntityEvent::Remove(p)) if p == pos));
    assert!(world.get_chunk_mesh(pos).is_none());
    let r = process_transition_event(&handler, &mut world, &ChunkStateTransition {
        chunk_pos: pos, new_state: ChunkState::Empty, transition: ChunkTransition::LoadedToEmpty,
    });
    assert!(matches!(r, TransitionRequest::Nothing));
    assert!(world.get_chunk(pos).is_none());
}

#[test]
fn world_state_manager_loads_unconditionally() {
    let mut world = PhysicalWorld::new();
    let config = StreamerConfig::new(2, 1);
    let pos = ChunkPos::new(16, 16, 0);
    let status = world_state_manager::handle_loaded(&ChunkLoaded { chunk_pos: pos, chunk: Chunk::empty() }, ChunkPos::new(0, 0, 0), &config, &mut world);
    assert!(status.loaded && status.is_within_render && status.is_within_load);
    let status = world_state_manager::handle_streamer_request(&ChunkStreamerRequest::Load(ChunkPos::new(800, 0, 0)), ChunkPos::new(0, 0, 0), &config, &mut world).unwrap();
    assert!(status.is_within_load && !status.loaded);
}

#[test]
fn pending_queue_hands_out_nearest_first() {
    let mut queue = PendingChunkQueue::new();
    queue.add_chunk(ChunkPos::new(64, 0, 0));
    queue.add_chunk(ChunkPos::new(16, 0, 0));
    queue.add_chunk(ChunkPos::new(0, -32, 0));
    queue.add_chunk(ChunkPos::new(16, 0, 0));
    assert_eq!(queue.len(), 3);
    let first = queue.take_nearest_chunks(2, ChunkPos::new(0, 0, 0));
    assert_eq!(first, vec![ChunkPos::new(16, 0, 0), ChunkPos::new(0, -32, 0)]);
    assert_eq!(queue.len(), 1);
    assert!(queue.contains_chunk(ChunkPos::new(64, 0, 0)));
    let rest = queue.take_nearest_chunks(5, ChunkPos::new(0, 0, 0));
    assert_eq!(rest, vec![ChunkPos::new(64, 0, 0)]);
    assert_eq!(manhattan_distance(ChunkPos::new(-1, 2, -3), ChunkPos::new(1, 0, 0)), 7);
}

#[test]
fn generators_list_columns_and_cubes() {
    let columns: HashSet<ChunkPos> = chunk_positions_2d(ChunkPos::new(0, 100, 0), 1).into_iter().collect();
    assert_eq!(columns.len(), 9);
    assert!(columns.contains(&ChunkPos::new(16, 0, -16)));
    assert!(columns.iter().all(|p| p.y == 0));
    assert_eq!(chunk_positions_3d(ChunkPos::new(0, 0, 0), 1).len(), 27);
}

#[test]
fn loader_tracks_desired_chunks() {
    let config = ChunkLoaderConfig { max_loads_per_frame: 4, load_distance: 1, dynamic_vertical_loading: false, debug: false };
    let mut data = LoaderResources::new();
    let unloaded = update_loader_desired(&mut data, &config, ChunkPos::new(0, 0, 0));
    assert!(unloaded.is_empty());
    assert_eq!(data.counts(), (9, 0, 9));
    assert_eq!(desired_positions(&config, ChunkPos::new(0, 0, 0)).len(), 9);
    let loaded = load_chunks(&mut data, &mut FlatLoader, ChunkPos::new(0, 0, 0), &config);
    assert_eq!(loaded.len(), 4);
    assert_eq!(loaded[0].0, ChunkPos::new(0, 0, 0));
    assert_eq!(data.counts(), (5, 4, 9));
    // Moving far away unloads everything loaded.
    let unloaded = update_loader_desired(&mut data, &config, ChunkPos::new(1600, 0, 0));
    assert_eq!(unloaded.len(), 4);
    assert!(unloaded.contains(&ChunkUnloaded(ChunkPos::new(0, 0, 0))));
    assert_eq!(data.counts().1, 0);
}

#[test]
fn builder_tracks_desired_chunks_and_layers() {
    let config = ChunkBuilderConfig { height: 2, render_distance: 0, ..ChunkBuilderConfig::default() };
    assert_eq!(ChunkBuilderConfig::default().max_builds_per_frame, 16);
    let wanted = desired_build_positions(&config, ChunkPos::new(0, 0, 0));
    let wanted: HashSet<ChunkPos> = wanted.into_iter().collect();
    assert_eq!(wanted, [ChunkPos::new(0, 0, 0), ChunkPos::new(0, 16, 0)].into_iter().collect());
    let mut data = BuilderResources::new();
    assert!(update_builder_desired(&mut data, &config, ChunkPos::new(0, 0, 0)).is_empty());
    assert_eq!(data.counts(), (2, 0, 2));
    let removed = update_builder_desired(&mut data, &config, ChunkPos::new(160, 0, 0));
    assert!(removed.is_empty());
    assert_eq!(data.counts(), (2, 0, 2));
}

#[test]
fn neighbors_follow_side_order() {
    let n = iter_neighbors(ChunkPos::new(0, 0, 0));
    assert_eq!(n[0], ChunkPos::new(0, 0, 16));
    assert_eq!(n[1], ChunkPos::new(0, 0, -16));
    assert_eq!(n[2], ChunkPos::new(16, 0, 0));
    assert_eq!(n[3], ChunkPos::new(-16, 0, 0));
    assert_eq!(n[4], ChunkPos::new(0, 16, 0));
    assert_eq!(n[5], ChunkPos::new(0, -16, 0));
}

fn chunks_around(origin: ChunkPos, with_top: bool) -> PosMap<Chunk> {
    let mut chunks = PosMap::new();
    chunks.insert(origin, Chunk::empty());
    for (i, n) in iter_neighbors(origin).iter().enumerate() {
        if i < 4 || with_top {
            chunks.insert(*n, Chunk::empty());
        }
    }
    chunks
}

#[test]
fn chunk_with_neighbors_needs_all_neighbours() {
    let origin = ChunkPos::new(0, 0, 0);
    let all = chunks_around(origin, true);
    let c = create_chunk_with_neighbors(origin, &all).unwrap();
    assert!(c.neighbors.iter().all(|n| n.is_some()));
    // the neighbour above is missing
    let without_top = chunks_around(origin, false);
    assert!(create_chunk_with_neighbors(origin, &without_top).is_none());
    let mut missing = chunks_around(origin, true);
    missing.remove(ChunkPos::new(16, 0, 0));
    assert!(create_chunk_with_neighbors(origin, &missing).is_none());
}

#[test]
fn build_chunks_meshes_and_requeues() {
    let config = ChunkBuilderConfig { render_distance: 0, ..ChunkBuilderConfig::default() };
    let origin = ChunkPos::new(0, 0, 0);
    let mut data = BuilderResources::new();
    update_builder_desired(&mut data, &config, origin);
    // Neighbours missing: the chunk goes back to the queue.
    let empty = PosMap::new();
    let (built, _) = build_chunks(&mut data, &empty, &OneFaceMesher { uv_2: 3 }, origin, &config);
    assert!(built.is_empty());
    assert_eq!(data.counts(), (1, 0, 1));
    let chunks = chunks_around(origin, true);
    let (built, warnings) = build_chunks(&mut data, &chunks, &OneFaceMesher { uv_2: 3 }, origin, &config);
    assert_eq!(built.len(), 1);
    assert_eq!(warnings.len(), 1);
    assert_eq!(built[0].0, origin);
    assert_eq!(built[0].1.vertex_count(), 4);
    assert_eq!(data.counts(), (0, 1, 1));
    // A rebuild queues the chunk and its neighbours.
    rebuild_chunks(&mut data, &vec![origin]);
    assert_eq!(data.counts().0, 7);
    // Moving away drops the built chunk.
    let removed = update_builder_desired(&mut data, &config, ChunkPos::new(1600, 0, 0));
    assert_eq!(removed, vec![ChunkRemoved(origin)]);
}

#[test]
fn unpackable_faces_give_no_mesh() {
    let mut layers = HashMap::new();
    let face = FaceData { facing_side: BlockSide::Top, block_pos: BlockInChunkPos::new(0, 0, 0), uv_2: 256 };
    layers.insert(2u8, ChunkMeshData { faces: vec![face] });
    assert!(try_build_chunk_mesh(&layers).is_none());
    let ok = FaceData { uv_2: 255, ..face };
    layers.insert(2u8, ChunkMeshData { faces: vec![ok, ok] });
    let mesh = try_build_chunk_mesh(&layers).unwrap();
    assert_eq!(mesh.vertex_count(), 8);
    assert_eq!(build_chunk_mesh(&layers).layers().len(), 1);
}

#[test]
fn voxel_edit_changes_one_block() {
    let (chunk_pos, in_chunk) = locate_block(BlockPos { x: -1, y: 17, z: 0 });
    assert_eq!(chunk_pos, ChunkPos::new(-16, 16, 0));
    assert_eq!(in_chunk, BlockInChunkPos::new(15, 1, 0));
    let mut chunks = PosMap::new();
    chunks.insert(chunk_pos, Chunk::empty());
    let updated = apply_voxel_edit(VoxelEdit(BlockPos { x: -1, y: 17, z: 0 }, 9), &mut chunks).unwrap();
    assert_eq!(updated.0, chunk_pos);
    assert_eq!(updated.1.get_block(in_chunk), 9);
    assert_eq!(chunks.get(chunk_pos).unwrap().get_block(in_chunk), 9);
    assert_eq!(chunks.get(chunk_pos).unwrap().get_block(BlockInChunkPos::new(0, 0, 0)), 0);
    assert!(apply_voxel_edit(VoxelEdit(BlockPos { x: 100, y: 0, z: 0 }, 9), &mut chunks).is_none());
}

#[test]
fn mesher_warnings_add_up() {
    let mut accum: HashMap<u16, u32> = HashMap::new();
    accum.insert(3, 2);
    accum.insert(5, 1);
    let mut more: HashMap<u16, u32> = HashMap::new();
    more.insert(3, 4);
    more.insert(7, 6);
    accum_mesher_warnings(&mut accum, &more);
    assert_eq!(accum.len(), 3);
    assert_eq!(accum.get(&3), Some(&6));
    assert_eq!(accum.get(&5), Some(&1));
    assert_eq!(accum.get(&7), Some(&6));
    accum_mesher_warnings(&mut accum, &HashMap::new());
    assert_eq!(accum.len(), 3);
    assert_eq!(accum.get(&7), Some(&6));
}
