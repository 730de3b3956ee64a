use voxel_client::chunk_manager::chunk_data_manager::chunk_storage::ChunkStorage;
use voxel_client::chunk_manager::chunk_data_manager::world_event_handler::{
    collect_chunks_to_update, process_state_update_request, ChunkLoaderRequest,
    ChunkUpdateHandler, WorldEventHandlerConfig,
};
use voxel_client::chunk_manager::chunk_state::{
    get_chunk_transition, get_next_chunk_state, ChunkState, ChunkStatus, ChunkTransition,
};
use voxel_client::chunk_manager::chunk_state_manager::{ChunkManager, Config, ControllerPos};
use voxel_client::chunk_manager::mesh_state::{ChunkMeshStatus, MeshState, MeshTransition};
use voxel_client::chunk_manager::physical_world::PhysicalWorld;
use voxel_client::chunk_manager::voxel_edit::BlockPos;
use voxel_client::chunk_mesh_builder::builders::async_chunk_builder::{
    AsyncChunkBuilder, MAX_BUILD_JOBS,
};
use voxel_client::chunk_mesh_builder::builders::chunk_builder::BuilderError;
use voxel_client::chunk_mesh_builder::chunk_mesh::ChunkMesh;
use voxel_client::controller::{block_action_for, ActionType, BlockAction};
use voxel_client::pos_map::PosMap;
use voxel_client::types::{Chunk, ChunkPos};

fn status(is_within_load: bool, loaded: bool) -> ChunkStatus {
    ChunkStatus { is_within_load, loaded }
}

fn mesh_status(within: bool, can_start: bool, built: bool, rebuild: bool) -> ChunkMeshStatus {
    ChunkMeshStatus {
        is_within_render: within,
        can_start_building: can_start,
        mesh_built: built,
        needs_rebuild: rebuild,
    }
}

#[test]
fn three_state_machine_steps() {
    assert_eq!(get_next_chunk_state(ChunkState::Empty, status(true, false)), ChunkState::Loading);
    assert_eq!(get_next_chunk_state(ChunkState::Empty, status(false, true)), ChunkState::Empty);
    assert_eq!(get_next_chunk_state(ChunkState::Loading, status(true, false)), ChunkState::Loading);
    assert_eq!(get_next_chunk_state(ChunkState::Loading, status(true, true)), ChunkState::Loaded);
    assert_eq!(get_next_chunk_state(ChunkState::Loading, status(false, true)), ChunkState::Empty);
    assert_eq!(ChunkState::Loaded.get_next_chunk_state(status(true, false)), ChunkState::Loaded);
    assert_eq!(ChunkState::Loaded.get_next_chunk_state(status(false, true)), ChunkState::Empty);
}

#[test]
fn three_state_transitions() {
    assert_eq!(
        get_chunk_transition(ChunkState::Empty, ChunkState::Loading),
        Some(ChunkTransition::EmptyToLoading)
    );
    assert_eq!(
        ChunkState::Loading.get_chunk_transition(ChunkState::Empty),
        Some(ChunkTransition::LoadingToEmpty)
    );
    assert_eq!(get_chunk_transition(ChunkState::Empty, ChunkState::Loaded), None);
    assert_eq!(get_chunk_transition(ChunkState::Loaded, ChunkState::Loading), None);
    let t = ChunkTransition::LoadingToLoaded;
    assert_eq!(t.from(), ChunkState::Loading);
    assert_eq!(t.to(), ChunkState::Loaded);
    assert_eq!(ChunkTransition::LoadedToEmpty.to(), ChunkState::Empty);
}

#[test]
fn mesh_state_machine_steps() {
    let outside = mesh_status(false, true, true, true);
    assert_eq!(MeshState::Built.get_next_chunk_mesh_state(outside), MeshState::Empty);
    assert_eq!(
        MeshState::Empty.get_next_chunk_mesh_state(mesh_status(true, false, false, false)),
        MeshState::WaitingToBuild
    );
    assert_eq!(
        MeshState::WaitingToBuild.get_next_chunk_mesh_state(mesh_status(true, false, false, false)),
        MeshState::WaitingToBuild
    );
    assert_eq!(
        MeshState::WaitingToBuild.get_next_chunk_mesh_state(mesh_status(true, true, false, false)),
        MeshState::Building
    );
    // a rebuild request wins over a finished build
    assert_eq!(
        MeshState::Building.get_next_chunk_mesh_state(mesh_status(true, true, true, true)),
        MeshState::WaitingToBuild
    );
    assert_eq!(
        MeshState::Building.get_next_chunk_mesh_state(mesh_status(true, true, true, false)),
        MeshState::Built
    );
    assert_eq!(
        MeshState::Built.get_next_chunk_mesh_state(mesh_status(true, true, true, true)),
        MeshState::WaitingToBuild
    );
}

#[test]
fn mesh_transitions() {
    assert_eq!(
        MeshState::Building.get_mesh_transition(MeshState::Built),
        Some(MeshTransition { from: MeshState::Building, to: MeshState::Built })
    );
    assert_eq!(MeshState::Empty.get_mesh_transition(MeshState::Built), None);
    assert_eq!(MeshState::Empty.get_mesh_transition(MeshState::WaitingToBuild), None);
    assert_eq!(MeshState::Built.get_mesh_transition(MeshState::Building), None);
}

#[test]
fn physical_world_tracks_states() {
    let mut world = PhysicalWorld::new();
    let a = ChunkPos::new(0, 0, 0);
    let b = ChunkPos::new(16, 0, 0);
    assert_eq!(world.get_chunk_state(a), ChunkState::Empty);
    world.set_chunk_state(a, ChunkState::Loading);
    world.set_chunk_state(b, ChunkState::Loaded);
    assert_eq!(world.get_chunk_state(a), ChunkState::Loading);
    assert_eq!(world.get_chunks_with_state(ChunkState::Loaded), vec![b]);
    world.remove_chunk(b);
    assert_eq!(world.get_chunk_state(b), ChunkState::Empty);
    assert!(world.get_chunks_with_state(ChunkState::Loaded).is_empty());
}

#[test]
fn chunk_manager_moves_controller_without_tracked_chunks() {
    let mut manager = ChunkManager::new(Config::new(2, 1));
    let mut controller = ControllerPos(ChunkPos::new(0, 0, 0));
    let mut chunks: PosMap<Chunk> = PosMap::new();
    chunks.insert(ChunkPos::new(160, 0, 0), Chunk::empty());
    manager.update_controller_pos(&mut controller, ChunkPos::new(16, 0, 0), &mut chunks);
    assert_eq!(controller.0, ChunkPos::new(16, 0, 0));
    // untracked chunks are left alone
    assert_eq!(chunks.len(), 1);
    assert!(manager.get_world().get_chunks_with_state(ChunkState::Loading).is_empty());
}

#[test]
fn data_manager_steps_a_chunk_through_its_states() {
    let handler = ChunkUpdateHandler::new(
        ChunkPos::new(0, 0, 0),
        WorldEventHandlerConfig { load_distance: 1, dynamic_vertical_loading: false },
    );
    let mut storage = ChunkStorage::new();
    let near = ChunkPos::new(16, 0, 0);
    let far = ChunkPos::new(64, 0, 0);

    assert!(handler.is_player_within_distance(near, 1));
    assert!(!handler.is_player_within_distance(far, 1));

    // far away and empty: nothing to do
    assert_eq!(process_state_update_request(&handler, &mut storage, far), None);
    assert_eq!(storage.get_chunk_state(far), ChunkState::Empty);

    // near: empty -> loading asks for a load
    assert_eq!(
        process_state_update_request(&handler, &mut storage, near),
        Some(ChunkLoaderRequest::Load(near))
    );
    assert_eq!(storage.get_chunk_state(near), ChunkState::Loading);
    let s = handler.create_chunk_status(near, &storage);
    assert!(s.is_within_load);
    assert!(!s.loaded);

    // not loaded yet: stays loading
    assert_eq!(process_state_update_request(&handler, &mut storage, near), None);
    assert_eq!(storage.get_chunk_state(near), ChunkState::Loading);
    assert_eq!(storage.get_all_chunks(), vec![near]);

    // a far chunk that is loading gets cancelled
    let moved = ChunkUpdateHandler::new(
        ChunkPos::new(160, 0, 0),
        WorldEventHandlerConfig { load_distance: 1, dynamic_vertical_loading: false },
    );
    assert_eq!(
        process_state_update_request(&moved, &mut storage, near),
        Some(ChunkLoaderRequest::CancelLoading(near))
    );
    assert_eq!(storage.get_chunk_state(near), ChunkState::Empty);
    assert!(!storage.contains_chunk(near));
}

#[test]
fn data_manager_loads_chunk_into_storage() {
    let mut storage = ChunkStorage::new();
    let pos = ChunkPos::new(0, 0, 0);
    assert!(!storage.is_loaded(pos));
    storage.change_state(pos, ChunkTransition::EmptyToLoading);
    storage.load(pos, Chunk::empty());
    assert!(storage.is_loaded(pos));
    assert_eq!(storage.get_chunk(pos), Some(&Chunk::empty()));
    assert_eq!(storage.get_chunks_with_state(ChunkState::Loaded), vec![pos]);
    storage.change_state(pos, ChunkTransition::LoadedToEmpty);
    assert!(!storage.is_loaded(pos));
    assert!(storage.get_chunk(pos).is_none());
}

#[test]
fn chunks_to_update_are_merged_once() {
    let a = ChunkPos::new(0, 0, 0);
    let b = ChunkPos::new(16, 0, 0);
    let c = ChunkPos::new(32, 0, 0);
    let merged = collect_chunks_to_update(&vec![a, b, a], &vec![b, c]);
    assert_eq!(merged.len(), 3);
    assert!(merged.contains(&a) && merged.contains(&b) && merged.contains(&c));
}

#[test]
fn block_actions_follow_the_click() {
    let hit = BlockPos { x: 1, y: 2, z: 3 };
    let before = BlockPos { x: 1, y: 3, z: 3 };
    assert_eq!(
        block_action_for(ActionType::LeftClick, hit, before, 5, 0, 7),
        BlockAction { feasible: true, pos: hit, new_block: 0 }
    );
    assert_eq!(
        block_action_for(ActionType::RightClick, hit, before, 0, 0, 7),
        BlockAction { feasible: true, pos: before, new_block: 7 }
    );
    assert_eq!(
        block_action_for(ActionType::RightClick, hit, before, 3, 0, 7),
        BlockAction { feasible: false, pos: before, new_block: 7 }
    );
}

#[test]
fn async_builder_refuses_duplicates_and_hands_out_nearest() {
    let mut builder: AsyncChunkBuilder<u32> = AsyncChunkBuilder::new();
    let chunk = Chunk::empty();
    let near = ChunkPos::new(16, 0, 0);
    assert_eq!(builder.try_build(near, &chunk, 1), Ok(()));
    assert_eq!(builder.try_build(near, &chunk, 2), Err(BuilderError::ChunkAlreadyExists(near)));
    assert!(builder.is_chunk_in_builder(near));

    for i in 0..20isize {
        let pos = ChunkPos::new(16 * (i + 2), 0, 0);
        assert_eq!(builder.try_build(pos, &chunk, 10), Ok(()));
    }
    let jobs = builder.start_jobs(ChunkPos::new(0, 0, 0));
    assert_eq!(jobs.len(), MAX_BUILD_JOBS);
    assert!(jobs.iter().any(|(p, _)| *p == near));
    // the farthest positions are still waiting
    let far = ChunkPos::new(16 * 21, 0, 0);
    assert!(!jobs.iter().any(|(p, _)| *p == far));
    assert!(builder.is_chunk_in_builder(far));

    builder.finish_job(near, ChunkMesh::new());
    // a job whose chunk is not running is ignored
    builder.finish_job(far, ChunkMesh::new());
    let done = builder.poll_completed();
    assert_eq!(done.len(), 1);
    assert_eq!(done.get(near).unwrap().1, 1);
    assert!(builder.poll_completed().len() == 0);

    builder.remove_chunk(far);
    assert!(!builder.is_chunk_in_builder(far));
    builder.clear_all();
    assert!(!builder.is_chunk_in_builder(ChunkPos::new(32, 0, 0)));
}

#[test]
fn pos_map_inserts_replaces_and_removes() {
    let mut map: PosMap<u32> = PosMap::new();
    let a = ChunkPos::new(0, 0, 0);
    let b = ChunkPos::new(0, 16, 0);
    map.insert(a, 1);
    map.insert(b, 2);
    map.insert(a, 3);
    assert_eq!(map.len(), 2);
    assert_eq!(map.get(a), Some(&3));
    assert_eq!(map.remove(b), Some(2));
    assert_eq!(map.remove(b), None);
    assert!(!map.contains_key(b));
    assert_eq!(map.keys(), vec![a]);
    let entries = map.take_entries();
    assert_eq!(entries, vec![(a, 3)]);
    assert_eq!(map.len(), 0);
}
