use std::collections::HashSet;
use voxel_client::chunk_manager::chunk_state_manager::Config;
use voxel_client::chunk_mesh_builder::chunk_mesh::ChunkMesh;
use voxel_client::chunk_state_manager::chunk_state::{get_chunk_transition, get_next_chunk_state, ChunkState, ChunkStatus, ChunkTransition};
use voxel_client::chunk_state_manager::chunk_state_manager::{
    visit_chunks_in_distance, ChunkBuilder, ChunkLoader, ChunkManager, ChunkObjectEvent,
};
use voxel_client::chunk_state_manager::physical_world::{PhysicalWorld, Version};
use voxel_client::types::{BlockStorage, Chunk, ChunkPos, CHUNK_SIZE};

struct FlatLoader;

impl ChunkLoader for FlatLoader {
    fn load_chunk(&mut self, _pos: ChunkPos) -> Chunk {
        Chunk::new(BlockStorage::new(vec![2u16; 4096]))
    }
}

/// Builds every mesh at once.
struct InstantBuilder {
    built: Vec<(ChunkPos, Version)>,
}

impl ChunkBuilder for InstantBuilder {
    fn build_chunk(&mut self, chunk_pos: ChunkPos, _chunk: &Chunk, version: Version) {
        self.built.push((chunk_pos, version));
    }

    fn collect_finished_results(&mut self) {}

    fn take_built_chunk_mesh_by_version(&mut self, chunk_pos: ChunkPos, version: Version) -> Option<ChunkMesh> {
        let i = self.built.iter().position(|e| *e == (chunk_pos, version))?;
        self.built.remove(i);
        Some(ChunkMesh::new())
    }

    fn is_chunk_mesh_built_with_version(&self, chunk_pos: ChunkPos, version: Version) -> bool {
        self.built.contains(&(chunk_pos, version))
    }
}

/// Never finishes a mesh.
struct StuckBuilder;

impl ChunkBuilder for StuckBuilder {
    fn build_chunk(&mut self, _chunk_pos: ChunkPos, _chunk: &Chunk, _version: Version) {}

    fn collect_finished_results(&mut self) {}

    fn take_built_chunk_mesh_by_version(&mut self, _chunk_pos: ChunkPos, _version: Version) -> Option<ChunkMesh> {
        None
    }

    fn is_chunk_mesh_built_with_version(&self, _chunk_pos: ChunkPos, _version: Version) -> bool {
        false
    }
}

#[test]
fn chunk_state_manager_test_for_each_chunk_in_distance() {
    let mut actual_positions: HashSet<ChunkPos> = HashSet::new();

    for pos in visit_chunks_in_distance(ChunkPos::new(0, 0, 0), 2, false) {
        actual_positions.insert(pos);
    }

    let expected_positions: HashSet<ChunkPos> = (-2..=2)
        .flat_map(|y| (-2..=2).map(move |x| ChunkPos::new(x * CHUNK_SIZE as isize, y * CHUNK_SIZE as isize, 0)))
        .collect();

    assert_eq!(actual_positions, expected_positions);
}

#[test]
fn visit_vertically_covers_a_cube() {
    let positions = visit_chunks_in_distance(ChunkPos::new(0, 0, 20), 1, true);
    assert_eq!(positions.len(), 27);
    let set: HashSet<ChunkPos> = positions.into_iter().collect();
    assert!(set.contains(&ChunkPos::new(-16, 16, 32)));
    assert!(set.contains(&ChunkPos::new(16, -16, 0)));
    assert!(!set.contains(&ChunkPos::new(0, 0, 48)));
}

#[test]
fn controller_update_draws_near_chunks() {
    let builder = InstantBuilder { built: Vec::new() };
    let mut manager = ChunkManager::new(FlatLoader, builder, Config::new(1, 0));
    manager.update_controller_pos(ChunkPos::new(16, 0, 0));
    let world = manager.get_world();
    assert_eq!(world.get_chunk_state(ChunkPos::new(16, 0, 0)), ChunkState::Drawn);
    assert_eq!(world.get_chunk_state(ChunkPos::new(0, 0, 0)), ChunkState::Loaded);
    assert_eq!(world.get_chunk_state(ChunkPos::new(48, 0, 0)), ChunkState::Empty);
    assert_eq!(world.get_chunks_with_any_state().len(), 9);
    assert_eq!(world.get_chunk_mesh_version(ChunkPos::new(16, 0, 0)), 1);
    let events = manager.take_object_events();
    assert_eq!(events.len(), 1);
    assert!(matches!(events[0], ChunkObjectEvent::Created(p, _) if p == ChunkPos::new(16, 0, 0)));
}

#[test]
fn chunks_wait_for_a_stuck_builder() {
    let mut manager = ChunkManager::new(FlatLoader, StuckBuilder, Config::new(1, 1));
    manager.update_controller_pos(ChunkPos::new(16, 16, 0));
    assert_eq!(manager.get_world().get_chunks_with_state(ChunkState::ToDraw).len(), 9);
    manager.check_built_chunks();
    assert_eq!(manager.get_world().get_chunks_with_state(ChunkState::ToDraw).len(), 9);
    assert!(manager.take_object_events().is_empty());
}

#[test]
fn moving_away_removes_drawn_chunks() {
    let builder = InstantBuilder { built: Vec::new() };
    let mut manager = ChunkManager::new(FlatLoader, builder, Config::new(0, 0));
    manager.update_controller_pos(ChunkPos::new(16, 0, 0));
    assert_eq!(manager.get_world().get_chunk_state(ChunkPos::new(16, 0, 0)), ChunkState::Drawn);
    manager.take_object_events();
    manager.update_controller_pos(ChunkPos::new(160, 0, 0));
    let world = manager.get_world();
    assert_eq!(world.get_chunk_state(ChunkPos::new(16, 0, 0)), ChunkState::Empty);
    assert!(world.get_chunk(ChunkPos::new(16, 0, 0)).is_none());
    let events = manager.take_object_events();
    assert!(events.iter().any(|e| matches!(e, ChunkObjectEvent::Removed(p) if *p == ChunkPos::new(16, 0, 0))));
}

#[test]
fn set_chunk_redraws_and_reports() {
    let builder = InstantBuilder { built: Vec::new() };
    let mut manager = ChunkManager::new(FlatLoader, builder, Config::new(0, 0));
    manager.update_controller_pos(ChunkPos::new(16, 0, 0));
    let pos = ChunkPos::new(16, 0, 0);
    let new_chunk = Chunk::empty();
    manager.set_chunk(pos, new_chunk.clone());
    assert_eq!(manager.get_world().get_chunk_state(pos), ChunkState::ToDraw);
    assert_eq!(manager.get_world().get_chunk_mesh_version(pos), 2);
    assert_eq!(manager.get_chunk(pos), Some(&new_chunk));
    let updates = manager.take_world_updates();
    assert_eq!(updates.len(), 1);
    assert_eq!(updates[0].chunk_pos, pos);
    // A chunk set far away is stored as loaded, without loading.
    let far = ChunkPos::new(320, 0, 0);
    manager.set_chunk(far, Chunk::empty());
    assert_eq!(manager.get_world().get_chunk_state(far), ChunkState::Loaded);
    manager.remove_chunk(far);
    assert_eq!(manager.get_world().get_chunk_state(far), ChunkState::Empty);
    assert!(manager.get_chunk(far).is_none());
    // One update for setting the chunk, one for removing it.
    assert_eq!(manager.take_world_updates().len(), 2);
}

#[test]
fn get_or_load_chunk_respects_world_scope() {
    let mut manager = ChunkManager::new(FlatLoader, StuckBuilder, Config::new(0, 0));
    assert!(manager.get_or_load_chunk(ChunkPos::new(0, 0, 16)).is_none());
    let chunk = manager.get_or_load_chunk(ChunkPos::new(64, 0, 0)).cloned();
    assert!(chunk.is_some());
    assert_eq!(manager.get_world().get_chunk_state(ChunkPos::new(64, 0, 0)), ChunkState::Loaded);
}

#[test]
fn physical_world_versions_start_at_one_and_wrap() {
    let mut world = PhysicalWorld::new();
    let pos = ChunkPos::new(0, 0, 0);
    assert_eq!(world.get_chunk_mesh_version(pos), 0);
    assert_eq!(world.increment_chunk_mesh_version(pos), 1);
    assert_eq!(world.increment_chunk_mesh_version(pos), 2);
    world.set_chunk_need_rebuild(pos);
    assert!(world.get_chunk_need_rebuild(pos));
    world.remove_chunk_need_rebuild(pos);
    assert!(!world.get_chunk_need_rebuild(pos));
}

#[test]
fn five_state_machine_steps() {
    let status = ChunkStatus { is_within_render: true, is_within_load: true, loaded: true, mesh_built: false, needs_rebuild: false };
    assert_eq!(get_next_chunk_state(ChunkState::Empty, status), ChunkState::Loading);
    assert_eq!(get_next_chunk_state(ChunkState::Loading, status), ChunkState::Loaded);
    assert_eq!(get_next_chunk_state(ChunkState::Loaded, status), ChunkState::ToDraw);
    assert_eq!(get_next_chunk_state(ChunkState::ToDraw, status), ChunkState::ToDraw);
    let built = ChunkStatus { mesh_built: true, ..status };
    assert_eq!(get_next_chunk_state(ChunkState::ToDraw, built), ChunkState::Drawn);
    let rebuild = ChunkStatus { needs_rebuild: true, ..built };
    assert_eq!(get_next_chunk_state(ChunkState::Drawn, rebuild), ChunkState::ToDraw);
    assert_eq!(get_next_chunk_state(ChunkState::ToDraw, rebuild), ChunkState::Loaded);
    let far = ChunkStatus { is_within_render: false, is_within_load: false, ..status };
    assert_eq!(get_next_chunk_state(ChunkState::Drawn, far), ChunkState::Loaded);
    assert_eq!(get_next_chunk_state(ChunkState::Loaded, far), ChunkState::Empty);
    assert_eq!(get_chunk_transition(ChunkState::Drawn, ChunkState::Loaded), Some(ChunkTransition::DrawnToLoaded));
    assert_eq!(get_chunk_transition(ChunkState::Empty, ChunkState::Drawn), None);
}

#[test]
fn removing_a_drawn_chunk_reports_its_object_and_drops_its_version() {
    let builder = InstantBuilder { built: Vec::new() };
    let mut manager = ChunkManager::new(FlatLoader, builder, Config::new(0, 0));
    let pos = ChunkPos::new(16, 0, 0);
    manager.update_controller_pos(pos);
    manager.check_built_chunks();
    assert_eq!(manager.get_world().get_chunk_state(pos), ChunkState::Drawn);
    let _ = manager.take_object_events();
    manager.remove_chunk(pos);
    let events = manager.take_object_events();
    assert_eq!(events.len(), 1);
    assert!(matches!(events[0], ChunkObjectEvent::Removed(p) if p == pos));
    assert_eq!(manager.get_world().get_chunk_mesh_version(pos), 0);
    assert_eq!(manager.get_world().get_chunk_state(pos), ChunkState::Empty);
}

#[test]
fn setting_a_drawn_chunk_asks_the_builder_for_the_new_version() {
    let builder = InstantBuilder { built: Vec::new() };
    let mut manager = ChunkManager::new(FlatLoader, builder, Config::new(0, 0));
    let pos = ChunkPos::new(16, 0, 0);
    manager.update_controller_pos(pos);
    manager.check_built_chunks();
    assert_eq!(manager.get_world().get_chunk_state(pos), ChunkState::Drawn);
    manager.set_chunk(pos, Chunk::empty());
    assert_eq!(manager.get_world().get_chunk_state(pos), ChunkState::ToDraw);
    // the builder got the new version and finishes it at once
    manager.check_built_chunks();
    assert_eq!(manager.get_world().get_chunk_state(pos), ChunkState::Drawn);
    assert!(manager.take_object_events().iter().all(|e| match e {
        ChunkObjectEvent::Created(p, _) => *p == pos,
        ChunkObjectEvent::Removed(p) => *p == pos,
    }));
}
