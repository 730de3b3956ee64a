use std::collections::HashSet;
use voxel_client::chunk_manager::chunk_manager::{for_each_chunk_in_distance, ChunkBuilder, ChunkManager, Config};
use voxel_client::chunk_mesh_builder::chunk_mesh::ChunkMesh;
use voxel_client::chunk_state_manager::chunk_state::ChunkState;
use voxel_client::chunk_state_manager::chunk_state_manager::ChunkLoader;
use voxel_client::types::{BlockStorage, Chunk, ChunkPos, CHUNK_SIZE};

struct FlatLoader;

impl ChunkLoader for FlatLoader {
    fn load_chunk(&mut self, _pos: ChunkPos) -> Chunk {
        Chunk::new(BlockStorage::new(vec![1u16; 4096]))
    }
}

struct EmptyMeshBuilder;

impl ChunkBuilder for EmptyMeshBuilder {
    fn build_chunk(&self, _chunk: &Chunk) -> ChunkMesh {
        ChunkMesh::new()
    }
}

#[test]
fn chunk_manager_test_for_each_chunk_in_distance() {
    let mut actual_positions: HashSet<ChunkPos> = HashSet::new();

    for pos in for_each_chunk_in_distance(ChunkPos::new(0, 0, 0), 2) {
        actual_positions.insert(pos);
    }

    let expected_positions: HashSet<ChunkPos> = (-2..=2)
        .flat_map(|y| (-2..=2).map(move |x| ChunkPos::new(x * CHUNK_SIZE as isize, y * CHUNK_SIZE as isize, 0)))
        .collect();

    assert_eq!(actual_positions, expected_positions);
}

#[test]
fn for_each_chunk_in_distance_centres_on_the_controller_cell() {
    // A controller inside the chunk at (32, -16) sees the 3x3 cells around it.
    let positions: HashSet<ChunkPos> = for_each_chunk_in_distance(ChunkPos::new(40, -3, 0), 1).into_iter().collect();
    let expected: HashSet<ChunkPos> = (1..=3)
        .flat_map(|x| (-1..=1).map(move |y| ChunkPos::new(x * 16, y * 16, 0)))
        .collect();
    // -3 / 16 rounds toward zero, so the centre row is 0.
    assert_eq!(positions, expected);
}

#[test]
fn update_loads_and_draws_by_distance() {
    let mut manager = ChunkManager::new(FlatLoader, EmptyMeshBuilder, Config::new(2, 1));
    assert!(manager.update(ChunkPos::new(0, 0, 0)));
    let world = manager.get_world();
    assert_eq!(world.get_chunks_with_state(ChunkState::Drawn).len(), 9);
    assert_eq!(world.get_chunks_with_state(ChunkState::Loaded).len(), 16);
    assert!(world.get_chunk(ChunkPos::new(32, 32, 0)).is_some());
    assert!(world.get_chunk_mesh(ChunkPos::new(16, 16, 0)).is_some());
    assert!(world.get_chunk_mesh(ChunkPos::new(32, 16, 0)).is_none());
    // The same position again: nothing to do.
    assert!(!manager.update(ChunkPos::new(0, 0, 0)));
}

#[test]
fn update_unloads_chunks_left_behind() {
    let mut manager = ChunkManager::new(FlatLoader, EmptyMeshBuilder, Config::new(1, 0));
    assert!(manager.update(ChunkPos::new(0, 0, 0)));
    assert!(manager.update(ChunkPos::new(48, 0, 0)));
    let world = manager.get_world();
    assert!(world.get_chunk(ChunkPos::new(0, 0, 0)).is_none());
    assert_eq!(world.get_chunk_state(ChunkPos::new(0, 0, 0)), ChunkState::Empty);
    assert_eq!(world.get_chunk_state(ChunkPos::new(48, 0, 0)), ChunkState::Drawn);
    assert_eq!(world.get_chunk_state(ChunkPos::new(64, 16, 0)), ChunkState::Loaded);
    assert_eq!(world.get_chunks_with_any_state().len(), 9);
}
