use rand::Rng;
use voxel_client::chunk_mesh_builder::builders::chunk_builder::{ChunkBuilder, Versioned};
use voxel_client::chunk_mesh_builder::builders::delayed_dummy_chunk_builder::{
    DelayedData, DelayedDummyChunkBuilder,
};
use voxel_client::chunk_mesh_builder::builders::dummy_chunk_builder::DummyChunkBuilder;
use voxel_client::chunk_mesh_builder::builders::versioned_chunk_builder::{Version, VersionedChunkBuilder};
use voxel_client::types::{Chunk, ChunkPos};

#[test]
fn test_chunk_mesh_version() {
    let inner_builder = DummyChunkBuilder::new();
    let mut builder = VersionedChunkBuilder::<(), _>::new(inner_builder);
    let chunk_pos = ChunkPos::new(0, 0, 0);
    let _chunk = Chunk::empty();

    // Initial version should be 0.
    let version = builder.get_chunk_mesh_version(chunk_pos);
    assert_eq!(version, 0);

    // Check if version increments correctly.
    builder.increment_chunk_mesh_version(chunk_pos);
    let version = builder.get_chunk_mesh_version(chunk_pos);
    assert_eq!(version, 1);

    // Check if it wraps around correctly.
    builder.set_chunk_mesh_version(chunk_pos, Version::MAX);

    let version = builder.get_chunk_mesh_version(chunk_pos);
    assert_eq!(version, Version::MAX);

    builder.increment_chunk_mesh_version(chunk_pos);

    let version = builder.get_chunk_mesh_version(chunk_pos);
    assert_eq!(version, 0);
}

#[test]
fn test_build_chunk() {
    let inner_builder = DummyChunkBuilder::new();
    let mut builder = VersionedChunkBuilder::<u32, _>::new(inner_builder);
    let chunk_pos = ChunkPos::new(0, 0, 0);
    let chunk = Chunk::empty();

    builder.build_chunk(chunk_pos, &chunk, 42);
    builder.update(ChunkPos::new(0, 0, 0));

    assert!(builder.is_chunk_with_latest_version_built(chunk_pos));

    let builded_chunk = builder.take_chunk_built_with_latest_version(chunk_pos);
    assert!(builded_chunk.is_some());

    let (_chunk_mesh, additional_data) = builded_chunk.unwrap();
    assert_eq!(additional_data, 42);
}

#[test]
fn test_chunk_always_has_newest_version() {
    let inner_builder = DelayedDummyChunkBuilder::new();
    let mut builder = VersionedChunkBuilder::<DelayedData<i32>, _>::new(inner_builder);
    let chunk_pos = ChunkPos::new(0, 0, 0);
    let player_pos = ChunkPos::new(0, 0, 0);
    let chunk = Chunk::empty();
    let mut newest_data = 0;

    // Build initial chunks with different data.
    builder.build_chunk(chunk_pos, &chunk, DelayedData { build_delay: 0, custom_data: -20 });
    builder.build_chunk(chunk_pos, &chunk, DelayedData { build_delay: 20, custom_data: -10 });
    builder.build_chunk(chunk_pos, &chunk, DelayedData { build_delay: 10, custom_data: newest_data });

    for frame in 0..50 {
        // Every 4th frame, we build a new chunk with the newest data.
        if frame % 4 == 0 {
            newest_data += 1;
            builder.build_chunk(
                chunk_pos,
                &chunk,
                DelayedData { build_delay: rand::rng().random_range(1..10), custom_data: newest_data },
            );
        }

        builder.update(player_pos);

        for (_chunk_pos, (_chunk_mesh, value)) in builder.poll_completed().take_entries() {
            // Check if each built chunk returned from poll_completed is newest.
            assert_eq!(value.custom_data, newest_data);
            println!("completed {:?}", value.custom_data);
        }
    }
}

#[test]
fn test_only_one_chunk_has_newest_version() {
    let inner_builder = DelayedDummyChunkBuilder::new();
    let mut builder = VersionedChunkBuilder::<DelayedData<i32>, _>::new(inner_builder);
    let chunk_pos = ChunkPos::new(0, 0, 0);
    let player_pos = ChunkPos::new(0, 0, 0);
    let chunk = Chunk::empty();
    let mut total_builded = 0;

    // Build initial chunks with different delay and data.
    builder.build_chunk(chunk_pos, &chunk, DelayedData { build_delay: 0, custom_data: -20 });
    builder.build_chunk(chunk_pos, &chunk, DelayedData { build_delay: 35, custom_data: -10 });
    builder.build_chunk(chunk_pos, &chunk, DelayedData { build_delay: 1, custom_data: 30 });

    for _frame in 0..50 {
        builder.update(player_pos);

        for (_chunk_pos, (_chunk_mesh, value)) in builder.poll_completed().take_entries() {
            // Check if built chunk returned from poll_completed is newest.
            assert_eq!(value.custom_data, 30);
            total_builded += 1;
        }
    }

    assert_eq!(total_builded, 1);
}

#[test]
fn versioned_builder_drops_stale_kept_mesh() {
    let mut builder = VersionedChunkBuilder::<u32, _>::new(DummyChunkBuilder::new());
    let pos = ChunkPos::new(16, 0, 0);
    let chunk = Chunk::empty();
    builder.build_chunk(pos, &chunk, 1);
    builder.update(pos);
    assert!(builder.is_chunk_with_latest_version_built(pos));
    // A newer request makes the kept mesh stale.
    builder.build_chunk(pos, &chunk, 2);
    assert!(!builder.is_chunk_with_latest_version_built(pos));
    assert_eq!(builder.get_chunk_mesh_version(pos), 2);
    builder.update(pos);
    let (_mesh, data) = builder.take_chunk_built_with_latest_version(pos).unwrap();
    assert_eq!(data, 2);
    assert!(builder.take_chunk_built_with_latest_version(pos).is_none());
}

#[test]
fn delayed_builder_counts_down() {
    let mut builder = DelayedDummyChunkBuilder::<DelayedData<u8>>::new();
    let pos = ChunkPos::new(0, 0, 0);
    let chunk = Chunk::empty();
    builder.force_build(pos, &chunk, DelayedData { build_delay: 3, custom_data: 7 });
    builder.update(pos);
    assert_eq!(builder.poll_completed().len(), 0);
    builder.update(pos);
    assert_eq!(builder.poll_completed().len(), 0);
    builder.update(pos);
    let mut done = builder.poll_completed().take_entries();
    assert_eq!(done.len(), 1);
    let (p, (_mesh, data)) = done.pop().unwrap();
    assert_eq!(p, pos);
    assert_eq!(data.build_delay, 0);
    assert_eq!(data.custom_data, 7);
}

#[test]
fn delayed_builder_refuses_second_request() {
    let mut builder = DelayedDummyChunkBuilder::<DelayedData<u8>>::new();
    let pos = ChunkPos::new(0, 0, 0);
    let chunk = Chunk::empty();
    assert!(builder.try_build(pos, &chunk, DelayedData { build_delay: 2, custom_data: 1 }).is_ok());
    assert!(builder.try_build(pos, &chunk, DelayedData { build_delay: 2, custom_data: 2 }).is_err());
}

#[test]
fn delayed_builder_force_build_replaces_a_built_chunk() {
    let mut builder = DelayedDummyChunkBuilder::<DelayedData<u8>>::new();
    let pos = ChunkPos::new(0, 0, 0);
    let chunk = Chunk::empty();
    builder.force_build(pos, &chunk, DelayedData { build_delay: 0, custom_data: 1 });
    builder.update(pos);
    // built but not polled: a new request replaces it
    builder.force_build(pos, &chunk, DelayedData { build_delay: 2, custom_data: 2 });
    assert_eq!(builder.poll_completed().len(), 0);
    builder.update(pos);
    builder.update(pos);
    let mut done = builder.poll_completed().take_entries();
    assert_eq!(done.len(), 1);
    let (_p, (mesh, data)) = done.pop().unwrap();
    assert_eq!(data.custom_data, 2);
    assert_eq!(mesh.vertex_count(), 0);
    assert!(mesh.layers().is_empty());
}

#[test]
fn dummy_builder_hands_out_empty_meshes_with_the_last_data() {
    let mut builder = DummyChunkBuilder::<u32>::new();
    let pos = ChunkPos::new(0, 0, 0);
    let chunk = Chunk::empty();
    builder.force_build(pos, &chunk, 1);
    builder.force_build(pos, &chunk, 2);
    let done = builder.poll_completed();
    assert_eq!(done.len(), 1);
    let (mesh, data) = done.get(pos).unwrap();
    assert_eq!(*data, 2);
    assert_eq!(mesh.vertex_count(), 0);
    assert!(mesh.layers().is_empty());
}

#[test]
fn versioned_poll_hands_out_latest_once() {
    let mut builder = VersionedChunkBuilder::<u32, _>::new(DummyChunkBuilder::new());
    let a = ChunkPos::new(0, 0, 0);
    let b = ChunkPos::new(16, 0, 0);
    let chunk = Chunk::empty();
    builder.build_chunk(a, &chunk, 1);
    builder.build_chunk(a, &chunk, 2);
    builder.build_chunk(b, &chunk, 5);
    builder.update(a);
    let mut done = builder.poll_completed().take_entries();
    done.sort_by_key(|(p, _)| p.x);
    assert_eq!(done.len(), 2);
    assert_eq!(done[0].0, a);
    assert_eq!((done[0].1).1, 2);
    assert_eq!(done[1].0, b);
    assert_eq!((done[1].1).1, 5);
    assert_eq!(builder.poll_completed().len(), 0);
}
