use voxel_client::chunk_mesh_builder::storage::chunk_with_border::{
    ChunkWithBorder, ChunkWithNeighbors as FramedChunk,
};
use voxel_client::chunk_mesh_builder::storage::chunk_with_neighbors::ChunkWithNeighbors;
use voxel_client::chunk_mesh_builder::storage::render_shape::{RenderShape, VoxelRenderData};
use voxel_client::chunk_mesh_builder::storage::render_shape_storage::RenderShapeStorage;
use voxel_client::chunk_mesh_builder::storage::texture_dictionary::TextureDictionary;
use voxel_client::chunk_mesh_builder::storage::textured_block_type::{
    TexturedBlockType, TexturedBlockTypeBuilder,
};
use voxel_client::types::{BlockInChunkPos, BlockSide, BlockStorage, Chunk, IVec3, CHUNK_VOLUME};

/// A chunk of air with one block `id` at `(x, y, z)`.
fn chunk_with(x: usize, y: usize, z: usize, id: u16) -> Chunk {
    let mut storage = BlockStorage::new(vec![0u16; CHUNK_VOLUME]);
    storage.set_block(BlockInChunkPos::new(x, y, z), id);
    Chunk::new(storage)
}

/// A chunk filled with `id`.
fn filled(id: u16) -> Chunk {
    Chunk::new(BlockStorage::new(vec![id; CHUNK_VOLUME]))
}

fn frame_index(x: usize, y: usize, z: usize) -> usize {
    x + 18 * (y + 18 * z)
}

#[test]
fn texture_dictionary_reads_back_what_was_set() {
    let mut dict = TextureDictionary::empty();
    assert_eq!(dict.get_texture_index_from_name("grass"), None);
    dict.set_texture_index("grass".to_string(), 3);
    dict.set_texture_index("stone".to_string(), 7);
    assert_eq!(dict.get_texture_index_from_name("grass"), Some(3));
    assert_eq!(dict.get_texture_index_from_name("stone"), Some(7));
    dict.set_texture_index("grass".to_string(), 9);
    assert_eq!(dict.get_texture_index_from_name("grass"), Some(9));
    assert_eq!(dict.get_texture_index_from_name("dirt"), None);
}

#[test]
fn textured_block_type_falls_back_to_side_texture() {
    let block = TexturedBlockTypeBuilder::new("grass")
        .visible(true)
        .texture(BlockSide::Top, "grass_top")
        .texture(BlockSide::Left, "grass_side")
        .build();
    assert_eq!(block.block_type, "grass");
    assert!(block.is_visible);
    assert!(!block.is_translucent);
    assert_eq!(block.material_name, "default");
    assert_eq!(block.get_block_side_texture(BlockSide::Top), "grass_top");
    assert_eq!(block.get_block_side_texture(BlockSide::Bottom), "grass_side");
    assert_eq!(block.get_block_side_texture(BlockSide::Front), "grass_side");
    assert_eq!(block.get_block_side_texture(BlockSide::Right), "grass_side");
}

#[test]
fn textured_block_type_default_is_invisible_none() {
    let block = TexturedBlockType::default();
    assert_eq!(block.block_type, "none");
    assert!(!block.is_visible);
    assert_eq!(block.get_block_side_texture(BlockSide::Top), "default");
    let built = TexturedBlockTypeBuilder::default()
        .translucent(true)
        .material("glass".to_string())
        .texture(BlockSide::Bottom, "under")
        .build();
    assert!(built.is_translucent);
    assert_eq!(built.material_name, "glass");
    assert_eq!(built.get_block_side_texture(BlockSide::Bottom), "under");
    assert_eq!(built.get_block_side_texture(BlockSide::Top), "default");
}

#[test]
fn textured_cube_uses_default_where_no_texture_is_given() {
    let data = VoxelRenderData { visible: true, translucent: false, material: 2 };
    let shape =
        RenderShape::create_textured_cube(data, 5, [Some(1), None, Some(3), None, Some(8), None]);
    assert_eq!(shape.render_data(), data);
    assert_eq!(shape.get_storage_index(BlockSide::Front), Some(1));
    assert_eq!(shape.get_storage_index(BlockSide::Back), Some(5));
    assert_eq!(shape.get_storage_index(BlockSide::Right), Some(3));
    assert_eq!(shape.get_vertex_attribute(BlockSide::Left), 5);
    assert_eq!(shape.get_vertex_attribute(BlockSide::Top), 8);
    assert_eq!(shape.get_vertex_attribute(BlockSide::Bottom), 5);
}

#[test]
fn invisible_shape_has_no_storage_index() {
    let shape = RenderShape::Invisible;
    assert_eq!(shape.render_data(), VoxelRenderData::default());
    assert_eq!(shape.get_storage_index(BlockSide::Top), None);
    assert_eq!(shape.get_vertex_attribute(BlockSide::Top), 0);
}

#[test]
fn render_shape_storage_looks_up_by_id() {
    let storage = RenderShapeStorage::new(vec![
        RenderShape::Invisible,
        RenderShape::create_textured_cube(VoxelRenderData::default(), 4, [None; 6]),
    ]);
    assert_eq!(storage.get_render_shape_from_id(0), Some(&RenderShape::Invisible));
    assert_eq!(storage.get_render_shape_from_id(1).unwrap().get_vertex_attribute(BlockSide::Top), 4);
    assert!(storage.get_render_shape_from_id(2).is_none());
}

#[test]
fn chunk_with_border_frames_chunk_and_neighbour_layers() {
    let framed = FramedChunk {
        chunk: chunk_with(3, 4, 5, 9),
        neighbors: [filled(10), filled(11), filled(12), filled(13), filled(14), filled(15)],
    };
    let border = framed.into_chunk_with_border();
    let blocks = border.get_block_storage();
    assert_eq!(blocks.len(), 18 * 18 * 18);
    // inside: the chunk shifted by one
    assert_eq!(blocks.get_index(frame_index(4, 5, 6)), 9);
    assert_eq!(blocks.get_index(frame_index(1, 1, 1)), 0);
    // faces: the neighbour on each side
    assert_eq!(blocks.get_index(frame_index(5, 5, 17)), 10);
    assert_eq!(blocks.get_index(frame_index(5, 5, 0)), 11);
    assert_eq!(blocks.get_index(frame_index(17, 5, 5)), 12);
    assert_eq!(blocks.get_index(frame_index(0, 5, 5)), 13);
    assert_eq!(blocks.get_index(frame_index(5, 17, 5)), 14);
    assert_eq!(blocks.get_index(frame_index(5, 0, 5)), 15);
    // edges and corners stay air
    assert_eq!(blocks.get_index(frame_index(0, 0, 5)), 0);
    assert_eq!(blocks.get_index(frame_index(17, 17, 17)), 0);
}

#[test]
fn chunk_with_border_default_is_air() {
    let border = ChunkWithBorder::default();
    let blocks = border.get_block_storage();
    assert_eq!(blocks.len(), 5832);
    assert_eq!(blocks.get_index(0), 0);
    assert_eq!(blocks.get_index(5831), 0);
}

#[test]
fn chunk_with_neighbors_reads_across_faces() {
    let origin = chunk_with(0, 0, 0, 4);
    let right = chunk_with(0, 2, 3, 6);
    let top = chunk_with(1, 0, 1, 8);
    let view = ChunkWithNeighbors {
        chunk: &origin,
        neighbors: [None, None, Some(&right), None, Some(&top), None],
    };
    assert_eq!(view.get(IVec3 { x: 0, y: 0, z: 0 }), 4);
    assert_eq!(view.get(IVec3 { x: 16, y: 2, z: 3 }), 6);
    assert_eq!(view.get(IVec3 { x: 1, y: 16, z: 1 }), 8);
    // no neighbour loaded on the left: air
    assert_eq!(view.get(IVec3 { x: -1, y: 0, z: 0 }), 0);
    assert_eq!(view.get_origin_block_storage().len(), CHUNK_VOLUME);
}
