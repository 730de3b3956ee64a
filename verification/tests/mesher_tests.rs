use voxel_client::chunk_mesh_builder::meshers::chunk_mesher::{ChunkMeshData, FaceData};
use voxel_client::chunk_mesh_builder::meshers::mesher::{
    max_pos_index, ChunkMeshBuilder, HalfPos, Normal, UVec3, VertexData, POS_MASK, SI_MASK, UV,
};
use voxel_client::types::{BlockInChunkPos, BlockSide, CHUNK_SIZE};

struct TransformInput {
    plane_vertex: HalfPos,
    facing_side: BlockSide,
    block_pos: [usize; 3],
    expected: UVec3,
}

/// A point with all three coordinates at `half` half-blocks.
fn splat_half(half: i32) -> HalfPos {
    HalfPos { x: half, y: half, z: half }
}

fn splat(v: u32) -> UVec3 {
    UVec3 { x: v, y: v, z: v }
}

#[test]
fn test_plane_pos_to_vertex_pos() {
    let test_cases = [
        TransformInput {
            plane_vertex: splat_half(-1),
            facing_side: BlockSide::Left,
            block_pos: [0, 0, 0],
            expected: splat(0),
        },
        TransformInput {
            plane_vertex: splat_half(-1),
            facing_side: BlockSide::Top,
            block_pos: [15, 15, 15],
            expected: splat(15),
        },
        TransformInput {
            plane_vertex: splat_half(1),
            facing_side: BlockSide::Right,
            block_pos: [15, 15, 15],
            expected: splat(16),
        },
    ];
    for case in test_cases {
        let quad = FaceData {
            facing_side: case.facing_side,
            block_pos: BlockInChunkPos::new(case.block_pos[0], case.block_pos[1], case.block_pos[2]),
            uv_2: 0,
        };

        let transformed = ChunkMeshBuilder::plane_pos_to_vertex_pos(&case.plane_vertex, &quad);

        assert_eq!(transformed, case.expected);
    }
}

#[test]
fn test_pack_unpack_roundtrip() {
    let cases = [
        (0, 0, 0, 0),
        (1, 1, 1, 1),
        (3, 5, 2, 200),
        ((CHUNK_SIZE as u32 + 1).pow(3) - 1, 5, 3, SI_MASK),
    ];

    for (pos_index, normal, uv, storage_index) in cases {
        let v = VertexData::new(
            pos_index,
            Normal::try_from(normal).unwrap(),
            UV::try_from(uv).unwrap(),
            storage_index,
        );

        let packed = v.pack();
        let unpacked = VertexData::unpack(packed).unwrap();

        assert_eq!(unpacked.pos_index, pos_index);
        assert_eq!(unpacked.normal.value(), normal);
        assert_eq!(unpacked.uv.value(), uv);
        assert_eq!(unpacked.storage_index, storage_index);
    }
}

#[test]
fn test_vertex_data_out_of_range() {
    // Out-of-range position or storage index: no vertex.
    assert!(VertexData::try_new(POS_MASK + 1, Normal::Up, UV::TopLeft, 0).is_none());
    assert!(VertexData::try_new(0, Normal::Up, UV::TopLeft, SI_MASK + 1).is_none());
    // Out-of-range normal or texture corner codes have no value.
    assert!(Normal::try_from(7).is_err());
    assert!(UV::try_from(4).is_err());
    // In range: a vertex.
    assert!(VertexData::try_new(max_pos_index() - 1, Normal::Back, UV::BottomRight, SI_MASK).is_some());
}

#[test]
fn max_pos_index_is_grid_size() {
    assert_eq!(max_pos_index(), 4913);
    assert!(VertexData::try_new(4913, Normal::Up, UV::TopLeft, 0).is_none());
    assert!(VertexData::try_new(4912, Normal::Up, UV::TopLeft, 0).is_some());
}

#[test]
fn pack_places_fields_in_their_bits() {
    let v = VertexData::new(1, Normal::Down, UV::TopRight, 2);
    // 1 | (1 << 13) | (1 << 16) | (2 << 18)
    assert_eq!(v.pack(), 1 + 8192 + 65536 + 524288);
}

#[test]
fn unpack_rejects_unknown_normal() {
    // Normal bits set to 6.
    assert!(VertexData::unpack(6 << 13).is_err());
    // Normal bits set to 7.
    assert!(VertexData::unpack(7 << 13).is_err());
}

#[test]
fn build_packs_four_vertices_and_six_indices_per_face() {
    let face = FaceData { facing_side: BlockSide::Top, block_pos: BlockInChunkPos::new(1, 2, 3), uv_2: 5 };
    let builder = ChunkMeshBuilder { chunk_mesh_data: ChunkMeshData { faces: vec![face, face] } };
    let buffers = builder.build();
    assert_eq!(buffers.packed_data.len(), 8);
    assert_eq!(buffers.indices, vec![3, 1, 2, 0, 2, 1, 7, 5, 6, 4, 6, 5]);
    for packed in &buffers.packed_data {
        let v = VertexData::unpack(*packed).unwrap();
        assert_eq!(v.normal, Normal::Up);
        assert_eq!(v.storage_index, 5);
    }
}
