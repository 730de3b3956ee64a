//! Packs block faces into compact vertex data.
//!
//! Face corner positions are whole multiples of half a block; they are held
//! here in half-block units, which makes every position computation exact.
use vstd::prelude::*;
use vstd::arithmetic::power::pow;
use crate::types::{BlockInChunkPos, BlockSide, CHUNK_SIZE, side_at};
use super::chunk_mesher::{ChunkMeshData, FaceData};

verus! {

/// Normal of a face, as the shader decodes it.
#[derive(Debug, Clone, Copy, PartialEq, Eq, Structural)]
pub enum Normal {
    Up,
    Down,
    Left,
    Right,
    Front,
    Back,
}

/// Texture corner of a vertex, as the shader decodes it.
#[derive(Debug, Clone, Copy, PartialEq, Eq, Structural)]
pub enum UV {
    TopLeft,
    TopRight,
    BottomLeft,
    BottomRight,
}

impl Normal {
    /// The code of the normal.
    pub open spec fn code(self) -> u32 {
        match self {
            Normal::Up => 0,
            Normal::Down => 1,
            Normal::Left => 2,
            Normal::Right => 3,
            Normal::Front => 4,
            Normal::Back => 5,
        }
    }

    /// The normal with code `value`, if there is one.
    pub open spec fn from_code(value: u32) -> Option<Normal> {
        if value == 0 {
            Some(Normal::Up)
        } else if value == 1 {
            Some(Normal::Down)
        } else if value == 2 {
            Some(Normal::Left)
        } else if value == 3 {
            Some(Normal::Right)
        } else if value == 4 {
            Some(Normal::Front)
        } else if value == 5 {
            Some(Normal::Back)
        } else {
            None
        }
    }

    /// The normal of a block side.
    pub open spec fn of_side(side: BlockSide) -> Normal {
        match side {
            BlockSide::Front => Normal::Front,
            BlockSide::Back => Normal::Back,
            BlockSide::Right => Normal::Right,
            BlockSide::Left => Normal::Left,
            BlockSide::Top => Normal::Up,
            BlockSide::Bottom => Normal::Down,
        }
    }

    /// The code of the normal.
    pub fn value(&self) -> (r: u32)
        ensures
            r == self.code(),
    {
        match self {
            Normal::Up => 0,
            Normal::Down => 1,
            Normal::Left => 2,
            Normal::Right => 3,
            Normal::Front => 4,
            Normal::Back => 5,
        }
    }

    /// Decodes a normal; codes above 5 are refused.
    pub fn try_from(value: u32) -> (r: Result<Normal, ()>)
        ensures
            match r {
                Ok(n) => Normal::from_code(value) == Some(n),
                Err(_) => Normal::from_code(value) is None,
            },
    {
        match value {
            0 => Ok(Normal::Up),
            1 => Ok(Normal::Down),
            2 => Ok(Normal::Left),
            3 => Ok(Normal::Right),
            4 => Ok(Normal::Front),
            5 => Ok(Normal::Back),
            _ => Err(()),
        }
    }

    /// The normal of a block side.
    pub fn from(side: BlockSide) -> (r: Normal)
        ensures
            r == Normal::of_side(side),
    {
        match side {
            BlockSide::Front => Normal::Front,
            BlockSide::Back => Normal::Back,
            BlockSide::Right => Normal::Right,
            BlockSide::Left => Normal::Left,
            BlockSide::Top => Normal::Up,
            BlockSide::Bottom => Normal::Down,
        }
    }
}

impl UV {
    /// The code of the texture corner.
    pub open spec fn code(self) -> u32 {
        match self {
            UV::TopLeft => 0,
            UV::TopRight => 1,
            UV::BottomLeft => 2,
            UV::BottomRight => 3,
        }
    }

    /// The corner with code `value`, if there is one.
    pub open spec fn from_code(value: u32) -> Option<UV> {
        if value == 0 {
            Some(UV::TopLeft)
        } else if value == 1 {
            Some(UV::TopRight)
        } else if value == 2 {
            Some(UV::BottomLeft)
        } else if value == 3 {
            Some(UV::BottomRight)
        } else {
            None
        }
    }

    /// The code of the texture corner.
    pub fn value(&self) -> (r: u32)
        ensures
            r == self.code(),
    {
        match self {
            UV::TopLeft => 0,
            UV::TopRight => 1,
            UV::BottomLeft => 2,
            UV::BottomRight => 3,
        }
    }

    /// Decodes a texture corner; codes above 3 are refused.
    pub fn try_from(value: u32) -> (r: Result<UV, ()>)
        ensures
            match r {
                Ok(u) => UV::from_code(value) == Some(u),
                Err(_) => UV::from_code(value) is None,
            },
    {
        match value {
            0 => Ok(UV::TopLeft),
            1 => Ok(UV::TopRight),
            2 => Ok(UV::BottomLeft),
            3 => Ok(UV::BottomRight),
            _ => Err(()),
        }
    }
}

/// Bits of the vertex position index.
pub const POS_BITS: u32 = 13;
/// Bits of the normal code.
pub const NORMAL_BITS: u32 = 3;
/// Bits of the texture corner code.
pub const UV_BITS: u32 = 2;
/// Bits of the storage index.
pub const SI_BITS: u32 = 8;
/// Mask of the vertex position index.
pub const POS_MASK: u32 = 8191;
/// Mask of the normal code.
pub const NORMAL_MASK: u32 = 7;
/// Mask of the texture corner code.
pub const UV_MASK: u32 = 3;
/// Mask of the storage index.
pub const SI_MASK: u32 = 255;

/// Number of vertex positions of a chunk: `(CHUNK_SIZE + 1)^3`.
pub open spec fn max_pos_index_spec() -> int {
    pow(CHUNK_SIZE as int + 1, 3)
}

/// The number of vertex positions of a chunk is `17 * 17 * 17`.
pub proof fn lemma_max_pos_index_value()
    ensures
        max_pos_index_spec() == 4913,
        pow(17, 3) == 4913,
{
    reveal(pow);
    assert(pow(17, 0) == 1);
    assert(pow(17, 1) == 17);
    assert(pow(17, 2) == 289);
    assert(pow(17, 3) == 4913);
}

/// `cgmath::num_traits::pow` on `u32`: `base` raised to `exp`.
///
/// Trusted: the crate's square-and-multiply loop computes exactly the power,
/// and every intermediate square is at most the final power, so no
/// multiplication overflows when the power fits in a `u32`.
#[verifier::external_body]
fn num_pow_u32(base: u32, exp: usize) -> (r: u32)
    requires
        pow(base as int, exp as nat) <= u32::MAX,
    ensures
        r == pow(base as int, exp as nat),
{
    cgmath::num_traits::pow(base, exp)
}

/// Number of vertex positions of a chunk.
pub fn max_pos_index() -> (r: u32)
    ensures
        r == max_pos_index_spec(),
        r == 4913,
{
    proof {
        lemma_max_pos_index_value();
    }
    num_pow_u32(CHUNK_SIZE as u32 + 1, 3)
}

/// One vertex of a chunk mesh before packing.
#[derive(Debug, Clone, Copy, PartialEq, Eq, Structural)]
pub struct VertexData {
    pub pos_index: u32,
    pub normal: Normal,
    pub uv: UV,
    pub storage_index: u32,
}

/// The packed form of the fields.
pub open spec fn pack_spec(pos_index: u32, normal: u32, uv: u32, storage_index: u32) -> u32 {
    (pos_index & 8191u32) | ((normal & 7u32) << 13u32) | ((uv & 3u32) << 16u32) | ((
    storage_index & 255u32) << 18u32)
}

impl VertexData {
    /// Whether every field fits its bits.
    pub open spec fn fits(self) -> bool {
        self.pos_index < max_pos_index_spec() && self.storage_index <= SI_MASK
    }

    /// The packed form of the vertex.
    pub open spec fn packed(self) -> u32 {
        pack_spec(self.pos_index, self.normal.code(), self.uv.code(), self.storage_index)
    }

    /// The vertex stored in `packed`, if its normal code is valid.
    pub open spec fn unpacked(packed: u32) -> Option<VertexData> {
        let n = (packed >> 13u32) & 7u32;
        let u = (packed >> 16u32) & 3u32;
        if Normal::from_code(n) is Some && UV::from_code(u) is Some {
            Some(
                VertexData {
                    pos_index: packed & 8191u32,
                    normal: Normal::from_code(n)->0,
                    uv: UV::from_code(u)->0,
                    storage_index: (packed >> 18u32) & 255u32,
                },
            )
        } else {
            None
        }
    }

    /// Creates a vertex; the position index must be one of the chunk's
    /// vertex positions and the storage index must fit eight bits.
    pub fn new(pos_index: u32, normal: Normal, uv: UV, storage_index: u32) -> (r: VertexData)
        requires
            pos_index < max_pos_index_spec(),
            storage_index <= SI_MASK,
        ensures
            r == (VertexData { pos_index, normal, uv, storage_index }),
            r.fits(),
    {
        VertexData { pos_index, normal, uv, storage_index }
    }

    /// Creates a vertex when every field is in range; `None` otherwise.
    pub fn try_new(pos_index: u32, normal: Normal, uv: UV, storage_index: u32) -> (r: Option<VertexData>)
        ensures
            (pos_index < max_pos_index_spec() && storage_index <= SI_MASK) ==> r == Some(
                VertexData { pos_index, normal, uv, storage_index },
            ),
            !(pos_index < max_pos_index_spec() && storage_index <= SI_MASK) ==> r is None,
    {
        let max_pos_index = max_pos_index();
        if pos_index < max_pos_index && storage_index <= SI_MASK {
            Some(VertexData::new(pos_index, normal, uv, storage_index))
        } else {
            None
        }
    }

    /// Packs the vertex into one `u32`: position in bits 0..13, normal in
    /// 13..16, texture corner in 16..18, storage index in 18..26.
    pub fn pack(&self) -> (r: u32)
        ensures
            r == self.packed(),
    {
        let normal = self.normal.value();
        let uv = self.uv.value();
        (self.pos_index & POS_MASK) | ((normal & NORMAL_MASK) << POS_BITS) | ((uv & UV_MASK) << (
        POS_BITS + NORMAL_BITS)) | ((self.storage_index & SI_MASK) << (POS_BITS + NORMAL_BITS
            + UV_BITS))
    }

    /// Unpacks a vertex; fails when the normal bits hold no normal.
    pub fn unpack(packed: u32) -> (r: Result<VertexData, ()>)
        ensures
            match r {
                Ok(v) => VertexData::unpacked(packed) == Some(v),
                Err(_) => VertexData::unpacked(packed) is None,
            },
    {
        let pos_index = packed & POS_MASK;
        let normal = (packed >> POS_BITS) & NORMAL_MASK;
        let uv = (packed >> (POS_BITS + NORMAL_BITS)) & UV_MASK;
        let storage_index = (packed >> (POS_BITS + NORMAL_BITS + UV_BITS)) & SI_MASK;

        let normal = match Normal::try_from(normal) {
            Ok(n) => n,
            Err(e) => {
                return Err(e);
            },
        };
        let uv = match UV::try_from(uv) {
            Ok(u) => u,
            Err(e) => {
                return Err(e);
            },
        };
        Ok(VertexData { pos_index, normal, uv, storage_index })
    }
}

/// Unpacking a packed vertex gives the vertex back, whenever its fields fit.
pub proof fn lemma_pack_unpack_roundtrip(v: VertexData)
    requires
        v.pos_index <= POS_MASK,
        v.storage_index <= SI_MASK,
    ensures
        VertexData::unpacked(v.packed()) == Some(v),
{
    let p = v.pos_index;
    let n = v.normal.code();
    let u = v.uv.code();
    let s = v.storage_index;
    assert(n <= 7 && u <= 3);
    let w = pack_spec(p, n, u, s);
    assert(w & 8191u32 == p && (w >> 13u32) & 7u32 == n && (w >> 16u32) & 3u32 == u && (w
        >> 18u32) & 255u32 == s) by (bit_vector)
        requires
            p <= 8191u32,
            n <= 7u32,
            u <= 3u32,
            s <= 255u32,
            w == (p & 8191u32) | ((n & 7u32) << 13u32) | ((u & 3u32) << 16u32) | ((s & 255u32)
                << 18u32),
    ;
}

/// Packing the result of an unpack gives back the packed word, whenever no
/// bit above the storage index is set.
pub proof fn lemma_unpack_pack_roundtrip(packed: u32)
    requires
        packed < 0x4000000,
        VertexData::unpacked(packed) is Some,
    ensures
        VertexData::unpacked(packed)->0.packed() == packed,
{
    let v = VertexData::unpacked(packed)->0;
    let n = (packed >> 13u32) & 7u32;
    let u = (packed >> 16u32) & 3u32;
    assert(v.normal.code() == n);
    assert(v.uv.code() == u);
    assert(((packed & 8191u32) & 8191u32) | ((n & 7u32) << 13u32) | ((u & 3u32) << 16u32) | ((
    ((packed >> 18u32) & 255u32) & 255u32) << 18u32) == packed) by (bit_vector)
        requires
            packed < 0x4000000u32,
            n == (packed >> 13u32) & 7u32,
            u == (packed >> 16u32) & 3u32,
    ;
}


/// A point in half-block units: `(x, y, z)` stands for `(x/2, y/2, z/2)`.
#[derive(Debug, Clone, Copy, PartialEq, Eq, Structural)]
pub struct HalfPos {
    pub x: i32,
    pub y: i32,
    pub z: i32,
}

/// A vertex position of the chunk's vertex grid.
#[derive(Debug, Clone, Copy, PartialEq, Eq, Structural)]
pub struct UVec3 {
    pub x: u32,
    pub y: u32,
    pub z: u32,
}

/// Orients the face-plane coordinates `(u, v)` (half units) onto `facing_side`.
pub open spec fn map_face_spec(facing_side: BlockSide, u: i32, v: i32) -> HalfPos {
    match facing_side {
        BlockSide::Right => HalfPos { x: 0, y: v, z: u },
        BlockSide::Left => HalfPos { x: 0, y: v, z: (-u) as i32 },
        BlockSide::Top => HalfPos { x: u, y: 0, z: v },
        BlockSide::Bottom => HalfPos { x: u, y: 0, z: (-v) as i32 },
        BlockSide::Front => HalfPos { x: (-u) as i32, y: v, z: 0 },
        BlockSide::Back => HalfPos { x: u, y: v, z: 0 },
    }
}

/// Corner `k` (0..4) of the unit face on `side`, centred on the block.
pub open spec fn face_corner(side: BlockSide, k: int) -> HalfPos {
    let x = k % 2;
    let z = k / 2;
    map_face_spec(side, (2 * x - 1) as i32, (2 * z - 1) as i32)
}

/// Texture corner of face corner `k`.
pub open spec fn uv_of_corner(k: int) -> UV {
    if k == 0 {
        UV::BottomRight
    } else if k == 1 {
        UV::BottomLeft
    } else if k == 2 {
        UV::TopRight
    } else {
        UV::TopLeft
    }
}

/// The two triangles of a face, as corner numbers.
pub open spec fn face_triangles() -> Seq<u32> {
    seq![3u32, 1u32, 2u32, 0u32, 2u32, 1u32]
}

/// Corners, normals, texture corners and triangles of one face.
#[derive(Debug)]
pub struct MeshData {
    pub positions: Vec<HalfPos>,
    pub normals: Vec<Normal>,
    pub uvs: Vec<UV>,
    pub indices: Vec<u32>,
}

impl MeshData {
    /// Whether this is the face of `side`.
    pub open spec fn is_face_of(&self, side: BlockSide) -> bool {
        &&& self.positions@.len() == 4
        &&& self.normals@.len() == 4
        &&& self.uvs@.len() == 4
        &&& forall|k: int| 0 <= k < 4 ==> #[trigger] self.positions@[k] == face_corner(side, k)
        &&& forall|k: int| 0 <= k < 4 ==> #[trigger] self.normals@[k] == Normal::of_side(side)
        &&& forall|k: int| 0 <= k < 4 ==> #[trigger] self.uvs@[k] == uv_of_corner(k)
        &&& self.indices@ == face_triangles()
    }
}

/// Vertex coordinate of a half-unit coordinate `h + 1` (the corner offset):
/// `floor((h + 1) / 2)`, clamped to the `u32` range.
pub open spec fn vertex_coord(h: int) -> u32 {
    let shifted = h + 1;
    if shifted < 0 {
        0
    } else if shifted / 2 > u32::MAX {
        u32::MAX
    } else {
        (shifted / 2) as u32
    }
}

/// Vertex position of corner `plane_pos` of face `quad`.
pub open spec fn vertex_pos_spec(plane_pos: HalfPos, quad: FaceData) -> UVec3 {
    let n = quad.facing_side.dir();
    UVec3 {
        x: vertex_coord(plane_pos.x + 2 * quad.block_pos.x + n.x),
        y: vertex_coord(plane_pos.y + 2 * quad.block_pos.y + n.y),
        z: vertex_coord(plane_pos.z + 2 * quad.block_pos.z + n.z),
    }
}

/// Linear index of a vertex position in the chunk's vertex grid.
pub open spec fn vertex_index_spec(pos: UVec3) -> int {
    pos.z * 289 + pos.y * 17 + pos.x
}

/// The vertex of corner `k` of `face`.
pub open spec fn vertex_of(face: FaceData, k: int) -> VertexData {
    VertexData {
        pos_index: vertex_index_spec(vertex_pos_spec(face_corner(face.facing_side, k), face)) as u32,
        normal: Normal::of_side(face.facing_side),
        uv: uv_of_corner(k),
        storage_index: face.uv_2,
    }
}

/// Whether a face can be packed: its block lies in the chunk and its
/// storage index fits eight bits.
pub open spec fn face_packable(face: FaceData) -> bool {
    face.block_pos.in_chunk() && face.uv_2 <= SI_MASK
}

/// Whether every face of a layer can be packed and its vertices counted in `u32`.
pub open spec fn layer_buildable(faces: Seq<FaceData>) -> bool {
    &&& forall|i: int| 0 <= i < faces.len() ==> face_packable(#[trigger] faces[i])
    &&& 4 * faces.len() <= u32::MAX
}

/// Whether `b` holds the packed layer of `faces`: four vertices per face, in
/// face order, and two triangles per face offset by the face's first vertex.
pub open spec fn buffers_of(faces: Seq<FaceData>, b: MeshBuffers) -> bool {
    &&& b.packed_data@.len() == 4 * faces.len()
    &&& forall|j: int| 0 <= j < b.packed_data@.len() ==> #[trigger] b.packed_data@[j] == vertex_of(faces[j / 4], j % 4).packed()
    &&& b.indices@.len() == 6 * faces.len()
    &&& forall|j: int| 0 <= j < b.indices@.len() ==> #[trigger] b.indices@[j] == face_triangles()[j % 6] + 4 * (j / 6)
}

impl ChunkMeshData {
    /// A builder for this layer's packed mesh.
    pub fn mesh(&self) -> (r: ChunkMeshBuilder)
        ensures
            r.chunk_mesh_data.faces@ == self.faces@,
    {
        let mut faces: Vec<FaceData> = Vec::new();
        let mut i: usize = 0;
        while i < self.faces.len()
            invariant
                i <= self.faces@.len(),
                faces@ == self.faces@.subrange(0, i as int),
            decreases self.faces@.len() - i,
        {
            faces.push(self.faces[i]);
            proof {
                assert(self.faces@.subrange(0, i + 1) =~= self.faces@.subrange(0, i as int).push(self.faces@[i as int]));
            }
            i = i + 1;
        }
        proof {
            assert(self.faces@.subrange(0, i as int) =~= self.faces@);
        }
        ChunkMeshBuilder { chunk_mesh_data: ChunkMeshData { faces } }
    }
}

/// Whether `face` can be packed.
pub fn is_face_packable(face: &FaceData) -> (r: bool)
    ensures
        r == face_packable(*face),
{
    face.block_pos.x < 16 && face.block_pos.y < 16 && face.block_pos.z < 16 && face.uv_2 <= SI_MASK
}

/// Packed vertices and triangle indices of a chunk layer.
#[derive(Debug, Clone, PartialEq, Eq)]
pub struct MeshBuffers {
    pub packed_data: Vec<u32>,
    pub indices: Vec<u32>,
}

impl MeshBuffers {
    /// Number of vertices.
    pub fn count_vertices(&self) -> (r: usize)
        ensures
            r == self.packed_data@.len(),
    {
        self.packed_data.len()
    }
}

/// Builds the packed mesh of a layer.
#[derive(Debug, Clone)]
pub struct ChunkMeshBuilder {
    pub chunk_mesh_data: ChunkMeshData,
}

/// Orients the face-plane coordinates `(u, v)` (half units) onto `facing_side`.
pub fn map_face(facing_side: BlockSide, u: i32, v: i32) -> (r: HalfPos)
    requires
        -1 <= u <= 1,
        -1 <= v <= 1,
    ensures
        r == map_face_spec(facing_side, u, v),
{
    match facing_side {
        BlockSide::Right => HalfPos { x: 0, y: v, z: u },
        BlockSide::Left => HalfPos { x: 0, y: v, z: -u },
        BlockSide::Top => HalfPos { x: u, y: 0, z: v },
        BlockSide::Bottom => HalfPos { x: u, y: 0, z: -v },
        BlockSide::Front => HalfPos { x: -u, y: v, z: 0 },
        BlockSide::Back => HalfPos { x: u, y: v, z: 0 },
    }
}

impl ChunkMeshBuilder {
    /// The unit face of `facing_side`: four corners with their normal and
    /// texture corner, and its two triangles.
    pub fn build_face(facing_side: BlockSide) -> (r: MeshData)
        ensures
            r.is_face_of(facing_side),
    {
        let z_vertex_count: usize = 2;
        let x_vertex_count: usize = 2;

        let mut positions: Vec<HalfPos> = Vec::new();
        let mut normals: Vec<Normal> = Vec::new();
        let mut uvs: Vec<UV> = Vec::new();
        let mut indices: Vec<u32> = Vec::new();

        let uv_lookup = [UV::BottomRight, UV::BottomLeft, UV::TopRight, UV::TopLeft];

        let mut z: usize = 0;
        while z < z_vertex_count
            invariant
                z <= 2,
                z_vertex_count == 2,
                x_vertex_count == 2,
                uv_lookup@ == seq![UV::BottomRight, UV::BottomLeft, UV::TopRight, UV::TopLeft],
                positions@.len() == 2 * z,
                normals@.len() == 2 * z,
                uvs@.len() == 2 * z,
                forall|k: int| 0 <= k < 2 * z ==> #[trigger] positions@[k] == face_corner(facing_side, k),
                forall|k: int| 0 <= k < 2 * z ==> #[trigger] normals@[k] == Normal::of_side(facing_side),
                forall|k: int| 0 <= k < 2 * z ==> #[trigger] uvs@[k] == uv_of_corner(k),
            decreases 2 - z,
        {
            let mut x: usize = 0;
            while x < x_vertex_count
                invariant
                    z < 2,
                    x <= 2,
                    z_vertex_count == 2,
                    x_vertex_count == 2,
                    uv_lookup@ == seq![UV::BottomRight, UV::BottomLeft, UV::TopRight, UV::TopLeft],
                    positions@.len() == 2 * z + x,
                    normals@.len() == 2 * z + x,
                    uvs@.len() == 2 * z + x,
                    forall|k: int| 0 <= k < 2 * z + x ==> #[trigger] positions@[k] == face_corner(facing_side, k),
                    forall|k: int| 0 <= k < 2 * z + x ==> #[trigger] normals@[k] == Normal::of_side(facing_side),
                    forall|k: int| 0 <= k < 2 * z + x ==> #[trigger] uvs@[k] == uv_of_corner(k),
                decreases 2 - x,
            {
                let u: i32 = 2 * (x as i32) - 1;
                let v: i32 = 2 * (z as i32) - 1;
                let uv_index = z * x_vertex_count + x;
                let pos = map_face(facing_side, u, v);
                proof {
                    let k = 2 * z + x;
                    assert(k % 2 == x as int);
                    assert(k / 2 == z as int);
                    assert(uv_index == k);
                }
                positions.push(pos);
                normals.push(Normal::from(facing_side));
                uvs.push(uv_lookup[uv_index]);
                x = x + 1;
            }
            z = z + 1;
        }

        let zc: u32 = 2;
        let xc: u32 = 2;
        let mut zz: u32 = 0;
        while zz < zc - 1
            invariant
                zc == 2,
                xc == 2,
                zz <= 1,
                zz == 0 ==> indices@.len() == 0,
                zz == 1 ==> indices@ == face_triangles(),
            decreases 1 - zz,
        {
            let mut xx: u32 = 0;
            while xx < xc - 1
                invariant
                    zc == 2,
                    xc == 2,
                    zz == 0,
                    xx <= 1,
                    xx == 0 ==> indices@.len() == 0,
                    xx == 1 ==> indices@ == face_triangles(),
                decreases 1 - xx,
            {
                let quad = zz * xc + xx;
                indices.push(quad + xc + 1);
                indices.push(quad + 1);
                indices.push(quad + xc);
                indices.push(quad);
                indices.push(quad + xc);
                indices.push(quad + 1);
                proof {
                    assert(indices@ =~= face_triangles());
                }
                xx = xx + 1;
            }
            zz = zz + 1;
        }

        MeshData { positions, normals, uvs, indices }
    }

    /// The six unit faces, indexed by side.
    pub fn build_faces() -> (r: Vec<MeshData>)
        ensures
            r@.len() == 6,
            forall|s: int| 0 <= s < 6 ==> #[trigger] r@[s].is_face_of(side_at(s)),
    {
        let mut faces: Vec<MeshData> = Vec::new();
        let mut s: usize = 0;
        while s < 6
            invariant
                s <= 6,
                faces@.len() == s,
                forall|t: int| 0 <= t < s ==> #[trigger] faces@[t].is_face_of(side_at(t)),
            decreases 6 - s,
        {
            let side = BlockSide::from_index(s);
            faces.push(Self::build_face(side));
            s = s + 1;
        }
        faces
    }

    /// The vertex position of corner `plane_pos` of face `quad`.
    pub fn plane_pos_to_vertex_pos(plane_pos: &HalfPos, quad: &FaceData) -> (r: UVec3)
        ensures
            r == vertex_pos_spec(*plane_pos, *quad),
    {
        let n = quad.facing_side.direction();
        let x = Self::half_to_vertex_coord(plane_pos.x, quad.block_pos.x, n.x);
        let y = Self::half_to_vertex_coord(plane_pos.y, quad.block_pos.y, n.y);
        let z = Self::half_to_vertex_coord(plane_pos.z, quad.block_pos.z, n.z);
        UVec3 { x, y, z }
    }

    /// `floor((plane + 2 * block + normal + 1) / 2)`, clamped to `u32`.
    fn half_to_vertex_coord(plane: i32, block: usize, normal: isize) -> (r: u32)
        requires
            -1 <= normal <= 1,
        ensures
            r == vertex_coord(plane + 2 * block + normal),
    {
        let shifted: i128 = plane as i128 + 2 * (block as i128) + normal as i128 + 1;
        if shifted < 0 {
            0
        } else {
            let q: i128 = shifted / 2;
            if q > 0xffff_ffffi128 {
                u32::MAX
            } else {
                q as u32
            }
        }
    }

    /// Packs every face of the layer: four vertices per face, in face order,
    /// and two triangles per face whose corner numbers are offset by the
    /// face's first vertex.
    pub fn build(&self) -> (r: MeshBuffers)
        requires
            forall|i: int|
                0 <= i < self.chunk_mesh_data.faces@.len() ==> face_packable(
                    #[trigger] self.chunk_mesh_data.faces@[i],
                ),
            4 * self.chunk_mesh_data.faces@.len() <= u32::MAX,
        ensures
            r.packed_data@.len() == 4 * self.chunk_mesh_data.faces@.len(),
            forall|j: int|
                0 <= j < r.packed_data@.len() ==> #[trigger] r.packed_data@[j] == vertex_of(
                    self.chunk_mesh_data.faces@[j / 4],
                    j % 4,
                ).packed(),
            r.indices@.len() == 6 * self.chunk_mesh_data.faces@.len(),
            forall|j: int|
                0 <= j < r.indices@.len() ==> #[trigger] r.indices@[j] == face_triangles()[j % 6] + 4
                    * (j / 6),
            buffers_of(self.chunk_mesh_data.faces@, r),
    {
        let faces = Self::build_faces();
        let quads = &self.chunk_mesh_data.faces;
        let n = quads.len();
        let mut packed_data: Vec<u32> = Vec::new();
        let mut indices: Vec<u32> = Vec::new();
        let mut i: usize = 0;
        while i < n
            invariant
                n == quads@.len(),
                4 * n <= u32::MAX,
                forall|t: int| 0 <= t < n ==> face_packable(#[trigger] quads@[t]),
                faces@.len() == 6,
                forall|s: int| 0 <= s < 6 ==> #[trigger] faces@[s].is_face_of(side_at(s)),
                i <= n,
                packed_data@.len() == 4 * i,
                forall|j: int|
                    0 <= j < packed_data@.len() ==> #[trigger] packed_data@[j] == vertex_of(
                        quads@[j / 4],
                        j % 4,
                    ).packed(),
                indices@.len() == 6 * i,
                forall|j: int|
                    0 <= j < indices@.len() ==> #[trigger] indices@[j] == face_triangles()[j % 6] + 4
                        * (j / 6),
            decreases n - i,
        {
            let quad = &quads[i];
            let side_index = quad.facing_side.index();
            let face = &faces[side_index];
            proof {
                assert(face.is_face_of(side_at(side_index as int)));
                assert(side_at(side_index as int) == quad.facing_side);
                assert(face_packable(quads@[i as int]));
            }
            let mut k: usize = 0;
            while k < 4
                invariant
                    k <= 4,
                    i < n,
                    *quad == quads@[i as int],
                    face_packable(*quad),
                    face.is_face_of(quad.facing_side),
                    packed_data@.len() == 4 * i + k,
                    forall|j: int|
                        0 <= j < packed_data@.len() ==> #[trigger] packed_data@[j] == vertex_of(
                            quads@[j / 4],
                            j % 4,
                        ).packed(),
                decreases 4 - k,
            {
                let plane_pos = &face.positions[k];
                proof {
                    lemma_vertex_in_grid(*quad, k as int);
                }
                let vertex_pos = Self::plane_pos_to_vertex_pos(plane_pos, quad);
                let pos_index = Self::vertex_pos_to_index(vertex_pos);
                let normal = face.normals[k];
                let uv = face.uvs[k];
                let storage_index = quad.uv_2;
                proof {
                    lemma_max_pos_index_value();
                }
                let vertex = VertexData::new(pos_index, normal, uv, storage_index);
                let packed = vertex.pack();
                proof {
                    let j = 4 * i + k;
                    assert(j / 4 == i as int);
                    assert(j % 4 == k as int);
                    assert(vertex == vertex_of(*quad, k as int));
                }
                packed_data.push(packed);
                k = k + 1;
            }
            let base_index: u32 = 4 * (i as u32);
            let mut m: usize = 0;
            while m < 6
                invariant
                    m <= 6,
                    i < n,
                    4 * n <= u32::MAX,
                    base_index == 4 * i,
                    face.indices@ == face_triangles(),
                    indices@.len() == 6 * i + m,
                    forall|j: int|
                        0 <= j < indices@.len() ==> #[trigger] indices@[j] == face_triangles()[j % 6]
                            + 4 * (j / 6),
                decreases 6 - m,
            {
                let e = face.indices[m];
                proof {
                    let j = 6 * i + m;
                    assert(j / 6 == i as int);
                    assert(j % 6 == m as int);
                    assert(e <= 3);
                }
                indices.push(e + base_index);
                m = m + 1;
            }
            i = i + 1;
        }
        MeshBuffers { packed_data, indices }
    }

    /// Linear index of a vertex position in the chunk's vertex grid.
    pub fn vertex_pos_to_index(pos: UVec3) -> (r: u32)
        requires
            vertex_index_spec(pos) <= u32::MAX,
        ensures
            r == vertex_index_spec(pos),
    {
        let size: u32 = CHUNK_SIZE as u32 + 1;
        pos.z * size * size + pos.y * size + pos.x
    }
}

/// Every corner of a face whose block lies in the chunk is a vertex position
/// of the chunk.
pub proof fn lemma_vertex_in_grid(face: FaceData, k: int)
    requires
        face.block_pos.in_chunk(),
        0 <= k < 4,
    ensures
        vertex_pos_spec(face_corner(face.facing_side, k), face).x <= 16,
        vertex_pos_spec(face_corner(face.facing_side, k), face).y <= 16,
        vertex_pos_spec(face_corner(face.facing_side, k), face).z <= 16,
        vertex_index_spec(vertex_pos_spec(face_corner(face.facing_side, k), face)) < 4913,
{
    let c = face_corner(face.facing_side, k);
    assert(-1 <= c.x <= 1 && -1 <= c.y <= 1 && -1 <= c.z <= 1);
    let v = vertex_pos_spec(c, face);
    assert(v.z * 289 + v.y * 17 + v.x < 4913) by (nonlinear_arith)
        requires
            v.x <= 16,
            v.y <= 16,
            v.z <= 16,
    ;
}

/// Grid point `(x, y, z)` of index `i` of the chunk's vertex grid, whose
/// points run `0..=16` on each axis.
pub open spec fn grid_point(i: int) -> (int, int, int) {
    (i % 17, (i / 17) % 17, i / 289)
}

/// Whether grid point `g` is a corner of the face on `side` of block `b`:
/// it lies in that side's plane (`b + 1` along the axis of a side facing
/// the positive direction, `b` along one facing the negative direction) and
/// at `b` or `b + 1` on each of the two other axes.
pub open spec fn is_corner_of_side(side: BlockSide, b: BlockInChunkPos, g: (int, int, int)) -> bool {
    let x = b.x as int;
    let y = b.y as int;
    let z = b.z as int;
    let gx = g.0 == x || g.0 == x + 1;
    let gy = g.1 == y || g.1 == y + 1;
    let gz = g.2 == z || g.2 == z + 1;
    match side {
        BlockSide::Right => g.0 == x + 1 && gy && gz,
        BlockSide::Left => g.0 == x && gy && gz,
        BlockSide::Top => g.1 == y + 1 && gx && gz,
        BlockSide::Bottom => g.1 == y && gx && gz,
        BlockSide::Front => g.2 == z + 1 && gx && gy,
        BlockSide::Back => g.2 == z && gx && gy,
    }
}

/// A grid index splits back into its coordinates.
proof fn lemma_grid_index(x: int, y: int, z: int)
    requires
        0 <= x <= 16,
        0 <= y <= 16,
        0 <= z <= 16,
    ensures
        grid_point(z * 289 + y * 17 + x) == (x, y, z),
{
    assert((z * 289 + y * 17 + x) % 17 == x) by (nonlinear_arith)
        requires
            0 <= x <= 16,
            0 <= y <= 16,
            0 <= z <= 16,
    ;
    assert((z * 289 + y * 17 + x) / 17 == z * 17 + y) by (nonlinear_arith)
        requires
            0 <= x <= 16,
            0 <= y <= 16,
            0 <= z <= 16,
    ;
    assert((z * 17 + y) % 17 == y) by (nonlinear_arith)
        requires
            0 <= y <= 16,
            0 <= z <= 16,
    ;
    assert((z * 289 + y * 17 + x) / 289 == z) by (nonlinear_arith)
        requires
            0 <= x <= 16,
            0 <= y <= 16,
            0 <= z <= 16,
    ;
}

/// Corner `k` of a face, as a grid point.
proof fn lemma_corner_grid_point(face: FaceData, k: int)
    requires
        face.block_pos.in_chunk(),
        0 <= k < 4,
    ensures
        ({
            let g = vertex_pos_spec(face_corner(face.facing_side, k), face);
            grid_point(vertex_of(face, k).pos_index as int) == (g.x as int, g.y as int, g.z as int)
        }),
        is_corner_of_side(face.facing_side, face.block_pos, grid_point(vertex_of(face, k).pos_index as int)),
{
    lemma_vertex_in_grid(face, k);
    let g = vertex_pos_spec(face_corner(face.facing_side, k), face);
    lemma_grid_index(g.x as int, g.y as int, g.z as int);
    assert(vertex_of(face, k).pos_index as int == g.z * 289 + g.y * 17 + g.x);
}

/// Every vertex of a face lies on its side of the block. The four packed
/// vertices of the face on `side` of block `b` are four different grid
/// points, each in the plane of that side (`x = b.x + 1` for the `+x` side,
/// `x = b.x` for the `-x` side, and likewise for `y` and `z`) and at `b` or
/// `b + 1` on the two other axes: the face's square exactly.
pub proof fn lemma_face_vertices_on_side(face: FaceData)
    requires
        face.block_pos.in_chunk(),
    ensures
        forall|k: int|
            0 <= k < 4 ==> is_corner_of_side(
                face.facing_side,
                face.block_pos,
                grid_point(#[trigger] vertex_of(face, k).pos_index as int),
            ),
        forall|k1: int, k2: int|
            0 <= k1 < 4 && 0 <= k2 < 4 && k1 != k2 ==> #[trigger] vertex_of(face, k1).pos_index
                != #[trigger] vertex_of(face, k2).pos_index,
{
    lemma_corner_grid_point(face, 0);
    lemma_corner_grid_point(face, 1);
    lemma_corner_grid_point(face, 2);
    lemma_corner_grid_point(face, 3);
    assert forall|k: int|
        0 <= k < 4 implies is_corner_of_side(
        face.facing_side,
        face.block_pos,
        grid_point(#[trigger] vertex_of(face, k).pos_index as int),
    ) by {
        lemma_corner_grid_point(face, k);
    }
}

/// Every packed vertex of a built layer unpacks to a corner of its face's
/// square, on the face's side of its block.
pub proof fn lemma_built_vertices_on_side(faces: Seq<FaceData>, b: MeshBuffers)
    requires
        buffers_of(faces, b),
        layer_buildable(faces),
    ensures
        forall|j: int|
            0 <= j < b.packed_data@.len() ==> (VertexData::unpacked(#[trigger] b.packed_data@[j]) matches Some(v)
                && is_corner_of_side(faces[j / 4].facing_side, faces[j / 4].block_pos, grid_point(v.pos_index as int))),
{
    assert forall|j: int| 0 <= j < b.packed_data@.len() implies (VertexData::unpacked(#[trigger] b.packed_data@[j]) matches Some(v)
        && is_corner_of_side(faces[j / 4].facing_side, faces[j / 4].block_pos, grid_point(v.pos_index as int))) by {
        let f = faces[j / 4];
        assert(face_packable(f));
        lemma_vertex_in_grid(f, j % 4);
        lemma_corner_grid_point(f, j % 4);
        lemma_pack_unpack_roundtrip(vertex_of(f, j % 4));
    }
}

/// `b - a`.
pub open spec fn sub3(b: (int, int, int), a: (int, int, int)) -> (int, int, int) {
    (b.0 - a.0, b.1 - a.1, b.2 - a.2)
}

/// The cross product `a × b`.
pub open spec fn cross(a: (int, int, int), b: (int, int, int)) -> (int, int, int) {
    (a.1 * b.2 - a.2 * b.1, a.2 * b.0 - a.0 * b.2, a.0 * b.1 - a.1 * b.0)
}

/// Grid point of corner `k` of `face`.
pub open spec fn corner_point(face: FaceData, k: int) -> (int, int, int) {
    grid_point(vertex_of(face, k).pos_index as int)
}

/// The two triangles of a face wind counter-clockwise seen from outside the
/// block: for each triangle `(a, b, c)`, `(b - a) × (c - a)` is the unit
/// vector of the face's side.
pub proof fn lemma_face_triangles_face_outward(face: FaceData)
    requires
        face.block_pos.in_chunk(),
    ensures
        forall|t: int|
            0 <= t < 2 ==> #[trigger] cross(
                sub3(corner_point(face, face_triangles()[3 * t + 1] as int), corner_point(face, face_triangles()[3 * t] as int)),
                sub3(corner_point(face, face_triangles()[3 * t + 2] as int), corner_point(face, face_triangles()[3 * t] as int)),
            ) == (face.facing_side.dir().x as int, face.facing_side.dir().y as int, face.facing_side.dir().z as int),
{
    lemma_corner_grid_point(face, 0);
    lemma_corner_grid_point(face, 1);
    lemma_corner_grid_point(face, 2);
    lemma_corner_grid_point(face, 3);
    let p0 = corner_point(face, 0);
    let p1 = corner_point(face, 1);
    let p2 = corner_point(face, 2);
    let p3 = corner_point(face, 3);
    assert(face_triangles()[0] == 3 && face_triangles()[1] == 1 && face_triangles()[2] == 2);
    assert(face_triangles()[3] == 0 && face_triangles()[4] == 2 && face_triangles()[5] == 1);
    let d = face.facing_side.dir();
    let x = face.block_pos.x as int;
    let y = face.block_pos.y as int;
    let z = face.block_pos.z as int;
    match face.facing_side {
        BlockSide::Right => {
            assert(p0 == (x + 1, y, z) && p1 == (x + 1, y, z + 1) && p2 == (x + 1, y + 1, z) && p3 == (x + 1, y + 1, z + 1));
            assert(sub3(p1, p3) == (0int, -1int, 0int) && sub3(p2, p3) == (0int, 0int, -1int));
            assert(sub3(p2, p0) == (0int, 1int, 0int) && sub3(p1, p0) == (0int, 0int, 1int));
            assert(cross(sub3(p1, p3), sub3(p2, p3)) == (1int, 0int, 0int)) by (nonlinear_arith)
                requires
                    sub3(p1, p3) == (0int, -1int, 0int),
                    sub3(p2, p3) == (0int, 0int, -1int),
            ;
            assert(cross(sub3(p2, p0), sub3(p1, p0)) == (1int, 0int, 0int)) by (nonlinear_arith)
                requires
                    sub3(p2, p0) == (0int, 1int, 0int),
                    sub3(p1, p0) == (0int, 0int, 1int),
            ;
        },
        BlockSide::Left => {
            assert(p0 == (x, y, z + 1) && p1 == (x, y, z) && p2 == (x, y + 1, z + 1) && p3 == (x, y + 1, z));
            assert(sub3(p1, p3) == (0int, -1int, 0int) && sub3(p2, p3) == (0int, 0int, 1int));
            assert(sub3(p2, p0) == (0int, 1int, 0int) && sub3(p1, p0) == (0int, 0int, -1int));
            assert(cross(sub3(p1, p3), sub3(p2, p3)) == (-1int, 0int, 0int)) by (nonlinear_arith)
                requires
                    sub3(p1, p3) == (0int, -1int, 0int),
                    sub3(p2, p3) == (0int, 0int, 1int),
            ;
            assert(cross(sub3(p2, p0), sub3(p1, p0)) == (-1int, 0int, 0int)) by (nonlinear_arith)
                requires
                    sub3(p2, p0) == (0int, 1int, 0int),
                    sub3(p1, p0) == (0int, 0int, -1int),
            ;
        },
        BlockSide::Top => {
            assert(p0 == (x, y + 1, z) && p1 == (x + 1, y + 1, z) && p2 == (x, y + 1, z + 1) && p3 == (x + 1, y + 1, z + 1));
            assert(sub3(p1, p3) == (0int, 0int, -1int) && sub3(p2, p3) == (-1int, 0int, 0int));
            assert(sub3(p2, p0) == (0int, 0int, 1int) && sub3(p1, p0) == (1int, 0int, 0int));
            assert(cross(sub3(p1, p3), sub3(p2, p3)) == (0int, 1int, 0int)) by (nonlinear_arith)
                requires
                    sub3(p1, p3) == (0int, 0int, -1int),
                    sub3(p2, p3) == (-1int, 0int, 0int),
            ;
            assert(cross(sub3(p2, p0), sub3(p1, p0)) == (0int, 1int, 0int)) by (nonlinear_arith)
                requires
                    sub3(p2, p0) == (0int, 0int, 1int),
                    sub3(p1, p0) == (1int, 0int, 0int),
            ;
        },
        BlockSide::Bottom => {
            assert(p0 == (x, y, z + 1) && p1 == (x + 1, y, z + 1) && p2 == (x, y, z) && p3 == (x + 1, y, z));
            assert(sub3(p1, p3) == (0int, 0int, 1int) && sub3(p2, p3) == (-1int, 0int, 0int));
            assert(sub3(p2, p0) == (0int, 0int, -1int) && sub3(p1, p0) == (1int, 0int, 0int));
            assert(cross(sub3(p1, p3), sub3(p2, p3)) == (0int, -1int, 0int)) by (nonlinear_arith)
                requires
                    sub3(p1, p3) == (0int, 0int, 1int),
                    sub3(p2, p3) == (-1int, 0int, 0int),
            ;
            assert(cross(sub3(p2, p0), sub3(p1, p0)) == (0int, -1int, 0int)) by (nonlinear_arith)
                requires
                    sub3(p2, p0) == (0int, 0int, -1int),
                    sub3(p1, p0) == (1int, 0int, 0int),
            ;
        },
        BlockSide::Front => {
            assert(p0 == (x + 1, y, z + 1) && p1 == (x, y, z + 1) && p2 == (x + 1, y + 1, z + 1) && p3 == (x, y + 1, z + 1));
            assert(sub3(p1, p3) == (0int, -1int, 0int) && sub3(p2, p3) == (1int, 0int, 0int));
            assert(sub3(p2, p0) == (0int, 1int, 0int) && sub3(p1, p0) == (-1int, 0int, 0int));
            assert(cross(sub3(p1, p3), sub3(p2, p3)) == (0int, 0int, 1int)) by (nonlinear_arith)
                requires
                    sub3(p1, p3) == (0int, -1int, 0int),
                    sub3(p2, p3) == (1int, 0int, 0int),
            ;
            assert(cross(sub3(p2, p0), sub3(p1, p0)) == (0int, 0int, 1int)) by (nonlinear_arith)
                requires
                    sub3(p2, p0) == (0int, 1int, 0int),
                    sub3(p1, p0) == (-1int, 0int, 0int),
            ;
        },
        BlockSide::Back => {
            assert(p0 == (x, y, z) && p1 == (x + 1, y, z) && p2 == (x, y + 1, z) && p3 == (x + 1, y + 1, z));
            assert(sub3(p1, p3) == (0int, -1int, 0int) && sub3(p2, p3) == (-1int, 0int, 0int));
            assert(sub3(p2, p0) == (0int, 1int, 0int) && sub3(p1, p0) == (1int, 0int, 0int));
            assert(cross(sub3(p1, p3), sub3(p2, p3)) == (0int, 0int, -1int)) by (nonlinear_arith)
                requires
                    sub3(p1, p3) == (0int, -1int, 0int),
                    sub3(p2, p3) == (-1int, 0int, 0int),
            ;
            assert(cross(sub3(p2, p0), sub3(p1, p0)) == (0int, 0int, -1int)) by (nonlinear_arith)
                requires
                    sub3(p2, p0) == (0int, 1int, 0int),
                    sub3(p1, p0) == (1int, 0int, 0int),
            ;
        },
    }
    assert forall|t: int| 0 <= t < 2 implies #[trigger] cross(
        sub3(corner_point(face, face_triangles()[3 * t + 1] as int), corner_point(face, face_triangles()[3 * t] as int)),
        sub3(corner_point(face, face_triangles()[3 * t + 2] as int), corner_point(face, face_triangles()[3 * t] as int)),
    ) == (d.x as int, d.y as int, d.z as int) by {
        if t == 0 {
            assert(3 * t == 0 && 3 * t + 1 == 1 && 3 * t + 2 == 2);
        } else {
            assert(3 * t == 3 && 3 * t + 1 == 4 && 3 * t + 2 == 5);
        }
    }
}

/// Triangle `t` of face `i` of a built layer uses that face's own four
/// vertices, and faces outward: for its vertices `a, b, c`, as unpacked from
/// the packed buffer, `(b - a) × (c - a)` is the unit vector of the face's
/// side.
#[verifier::spinoff_prover]
#[verifier::rlimit(40)]
pub proof fn lemma_built_triangle_faces_outward(faces: Seq<FaceData>, b: MeshBuffers, i: int, t: int)
    requires
        buffers_of(faces, b),
        layer_buildable(faces),
        0 <= i < faces.len(),
        0 <= t < 2,
    ensures
        ({
            let ia = b.indices@[6 * i + 3 * t] as int;
            let ib = b.indices@[6 * i + 3 * t + 1] as int;
            let ic = b.indices@[6 * i + 3 * t + 2] as int;
            let d = faces[i].facing_side.dir();
            &&& 4 * i <= ia < 4 * i + 4 && 4 * i <= ib < 4 * i + 4 && 4 * i <= ic < 4 * i + 4
            &&& VertexData::unpacked(b.packed_data@[ia]) matches Some(va)
            &&& VertexData::unpacked(b.packed_data@[ib]) matches Some(vb)
            &&& VertexData::unpacked(b.packed_data@[ic]) matches Some(vc)
            &&& cross(
                sub3(grid_point(vb.pos_index as int), grid_point(va.pos_index as int)),
                sub3(grid_point(vc.pos_index as int), grid_point(va.pos_index as int)),
            ) == (d.x as int, d.y as int, d.z as int)
        }),
{
    let f = faces[i];
    assert(face_packable(f));
    lemma_face_triangles_face_outward(f);
    lemma_triangle_index(faces, b, i, t, 0);
    lemma_triangle_index(faces, b, i, t, 1);
    lemma_triangle_index(faces, b, i, t, 2);
    let e0 = 6 * i + 3 * t;
    assert(face_triangles()[0] == 3 && face_triangles()[1] == 1 && face_triangles()[2] == 2);
    assert(face_triangles()[3] == 0 && face_triangles()[4] == 2 && face_triangles()[5] == 1);
    let ka = face_triangles()[3 * t] as int;
    let kb = face_triangles()[3 * t + 1] as int;
    let kc = face_triangles()[3 * t + 2] as int;
    assert(b.indices@[e0] as int == ka + 4 * i);
    assert(b.indices@[e0 + 1] as int == kb + 4 * i);
    assert(b.indices@[e0 + 2] as int == kc + 4 * i);
    if t == 0 {
        assert(3 * t == 0);
    } else {
        assert(3 * t == 3);
    }
    assert(0 <= ka < 4 && 0 <= kb < 4 && 0 <= kc < 4);
    let d = f.facing_side.dir();
    assert(cross(sub3(corner_point(f, kb), corner_point(f, ka)), sub3(corner_point(f, kc), corner_point(f, ka))) == (
        d.x as int,
        d.y as int,
        d.z as int,
    ));
    lemma_face_vertex_unpacks(faces, b, i, ka);
    lemma_face_vertex_unpacks(faces, b, i, kb);
    lemma_face_vertex_unpacks(faces, b, i, kc);
    assert(VertexData::unpacked(b.packed_data@[4 * i + ka]) == Some(vertex_of(f, ka)));
    assert(VertexData::unpacked(b.packed_data@[4 * i + kb]) == Some(vertex_of(f, kb)));
    assert(VertexData::unpacked(b.packed_data@[4 * i + kc]) == Some(vertex_of(f, kc)));
}

/// Index `e` of triangle `t` of face `i` of a built layer.
proof fn lemma_triangle_index(faces: Seq<FaceData>, b: MeshBuffers, i: int, t: int, e: int)
    requires
        buffers_of(faces, b),
        0 <= i < faces.len(),
        0 <= t < 2,
        0 <= e < 3,
    ensures
        0 <= 6 * i + 3 * t + e < b.indices@.len(),
        b.indices@[6 * i + 3 * t + e] as int == face_triangles()[3 * t + e] + 4 * i,
{
    let j = 6 * i + 3 * t + e;
    assert(j % 6 == 3 * t + e && j / 6 == i) by (nonlinear_arith)
        requires
            j == 6 * i + 3 * t + e,
            0 <= t < 2,
            0 <= e < 3,
            0 <= i,
    ;
    assert(0 <= j < 6 * faces.len()) by (nonlinear_arith)
        requires
            j == 6 * i + 3 * t + e,
            0 <= t < 2,
            0 <= e < 3,
            0 <= i < faces.len(),
    ;
    assert(b.indices@[j] == face_triangles()[j % 6] + 4 * (j / 6));
}

/// Vertex `c` of face `i` of a built layer unpacks to that corner's vertex.
proof fn lemma_face_vertex_unpacks(faces: Seq<FaceData>, b: MeshBuffers, i: int, c: int)
    requires
        buffers_of(faces, b),
        layer_buildable(faces),
        0 <= i < faces.len(),
        0 <= c < 4,
    ensures
        0 <= 4 * i + c < b.packed_data@.len(),
        VertexData::unpacked(b.packed_data@[4 * i + c]) == Some(vertex_of(faces[i], c)),
{
    let j = 4 * i + c;
    assert(j % 4 == c && j / 4 == i) by (nonlinear_arith)
        requires
            j == 4 * i + c,
            0 <= c < 4,
            0 <= i,
    ;
    assert(0 <= j < 4 * faces.len()) by (nonlinear_arith)
        requires
            j == 4 * i + c,
            0 <= c < 4,
            0 <= i < faces.len(),
    ;
    assert(b.packed_data@[j] == vertex_of(faces[j / 4], j % 4).packed());
    assert(face_packable(faces[i]));
    lemma_vertex_in_grid(faces[i], c);
    lemma_pack_unpack_roundtrip(vertex_of(faces[i], c));
}

} // verus!
