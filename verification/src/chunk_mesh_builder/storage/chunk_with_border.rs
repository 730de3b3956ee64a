//! A chunk together with the one-block layer of its six neighbours.
use vstd::prelude::*;
use crate::types::{BlockID, BlockInChunkPos, BlockStorage, Chunk, CHUNK_SIZE, cube_index};

verus! {

/// Edge length of a chunk with its border.
pub const BORDER_SIZE: usize = 18;

/// Number of blocks of a chunk with its border.
pub const BORDER_VOLUME: usize = 5832;

/// The blocks of a chunk framed by one layer of its neighbours' blocks.
#[derive(Debug, PartialEq)]
pub struct ChunkWithBorder {
    block_storage: BlockStorage,
}

impl ChunkWithBorder {
    /// The framed blocks, indexed by `cube_index(x, y, z, 18)`.
    pub closed spec fn blocks(&self) -> Seq<BlockID> {
        self.block_storage@
    }

    /// Wraps a storage of `18^3` block ids.
    pub fn new(block_storage: BlockStorage) -> (r: ChunkWithBorder)
        requires
            block_storage@.len() == BORDER_VOLUME,
        ensures
            r.blocks() == block_storage@,
    {
        ChunkWithBorder { block_storage }
    }

    /// The framed blocks.
    pub fn get_block_storage(&self) -> (r: &BlockStorage)
        ensures
            r@ == self.blocks(),
    {
        &self.block_storage
    }

    /// A frame filled with air.
    pub fn default() -> (r: ChunkWithBorder)
        ensures
            r.blocks() == Seq::new(BORDER_VOLUME as nat, |i: int| 0u16),
    {
        let blocks: Vec<BlockID> = vec![0u16; BORDER_VOLUME];
        assert(blocks@ =~= Seq::new(BORDER_VOLUME as nat, |i: int| 0u16));
        ChunkWithBorder::new(BlockStorage::new(blocks))
    }
}

/// A chunk and its six face neighbours, in side order: +z, -z, +x, -x, +y, -y.
pub struct ChunkWithNeighbors {
    pub chunk: Chunk,
    pub neighbors: [Chunk; 6],
}

/// Whether a frame coordinate lies inside the chunk (not on the border).
pub open spec fn inner(c: int) -> bool {
    1 <= c <= 16
}

/// Block id of chunk `c` at chunk position `(x, y, z)`.
pub open spec fn block_of(c: Chunk, x: int, y: int, z: int) -> BlockID {
    c@[cube_index(x, y, z, CHUNK_SIZE as int)]
}

/// The block the frame holds at `(x, y, z)`: the chunk's own block inside,
/// the touching neighbour block on a face of the border, air on the border's
/// edges and corners.
pub open spec fn border_block(cwn: ChunkWithNeighbors, x: int, y: int, z: int) -> BlockID {
    let n = cwn.neighbors@;
    if inner(x) && inner(y) && inner(z) {
        block_of(cwn.chunk, x - 1, y - 1, z - 1)
    } else if x == 0 && inner(y) && inner(z) {
        block_of(n[3], 15, y - 1, z - 1)
    } else if x == 17 && inner(y) && inner(z) {
        block_of(n[2], 0, y - 1, z - 1)
    } else if y == 0 && inner(x) && inner(z) {
        block_of(n[5], x - 1, 15, z - 1)
    } else if y == 17 && inner(x) && inner(z) {
        block_of(n[4], x - 1, 0, z - 1)
    } else if z == 0 && inner(x) && inner(y) {
        block_of(n[1], x - 1, y - 1, 15)
    } else if z == 17 && inner(x) && inner(y) {
        block_of(n[0], x - 1, y - 1, 0)
    } else {
        0
    }
}

/// The frame holds, at frame position `(i + 1, j + 1, k + 1)`, the block
/// that lies at `(i, j, k)` relative to the chunk's origin. Inside the chunk
/// that is the chunk's own block. Just outside it across a face, it is the
/// block of the neighbour on that side at the same position moved one chunk
/// back: `i = -1` is the `-x` neighbour's layer `x = 15`, `i = 16` the `+x`
/// neighbour's layer `x = 0`, and likewise along `y` (`+y`, `-y`) and `z`
/// (`+z`, `-z`). Positions outside the chunk on two or three axes (the
/// frame's edges and corners) hold air.
pub proof fn lemma_frame_holds_adjacent_layers(cwn: ChunkWithNeighbors, i: int, j: int, k: int)
    requires
        -1 <= i <= 16,
        -1 <= j <= 16,
        -1 <= k <= 16,
    ensures
        0 <= i < 16 && 0 <= j < 16 && 0 <= k < 16 ==> border_block(cwn, i + 1, j + 1, k + 1)
            == cwn.chunk@[i + 16 * (j + 16 * k)],
        0 <= j < 16 && 0 <= k < 16 ==> {
            &&& i == -1 ==> border_block(cwn, i + 1, j + 1, k + 1) == cwn.neighbors@[3]@[(i + 16) + 16 * (j + 16 * k)]
            &&& i == 16 ==> border_block(cwn, i + 1, j + 1, k + 1) == cwn.neighbors@[2]@[(i - 16) + 16 * (j + 16 * k)]
        },
        0 <= i < 16 && 0 <= k < 16 ==> {
            &&& j == -1 ==> border_block(cwn, i + 1, j + 1, k + 1) == cwn.neighbors@[5]@[i + 16 * ((j + 16) + 16 * k)]
            &&& j == 16 ==> border_block(cwn, i + 1, j + 1, k + 1) == cwn.neighbors@[4]@[i + 16 * ((j - 16) + 16 * k)]
        },
        0 <= i < 16 && 0 <= j < 16 ==> {
            &&& k == -1 ==> border_block(cwn, i + 1, j + 1, k + 1) == cwn.neighbors@[1]@[i + 16 * (j + 16 * (k + 16))]
            &&& k == 16 ==> border_block(cwn, i + 1, j + 1, k + 1) == cwn.neighbors@[0]@[i + 16 * (j + 16 * (k - 16))]
        },
        (if 0 <= i < 16 { 0int } else { 1int }) + (if 0 <= j < 16 { 0int } else { 1int }) + (if 0 <= k < 16 {
            0int
        } else {
            1int
        }) >= 2 ==> border_block(cwn, i + 1, j + 1, k + 1) == 0,
{
}

/// A frame index splits back into its coordinates.
proof fn lemma_frame_index(x: int, y: int, z: int)
    requires
        0 <= x < 18,
        0 <= y < 18,
        0 <= z < 18,
    ensures
        cube_index(x, y, z, 18) % 18 == x,
        (cube_index(x, y, z, 18) / 18) % 18 == y,
        cube_index(x, y, z, 18) / 324 == z,
        0 <= cube_index(x, y, z, 18) < 5832,
{
    assert((x + 18 * (y + 18 * z)) % 18 == x) by (nonlinear_arith)
        requires
            0 <= x < 18,
            0 <= y < 18,
            0 <= z < 18,
    ;
    assert((x + 18 * (y + 18 * z)) / 18 == y + 18 * z) by (nonlinear_arith)
        requires
            0 <= x < 18,
            0 <= y < 18,
            0 <= z < 18,
    ;
    assert((y + 18 * z) % 18 == y) by (nonlinear_arith)
        requires
            0 <= y < 18,
            0 <= z < 18,
    ;
    assert((x + 18 * (y + 18 * z)) / 324 == z) by (nonlinear_arith)
        requires
            0 <= x < 18,
            0 <= y < 18,
            0 <= z < 18,
    ;
}

impl ChunkWithNeighbors {
    /// The block id of chunk `c` at `(x, y, z)`.
    fn block_at(c: &Chunk, x: usize, y: usize, z: usize) -> (r: BlockID)
        requires
            x < 16,
            y < 16,
            z < 16,
        ensures
            r == block_of(*c, x as int, y as int, z as int),
    {
        c.get_block(BlockInChunkPos::new(x, y, z))
    }

    /// The block the frame holds at `(x, y, z)`.
    fn border_value(&self, x: usize, y: usize, z: usize) -> (r: BlockID)
        requires
            x < 18,
            y < 18,
            z < 18,
        ensures
            r == border_block(*self, x as int, y as int, z as int),
    {
        let ix = 1 <= x && x <= 16;
        let iy = 1 <= y && y <= 16;
        let iz = 1 <= z && z <= 16;
        if ix && iy && iz {
            Self::block_at(&self.chunk, x - 1, y - 1, z - 1)
        } else if x == 0 && iy && iz {
            Self::block_at(&self.neighbors[3], 15, y - 1, z - 1)
        } else if x == 17 && iy && iz {
            Self::block_at(&self.neighbors[2], 0, y - 1, z - 1)
        } else if y == 0 && ix && iz {
            Self::block_at(&self.neighbors[5], x - 1, 15, z - 1)
        } else if y == 17 && ix && iz {
            Self::block_at(&self.neighbors[4], x - 1, 0, z - 1)
        } else if z == 0 && ix && iy {
            Self::block_at(&self.neighbors[1], x - 1, y - 1, 15)
        } else if z == 17 && ix && iy {
            Self::block_at(&self.neighbors[0], x - 1, y - 1, 0)
        } else {
            0
        }
    }

    /// Frames the chunk with the touching layer of each neighbour: the chunk
    /// fills the inside, each face of the border holds the neighbour's
    /// adjacent layer, and the border's edges and corners are air.
    pub fn into_chunk_with_border(self) -> (r: ChunkWithBorder)
        ensures
            r.blocks().len() == BORDER_VOLUME,
            forall|x: int, y: int, z: int|
                0 <= x < 18 && 0 <= y < 18 && 0 <= z < 18 ==> #[trigger] r.blocks()[cube_index(
                    x,
                    y,
                    z,
                    18,
                )] == border_block(self, x, y, z),
    {
        let size = CHUNK_SIZE + 2;
        let mut data: Vec<BlockID> = Vec::new();
        let mut z: usize = 0;
        while z < size
            invariant
                size == 18,
                z <= 18,
                data@.len() == 324 * z,
                forall|j: int|
                    0 <= j < data@.len() ==> #[trigger] data@[j] == border_block(
                        self,
                        j % 18,
                        (j / 18) % 18,
                        j / 324,
                    ),
            decreases 18 - z,
        {
            let mut y: usize = 0;
            while y < size
                invariant
                    size == 18,
                    z < 18,
                    y <= 18,
                    data@.len() == 324 * z + 18 * y,
                    forall|j: int|
                        0 <= j < data@.len() ==> #[trigger] data@[j] == border_block(
                            self,
                            j % 18,
                            (j / 18) % 18,
                            j / 324,
                        ),
                decreases 18 - y,
            {
                let mut x: usize = 0;
                while x < size
                    invariant
                        size == 18,
                        z < 18,
                        y < 18,
                        x <= 18,
                        data@.len() == 324 * z + 18 * y + x,
                        forall|j: int|
                            0 <= j < data@.len() ==> #[trigger] data@[j] == border_block(
                                self,
                                j % 18,
                                (j / 18) % 18,
                                j / 324,
                            ),
                    decreases 18 - x,
                {
                    let v = self.border_value(x, y, z);
                    proof {
                        lemma_frame_index(x as int, y as int, z as int);
                    }
                    data.push(v);
                    x = x + 1;
                }
                y = y + 1;
            }
            z = z + 1;
        }
        proof {
            assert forall|x: int, y: int, z: int|
                0 <= x < 18 && 0 <= y < 18 && 0 <= z < 18 implies #[trigger] data@[cube_index(
                x,
                y,
                z,
                18,
            )] == border_block(self, x, y, z) by {
                lemma_frame_index(x, y, z);
            }
        }
        ChunkWithBorder::new(BlockStorage::new(data))
    }
}

} // verus!
