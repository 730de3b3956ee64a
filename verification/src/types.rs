//! World coordinates, block sides and block storage of a chunk.
use vstd::prelude::*;

verus! {

/// Edge length of a cubic chunk, in blocks.
pub const CHUNK_SIZE: usize = 16;

/// Number of blocks in a chunk.
pub const CHUNK_VOLUME: usize = 4096;

/// Identifier of a block type; `0` is air.
pub type BlockID = u16;

/// Position of a chunk, in block coordinates of its origin corner.
#[derive(Debug, Clone, Copy, PartialEq, Eq, Hash, Structural)]
pub struct ChunkPos {
    pub x: isize,
    pub y: isize,
    pub z: isize,
}

/// Absolute value of an integer.
pub open spec fn abs(v: int) -> int {
    if v < 0 {
        -v
    } else {
        v
    }
}

/// Whether two coordinates are less than `d + 1` chunks apart.
pub open spec fn coord_within(a: int, b: int, d: int) -> bool {
    abs(a - b) < CHUNK_SIZE * (d + 1)
}

impl ChunkPos {
    /// Creates a chunk position.
    pub fn new(x: isize, y: isize, z: isize) -> (r: ChunkPos)
        ensures
            r == (ChunkPos { x, y, z }),
    {
        ChunkPos { x, y, z }
    }

    /// Horizontal chunk-grid distance test: `x` and `y` each differ by at most
    /// `distance` chunks (for chunk-aligned positions).
    pub open spec fn within_distance_2d(self, other: ChunkPos, distance: int) -> bool {
        coord_within(self.x as int, other.x as int, distance) && coord_within(
            self.y as int,
            other.y as int,
            distance,
        )
    }

    /// Chunk-grid distance test on all three axes.
    pub open spec fn within_distance_3d(self, other: ChunkPos, distance: int) -> bool {
        self.within_distance_2d(other, distance) && coord_within(
            self.z as int,
            other.z as int,
            distance,
        )
    }

    /// Whether `a` and `b` are less than `distance + 1` chunks apart.
    fn coord_is_within(a: isize, b: isize, distance: usize) -> (r: bool)
        ensures
            r == coord_within(a as int, b as int, distance as int),
    {
        let diff: i128 = a as i128 - b as i128;
        let abs_diff: i128 = if diff < 0 {
            -diff
        } else {
            diff
        };
        let limit: i128 = 16 * (distance as i128 + 1);
        abs_diff < limit
    }

    /// Whether `self` lies within `distance` chunks of `other` horizontally.
    pub fn is_within_distance_2d(&self, other: ChunkPos, distance: usize) -> (r: bool)
        ensures
            r == self.within_distance_2d(other, distance as int),
    {
        Self::coord_is_within(self.x, other.x, distance) && Self::coord_is_within(
            self.y,
            other.y,
            distance,
        )
    }

    /// Whether `self` lies within `distance` chunks of `other` on every axis.
    pub fn is_within_distance(&self, other: ChunkPos, distance: usize) -> (r: bool)
        ensures
            r == self.within_distance_3d(other, distance as int),
    {
        self.is_within_distance_2d(other, distance) && Self::coord_is_within(
            self.z,
            other.z,
            distance,
        )
    }
}

/// One of the six faces of a block, in the order the client iterates them.
#[derive(Debug, Clone, Copy, PartialEq, Eq, Hash, Structural)]
pub enum BlockSide {
    /// Towards +z.
    Front,
    /// Towards -z.
    Back,
    /// Towards +x.
    Right,
    /// Towards -x.
    Left,
    /// Towards +y.
    Top,
    /// Towards -y.
    Bottom,
}

/// The side at position `i` of the iteration order.
pub open spec fn side_at(i: int) -> BlockSide {
    if i == 0 {
        BlockSide::Front
    } else if i == 1 {
        BlockSide::Back
    } else if i == 2 {
        BlockSide::Right
    } else if i == 3 {
        BlockSide::Left
    } else if i == 4 {
        BlockSide::Top
    } else {
        BlockSide::Bottom
    }
}

/// Unit vector between neighbouring cells.
#[derive(Debug, Clone, Copy, PartialEq, Eq, Hash, Structural)]
pub struct Direction {
    pub x: isize,
    pub y: isize,
    pub z: isize,
}

impl BlockSide {
    /// Position of the side in the iteration order.
    pub open spec fn spec_index(self) -> int {
        match self {
            BlockSide::Front => 0,
            BlockSide::Back => 1,
            BlockSide::Right => 2,
            BlockSide::Left => 3,
            BlockSide::Top => 4,
            BlockSide::Bottom => 5,
        }
    }

    /// The outward direction of the side.
    pub open spec fn dir(self) -> Direction {
        match self {
            BlockSide::Front => Direction { x: 0, y: 0, z: 1 },
            BlockSide::Back => Direction { x: 0, y: 0, z: -1isize },
            BlockSide::Right => Direction { x: 1, y: 0, z: 0 },
            BlockSide::Left => Direction { x: -1isize, y: 0, z: 0 },
            BlockSide::Top => Direction { x: 0, y: 1, z: 0 },
            BlockSide::Bottom => Direction { x: 0, y: -1isize, z: 0 },
        }
    }

    /// Side directions are unit vectors along one axis.
    pub proof fn lemma_dir_unit(self)
        ensures
            -1 <= self.dir().x <= 1,
            -1 <= self.dir().y <= 1,
            -1 <= self.dir().z <= 1,
    {
        match self {
            BlockSide::Front => {},
            BlockSide::Back => {},
            BlockSide::Right => {},
            BlockSide::Left => {},
            BlockSide::Top => {},
            BlockSide::Bottom => {},
        }
    }

    /// Position of the side in the iteration order.
    pub fn index(&self) -> (r: usize)
        ensures
            r == self.spec_index(),
            r < 6,
    {
        match self {
            BlockSide::Front => 0,
            BlockSide::Back => 1,
            BlockSide::Right => 2,
            BlockSide::Left => 3,
            BlockSide::Top => 4,
            BlockSide::Bottom => 5,
        }
    }

    /// The side at position `i` of the iteration order.
    pub fn from_index(i: usize) -> (r: BlockSide)
        requires
            i < 6,
        ensures
            r == side_at(i as int),
            r.spec_index() == i,
    {
        if i == 0 {
            BlockSide::Front
        } else if i == 1 {
            BlockSide::Back
        } else if i == 2 {
            BlockSide::Right
        } else if i == 3 {
            BlockSide::Left
        } else if i == 4 {
            BlockSide::Top
        } else {
            BlockSide::Bottom
        }
    }

    /// All six sides in iteration order.
    pub fn iterator() -> (r: [BlockSide; 6])
        ensures
            forall|i: int| 0 <= i < 6 ==> #[trigger] r@[i] == side_at(i),
    {
        [
            BlockSide::Front,
            BlockSide::Back,
            BlockSide::Right,
            BlockSide::Left,
            BlockSide::Top,
            BlockSide::Bottom,
        ]
    }

    /// The outward direction of the side.
    pub fn direction(&self) -> (r: Direction)
        ensures
            r == self.dir(),
    {
        match self {
            BlockSide::Front => Direction { x: 0, y: 0, z: 1 },
            BlockSide::Back => Direction { x: 0, y: 0, z: -1 },
            BlockSide::Right => Direction { x: 1, y: 0, z: 0 },
            BlockSide::Left => Direction { x: -1, y: 0, z: 0 },
            BlockSide::Top => Direction { x: 0, y: 1, z: 0 },
            BlockSide::Bottom => Direction { x: 0, y: -1, z: 0 },
        }
    }
}

/// A signed block offset or position relative to a chunk's origin.
#[derive(Debug, Clone, Copy, PartialEq, Eq, Hash, Structural)]
pub struct IVec3 {
    pub x: isize,
    pub y: isize,
    pub z: isize,
}

/// Position of a block inside its chunk.
#[derive(Debug, Clone, Copy, PartialEq, Eq, Hash, Structural)]
pub struct BlockInChunkPos {
    pub x: usize,
    pub y: usize,
    pub z: usize,
}

/// Linear index of the block at `(x, y, z)` in a cube of edge `size`.
pub open spec fn cube_index(x: int, y: int, z: int, size: int) -> int {
    x + size * (y + size * z)
}

impl BlockInChunkPos {
    /// Whether the position lies inside a chunk.
    pub open spec fn in_chunk(self) -> bool {
        self.x < CHUNK_SIZE && self.y < CHUNK_SIZE && self.z < CHUNK_SIZE
    }

    /// Linear index of the position in a chunk's block storage.
    pub open spec fn spec_index(self) -> int {
        cube_index(self.x as int, self.y as int, self.z as int, CHUNK_SIZE as int)
    }

    /// Creates a position.
    pub fn new(x: usize, y: usize, z: usize) -> (r: BlockInChunkPos)
        ensures
            r == (BlockInChunkPos { x, y, z }),
    {
        BlockInChunkPos { x, y, z }
    }

    /// The position stored at linear index `index` of a chunk.
    pub fn from_index(index: usize) -> (r: BlockInChunkPos)
        requires
            index < CHUNK_VOLUME,
        ensures
            r.in_chunk(),
            r.spec_index() == index,
    {
        let x = index % 16;
        let y = (index / 16) % 16;
        let z = index / 256;
        assert(x + 16 * (y + 16 * z) == index) by (nonlinear_arith)
            requires
                x == index % 16,
                y == (index / 16) % 16,
                z == index / 256,
        ;
        BlockInChunkPos { x, y, z }
    }

    /// Linear index of the position in a chunk's block storage.
    pub fn index(&self) -> (r: usize)
        requires
            self.in_chunk(),
        ensures
            r == self.spec_index(),
            r < CHUNK_VOLUME,
    {
        self.x + 16 * (self.y + 16 * self.z)
    }
}

/// Flat storage of block ids.
#[derive(Debug, PartialEq, Eq)]
pub struct BlockStorage {
    blocks: Vec<BlockID>,
}

impl View for BlockStorage {
    type V = Seq<BlockID>;

    closed spec fn view(&self) -> Seq<BlockID> {
        self.blocks@
    }
}

impl Clone for BlockStorage {
    /// A copy holding the same block ids.
    fn clone(&self) -> (r: Self)
        ensures
            r@ == self@,
    {
        let blocks = self.blocks.clone();
        assert(blocks@ =~= self.blocks@);
        BlockStorage { blocks }
    }
}

impl Clone for Chunk {
    /// A copy holding the same block ids.
    fn clone(&self) -> (r: Self)
        ensures
            r@ == self@,
    {
        proof {
            use_type_invariant(self);
        }
        Chunk { block_storage: self.block_storage.clone() }
    }
}

impl BlockStorage {
    /// Wraps a vector of block ids.
    pub fn new(blocks: Vec<BlockID>) -> (r: BlockStorage)
        ensures
            r@ == blocks@,
    {
        BlockStorage { blocks }
    }

    /// Number of stored blocks.
    pub fn len(&self) -> (r: usize)
        ensures
            r == self@.len(),
    {
        self.blocks.len()
    }

    /// The block id at linear index `i`.
    pub fn get_index(&self, i: usize) -> (r: BlockID)
        requires
            i < self@.len(),
        ensures
            r == self@[i as int],
    {
        self.blocks[i]
    }

    /// The block id at `pos` of a chunk-sized storage.
    pub fn get_block(&self, pos: BlockInChunkPos) -> (r: BlockID)
        requires
            pos.in_chunk(),
            self@.len() == CHUNK_VOLUME,
        ensures
            r == self@[pos.spec_index()],
    {
        self.blocks[pos.index()]
    }

    /// Replaces the block id at `pos` of a chunk-sized storage.
    pub fn set_block(&mut self, pos: BlockInChunkPos, id: BlockID)
        requires
            pos.in_chunk(),
            old(self)@.len() == CHUNK_VOLUME,
        ensures
            final(self)@ == old(self)@.update(pos.spec_index(), id),
    {
        let i = pos.index();
        self.blocks.set(i, id);
    }
}

/// The blocks of a chunk filled with air.
pub open spec fn air_blocks() -> Seq<BlockID> {
    Seq::new(CHUNK_VOLUME as nat, |i: int| 0u16)
}

/// The blocks of one chunk.
#[derive(Debug, PartialEq, Eq)]
pub struct Chunk {
    block_storage: BlockStorage,
}

impl View for Chunk {
    type V = Seq<BlockID>;

    closed spec fn view(&self) -> Seq<BlockID> {
        self.block_storage@
    }
}

impl Chunk {
    /// A chunk always holds exactly one block id per position.
    #[verifier::type_invariant]
    spec fn chunk_sized(self) -> bool {
        self.block_storage@.len() == CHUNK_VOLUME
    }

    /// The block id at `pos`.
    pub fn get_block(&self, pos: BlockInChunkPos) -> (r: BlockID)
        requires
            pos.in_chunk(),
        ensures
            r == self@[pos.spec_index()],
    {
        proof {
            use_type_invariant(self);
        }
        self.block_storage.get_block(pos)
    }

    /// Wraps a chunk-sized block storage.
    pub fn new(block_storage: BlockStorage) -> (r: Chunk)
        requires
            block_storage@.len() == CHUNK_VOLUME,
        ensures
            r@ == block_storage@,
    {
        Chunk { block_storage }
    }

    /// A chunk filled with air.
    pub fn empty() -> (r: Chunk)
        ensures
            r@ == air_blocks(),
    {
        let blocks: Vec<BlockID> = vec![0u16; CHUNK_VOLUME];
        assert(blocks@ =~= Seq::new(CHUNK_VOLUME as nat, |i: int| 0u16));
        Chunk { block_storage: BlockStorage { blocks } }
    }

    /// The chunk's blocks.
    pub fn get_block_storage(&self) -> (r: &BlockStorage)
        ensures
            r@ == self@,
            r@.len() == CHUNK_VOLUME,
    {
        proof {
            use_type_invariant(self);
        }
        &self.block_storage
    }
}

} // verus!
