//! A chunk with borrowed access to whichever of its neighbours are loaded.
use vstd::prelude::*;
use crate::types::{
    BlockID, BlockInChunkPos, BlockSide, BlockStorage, Chunk, IVec3, CHUNK_SIZE, cube_index,
    side_at,
};

verus! {

/// A chunk and its six face neighbours (where loaded), in side order.
pub struct ChunkWithNeighbors<'a> {
    pub chunk: &'a Chunk,
    pub neighbors: [Option<&'a Chunk>; 6],
}

/// Whether a signed position lies inside a chunk.
pub open spec fn in_chunk_range(pos: IVec3) -> bool {
    0 <= pos.x < CHUNK_SIZE && 0 <= pos.y < CHUNK_SIZE && 0 <= pos.z < CHUNK_SIZE
}

/// Number of axes on which `pos` lies outside the chunk.
pub open spec fn out_count(pos: IVec3) -> int {
    (if 0 <= pos.x < CHUNK_SIZE { 0int } else { 1int }) + (if 0 <= pos.y < CHUNK_SIZE {
        0int
    } else {
        1int
    }) + (if 0 <= pos.z < CHUNK_SIZE { 0int } else { 1int })
}

/// Block id of `c` at an in-chunk signed position.
pub open spec fn chunk_block(c: Chunk, pos: IVec3) -> BlockID {
    c@[cube_index(pos.x as int, pos.y as int, pos.z as int, CHUNK_SIZE as int)]
}

/// `pos` moved one chunk against the direction of side `i`.
pub open spec fn shifted_back(pos: IVec3, i: int) -> IVec3 {
    let d = side_at(i).dir();
    IVec3 {
        x: (pos.x - 16 * d.x) as isize,
        y: (pos.y - 16 * d.y) as isize,
        z: (pos.z - 16 * d.z) as isize,
    }
}

/// Whether coordinates stay far enough from the `isize` limits to shift by a chunk.
pub open spec fn shiftable(pos: IVec3) -> bool {
    isize::MIN + 16 <= pos.x <= isize::MAX - 16 && isize::MIN + 16 <= pos.y <= isize::MAX - 16
        && isize::MIN + 16 <= pos.z <= isize::MAX - 16
}

impl<'a> ChunkWithNeighbors<'a> {
    /// The block at `pos` found among the neighbours from side `i` on, in
    /// side order; air when none holds it.
    pub open spec fn neighbor_block_from(self, pos: IVec3, i: int) -> BlockID
        decreases 6 - i,
    {
        if i >= 6 || i < 0 {
            0
        } else if self.neighbors@[i] is Some && in_chunk_range(shifted_back(pos, i)) {
            chunk_block(*self.neighbors@[i]->0, shifted_back(pos, i))
        } else {
            self.neighbor_block_from(pos, i + 1)
        }
    }

    /// The block at `pos`: the origin chunk's inside its range, else the
    /// neighbour's that holds it, else air.
    pub open spec fn block_at(self, pos: IVec3) -> BlockID {
        if in_chunk_range(pos) {
            chunk_block(*self.chunk, pos)
        } else {
            self.neighbor_block_from(pos, 0)
        }
    }

    /// Block `(x, y, z)` of neighbour `i` (in side order), air when that
    /// neighbour is not loaded.
    pub open spec fn neighbor_block(self, i: int, x: int, y: int, z: int) -> BlockID {
        match self.neighbors@[i] {
            Some(c) => c@[x + 16 * (y + 16 * z)],
            None => 0,
        }
    }

    /// Reading across the faces of the chunk. Inside the chunk a position
    /// holds the chunk's own block. A position outside it on one axis only,
    /// and by less than a chunk, holds the block of the neighbour on that
    /// side, one chunk back along that side's direction: `z = 16` reads the
    /// `+z` neighbour's `z = 0` layer, `z = -1` the `-z` neighbour's `z = 15`
    /// layer, and likewise for `x` (`+x`, `-x`) and `y` (`+y`, `-y`).
    /// Further out, it holds air.
    pub proof fn lemma_reads_across_faces(self, pos: IVec3)
        requires
            out_count(pos) <= 1,
            shiftable(pos),
        ensures
            in_chunk_range(pos) ==> self.block_at(pos) == self.chunk@[pos.x + 16 * (pos.y + 16 * pos.z)],
            0 <= pos.x < 16 && 0 <= pos.y < 16 ==> {
                &&& 16 <= pos.z < 32 ==> self.block_at(pos) == self.neighbor_block(0, pos.x as int, pos.y as int, pos.z - 16)
                &&& -16 <= pos.z < 0 ==> self.block_at(pos) == self.neighbor_block(1, pos.x as int, pos.y as int, pos.z + 16)
                &&& (pos.z >= 32 || pos.z < -16) ==> self.block_at(pos) == 0
            },
            0 <= pos.y < 16 && 0 <= pos.z < 16 ==> {
                &&& 16 <= pos.x < 32 ==> self.block_at(pos) == self.neighbor_block(2, pos.x - 16, pos.y as int, pos.z as int)
                &&& -16 <= pos.x < 0 ==> self.block_at(pos) == self.neighbor_block(3, pos.x + 16, pos.y as int, pos.z as int)
                &&& (pos.x >= 32 || pos.x < -16) ==> self.block_at(pos) == 0
            },
            0 <= pos.x < 16 && 0 <= pos.z < 16 ==> {
                &&& 16 <= pos.y < 32 ==> self.block_at(pos) == self.neighbor_block(4, pos.x as int, pos.y - 16, pos.z as int)
                &&& -16 <= pos.y < 0 ==> self.block_at(pos) == self.neighbor_block(5, pos.x as int, pos.y + 16, pos.z as int)
                &&& (pos.y >= 32 || pos.y < -16) ==> self.block_at(pos) == 0
            },
    {
        reveal_with_fuel(ChunkWithNeighbors::neighbor_block_from, 7);
    }

    /// The origin chunk's blocks.
    pub fn get_origin_block_storage(&self) -> (r: &BlockStorage)
        ensures
            r@ == self.chunk@,
            r@.len() == 4096,
    {
        self.chunk.get_block_storage()
    }

    /// If `pos` is in range of the origin, gets the block from this chunk;
    /// else, if a neighbour holds it, from that neighbour; else air.
    /// Diagonal neighbours are not handled.
    pub fn get(&self, pos: IVec3) -> (r: BlockID)
        requires
            out_count(pos) <= 1,
            shiftable(pos),
        ensures
            r == self.block_at(pos),
    {
        let size: isize = 16;
        if 0 <= pos.x && pos.x < size && 0 <= pos.y && pos.y < size && 0 <= pos.z && pos.z < size {
            return self.chunk.get_block(
                BlockInChunkPos::new(pos.x as usize, pos.y as usize, pos.z as usize),
            );
        }
        let sides = BlockSide::iterator();
        let mut i: usize = 0;
        while i < 6
            invariant
                i <= 6,
                size == 16,
                shiftable(pos),
                !in_chunk_range(pos),
                forall|t: int| 0 <= t < 6 ==> #[trigger] sides@[t] == side_at(t),
                self.neighbor_block_from(pos, 0) == self.neighbor_block_from(pos, i as int),
            decreases 6 - i,
        {
            let side = sides[i];
            let dir = side.direction();
            proof {
                side.lemma_dir_unit();
                assert(side == side_at(i as int));
            }
            let block_pos = IVec3 {
                x: pos.x - dir.x * size,
                y: pos.y - dir.y * size,
                z: pos.z - dir.z * size,
            };
            proof {
                assert(block_pos == shifted_back(pos, i as int));
            }
            match self.neighbors[side.index()] {
                Some(neighbor) => {
                    match Self::get_block_checked(neighbor, block_pos) {
                        Some(block) => {
                            return block;
                        },
                        None => {},
                    }
                },
                None => {},
            }
            i = i + 1;
        }
        0
    }

    /// The block of `chunk` at `pos` when `pos` lies inside it.
    fn get_block_checked(chunk: &Chunk, pos: IVec3) -> (r: Option<BlockID>)
        ensures
            in_chunk_range(pos) ==> r == Some(chunk_block(*chunk, pos)),
            !in_chunk_range(pos) ==> r is None,
    {
        let size: isize = 16;
        if 0 <= pos.x && pos.x < size && 0 <= pos.y && pos.y < size && 0 <= pos.z && pos.z < size {
            Some(chunk.get_block(BlockInChunkPos::new(pos.x as usize, pos.y as usize, pos.z as usize)))
        } else {
            None
        }
    }
}

} // verus!
