//! Single-block edits of the world.
use vstd::prelude::*;
use crate::types::{BlockID, BlockInChunkPos, Chunk, ChunkPos};
use crate::pos_map::PosMap;

verus! {

/// Position of a block in the world.
#[derive(Debug, Clone, Copy, PartialEq, Eq, Hash, Structural)]
pub struct BlockPos {
    pub x: isize,
    pub y: isize,
    pub z: isize,
}

/// A request to put `1` at block `0`.
#[derive(Debug, Clone, Copy, PartialEq, Eq, Structural)]
pub struct VoxelEdit(pub BlockPos, pub BlockID);

/// A chunk whose blocks changed, with its new blocks.
#[derive(Debug, Clone, PartialEq)]
pub struct ChunkUpdated(pub ChunkPos, pub Chunk);

/// The origin of the chunk that holds block coordinate `a` (rounding down).
pub open spec fn chunk_origin(a: int) -> int {
    16 * (a / 16)
}

/// The chunk that holds block `b`.
pub open spec fn chunk_of(b: BlockPos) -> ChunkPos {
    ChunkPos {
        x: chunk_origin(b.x as int) as isize,
        y: chunk_origin(b.y as int) as isize,
        z: chunk_origin(b.z as int) as isize,
    }
}

/// The position of block `b` inside its chunk.
pub open spec fn in_chunk_of(b: BlockPos) -> BlockInChunkPos {
    BlockInChunkPos {
        x: (b.x as int % 16) as usize,
        y: (b.y as int % 16) as usize,
        z: (b.z as int % 16) as usize,
    }
}

/// A block lies at its chunk's origin plus its position in that chunk, on
/// every axis: the origin is a multiple of 16 and the position in the chunk
/// lies in `0..16`. So the two parts determine each other and the block.
pub proof fn lemma_locate_block_splits(b: BlockPos)
    ensures
        chunk_of(b).x + in_chunk_of(b).x == b.x,
        chunk_of(b).y + in_chunk_of(b).y == b.y,
        chunk_of(b).z + in_chunk_of(b).z == b.z,
        in_chunk_of(b).x < 16 && in_chunk_of(b).y < 16 && in_chunk_of(b).z < 16,
        chunk_of(b).x % 16 == 0 && chunk_of(b).y % 16 == 0 && chunk_of(b).z % 16 == 0,
{
    lemma_coord_splits(b.x as int);
    lemma_coord_splits(b.y as int);
    lemma_coord_splits(b.z as int);
}

proof fn lemma_coord_splits(a: int)
    requires
        isize::MIN <= a <= isize::MAX,
    ensures
        chunk_origin(a) + a % 16 == a,
        0 <= a % 16 < 16,
        (chunk_origin(a) as isize) as int == chunk_origin(a),
        ((a % 16) as usize) as int == a % 16,
        (chunk_origin(a) as isize) % 16 == 0,
{
    assert(16 * (a / 16) + a % 16 == a) by (nonlinear_arith);
    assert((16 * (a / 16)) % 16 == 0) by (nonlinear_arith);
}

/// The origin of the chunk that holds coordinate `a`, and `a`'s offset in it.
fn split_coord(a: isize) -> (r: (isize, usize))
    ensures
        r.0 == chunk_origin(a as int),
        r.1 == a as int % 16,
{
    if a >= 0 {
        let q: u128 = (a as u128) / 16;
        let origin = (q * 16) as isize;
        (origin, (a - origin) as usize)
    } else {
        // floor(a / 16) = -((-a - 1) / 16) - 1
        let m: u128 = (-(a as i128) - 1) as u128;
        let q: u128 = m / 16 + 1;
        let origin: i128 = -((q * 16) as i128);
        proof {
            assert(origin == 16 * (a as int / 16));
        }
        (origin as isize, (a as i128 - origin) as usize)
    }
}

/// The chunk that holds `block_pos`, and the block's position in it.
pub fn locate_block(block_pos: BlockPos) -> (r: (ChunkPos, BlockInChunkPos))
    ensures
        r.0 == chunk_of(block_pos),
        r.1 == in_chunk_of(block_pos),
        r.1.in_chunk(),
        r.0.x + r.1.x == block_pos.x,
        r.0.y + r.1.y == block_pos.y,
        r.0.z + r.1.z == block_pos.z,
        r.0.x % 16 == 0 && r.0.y % 16 == 0 && r.0.z % 16 == 0,
{
    proof {
        lemma_locate_block_splits(block_pos);
    }
    let (cx, bx) = split_coord(block_pos.x);
    let (cy, by) = split_coord(block_pos.y);
    let (cz, bz) = split_coord(block_pos.z);
    (ChunkPos::new(cx, cy, cz), BlockInChunkPos::new(bx, by, bz))
}

/// Puts `edit.1` at block `edit.0` of the loaded chunk that holds it and
/// returns the updated chunk; `None` (and no change) when that chunk is not
/// loaded.
pub fn apply_voxel_edit(edit: VoxelEdit, chunks: &mut PosMap<Chunk>) -> (r: Option<ChunkUpdated>)
    requires
        old(chunks).wf(),
    ensures
        final(chunks).wf(),
        !old(chunks)@.contains_key(chunk_of(edit.0)) ==> r is None && final(chunks)@ == old(chunks)@,
        old(chunks)@.contains_key(chunk_of(edit.0)) ==> {
            let cp = chunk_of(edit.0);
            let blocks = old(chunks)@[cp]@.update(in_chunk_of(edit.0).spec_index(), edit.1);
            &&& final(chunks)@.contains_key(cp)
            &&& final(chunks)@[cp]@ == blocks
            &&& final(chunks)@.remove(cp) == old(chunks)@.remove(cp)
            &&& r matches Some(u) && u.0 == cp && u.1@ == blocks
        },
{
    let block_pos = edit.0;
    let new_voxel = edit.1;
    let (chunk_pos, block_in_chunk_pos) = locate_block(block_pos);
    let chunk = match chunks.get(chunk_pos) {
        Some(c) => c,
        None => {
            return None;
        },
    };
    let mut new_block_storage = chunk.get_block_storage().clone();
    new_block_storage.set_block(block_in_chunk_pos, new_voxel);
    let new_chunk = Chunk::new(new_block_storage);
    let updated = new_chunk.clone();
    chunks.insert(chunk_pos, new_chunk);
    proof {
        assert(chunks@.remove(chunk_pos) =~= old(chunks)@.remove(chunk_pos));
    }
    Some(ChunkUpdated(chunk_pos, updated))
}

} // verus!
