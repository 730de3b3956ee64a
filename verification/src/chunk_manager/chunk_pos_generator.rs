//! The chunk positions around the player that the loader and the builder want.
use vstd::prelude::*;
use crate::types::ChunkPos;
use crate::chunk_state_manager::chunk_state_manager::{in_visit_range, visit_fits, visit_chunks_in_distance};

verus! {

/// `p` with its `y` and `z` coordinates exchanged.
pub open spec fn swap_yz(p: ChunkPos) -> ChunkPos {
    ChunkPos { x: p.x, y: p.z, z: p.y }
}

/// Whether `p` is one of the chunk columns around `center`: in layer `y = 0`,
/// with its `x` and `z` grid cells at most `dist` cells from `center`'s.
pub open spec fn in_column_range(center: ChunkPos, dist: int, p: ChunkPos) -> bool {
    in_visit_range(swap_yz(center), dist, false, swap_yz(p))
}

/// The chunk columns around `center` (layer `y = 0`, `x` and `z` within
/// `dist` grid cells), each once.
pub fn chunk_positions_2d(center: ChunkPos, dist: usize) -> (r: Vec<ChunkPos>)
    requires
        visit_fits(swap_yz(center), dist as int, false),
    ensures
        r@.no_duplicates(),
        forall|p: ChunkPos| r@.contains(p) <==> in_column_range(center, dist as int, p),
{
    let grid = visit_chunks_in_distance(ChunkPos::new(center.x, center.z, center.y), dist, false);
    let mut out: Vec<ChunkPos> = Vec::new();
    let mut i: usize = 0;
    while i < grid.len()
        invariant
            i <= grid@.len(),
            out@ == grid@.subrange(0, i as int).map_values(|p: ChunkPos| swap_yz(p)),
        decreases grid@.len() - i,
    {
        let p = grid[i];
        out.push(ChunkPos::new(p.x, p.z, p.y));
        proof {
            assert(grid@.subrange(0, i + 1) =~= grid@.subrange(0, i as int).push(p));
        }
        i = i + 1;
    }
    proof {
        assert(grid@.subrange(0, i as int) =~= grid@);
        assert forall|a: int, b: int| 0 <= a < out@.len() && 0 <= b < out@.len() && a != b implies out@[a] != out@[b] by {
            assert(grid@[a] != grid@[b]);
        }
        assert forall|p: ChunkPos| out@.contains(p) <==> in_column_range(center, dist as int, p) by {
            if out@.contains(p) {
                let k = choose|k: int| 0 <= k < out@.len() && out@[k] == p;
                assert(grid@[k] == swap_yz(p));
                assert(grid@.contains(swap_yz(p)));
            }
            if in_column_range(center, dist as int, p) {
                assert(grid@.contains(swap_yz(p)));
                let k = choose|k: int| 0 <= k < grid@.len() && grid@[k] == swap_yz(p);
                assert(out@[k] == p);
            }
        }
    }
    out
}

/// The chunk positions around `center` whose grid cells are at most `dist`
/// cells from `center`'s on every axis, each once.
pub fn chunk_positions_3d(center: ChunkPos, dist: usize) -> (r: Vec<ChunkPos>)
    requires
        visit_fits(center, dist as int, true),
    ensures
        r@.no_duplicates(),
        forall|p: ChunkPos| r@.contains(p) <==> in_visit_range(center, dist as int, true, p),
{
    visit_chunks_in_distance(center, dist, true)
}

} // verus!
