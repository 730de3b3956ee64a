//! Decides which chunks to mesh around the player, and meshes them nearest first.
use vstd::prelude::*;
use crate::seq_lemmas::{lemma_push_unique, lemma_prefix_step};
use crate::types::{BlockSide, Chunk, ChunkPos, side_at};
use crate::chunk_mesh_builder::storage::chunk_with_neighbors::ChunkWithNeighbors;
use crate::pos_map::PosMap;
use crate::chunk_mesh_builder::chunk_mesh::ChunkMesh;
use crate::chunk_state_manager::chunk_state_manager::{in_visit_range, visit_fits, visit_fits_exec};
use super::chunk_pos_generator::{chunk_positions_2d, chunk_positions_3d, in_column_range, swap_yz};
use super::pending_chunk_queue::PendingChunkQueue;
use super::chunk_loader::position_set;
use super::pending_chunk_queue::{manhattan, takes_nearest};
use std::collections::HashMap;
use crate::chunk_mesh_builder::chunk_mesh::MaterialId;
use crate::chunk_mesh_builder::meshers::chunk_mesher::{ChunkMeshData, FaceData};
use crate::chunk_mesh_builder::meshers::mesher::{buffers_of, layer_buildable, is_face_packable};
use crate::chunk_mesh_builder::meshers::naive_mesher::{ChunkMesher, MesherWarnings, layer_faces_view, wcount};
use crate::types::BlockID;
use vstd::std_specs::hash::spec_hash_map_iter;
use vstd::std_specs::iter::IteratorSpec;

verus! {

broadcast use vstd::std_specs::hash::group_hash_axioms;

/// A chunk mesh built for the renderer.
#[derive(Debug)]
pub struct ChunkBuilt(pub ChunkPos, pub ChunkMesh);

/// A chunk whose mesh left the renderer.
#[derive(Debug, Clone, Copy, PartialEq, Eq, Structural)]
pub struct ChunkRemoved(pub ChunkPos);

/// Settings of the chunk builder.
#[derive(Debug, Clone, Copy)]
pub struct ChunkBuilderConfig {
    pub max_builds_per_frame: usize,
    pub render_distance: usize,
    pub dynamic_vertical_loading: bool,
    pub debug: bool,
    /// Number of chunk layers meshed per column without vertical loading.
    pub height: usize,
}

impl Default for ChunkBuilderConfig {
    /// Sixteen builds per frame, render distance eight, one layer.
    fn default() -> (r: Self)
        ensures
            r.max_builds_per_frame == 16,
            r.render_distance == 8,
            !r.dynamic_vertical_loading,
            !r.debug,
            r.height == 1,
    {
        ChunkBuilderConfig {
            max_builds_per_frame: 16,
            render_distance: 8,
            dynamic_vertical_loading: false,
            debug: false,
            height: 1,
        }
    }
}

/// `p` moved to layer `y = 0`.
pub open spec fn column_of(p: ChunkPos) -> ChunkPos {
    ChunkPos { x: p.x, y: 0, z: p.z }
}

/// Whether the builder wants the chunk at `p` for a player at `player`: with
/// vertical loading any chunk around the player within the render distance,
/// else one of the first `height` layers of a chunk column around the player.
pub open spec fn builder_wants(config: ChunkBuilderConfig, player: ChunkPos, p: ChunkPos) -> bool {
    if config.dynamic_vertical_loading {
        in_visit_range(player, config.render_distance as int, true, p)
    } else {
        &&& p.y % 16 == 0
        &&& 0 <= p.y / 16 < config.height
        &&& in_column_range(player, config.render_distance as int, column_of(p))
    }
}

/// Whether `p` is one of the first `height` layers of a column in `done`, or
/// one of the first `e` layers of `column`.
pub open spec fn layer_listed(p: ChunkPos, height: int, done: Seq<ChunkPos>, column: ChunkPos, e: int) -> bool {
    &&& p.y % 16 == 0
    &&& 0 <= p.y / 16 < height
    &&& (done.contains(column_of(p)) || (column_of(p) == column && p.y / 16 < e))
}

/// Whether the chunks the builder wants around `player` can be listed
/// without overflow.
pub open spec fn builder_fits(config: ChunkBuilderConfig, player: ChunkPos) -> bool {
    if config.dynamic_vertical_loading {
        visit_fits(player, config.render_distance as int, true)
    } else {
        visit_fits(swap_yz(player), config.render_distance as int, false) && 16 * config.height <= isize::MAX
    }
}

impl ChunkBuilderConfig {
    /// Whether the chunks the builder wants around `player` can be listed
    /// without overflow.
    pub fn fits(&self, player: ChunkPos) -> (r: bool)
        ensures
            r == builder_fits(*self, player),
    {
        if self.dynamic_vertical_loading {
            visit_fits_exec(player, self.render_distance, true)
        } else {
            visit_fits_exec(ChunkPos::new(player.x, player.z, player.y), self.render_distance, false)
                && self.height <= (isize::MAX as usize) / 16
        }
    }
}

/// The positions the builder wants around `player_pos`, each once.
pub fn desired_build_positions(config: &ChunkBuilderConfig, player_pos: ChunkPos) -> (r: Vec<ChunkPos>)
    requires
        builder_fits(*config, player_pos),
    ensures
        r@.no_duplicates(),
        forall|p: ChunkPos| r@.contains(p) <==> builder_wants(*config, player_pos, p),
{
    if config.dynamic_vertical_loading {
        return chunk_positions_3d(player_pos, config.render_distance);
    }
    let columns = chunk_positions_2d(player_pos, config.render_distance);
    let ghost d = config.render_distance as int;
    proof {
        assert forall|c: ChunkPos| columns@.contains(c) implies c.y == 0 by {
            assert(in_column_range(player_pos, d, c));
        }
    }
    let height = config.height;
    let mut out: Vec<ChunkPos> = Vec::new();
    let mut i: usize = 0;
    while i < columns.len()
        invariant
            !config.dynamic_vertical_loading,
            height == config.height,
            16 * height <= isize::MAX,
            d == config.render_distance as int,
            columns@.no_duplicates(),
            forall|c: ChunkPos| columns@.contains(c) <==> in_column_range(player_pos, d, c),
            forall|c: ChunkPos| columns@.contains(c) ==> c.y == 0,
            i <= columns@.len(),
            out@.no_duplicates(),
            forall|p: ChunkPos| #[trigger] out@.contains(p) <==> (p.y % 16 == 0 && 0 <= p.y / 16 < height
                && columns@.subrange(0, i as int).contains(column_of(p))),
        decreases columns@.len() - i,
    {
        let column = columns[i];
        let ghost sub0 = columns@.subrange(0, i as int);
        let ghost sub1 = columns@.subrange(0, i + 1);
        proof {
            assert(sub1 =~= sub0.push(column));
            assert(columns@.contains(column));
            assert(!sub0.contains(column)) by {
                if sub0.contains(column) {
                    let k = choose|k: int| 0 <= k < sub0.len() && sub0[k] == column;
                    assert(columns@[k] == columns@[i as int]);
                }
            }
        }
        let mut e: usize = 0;
        while e < height
            invariant
                height == config.height,
                16 * height <= isize::MAX,
                e <= height,
                i < columns@.len(),
                column == columns@[i as int],
                column.y == 0,
                sub1 == sub0.push(column),
                !sub0.contains(column),
                out@.no_duplicates(),
                forall|p: ChunkPos| #[trigger] out@.contains(p) <==> layer_listed(p, height as int, sub0, column, e as int),
            decreases height - e,
        {
            assert(e * 16 < 16 * height);
            let y = (e * 16) as isize;
            let pos = ChunkPos::new(column.x, y, column.z);
            let ghost old_out = out@;
            proof {
                assert(pos.y == e * 16);
                assert(column_of(pos) == column);
                assert(pos.y / 16 == e);
                assert(!layer_listed(pos, height as int, sub0, column, e as int));
                assert(!old_out.contains(pos));
            }
            out.push(pos);
            proof {
                assert(out@ == old_out.push(pos));
                lemma_push_unique(old_out, pos);
                assert forall|p: ChunkPos| #[trigger] out@.contains(p) <==> layer_listed(p, height as int, sub0, column, e + 1) by {
                    if out@.contains(p) {
                        let k = choose|k: int| 0 <= k < out@.len() && out@[k] == p;
                        if k < old_out.len() {
                            assert(old_out[k] == p);
                            assert(old_out.contains(p));
                            assert(layer_listed(p, height as int, sub0, column, e as int));
                        } else {
                            assert(p == pos);
                        }
                    }
                    if layer_listed(p, height as int, sub0, column, e + 1) {
                        if column_of(p) == column && p.y / 16 == e {
                            assert(p.y == 16 * e);
                            assert(p == pos);
                            assert(out@[old_out.len() as int] == p);
                        } else {
                            assert(layer_listed(p, height as int, sub0, column, e as int));
                            assert(old_out.contains(p));
                            let k = choose|k: int| 0 <= k < old_out.len() && old_out[k] == p;
                            assert(out@[k] == p);
                        }
                    }
                }
            }
            e = e + 1;
        }
        proof {
            assert forall|p: ChunkPos| out@.contains(p) <==> (p.y % 16 == 0 && 0 <= p.y / 16 < height
                && sub1.contains(column_of(p))) by {
                if sub0.contains(column_of(p)) {
                    let k = choose|k: int| 0 <= k < sub0.len() && sub0[k] == column_of(p);
                    assert(sub1[k] == column_of(p));
                }
                if sub1.contains(column_of(p)) && column_of(p) != column {
                    let k = choose|k: int| 0 <= k < sub1.len() && sub1[k] == column_of(p);
                    assert(sub0[k] == column_of(p));
                }
                if column_of(p) == column {
                    assert(sub1[sub0.len() as int] == column);
                }
            }
        }
        i = i + 1;
    }
    proof {
        assert(columns@.subrange(0, i as int) =~= columns@);
        assert forall|p: ChunkPos| out@.contains(p) <==> builder_wants(*config, player_pos, p) by {
            if builder_wants(*config, player_pos, p) {
                assert(columns@.contains(column_of(p)));
            }
        }
    }
    out
}

/// The builder's bookkeeping.
pub struct BuilderResources {
    pending_chunk_queue: PendingChunkQueue,
    built_chunks: PosMap<()>,
    desired_chunks: PosMap<()>,
}

impl BuilderResources {
    /// Positions waiting to be built.
    pub closed spec fn pending(&self) -> Set<ChunkPos> {
        self.pending_chunk_queue@
    }

    /// Positions whose mesh was built.
    pub closed spec fn built(&self) -> Set<ChunkPos> {
        self.built_chunks@.dom()
    }

    /// Positions the builder wants.
    pub closed spec fn desired(&self) -> Set<ChunkPos> {
        self.desired_chunks@.dom()
    }

    /// Well-formedness of the underlying sets.
    pub closed spec fn wf(&self) -> bool {
        &&& self.pending_chunk_queue.wf()
        &&& self.built_chunks.wf()
        &&& self.desired_chunks.wf()
    }

    /// Nothing pending, built or wanted.
    pub fn new() -> (r: BuilderResources)
        ensures
            r.wf(),
            r.pending() == Set::<ChunkPos>::empty(),
            r.built() == Set::<ChunkPos>::empty(),
            r.desired() == Set::<ChunkPos>::empty(),
    {
        BuilderResources {
            pending_chunk_queue: PendingChunkQueue::new(),
            built_chunks: PosMap::new(),
            desired_chunks: PosMap::new(),
        }
    }

    /// Whether the neighbours of every pending position have coordinates within `isize`.
    pub fn pending_chunks_fit(&self) -> (r: bool)
        requires
            self.wf(),
        ensures
            r == forall|p: ChunkPos| #[trigger] self.pending().contains(p) ==> neighbors_fit(p),
    {
        let positions = self.pending_chunk_queue.positions();
        let mut i: usize = 0;
        while i < positions.len()
            invariant
                i <= positions@.len(),
                positions@.to_set() == self.pending(),
                forall|j: int| 0 <= j < i ==> neighbors_fit(#[trigger] positions@[j]),
            decreases positions@.len() - i,
        {
            if !chunk_neighbors_fit(positions[i]) {
                proof {
                    assert(positions@.to_set().contains(positions@[i as int]));
                }
                return false;
            }
            i = i + 1;
        }
        proof {
            assert forall|p: ChunkPos| #[trigger] self.pending().contains(p) implies neighbors_fit(p) by {
                assert(positions@.to_set().contains(p));
                let j = choose|j: int| 0 <= j < positions@.len() && positions@[j] == p;
                assert(neighbors_fit(positions@[j]));
            }
        }
        true
    }

    /// Number of pending, built and wanted positions.
    pub fn counts(&self) -> (r: (usize, usize, usize))
        requires
            self.wf(),
        ensures
            r == (self.pending().len() as usize, self.built().len() as usize, self.desired().len() as usize),
    {
        (self.pending_chunk_queue.len(), self.built_chunks.len(), self.desired_chunks.len())
    }
}

/// Recomputes the chunks the builder wants for a player at `player_pos`:
/// built and pending chunks no longer wanted are dropped, and wanted chunks
/// neither built nor pending become pending. Returns the built chunks that
/// were dropped, each once.
pub fn update_desired_chunks(data: &mut BuilderResources, config: &ChunkBuilderConfig, player_pos: ChunkPos) -> (r: Vec<ChunkRemoved>)
    requires
        old(data).wf(),
        builder_fits(*config, player_pos),
    ensures
        final(data).wf(),
        forall|p: ChunkPos| #[trigger] final(data).desired().contains(p) <==> builder_wants(*config, player_pos, p),
        forall|p: ChunkPos| #[trigger] final(data).built().contains(p)
            <==> (old(data).built().contains(p) && builder_wants(*config, player_pos, p)),
        forall|p: ChunkPos| #[trigger] final(data).pending().contains(p)
            <==> (builder_wants(*config, player_pos, p) && (old(data).pending().contains(p) || !old(data).built().contains(p))),
        r@.no_duplicates(),
        forall|p: ChunkPos|
            #![trigger r@.contains(ChunkRemoved(p))]
            #![trigger old(data).built().contains(p)]
            r@.contains(ChunkRemoved(p))
            <==> (old(data).built().contains(p) && !builder_wants(*config, player_pos, p)),
{
    let desired = desired_build_positions(config, player_pos);
    let desired_set = position_set(&desired);
    // Built or pending chunks that are no longer wanted leave; the built ones
    // are reported.
    let built = data.built_chunks.keys();
    let pending = data.pending_chunk_queue.positions();
    let mut to_remove: Vec<ChunkPos> = Vec::new();
    to_remove.append(&mut built.clone());
    to_remove.append(&mut pending.clone());
    let ghost tr = to_remove@;
    proof {
        assert(tr =~= built@ + pending@);
        assert forall|p: ChunkPos| tr.contains(p) <==> (old(data).built().contains(p) || old(data).pending().contains(p)) by {
            if tr.contains(p) {
                let k = choose|k: int| 0 <= k < tr.len() && tr[k] == p;
                if k < built@.len() {
                    assert(built@[k] == p);
                    assert(built@.to_set().contains(p));
                } else {
                    assert(pending@[k - built@.len()] == p);
                    assert(pending@.to_set().contains(p));
                }
            }
            if old(data).built().contains(p) {
                assert(built@.to_set().contains(p));
                let k = choose|k: int| 0 <= k < built@.len() && built@[k] == p;
                assert(tr[k] == p);
            }
            if old(data).pending().contains(p) {
                assert(pending@.to_set().contains(p));
                let k = choose|k: int| 0 <= k < pending@.len() && pending@[k] == p;
                assert(tr[built@.len() + k] == p);
            }
        }
    }
    let mut out: Vec<ChunkRemoved> = Vec::new();
    let mut i: usize = 0;
    while i < to_remove.len()
        invariant
            data.wf(),
            desired_set.wf(),
            forall|p: ChunkPos| #[trigger] desired_set@.contains_key(p) <==> builder_wants(*config, player_pos, p),
            tr == to_remove@,
            forall|p: ChunkPos| tr.contains(p) <==> (old(data).built().contains(p) || old(data).pending().contains(p)),
            i <= tr.len(),
            data.desired() == old(data).desired(),
            forall|p: ChunkPos| #[trigger] data.built().contains(p)
                <==> (old(data).built().contains(p) && !(tr.subrange(0, i as int).contains(p) && !builder_wants(*config, player_pos, p))),
            forall|p: ChunkPos| #[trigger] data.pending().contains(p)
                <==> (old(data).pending().contains(p) && !(tr.subrange(0, i as int).contains(p) && !builder_wants(*config, player_pos, p))),
            out@.no_duplicates(),
            forall|p: ChunkPos| #[trigger] out@.contains(ChunkRemoved(p))
                <==> (old(data).built().contains(p) && tr.subrange(0, i as int).contains(p) && !builder_wants(*config, player_pos, p)),
        decreases tr.len() - i,
    {
        let pos = to_remove[i];
        let ghost sub0 = tr.subrange(0, i as int);
        let ghost sub1 = tr.subrange(0, i + 1);
        let ghost bb = data.built();
        let ghost pb = data.pending();
        let ghost old_out = out@;
        proof {
            lemma_prefix_step(tr, i as int);
            assert(tr.contains(pos));
        }
        if !desired_set.contains_key(pos) {
            data.pending_chunk_queue.remove_chunk(pos);
            let removed = data.built_chunks.remove(pos);
            assert(data.built() =~= bb.remove(pos));
            assert(data.pending() =~= pb.remove(pos));
            if removed.is_some() {
                proof {
                    assert(bb.contains(pos));
                    assert(!old_out.contains(ChunkRemoved(pos)));
                }
                out.push(ChunkRemoved(pos));
                proof {
                    lemma_push_unique(old_out, ChunkRemoved(pos));
                }
            }
        } else {
            assert(data.built() =~= bb);
            assert(data.pending() =~= pb);
        }
        proof {
            assert forall|p: ChunkPos| #[trigger] out@.contains(ChunkRemoved(p))
                <==> (old(data).built().contains(p) && sub1.contains(p) && !builder_wants(*config, player_pos, p)) by {
                assert(sub1.contains(p) <==> (sub0.contains(p) || p == pos));
                if out@ != old_out {
                    assert(out@.contains(ChunkRemoved(p)) <==> (old_out.contains(ChunkRemoved(p)) || p == pos));
                }
            }
            assert forall|p: ChunkPos| #[trigger] data.built().contains(p)
                <==> (old(data).built().contains(p) && !(sub1.contains(p) && !builder_wants(*config, player_pos, p))) by {
                assert(sub1.contains(p) <==> (sub0.contains(p) || p == pos));
            }
            assert forall|p: ChunkPos| #[trigger] data.pending().contains(p)
                <==> (old(data).pending().contains(p) && !(sub1.contains(p) && !builder_wants(*config, player_pos, p))) by {
                assert(sub1.contains(p) <==> (sub0.contains(p) || p == pos));
            }
        }
        i = i + 1;
    }
    proof {
        assert(tr.subrange(0, i as int) =~= tr);
    }
    // Wanted chunks neither built nor pending become pending.
    let ghost mid_pending = data.pending();
    let mut j: usize = 0;
    while j < desired.len()
        invariant
            data.wf(),
            desired@.no_duplicates(),
            forall|p: ChunkPos| desired@.contains(p) <==> builder_wants(*config, player_pos, p),
            j <= desired@.len(),
            forall|p: ChunkPos| #[trigger] data.built().contains(p) <==> (old(data).built().contains(p) && builder_wants(*config, player_pos, p)),
            forall|p: ChunkPos| #[trigger] mid_pending.contains(p)
                <==> (old(data).pending().contains(p) && builder_wants(*config, player_pos, p)),
            forall|p: ChunkPos| #[trigger] data.pending().contains(p)
                <==> (mid_pending.contains(p) || (desired@.subrange(0, j as int).contains(p) && !old(data).built().contains(p))),
        decreases desired@.len() - j,
    {
        let pos = desired[j];
        let ghost sub0 = desired@.subrange(0, j as int);
        let ghost sub1 = desired@.subrange(0, j + 1);
        proof {
            assert(sub1 =~= sub0.push(pos));
            assert(desired@.contains(pos));
        }
        let ghost bb = data.built();
        let ghost pb = data.pending();
        if !data.built_chunks.contains_key(pos) && !data.pending_chunk_queue.contains_chunk(pos) {
            data.pending_chunk_queue.add_chunk(pos);
            assert(data.pending() =~= pb.insert(pos));
        } else {
            assert(data.pending() =~= pb);
        }
        assert(data.built() =~= bb);
        proof {
            assert forall|p: ChunkPos| #[trigger] data.pending().contains(p)
                <==> (mid_pending.contains(p) || (sub1.contains(p) && !old(data).built().contains(p))) by {
                if sub1.contains(p) && p != pos {
                    let k = choose|k: int| 0 <= k < sub1.len() && sub1[k] == p;
                    assert(sub0[k] == p);
                }
                if sub0.contains(p) {
                    let k = choose|k: int| 0 <= k < sub0.len() && sub0[k] == p;
                    assert(sub1[k] == p);
                }
                if p == pos {
                    assert(sub1[sub0.len() as int] == p);
                }
            }
        }
        j = j + 1;
    }
    proof {
        assert(desired@.subrange(0, j as int) =~= desired@);
    }
    let ghost bb = data.built();
    let ghost pb = data.pending();
    data.desired_chunks = desired_set;
    assert(data.built() =~= bb);
    assert(data.pending() =~= pb);
    out
}

/// The chunk next to `p` across `side`.
pub open spec fn neighbor_pos(p: ChunkPos, side: BlockSide) -> ChunkPos {
    ChunkPos {
        x: (p.x + 16 * side.dir().x) as isize,
        y: (p.y + 16 * side.dir().y) as isize,
        z: (p.z + 16 * side.dir().z) as isize,
    }
}

/// Whether the neighbours of `p` have coordinates within `isize`.
pub open spec fn neighbors_fit(p: ChunkPos) -> bool {
    &&& isize::MIN + 16 <= p.x <= isize::MAX - 16
    &&& isize::MIN + 16 <= p.y <= isize::MAX - 16
    &&& isize::MIN + 16 <= p.z <= isize::MAX - 16
}

/// Whether `q` is `p` or one of its six neighbours.
pub open spec fn in_neighbourhood(p: ChunkPos, q: ChunkPos) -> bool {
    q == p || exists|i: int| 0 <= i < 6 && q == #[trigger] neighbor_pos(p, side_at(i))
}

/// Whether the neighbours of `pos` have coordinates within `isize`.
pub fn chunk_neighbors_fit(pos: ChunkPos) -> (r: bool)
    ensures
        r == neighbors_fit(pos),
{
    let lo: isize = isize::MIN + 16;
    let hi: isize = isize::MAX - 16;
    lo <= pos.x && pos.x <= hi && lo <= pos.y && pos.y <= hi && lo <= pos.z && pos.z <= hi
}

/// The chunk next to `pos` across `side`.
fn neighbor(pos: ChunkPos, side: BlockSide) -> (r: ChunkPos)
    requires
        neighbors_fit(pos),
    ensures
        r == neighbor_pos(pos, side),
{
    proof {
        side.lemma_dir_unit();
    }
    let dir = side.direction();
    ChunkPos::new(pos.x + dir.x * 16, pos.y + dir.y * 16, pos.z + dir.z * 16)
}

/// The six neighbours of `pos`, in side order.
pub fn iter_neighbors(pos: ChunkPos) -> (r: [ChunkPos; 6])
    requires
        neighbors_fit(pos),
    ensures
        forall|i: int| 0 <= i < 6 ==> #[trigger] r@[i] == neighbor_pos(pos, side_at(i)),
{
    [
        neighbor(pos, BlockSide::Front),
        neighbor(pos, BlockSide::Back),
        neighbor(pos, BlockSide::Right),
        neighbor(pos, BlockSide::Left),
        neighbor(pos, BlockSide::Top),
        neighbor(pos, BlockSide::Bottom),
    ]
}

/// Queues every updated chunk and its six neighbours for a new mesh.
pub fn rebuild_chunks(data: &mut BuilderResources, updated: &Vec<ChunkPos>)
    requires
        old(data).wf(),
        forall|i: int| 0 <= i < updated@.len() ==> neighbors_fit(#[trigger] updated@[i]),
    ensures
        final(data).wf(),
        final(data).built() == old(data).built(),
        final(data).desired() == old(data).desired(),
        forall|q: ChunkPos| #[trigger] final(data).pending().contains(q) <==> (old(data).pending().contains(q)
            || exists|i: int| 0 <= i < updated@.len() && in_neighbourhood(#[trigger] updated@[i], q)),
{
    let mut k: usize = 0;
    while k < updated.len()
        invariant
            data.wf(),
            k <= updated@.len(),
            forall|i: int| 0 <= i < updated@.len() ==> neighbors_fit(#[trigger] updated@[i]),
            data.built() == old(data).built(),
            data.desired() == old(data).desired(),
            forall|q: ChunkPos| #[trigger] data.pending().contains(q) <==> (old(data).pending().contains(q)
                || exists|i: int| 0 <= i < k && in_neighbourhood(#[trigger] updated@[i], q)),
        decreases updated@.len() - k,
    {
        let pos = updated[k];
        let ghost pb = data.pending();
        let ghost bb = data.built();
        let ghost db = data.desired();
        data.pending_chunk_queue.add_chunk(pos);
        let neighbors = iter_neighbors(pos);
        let mut s: usize = 0;
        while s < 6
            invariant
                data.wf(),
                s <= 6,
                neighbors_fit(pos),
                pos == updated@[k as int],
                forall|i: int| 0 <= i < 6 ==> #[trigger] neighbors@[i] == neighbor_pos(pos, side_at(i)),
                data.built() == bb,
                data.desired() == db,
                forall|q: ChunkPos| #[trigger] data.pending().contains(q) <==> (pb.contains(q) || q == pos
                    || exists|i: int| 0 <= i < s && q == #[trigger] neighbor_pos(pos, side_at(i))),
            decreases 6 - s,
        {
            let ghost pb2 = data.pending();
            data.pending_chunk_queue.add_chunk(neighbors[s]);
            proof {
                assert(data.pending() =~= pb2.insert(neighbors@[s as int]));
                assert forall|q: ChunkPos| #[trigger] data.pending().contains(q) <==> (pb.contains(q) || q == pos
                    || exists|i: int| 0 <= i < s + 1 && q == #[trigger] neighbor_pos(pos, side_at(i))) by {
                    if q == neighbors@[s as int] {
                        assert(q == neighbor_pos(pos, side_at(s as int)));
                    }
                }
            }
            s = s + 1;
        }
        proof {
            assert forall|q: ChunkPos| #[trigger] data.pending().contains(q) <==> (old(data).pending().contains(q)
                || exists|i: int| 0 <= i < k + 1 && in_neighbourhood(#[trigger] updated@[i], q)) by {
                if exists|i: int| 0 <= i < k + 1 && in_neighbourhood(#[trigger] updated@[i], q) {
                    let i = choose|i: int| 0 <= i < k + 1 && in_neighbourhood(#[trigger] updated@[i], q);
                    if i < k {
                        assert(pb.contains(q));
                    } else {
                        assert(updated@[i] == pos);
                    }
                }
                if data.pending().contains(q) && !old(data).pending().contains(q) {
                    if !pb.contains(q) {
                        assert(in_neighbourhood(updated@[k as int], q));
                    } else {
                        let i = choose|i: int| 0 <= i < k && in_neighbourhood(#[trigger] updated@[i], q);
                        assert(in_neighbourhood(updated@[i], q));
                    }
                }
            }
        }
        k = k + 1;
    }
}

/// Whether the chunk at `origin` and all six of its neighbours are in `chunks`.
pub open spec fn meshable(chunks: Map<ChunkPos, Chunk>, origin: ChunkPos) -> bool {
    &&& chunks.contains_key(origin)
    &&& forall|i: int| 0 <= i < 6 ==> chunks.contains_key(#[trigger] neighbor_pos(origin, side_at(i)))
}

/// Whether `c` is the chunk at `origin` in `chunks` with all six neighbours,
/// in side order.
pub open spec fn is_neighborhood(c: ChunkWithNeighbors, chunks: Map<ChunkPos, Chunk>, origin: ChunkPos) -> bool {
    &&& *c.chunk == chunks[origin]
    &&& forall|i: int| 0 <= i < 6 ==> (#[trigger] c.neighbors@[i] matches Some(n)
        && *n == chunks[neighbor_pos(origin, side_at(i))])
}

/// The chunk at `origin` with its six neighbours, as the mesher receives it.
pub open spec fn neighborhood_of<'a>(chunks: Map<ChunkPos, Chunk>, origin: ChunkPos) -> ChunkWithNeighbors<'a> {
    choose|c: ChunkWithNeighbors<'a>| is_neighborhood(c, chunks, origin)
}

/// There is one chunk with its neighbours for a position.
pub proof fn lemma_neighborhood_unique(c1: ChunkWithNeighbors, c2: ChunkWithNeighbors, chunks: Map<ChunkPos, Chunk>, origin: ChunkPos)
    requires
        is_neighborhood(c1, chunks, origin),
        is_neighborhood(c2, chunks, origin),
    ensures
        c1 == c2,
{
    broadcast use vstd::array::group_array_axioms;
    assert forall|i: int| 0 <= i < 6 implies c1.neighbors[i] == c2.neighbors[i] by {
        assert(c1.neighbors@[i] matches Some(n) && *n == chunks[neighbor_pos(origin, side_at(i))]);
        assert(c2.neighbors@[i] matches Some(n) && *n == chunks[neighbor_pos(origin, side_at(i))]);
    }
    assert(c1.neighbors =~= c2.neighbors);
}

/// Whether every layer of `faces` can be packed.
pub open spec fn faces_buildable(faces: Map<MaterialId, Seq<FaceData>>) -> bool {
    forall|m: MaterialId| #[trigger] faces.contains_key(m) ==> layer_buildable(faces[m])
}

/// Vertices of the layers of `faces` with material ids below `k`.
pub open spec fn total_face_vertices(faces: Map<MaterialId, Seq<FaceData>>, k: int) -> int
    decreases k,
{
    if k <= 0 {
        0
    } else {
        total_face_vertices(faces, k - 1) + if faces.contains_key((k - 1) as u8) {
            4 * faces[(k - 1) as u8].len()
        } else {
            0
        }
    }
}

/// Whether the packed mesh of `faces` can be built: every layer packs and
/// the vertices can be counted.
pub open spec fn mesh_fits(faces: Map<MaterialId, Seq<FaceData>>) -> bool {
    faces_buildable(faces) && total_face_vertices(faces, 256) <= usize::MAX
}

/// Whether `mesh` is the packed mesh of `faces`.
pub open spec fn mesh_of_faces(faces: Map<MaterialId, Seq<FaceData>>, mesh: ChunkMesh) -> bool {
    &&& mesh.spec_layers().dom() == faces.dom()
    &&& forall|m: MaterialId| #[trigger] mesh.spec_layers().contains_key(m) ==> buffers_of(faces[m], mesh.spec_layers()[m])
    &&& mesh.spec_vertex_count() == total_face_vertices(faces, 256)
}

/// The layer conditions read only the faces of each layer.
pub proof fn lemma_layers_by_faces(layers: Map<MaterialId, ChunkMeshData>, k: int)
    ensures
        layers_buildable(layers) == faces_buildable(layer_faces_view(layers)),
        total_vertices(layers, k) == total_face_vertices(layer_faces_view(layers), k),
    decreases k,
{
    let f = layer_faces_view(layers);
    assert forall|m: MaterialId| #[trigger] f.contains_key(m) <==> layers.contains_key(m) by {}
    assert forall|m: MaterialId| layers.contains_key(m) implies #[trigger] f[m] == layers[m].faces@ by {}
    if layers_buildable(layers) {
        assert forall|m: MaterialId| #[trigger] f.contains_key(m) implies layer_buildable(f[m]) by {
            assert(layers.contains_key(m));
        }
    }
    if faces_buildable(f) {
        assert forall|m: MaterialId| #[trigger] layers.contains_key(m) implies layer_buildable(layers[m].faces@) by {
            assert(f.contains_key(m));
        }
    }
    if k > 0 {
        lemma_layers_by_faces(layers, k - 1);
    }
}

/// The chunk at `origin` with its neighbours; `None` unless the chunk and
/// all its neighbours are loaded.
pub fn create_chunk_with_neighbors<'a>(origin_pos: ChunkPos, chunks: &'a PosMap<Chunk>) -> (r: Option<ChunkWithNeighbors<'a>>)
    requires
        chunks.wf(),
        neighbors_fit(origin_pos),
    ensures
        r is Some <==> meshable(chunks@, origin_pos),
        r matches Some(c) ==> is_neighborhood(c, chunks@, origin_pos),
        r matches Some(c) ==> {
            &&& *c.chunk == chunks@[origin_pos]
            &&& forall|i: int| 0 <= i < 6 ==> (#[trigger] c.neighbors@[i] matches Some(n)
                ==> chunks@.contains_key(neighbor_pos(origin_pos, side_at(i))) && *n == chunks@[neighbor_pos(origin_pos, side_at(i))])
            &&& forall|i: int| 0 <= i < 6 ==> (c.neighbors@[i] is None
                <==> !chunks@.contains_key(#[trigger] neighbor_pos(origin_pos, side_at(i))))
        },
{
    let origin_chunk = match chunks.get(origin_pos) {
        Some(c) => c,
        None => {
            return None;
        },
    };
    let n = iter_neighbors(origin_pos);
    let neighbors: [Option<&'a Chunk>; 6] = [
        chunks.get(n[0]),
        chunks.get(n[1]),
        chunks.get(n[2]),
        chunks.get(n[3]),
        chunks.get(n[4]),
        chunks.get(n[5]),
    ];
    proof {
        assert forall|i: int| 0 <= i < 6 implies (#[trigger] neighbors@[i] matches Some(c)
            ==> chunks@.contains_key(neighbor_pos(origin_pos, side_at(i))) && *c == chunks@[neighbor_pos(origin_pos, side_at(i))])
            && (neighbors@[i] is None <==> !chunks@.contains_key(neighbor_pos(origin_pos, side_at(i)))) by {
            assert(n@[i] == neighbor_pos(origin_pos, side_at(i)));
        }
    }
    let sides = BlockSide::iterator();
    let mut k: usize = 0;
    while k < 6
        invariant
            k <= 6,
            forall|i: int| 0 <= i < 6 ==> #[trigger] sides@[i] == side_at(i),
            forall|i: int| 0 <= i < 6 ==> (#[trigger] neighbors@[i] is None
                <==> !chunks@.contains_key(neighbor_pos(origin_pos, side_at(i)))),
            forall|i: int| 0 <= i < k ==> chunks@.contains_key(#[trigger] neighbor_pos(origin_pos, side_at(i))),
        decreases 6 - k,
    {
        let side = sides[k];
        if neighbors[side.index()].is_none() {
            proof {
                assert(side == side_at(k as int));
                assert(!chunks@.contains_key(neighbor_pos(origin_pos, side_at(k as int))));
            }
            return None;
        }
        proof {
            assert(side == side_at(k as int));
            assert(neighbors@[k as int] is Some);
        }
        k = k + 1;
    }
    Some(ChunkWithNeighbors { chunk: origin_chunk, neighbors })
}

/// Vertices of the layers with material ids below `k`.
pub open spec fn total_vertices(layers: Map<MaterialId, ChunkMeshData>, k: int) -> int
    decreases k,
{
    if k <= 0 {
        0
    } else {
        total_vertices(layers, k - 1) + if layers.contains_key((k - 1) as u8) {
            4 * layers[(k - 1) as u8].faces@.len()
        } else {
            0
        }
    }
}

/// Counting more material ids never counts fewer vertices.
pub proof fn lemma_total_vertices_monotone(layers: Map<MaterialId, ChunkMeshData>, a: int, b: int)
    requires
        0 <= a <= b,
    ensures
        total_vertices(layers, a) <= total_vertices(layers, b),
    decreases b - a,
{
    if a < b {
        lemma_total_vertices_monotone(layers, a, b - 1);
    }
}

/// Whether every layer can be packed.
pub open spec fn layers_buildable(layers: Map<MaterialId, ChunkMeshData>) -> bool {
    forall|m: MaterialId| #[trigger] layers.contains_key(m) ==> layer_buildable(layers[m].faces@)
}

/// The packed mesh of a chunk's layers: each layer packed under its material id.
pub fn build_chunk_mesh(layers: &HashMap<MaterialId, ChunkMeshData>) -> (r: ChunkMesh)
    requires
        layers_buildable(layers@),
        total_vertices(layers@, 256) <= usize::MAX,
    ensures
        r.spec_layers().dom() == layers@.dom(),
        forall|m: MaterialId| #[trigger] r.spec_layers().contains_key(m) ==> buffers_of(layers@[m].faces@, r.spec_layers()[m]),
        r.spec_vertex_count() == total_vertices(layers@, 256),
{
    let mut chunk_mesh = ChunkMesh::default();
    let mut m: u16 = 0;
    while m < 256
        invariant
            m <= 256,
            layers_buildable(layers@),
            total_vertices(layers@, 256) <= usize::MAX,
            forall|k: MaterialId| #[trigger] chunk_mesh.spec_layers().contains_key(k) <==> (k < m && layers@.contains_key(k)),
            forall|k: MaterialId| #[trigger] chunk_mesh.spec_layers().contains_key(k) ==> buffers_of(layers@[k].faces@, chunk_mesh.spec_layers()[k]),
            chunk_mesh.spec_vertex_count() == total_vertices(layers@, m as int),
        decreases 256 - m,
    {
        let id = m as u8;
        proof {
            assert(id == m);
            lemma_total_vertices_monotone(layers@, m + 1, 256);
            assert(total_vertices(layers@, m + 1) == total_vertices(layers@, m as int) + if layers@.contains_key(id) {
                4 * layers@[id].faces@.len()
            } else {
                0
            });
        }
        match layers.get(&id) {
            Some(data) => {
                let built = data.mesh().build();
                chunk_mesh.add_layer(id, built);
            },
            None => {},
        }
        m = m + 1;
    }
    proof {
        assert(chunk_mesh.spec_layers().dom() =~= layers@.dom());
    }
    chunk_mesh
}

/// Whether every face of `data` can be packed and its vertices counted in `u32`.
fn layer_is_buildable(data: &ChunkMeshData) -> (r: bool)
    ensures
        r == layer_buildable(data.faces@),
{
    if data.faces.len() > 1073741823 {
        return false;
    }
    let mut i: usize = 0;
    while i < data.faces.len()
        invariant
            i <= data.faces@.len(),
            forall|j: int| 0 <= j < i ==> face_packable_at(data.faces@, j),
        decreases data.faces@.len() - i,
    {
        if !is_face_packable(&data.faces[i]) {
            return false;
        }
        i = i + 1;
    }
    proof {
        assert forall|j: int| 0 <= j < data.faces@.len() implies crate::chunk_mesh_builder::meshers::mesher::face_packable(
            #[trigger] data.faces@[j],
        ) by {
            assert(face_packable_at(data.faces@, j));
        }
    }
    true
}

/// Whether the face at `j` can be packed.
pub open spec fn face_packable_at(faces: Seq<crate::chunk_mesh_builder::meshers::chunk_mesher::FaceData>, j: int) -> bool {
    crate::chunk_mesh_builder::meshers::mesher::face_packable(faces[j])
}

/// The packed mesh of a chunk's layers, or `None` where a face cannot be
/// packed or the vertices cannot be counted.
pub fn try_build_chunk_mesh(layers: &HashMap<MaterialId, ChunkMeshData>) -> (r: Option<ChunkMesh>)
    ensures
        r is Some <==> (layers_buildable(layers@) && total_vertices(layers@, 256) <= usize::MAX),
        r matches Some(mesh) ==> {
            &&& mesh.spec_layers().dom() == layers@.dom()
            &&& forall|m: MaterialId| #[trigger] mesh.spec_layers().contains_key(m) ==> buffers_of(layers@[m].faces@, mesh.spec_layers()[m])
            &&& mesh.spec_vertex_count() == total_vertices(layers@, 256)
        },
{
    let mut total: usize = 0;
    let mut m: u16 = 0;
    while m < 256
        invariant
            m <= 256,
            forall|k: MaterialId| k < m && #[trigger] layers@.contains_key(k) ==> layer_buildable(layers@[k].faces@),
            total == total_vertices(layers@, m as int),
        decreases 256 - m,
    {
        let id = m as u8;
        proof {
            assert(id == m);
        }
        match layers.get(&id) {
            Some(data) => {
                if !layer_is_buildable(data) {
                    return None;
                }
                let count = 4 * data.faces.len();
                if total > usize::MAX - count {
                    proof {
                        lemma_total_vertices_monotone(layers@, m + 1, 256);
                    }
                    return None;
                }
                total = total + count;
            },
            None => {},
        }
        m = m + 1;
    }
    Some(build_chunk_mesh(layers))
}

/// Takes up to `max_builds_per_frame` pending chunks nearest to the player
/// and meshes those still wanted: a chunk whose neighbours are
/// not all loaded goes back to the queue; a meshed chunk is built unless its
/// faces cannot be packed. Returns the built meshes, and the warnings of
/// each, in build order.
pub fn build_chunks<M: ChunkMesher>(
    data: &mut BuilderResources,
    chunks: &PosMap<Chunk>,
    mesher: &M,
    player_pos: ChunkPos,
    config: &ChunkBuilderConfig,
) -> (r: (Vec<ChunkBuilt>, Vec<MesherWarnings>))
    requires
        old(data).wf(),
        chunks.wf(),
        forall|p: ChunkPos| #[trigger] old(data).pending().contains(p) ==> neighbors_fit(p),
    ensures
        final(data).wf(),
        final(data).desired() == old(data).desired(),
        r.0@.len() == r.1@.len(),
        r.0@.len() <= config.max_builds_per_frame,
        final(data).pending().subset_of(old(data).pending()),
        forall|p: ChunkPos| old(data).pending().contains(p) && !final(data).pending().contains(p)
            ==> !old(data).desired().contains(p) || meshable(chunks@, p),
        forall|i: int| 0 <= i < r.0@.len() ==> {
            let p = (#[trigger] r.0@[i]).0;
            &&& old(data).pending().contains(p)
            &&& !final(data).pending().contains(p)
            &&& old(data).desired().contains(p)
            &&& meshable(chunks@, p)
        },
        forall|p: ChunkPos| #[trigger] final(data).built().contains(p)
            <==> (old(data).built().contains(p) || exists|i: int| 0 <= i < r.0@.len() && #[trigger] r.0@[i].0 == p),
        exists|taken: Set<ChunkPos>| {
            &&& #[trigger] takes_nearest(old(data).pending(), taken, config.max_builds_per_frame as int, player_pos)
            &&& final(data).pending() == old(data).pending().difference(taken).union(
                taken.filter(|p: ChunkPos| old(data).desired().contains(p) && !meshable(chunks@, p)))
            &&& forall|i: int| 0 <= i < r.0@.len() ==> taken.contains(#[trigger] r.0@[i].0)
        },
        forall|p: ChunkPos|
            #![trigger old(data).pending().contains(p), final(data).pending().contains(p)]
            old(data).pending().contains(p) && !final(data).pending().contains(p)
            && old(data).desired().contains(p) && meshable(chunks@, p)
            ==> ((exists|i: int| 0 <= i < r.0@.len() && #[trigger] r.0@[i].0 == p)
            <==> mesh_fits(mesher.faces_of(neighborhood_of(chunks@, p)))),
        forall|i: int| 0 <= i < r.0@.len() ==> mesh_of_faces(mesher.faces_of(neighborhood_of(chunks@, (#[trigger] r.0@[i]).0)), r.0@[i].1)
            && r.1@[i]@ == mesher.warnings_of(neighborhood_of(chunks@, r.0@[i].0)),
{
    proof {
        data.pending_chunk_queue.lemma_finite();
    }
    let batch = data.pending_chunk_queue.take_nearest_chunks(config.max_builds_per_frame, player_pos);
    let ghost after_take = data.pending();
    proof {
        batch@.unique_seq_to_set();
        assert forall|p: ChunkPos, q: ChunkPos| #[trigger] batch@.to_set().contains(p) && #[trigger] old(data).pending().contains(q)
            && !batch@.to_set().contains(q) implies manhattan(p, player_pos) <= manhattan(q, player_pos) by {
            assert(batch@.contains(p));
            assert(after_take.contains(q));
        }
        assert(batch@.to_set().subset_of(old(data).pending())) by {
            assert forall|p: ChunkPos| batch@.to_set().contains(p) implies old(data).pending().contains(p) by {
                assert(batch@.contains(p));
            }
        }
        assert(takes_nearest(old(data).pending(), batch@.to_set(), config.max_builds_per_frame as int, player_pos));
    }
    let mut built: Vec<ChunkBuilt> = Vec::new();
    let mut warnings: Vec<MesherWarnings> = Vec::new();
    let mut i: usize = 0;
    while i < batch.len()
        invariant
            data.wf(),
            chunks.wf(),
            i <= batch@.len(),
            batch@.len() <= config.max_builds_per_frame,
            batch@.no_duplicates(),
            built@.len() == warnings@.len(),
            built@.len() <= i,
            data.desired() == old(data).desired(),
            after_take == old(data).pending().difference(batch@.to_set()),
            forall|p: ChunkPos| batch@.contains(p) ==> old(data).pending().contains(p),
            forall|p: ChunkPos| #[trigger] old(data).pending().contains(p) ==> neighbors_fit(p),
            forall|p: ChunkPos| #[trigger] data.pending().contains(p) <==> (after_take.contains(p)
                || (batch@.subrange(0, i as int).contains(p) && old(data).desired().contains(p) && !meshable(chunks@, p))),
            forall|k: int| 0 <= k < built@.len() ==> {
                let p = (#[trigger] built@[k]).0;
                &&& batch@.subrange(0, i as int).contains(p)
                &&& old(data).desired().contains(p)
                &&& meshable(chunks@, p)
            },
            forall|p: ChunkPos| #[trigger] data.built().contains(p)
                <==> (old(data).built().contains(p) || exists|k: int| 0 <= k < built@.len() && #[trigger] built@[k].0 == p),
            forall|k: int| 0 <= k < built@.len() ==> mesh_of_faces(mesher.faces_of(neighborhood_of(chunks@, (#[trigger] built@[k]).0)), built@[k].1)
                && warnings@[k]@ == mesher.warnings_of(neighborhood_of(chunks@, built@[k].0)),
            forall|p: ChunkPos| batch@.subrange(0, i as int).contains(p) && old(data).desired().contains(p) && meshable(chunks@, p)
                ==> ((exists|k: int| 0 <= k < built@.len() && #[trigger] built@[k].0 == p)
                <==> mesh_fits(mesher.faces_of(neighborhood_of(chunks@, p)))),
        decreases batch@.len() - i,
    {
        let chunk_pos = batch[i];
        let ghost sub0 = batch@.subrange(0, i as int);
        let ghost sub1 = batch@.subrange(0, i + 1);
        let ghost pb = data.pending();
        let ghost bb = data.built();
        let ghost old_built = built@;
        let ghost old_warnings = warnings@;
        proof {
            assert(sub1 =~= sub0.push(chunk_pos));
            assert(batch@.contains(chunk_pos));
            assert(!sub0.contains(chunk_pos)) by {
                if sub0.contains(chunk_pos) {
                    let k = choose|k: int| 0 <= k < sub0.len() && sub0[k] == chunk_pos;
                    assert(batch@[k] == batch@[i as int]);
                }
            }
            assert(!after_take.contains(chunk_pos)) by {
                assert(batch@.to_set().contains(chunk_pos));
            }
        }
        if data.desired_chunks.contains_key(chunk_pos) {
            match create_chunk_with_neighbors(chunk_pos, chunks) {
                None => {
                    data.pending_chunk_queue.add_chunk(chunk_pos);
                    assert(data.pending() =~= pb.insert(chunk_pos));
                    assert(data.built() =~= bb);
                },
                Some(chunk_with_neighbors) => {
                    let mesher_result = mesher.create_mesh(&chunk_with_neighbors);
                    let ghost nb = neighborhood_of(chunks@, chunk_pos);
                    proof {
                        lemma_neighborhood_unique(chunk_with_neighbors, nb, chunks@, chunk_pos);
                        lemma_layers_by_faces(mesher_result.layers@, 256);
                    }
                    match try_build_chunk_mesh(&mesher_result.layers) {
                        Some(chunk_mesh) => {
                            data.built_chunks.insert(chunk_pos, ());
                            assert(data.built() =~= bb.insert(chunk_pos));
                            assert(data.pending() =~= pb);
                            proof {
                                let f = mesher.faces_of(nb);
                                assert(f == layer_faces_view(mesher_result.layers@));
                                assert forall|m: MaterialId| #[trigger] chunk_mesh.spec_layers().contains_key(m)
                                    implies buffers_of(f[m], chunk_mesh.spec_layers()[m]) by {
                                    assert(mesher_result.layers@.contains_key(m));
                                }
                                assert(chunk_mesh.spec_layers().dom() =~= f.dom());
                                assert(mesh_of_faces(f, chunk_mesh));
                            }
                            built.push(ChunkBuilt(chunk_pos, chunk_mesh));
                            warnings.push(mesher_result.warnings);
                        },
                        None => {
                            assert(data.pending() =~= pb);
                            assert(data.built() =~= bb);
                        },
                    }
                },
            }
        } else {
            assert(data.pending() =~= pb);
            assert(data.built() =~= bb);
        }
        proof {
            assert forall|p: ChunkPos| #[trigger] data.pending().contains(p) <==> (after_take.contains(p)
                || (sub1.contains(p) && old(data).desired().contains(p) && !meshable(chunks@, p))) by {
                if sub1.contains(p) && p != chunk_pos {
                    let k = choose|k: int| 0 <= k < sub1.len() && sub1[k] == p;
                    assert(sub0[k] == p);
                }
                if sub0.contains(p) {
                    let k = choose|k: int| 0 <= k < sub0.len() && sub0[k] == p;
                    assert(sub1[k] == p);
                }
                if p == chunk_pos {
                    assert(sub1[sub0.len() as int] == p);
                }
            }
            assert forall|k: int| 0 <= k < built@.len() implies {
                let p = (#[trigger] built@[k]).0;
                &&& sub1.contains(p)
                &&& old(data).desired().contains(p)
                &&& meshable(chunks@, p)
            } by {
                if k < old_built.len() {
                    assert(built@[k] == old_built[k]);
                    let p = built@[k].0;
                    assert(sub0.contains(p));
                    let m = choose|m: int| 0 <= m < sub0.len() && sub0[m] == p;
                    assert(sub1[m] == p);
                } else {
                    assert(sub1[sub0.len() as int] == chunk_pos);
                }
            }
            assert forall|p: ChunkPos| #[trigger] data.built().contains(p)
                <==> (old(data).built().contains(p) || exists|k: int| 0 <= k < built@.len() && #[trigger] built@[k].0 == p) by {
                if exists|k: int| 0 <= k < old_built.len() && #[trigger] old_built[k].0 == p {
                    let k = choose|k: int| 0 <= k < old_built.len() && #[trigger] old_built[k].0 == p;
                    assert(built@[k].0 == p);
                }
                if exists|k: int| 0 <= k < built@.len() && #[trigger] built@[k].0 == p {
                    let k = choose|k: int| 0 <= k < built@.len() && #[trigger] built@[k].0 == p;
                    if k < old_built.len() {
                        assert(old_built[k].0 == p);
                    } else {
                        assert(p == chunk_pos);
                    }
                }
                if built@.len() > old_built.len() && p == chunk_pos {
                    assert(built@[old_built.len() as int].0 == p);
                }
            }
            assert forall|k: int| 0 <= k < built@.len() implies mesh_of_faces(mesher.faces_of(neighborhood_of(chunks@, (#[trigger] built@[k]).0)), built@[k].1)
                && warnings@[k]@ == mesher.warnings_of(neighborhood_of(chunks@, built@[k].0)) by {
                if k < old_built.len() {
                    assert(built@[k] == old_built[k]);
                    assert(warnings@[k] == old_warnings[k]);
                }
            }
            assert forall|p: ChunkPos| sub1.contains(p) && old(data).desired().contains(p) && meshable(chunks@, p)
                implies ((exists|k: int| 0 <= k < built@.len() && #[trigger] built@[k].0 == p)
                <==> mesh_fits(mesher.faces_of(neighborhood_of(chunks@, p)))) by {
                if p != chunk_pos {
                    let m = choose|m: int| 0 <= m < sub1.len() && sub1[m] == p;
                    assert(sub0[m] == p);
                    if exists|k: int| 0 <= k < old_built.len() && #[trigger] old_built[k].0 == p {
                        let k = choose|k: int| 0 <= k < old_built.len() && #[trigger] old_built[k].0 == p;
                        assert(built@[k].0 == p);
                    }
                    if exists|k: int| 0 <= k < built@.len() && #[trigger] built@[k].0 == p {
                        let k = choose|k: int| 0 <= k < built@.len() && #[trigger] built@[k].0 == p;
                        assert(k < old_built.len());
                        assert(old_built[k].0 == p);
                    }
                } else {
                    if built@.len() > old_built.len() {
                        assert(built@[old_built.len() as int].0 == p);
                    } else {
                        if exists|k: int| 0 <= k < built@.len() && #[trigger] built@[k].0 == p {
                            let k = choose|k: int| 0 <= k < built@.len() && #[trigger] built@[k].0 == p;
                            assert(sub0.contains(old_built[k].0));
                        }
                    }
                }
            }
        }
        i = i + 1;
    }
    proof {
        assert(batch@.subrange(0, i as int) =~= batch@);
        assert(data.pending().subset_of(old(data).pending())) by {
            assert forall|p: ChunkPos| data.pending().contains(p) implies old(data).pending().contains(p) by {
                if !after_take.contains(p) {
                    assert(batch@.contains(p));
                }
            }
        }
        assert forall|p: ChunkPos| old(data).pending().contains(p) && !data.pending().contains(p)
            implies !old(data).desired().contains(p) || meshable(chunks@, p) by {
            assert(batch@.to_set().contains(p));
            assert(batch@.contains(p));
        }
        assert forall|k: int| 0 <= k < built@.len() implies {
            let p = (#[trigger] built@[k]).0;
            &&& old(data).pending().contains(p)
            &&& !data.pending().contains(p)
            &&& old(data).desired().contains(p)
            &&& meshable(chunks@, p)
        } by {
            let p = built@[k].0;
            assert(batch@.contains(p));
            assert(batch@.to_set().contains(p));
        }
        let taken = batch@.to_set();
        assert(data.pending() =~= old(data).pending().difference(taken).union(
            taken.filter(|p: ChunkPos| old(data).desired().contains(p) && !meshable(chunks@, p))));
        assert forall|k: int| 0 <= k < built@.len() implies taken.contains(#[trigger] built@[k].0) by {
            assert(batch@.contains(built@[k].0));
        }
        assert(takes_nearest(old(data).pending(), taken, config.max_builds_per_frame as int, player_pos));
    }
    (built, warnings)
}

/// Whether the first `n` pairs of `pairs` hold the block id `id`.
pub open spec fn id_among(pairs: Seq<(&BlockID, &u32)>, n: int, id: BlockID) -> bool {
    exists|j: int| 0 <= j < n && *(#[trigger] pairs[j]).0 == id
}

/// Adds the warning counts of `warnings` to those gathered in `accum`.
pub fn accum_mesher_warnings(accum: &mut MesherWarnings, warnings: &MesherWarnings)
    requires
        forall|id: BlockID| wcount(old(accum)@, id) + wcount(warnings@, id) <= u32::MAX,
    ensures
        forall|id: BlockID| #[trigger] wcount(final(accum)@, id) == wcount(old(accum)@, id) + wcount(warnings@, id),
        forall|id: BlockID| #[trigger] final(accum)@.contains_key(id)
            <==> (old(accum)@.contains_key(id) || warnings@.contains_key(id)),
{
    let ghost full = spec_hash_map_iter(warnings).remaining();
    for pair in it: warnings.iter()
        invariant
            forall|id: BlockID| wcount(old(accum)@, id) + wcount(warnings@, id) <= u32::MAX,
            it.seq() == full,
            full == spec_hash_map_iter(warnings).remaining(),
            it.seq().no_duplicates(),
            forall|id: BlockID| #[trigger] wcount(accum@, id) == wcount(old(accum)@, id)
                + if id_among(full, it.index(), id) { wcount(warnings@, id) } else { 0 },
            forall|id: BlockID| #[trigger] accum@.contains_key(id)
                <==> (old(accum)@.contains_key(id) || id_among(full, it.index(), id)),
    {
        let ghost n = it.index();
        let ghost seq = it.seq();
        let ghost before = accum@;
        proof {
            assert(pair == seq[n]);
            assert(warnings@.contains_key(*pair.0) && warnings@[*pair.0] == *pair.1);
            assert(!id_among(seq, n, *pair.0)) by {
                if id_among(seq, n, *pair.0) {
                    let j = choose|j: int| 0 <= j < n && *(#[trigger] seq[j]).0 == *pair.0;
                    assert(warnings@[*seq[j].0] == *seq[j].1);
                    assert(seq[j] == seq[n]);
                }
            }
        }
        let (id, count) = pair;
        let prev: u32 = match accum.get(id) {
            Some(c) => *c,
            None => 0,
        };
        proof {
            assert(prev == wcount(before, *id));
            assert(wcount(before, *id) == wcount(old(accum)@, *id));
            assert(wcount(warnings@, *id) == *count);
            assert(wcount(old(accum)@, *id) + wcount(warnings@, *id) <= u32::MAX);
        }
        accum.insert(*id, prev + *count);
        proof {
            assert forall|k: BlockID| #[trigger] wcount(accum@, k) == wcount(old(accum)@, k)
                + if id_among(seq, n + 1, k) { wcount(warnings@, k) } else { 0 } by {
                assert(wcount(before, k) == wcount(old(accum)@, k) + if id_among(full, n, k) { wcount(warnings@, k) } else { 0 });
                if k != *id {
                    if id_among(seq, n + 1, k) {
                        let j = choose|j: int| 0 <= j < n + 1 && *(#[trigger] seq[j]).0 == k;
                        assert(j != n);
                        assert(id_among(seq, n, k));
                    }
                    if id_among(seq, n, k) {
                        let j = choose|j: int| 0 <= j < n && *(#[trigger] seq[j]).0 == k;
                        assert(id_among(seq, n + 1, k));
                    }
                } else {
                    assert(*(seq[n]).0 == k);
                    assert(id_among(seq, n + 1, k));
                }
            }
            assert forall|k: BlockID| #[trigger] accum@.contains_key(k)
                <==> (old(accum)@.contains_key(k) || id_among(seq, n + 1, k)) by {
                if k != *id {
                    if id_among(seq, n + 1, k) {
                        let j = choose|j: int| 0 <= j < n + 1 && *(#[trigger] seq[j]).0 == k;
                        assert(j != n);
                        assert(id_among(seq, n, k));
                    }
                    if id_among(seq, n, k) {
                        let j = choose|j: int| 0 <= j < n && *(#[trigger] seq[j]).0 == k;
                        assert(id_among(seq, n + 1, k));
                    }
                } else {
                    assert(*(seq[n]).0 == k);
                    assert(id_among(seq, n + 1, k));
                }
            }
        }
    }
    proof {
        assert forall|k: BlockID| warnings@.contains_key(k) implies #[trigger] id_among(full, full.len() as int, k) by {
            assert(full.contains((&k, &warnings@[k])));
            let j = choose|j: int| 0 <= j < full.len() && full[j] == (&k, &warnings@[k]);
            assert(*(full[j]).0 == k);
        }
        assert forall|k: BlockID| id_among(full, full.len() as int, k) implies #[trigger] warnings@.contains_key(k) by {
            let j = choose|j: int| 0 <= j < full.len() && *(#[trigger] full[j]).0 == k;
            assert(warnings@.contains_key(*full[j].0));
        }
    }
}

} // verus!
