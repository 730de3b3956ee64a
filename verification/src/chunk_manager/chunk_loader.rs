//! Decides which chunks to load around the player, and loads them nearest first.
use vstd::prelude::*;
use crate::seq_lemmas::{lemma_push_unique, lemma_prefix_step};
use crate::types::{Chunk, ChunkPos};
use crate::pos_map::PosMap;
use crate::chunk_state_manager::chunk_state_manager::{ChunkLoader, in_visit_range, visit_fits, visit_fits_exec};
use super::chunk_pos_generator::{chunk_positions_2d, chunk_positions_3d, in_column_range, swap_yz};
use super::pending_chunk_queue::{PendingChunkQueue, manhattan};

verus! {

/// A chunk loaded for the world.
#[derive(Debug, Clone, PartialEq)]
pub struct ChunkLoaded(pub ChunkPos, pub Chunk);

/// A chunk that left the world.
#[derive(Debug, Clone, Copy, PartialEq, Eq, Structural)]
pub struct ChunkUnloaded(pub ChunkPos);

/// Settings of the chunk loader.
#[derive(Debug, Clone, Copy)]
pub struct ChunkLoaderConfig {
    pub max_loads_per_frame: usize,
    pub load_distance: usize,
    pub dynamic_vertical_loading: bool,
    pub debug: bool,
}

/// Whether the loader wants the chunk at `p` for a player at `player`: a
/// chunk column around the player, or with vertical loading any chunk
/// around the player, within the load distance.
pub open spec fn loader_wants(config: ChunkLoaderConfig, player: ChunkPos, p: ChunkPos) -> bool {
    if config.dynamic_vertical_loading {
        in_visit_range(player, config.load_distance as int, true, p)
    } else {
        in_column_range(player, config.load_distance as int, p)
    }
}

/// Whether the chunks the loader wants around `player` can be listed
/// without overflow.
pub open spec fn loader_fits(config: ChunkLoaderConfig, player: ChunkPos) -> bool {
    if config.dynamic_vertical_loading {
        visit_fits(player, config.load_distance as int, true)
    } else {
        visit_fits(swap_yz(player), config.load_distance as int, false)
    }
}

impl ChunkLoaderConfig {
    /// Whether the chunks the loader wants around `player` can be listed
    /// without overflow.
    pub fn fits(&self, player: ChunkPos) -> (r: bool)
        ensures
            r == loader_fits(*self, player),
    {
        if self.dynamic_vertical_loading {
            visit_fits_exec(player, self.load_distance, true)
        } else {
            visit_fits_exec(ChunkPos::new(player.x, player.z, player.y), self.load_distance, false)
        }
    }
}

/// The loader's bookkeeping.
pub struct LoaderResources {
    pending_chunk_queue: PendingChunkQueue,
    loaded_chunks: PosMap<()>,
    desired_chunks: PosMap<()>,
}

/// A set of positions as a map to `()`, built from a list.
pub fn position_set(positions: &Vec<ChunkPos>) -> (r: PosMap<()>)
    ensures
        r.wf(),
        forall|p: ChunkPos| #[trigger] r@.contains_key(p) <==> positions@.contains(p),
{
    let mut set: PosMap<()> = PosMap::new();
    let mut i: usize = 0;
    while i < positions.len()
        invariant
            set.wf(),
            i <= positions@.len(),
            forall|p: ChunkPos| #[trigger] set@.contains_key(p) <==> positions@.subrange(0, i as int).contains(p),
        decreases positions@.len() - i,
    {
        let p = positions[i];
        set.insert(p, ());
        proof {
            let sub0 = positions@.subrange(0, i as int);
            let sub1 = positions@.subrange(0, i + 1);
            assert(sub1 =~= sub0.push(p));
            assert forall|q: ChunkPos| #[trigger] set@.contains_key(q) <==> sub1.contains(q) by {
                if sub0.contains(q) {
                    let k = choose|k: int| 0 <= k < sub0.len() && sub0[k] == q;
                    assert(sub1[k] == q);
                }
                if sub1.contains(q) && q != p {
                    let k = choose|k: int| 0 <= k < sub1.len() && sub1[k] == q;
                    assert(sub0[k] == q);
                }
                if q == p {
                    assert(sub1[sub0.len() as int] == q);
                }
            }
        }
        i = i + 1;
    }
    proof {
        assert(positions@.subrange(0, i as int) =~= positions@);
    }
    set
}

/// The position and chunk of each load, in order.
pub open spec fn loaded_pairs(s: Seq<ChunkLoaded>) -> Seq<(ChunkPos, Chunk)> {
    s.map_values(|e: ChunkLoaded| (e.0, e.1))
}

/// The positions the loader wants around `player_pos`, each once.
pub fn desired_positions(config: &ChunkLoaderConfig, player_pos: ChunkPos) -> (r: Vec<ChunkPos>)
    requires
        loader_fits(*config, player_pos),
    ensures
        r@.no_duplicates(),
        forall|p: ChunkPos| r@.contains(p) <==> loader_wants(*config, player_pos, p),
{
    match config.dynamic_vertical_loading {
        true => chunk_positions_3d(player_pos, config.load_distance),
        false => chunk_positions_2d(player_pos, config.load_distance),
    }
}

impl LoaderResources {
    /// Positions waiting to be loaded.
    pub closed spec fn pending(&self) -> Set<ChunkPos> {
        self.pending_chunk_queue@
    }

    /// Positions loaded for the world.
    pub closed spec fn loaded(&self) -> Set<ChunkPos> {
        self.loaded_chunks@.dom()
    }

    /// Positions the loader wants.
    pub closed spec fn desired(&self) -> Set<ChunkPos> {
        self.desired_chunks@.dom()
    }

    /// Well-formedness of the underlying sets.
    pub closed spec fn wf(&self) -> bool {
        &&& self.pending_chunk_queue.wf()
        &&& self.loaded_chunks.wf()
        &&& self.desired_chunks.wf()
    }

    /// Nothing pending, loaded or wanted.
    pub fn new() -> (r: LoaderResources)
        ensures
            r.wf(),
            r.pending() == Set::<ChunkPos>::empty(),
            r.loaded() == Set::<ChunkPos>::empty(),
            r.desired() == Set::<ChunkPos>::empty(),
    {
        LoaderResources {
            pending_chunk_queue: PendingChunkQueue::new(),
            loaded_chunks: PosMap::new(),
            desired_chunks: PosMap::new(),
        }
    }

    /// Number of pending, loaded and wanted positions.
    pub fn counts(&self) -> (r: (usize, usize, usize))
        requires
            self.wf(),
        ensures
            r == (self.pending().len() as usize, self.loaded().len() as usize, self.desired().len() as usize),
    {
        (self.pending_chunk_queue.len(), self.loaded_chunks.len(), self.desired_chunks.len())
    }
}

/// Recomputes the chunks the loader wants for a player at `player_pos`:
/// loaded chunks no longer wanted are unloaded (and no longer pending), and
/// wanted chunks neither loaded nor pending become pending. Returns the
/// unloaded chunks, each once.
pub fn update_desired_chunks(data: &mut LoaderResources, config: &ChunkLoaderConfig, player_pos: ChunkPos) -> (r: Vec<ChunkUnloaded>)
    requires
        old(data).wf(),
        loader_fits(*config, player_pos),
    ensures
        final(data).wf(),
        forall|p: ChunkPos| #[trigger] final(data).desired().contains(p) <==> loader_wants(*config, player_pos, p),
        forall|p: ChunkPos| #[trigger] final(data).loaded().contains(p)
            <==> (old(data).loaded().contains(p) && loader_wants(*config, player_pos, p)),
        forall|p: ChunkPos| #[trigger] final(data).pending().contains(p)
            <==> ((old(data).pending().contains(p) && !(old(data).loaded().contains(p) && !loader_wants(*config, player_pos, p)))
            || (loader_wants(*config, player_pos, p) && !old(data).loaded().contains(p))),
        r@.no_duplicates(),
        forall|p: ChunkPos|
            #![trigger r@.contains(ChunkUnloaded(p))]
            #![trigger old(data).loaded().contains(p)]
            r@.contains(ChunkUnloaded(p))
            <==> (old(data).loaded().contains(p) && !loader_wants(*config, player_pos, p)),
{
    let desired = desired_positions(config, player_pos);
    let desired_set = position_set(&desired);
    // Loaded chunks that are no longer wanted leave.
    let loaded = data.loaded_chunks.keys();
    let mut out: Vec<ChunkUnloaded> = Vec::new();
    let mut i: usize = 0;
    while i < loaded.len()
        invariant
            data.wf(),
            desired_set.wf(),
            forall|p: ChunkPos| #[trigger] desired_set@.contains_key(p) <==> loader_wants(*config, player_pos, p),
            loaded@.no_duplicates(),
            loaded@.to_set() == old(data).loaded(),
            i <= loaded@.len(),
            data.desired() == old(data).desired(),
            forall|p: ChunkPos| #[trigger] data.loaded().contains(p)
                <==> (old(data).loaded().contains(p) && !(loaded@.subrange(0, i as int).contains(p) && !loader_wants(*config, player_pos, p))),
            forall|p: ChunkPos| #[trigger] data.pending().contains(p)
                <==> (old(data).pending().contains(p) && !(loaded@.subrange(0, i as int).contains(p) && !loader_wants(*config, player_pos, p))),
            out@.no_duplicates(),
            forall|p: ChunkPos| #[trigger] out@.contains(ChunkUnloaded(p)) <==> (loaded@.subrange(0, i as int).contains(p) && !loader_wants(*config, player_pos, p)),
        decreases loaded@.len() - i,
    {
        let pos = loaded[i];
        let ghost sub0 = loaded@.subrange(0, i as int);
        let ghost sub1 = loaded@.subrange(0, i + 1);
        proof {
            lemma_prefix_step(loaded@, i as int);
            assert(!sub0.contains(pos)) by {
                if sub0.contains(pos) {
                    let k = choose|k: int| 0 <= k < sub0.len() && sub0[k] == pos;
                    assert(loaded@[k] == loaded@[i as int]);
                }
            }
        }
        let ghost lb = data.loaded();
        let ghost pb = data.pending();
        let ghost old_out = out@;
        if !desired_set.contains_key(pos) {
            data.pending_chunk_queue.remove_chunk(pos);
            data.loaded_chunks.remove(pos);
            assert(data.loaded() =~= lb.remove(pos));
            assert(data.pending() =~= pb.remove(pos));
            out.push(ChunkUnloaded(pos));
            proof {
                lemma_push_unique(old_out, ChunkUnloaded(pos));
            }
        } else {
            assert(data.loaded() =~= lb);
            assert(data.pending() =~= pb);
        }
        proof {
            assert forall|p: ChunkPos| #[trigger] out@.contains(ChunkUnloaded(p))
                <==> (sub1.contains(p) && !loader_wants(*config, player_pos, p)) by {
                assert(sub1.contains(p) <==> (sub0.contains(p) || p == pos));
                if !desired_set@.contains_key(pos) {
                    assert(out@.contains(ChunkUnloaded(p)) <==> (old_out.contains(ChunkUnloaded(p)) || p == pos));
                }
            }
            assert forall|p: ChunkPos| #[trigger] data.loaded().contains(p)
                <==> (old(data).loaded().contains(p) && !(sub1.contains(p) && !loader_wants(*config, player_pos, p))) by {
                assert(sub1.contains(p) <==> (sub0.contains(p) || p == pos));
            }
            assert forall|p: ChunkPos| #[trigger] data.pending().contains(p)
                <==> (old(data).pending().contains(p) && !(sub1.contains(p) && !loader_wants(*config, player_pos, p))) by {
                assert(sub1.contains(p) <==> (sub0.contains(p) || p == pos));
            }
        }
        i = i + 1;
    }
    proof {
        assert(loaded@.subrange(0, i as int) =~= loaded@);
    }
    // Wanted chunks neither loaded nor pending become pending.
    let ghost mid_pending = data.pending();
    let mut j: usize = 0;
    while j < desired.len()
        invariant
            data.wf(),
            desired@.no_duplicates(),
            forall|p: ChunkPos| desired@.contains(p) <==> loader_wants(*config, player_pos, p),
            j <= desired@.len(),
            forall|p: ChunkPos| #[trigger] data.loaded().contains(p) <==> (old(data).loaded().contains(p) && loader_wants(*config, player_pos, p)),
            forall|p: ChunkPos| #[trigger] mid_pending.contains(p)
                <==> (old(data).pending().contains(p) && !(old(data).loaded().contains(p) && !loader_wants(*config, player_pos, p))),
            forall|p: ChunkPos| #[trigger] data.pending().contains(p)
                <==> (mid_pending.contains(p) || (desired@.subrange(0, j as int).contains(p) && !old(data).loaded().contains(p))),
        decreases desired@.len() - j,
    {
        let pos = desired[j];
        let ghost sub0 = desired@.subrange(0, j as int);
        let ghost sub1 = desired@.subrange(0, j + 1);
        proof {
            assert(sub1 =~= sub0.push(pos));
            assert(desired@.contains(pos));
        }
        let ghost lb = data.loaded();
        let ghost pb = data.pending();
        if !data.loaded_chunks.contains_key(pos) && !data.pending_chunk_queue.contains_chunk(pos) {
            data.pending_chunk_queue.add_chunk(pos);
            assert(data.pending() =~= pb.insert(pos));
        } else {
            assert(data.pending() =~= pb);
        }
        assert(data.loaded() =~= lb);
        proof {
            assert forall|p: ChunkPos| #[trigger] data.pending().contains(p)
                <==> (mid_pending.contains(p) || (sub1.contains(p) && !old(data).loaded().contains(p))) by {
                if sub1.contains(p) && p != pos {
                    let k = choose|k: int| 0 <= k < sub1.len() && sub1[k] == p;
                    assert(sub0[k] == p);
                }
                if sub0.contains(p) {
                    let k = choose|k: int| 0 <= k < sub0.len() && sub0[k] == p;
                    assert(sub1[k] == p);
                }
                if p == pos {
                    assert(sub1[sub0.len() as int] == p);
                }
            }
        }
        j = j + 1;
    }
    proof {
        assert(desired@.subrange(0, j as int) =~= desired@);
    }
    let ghost lb = data.loaded();
    let ghost pb = data.pending();
    data.desired_chunks = desired_set;
    assert(data.loaded() =~= lb);
    assert(data.pending() =~= pb);
    out
}

/// Takes up to `max_loads_per_frame` pending chunks nearest to the player and
/// loads those still wanted, which become loaded. Returns the loaded chunks,
/// nearest first.
pub fn load_chunks<P: ChunkLoader>(
    data: &mut LoaderResources,
    chunk_provider: &mut P,
    player_pos: ChunkPos,
    config: &ChunkLoaderConfig,
) -> (r: Vec<ChunkLoaded>)
    requires
        old(data).wf(),
    ensures
        final(data).wf(),
        final(data).desired() == old(data).desired(),
        final(data).pending().subset_of(old(data).pending()),
        old(data).pending().len() - final(data).pending().len() == (if config.max_loads_per_frame < old(data).pending().len() {
            config.max_loads_per_frame as int
        } else {
            old(data).pending().len() as int
        }),
        forall|p: ChunkPos| old(data).pending().contains(p) && !final(data).pending().contains(p)
            ==> (old(data).desired().contains(p) <==> exists|i: int| 0 <= i < r@.len() && #[trigger] r@[i].0 == p),
        forall|i: int| 0 <= i < r@.len() ==> old(data).pending().contains(#[trigger] r@[i].0)
            && !final(data).pending().contains(r@[i].0) && old(data).desired().contains(r@[i].0),
        forall|i: int, q: ChunkPos| 0 <= i < r@.len() && #[trigger] final(data).pending().contains(q)
            ==> manhattan(#[trigger] r@[i].0, player_pos) <= manhattan(q, player_pos),
        forall|p: ChunkPos| #[trigger] final(data).loaded().contains(p)
            <==> (old(data).loaded().contains(p) || exists|i: int| 0 <= i < r@.len() && #[trigger] r@[i].0 == p),
        final(chunk_provider).loads() == old(chunk_provider).loads() + loaded_pairs(r@),
{
    proof {
        data.pending_chunk_queue.lemma_finite();
    }
    let batch = data.pending_chunk_queue.take_nearest_chunks(config.max_loads_per_frame, player_pos);
    let ghost after_take = data.pending();
    proof {
        assert(data.pending().subset_of(old(data).pending()));
        data.pending_chunk_queue.lemma_finite();
        assert(old(data).pending() =~= data.pending() + batch@.to_set());
        batch@.unique_seq_to_set();
        assert(data.pending().disjoint(batch@.to_set()));
        vstd::set_lib::lemma_set_disjoint_lens(data.pending(), batch@.to_set());
    }
    let mut out: Vec<ChunkLoaded> = Vec::new();
    let mut i: usize = 0;
    while i < batch.len()
        invariant
            data.wf(),
            i <= batch@.len(),
            data.desired() == old(data).desired(),
            data.pending() == after_take,
            after_take == old(data).pending().difference(batch@.to_set()),
            forall|p: ChunkPos, q: ChunkPos| #[trigger] batch@.contains(p) && #[trigger] data.pending().contains(q)
                ==> manhattan(p, player_pos) <= manhattan(q, player_pos),
            forall|p: ChunkPos| batch@.contains(p) ==> old(data).pending().contains(p) && !data.pending().contains(p),
            forall|k: int| 0 <= k < out@.len() ==> batch@.subrange(0, i as int).contains(#[trigger] out@[k].0)
                && old(data).desired().contains(out@[k].0),
            forall|p: ChunkPos| batch@.subrange(0, i as int).contains(p) && old(data).desired().contains(p)
                ==> exists|k: int| 0 <= k < out@.len() && #[trigger] out@[k].0 == p,
            forall|p: ChunkPos| #[trigger] data.loaded().contains(p)
                <==> (old(data).loaded().contains(p) || exists|k: int| 0 <= k < out@.len() && #[trigger] out@[k].0 == p),
            chunk_provider.loads() == old(chunk_provider).loads() + loaded_pairs(out@),
        decreases batch@.len() - i,
    {
        let chunk_pos = batch[i];
        let ghost sub0 = batch@.subrange(0, i as int);
        let ghost sub1 = batch@.subrange(0, i + 1);
        proof {
            assert(sub1 =~= sub0.push(chunk_pos));
            assert(batch@.contains(chunk_pos));
        }
        let ghost lb = data.loaded();
        let ghost pb = data.pending();
        if data.desired_chunks.contains_key(chunk_pos) {
            let chunk = chunk_provider.load_chunk(chunk_pos);
            data.loaded_chunks.insert(chunk_pos, ());
            assert(data.loaded() =~= lb.insert(chunk_pos));
            assert(data.pending() =~= pb);
            let ghost old_out = out@;
            let ghost loads_before = old(chunk_provider).loads();
            out.push(ChunkLoaded(chunk_pos, chunk));
            proof {
                assert(loaded_pairs(out@) =~= loaded_pairs(old_out).push((chunk_pos, chunk)));
                assert(loads_before + loaded_pairs(out@) =~= (loads_before + loaded_pairs(old_out)).push((chunk_pos, chunk)));
                assert forall|k: int| 0 <= k < out@.len() implies sub1.contains(#[trigger] out@[k].0)
                    && old(data).desired().contains(out@[k].0) by {
                    if k < old_out.len() {
                        assert(old_out[k] == out@[k]);
                        assert(sub0.contains(out@[k].0));
                        let m = choose|m: int| 0 <= m < sub0.len() && sub0[m] == out@[k].0;
                        assert(sub1[m] == out@[k].0);
                    } else {
                        assert(sub1[sub0.len() as int] == chunk_pos);
                    }
                }
                assert forall|p: ChunkPos| sub1.contains(p) && old(data).desired().contains(p)
                    implies exists|k: int| 0 <= k < out@.len() && #[trigger] out@[k].0 == p by {
                    if p == chunk_pos {
                        assert(out@[old_out.len() as int].0 == p);
                    } else {
                        let m = choose|m: int| 0 <= m < sub1.len() && sub1[m] == p;
                        assert(sub0[m] == p);
                        let k = choose|k: int| 0 <= k < old_out.len() && #[trigger] old_out[k].0 == p;
                        assert(out@[k].0 == p);
                    }
                }
                assert forall|p: ChunkPos| #[trigger] data.loaded().contains(p)
                    <==> (old(data).loaded().contains(p) || exists|k: int| 0 <= k < out@.len() && #[trigger] out@[k].0 == p) by {
                    if exists|k: int| 0 <= k < old_out.len() && #[trigger] old_out[k].0 == p {
                        let k = choose|k: int| 0 <= k < old_out.len() && #[trigger] old_out[k].0 == p;
                        assert(out@[k].0 == p);
                    }
                    if exists|k: int| 0 <= k < out@.len() && #[trigger] out@[k].0 == p {
                        let k = choose|k: int| 0 <= k < out@.len() && #[trigger] out@[k].0 == p;
                        if k < old_out.len() {
                            assert(old_out[k].0 == p);
                        }
                    }
                    if p == chunk_pos {
                        assert(out@[old_out.len() as int].0 == p);
                    }
                }
            }
        } else {
            proof {
                assert forall|k: int| 0 <= k < out@.len() implies sub1.contains(#[trigger] out@[k].0)
                    && old(data).desired().contains(out@[k].0) by {
                    let m = choose|m: int| 0 <= m < sub0.len() && sub0[m] == out@[k].0;
                    assert(sub1[m] == out@[k].0);
                }
                assert forall|p: ChunkPos| sub1.contains(p) && old(data).desired().contains(p)
                    implies exists|k: int| 0 <= k < out@.len() && #[trigger] out@[k].0 == p by {
                    let m = choose|m: int| 0 <= m < sub1.len() && sub1[m] == p;
                    assert(sub0[m] == p);
                }
            }
        }
        i = i + 1;
    }
    proof {
        assert(batch@.subrange(0, i as int) =~= batch@);
        assert forall|p: ChunkPos| old(data).pending().contains(p) && !data.pending().contains(p)
            implies (old(data).desired().contains(p) <==> exists|k: int| 0 <= k < out@.len() && #[trigger] out@[k].0 == p) by {
            assert(batch@.to_set().contains(p));
        }
        assert forall|k: int, q: ChunkPos| 0 <= k < out@.len() && #[trigger] data.pending().contains(q)
            implies manhattan(#[trigger] out@[k].0, player_pos) <= manhattan(q, player_pos) by {
            assert(batch@.contains(out@[k].0));
        }
    }
    out
}

} // verus!
