//! A builder that completes each chunk after a per-chunk number of frames.
use vstd::prelude::*;
use crate::types::{BlockID, Chunk, ChunkPos};
use crate::pos_map::PosMap;
use crate::chunk_mesh_builder::chunk_mesh::ChunkMesh;
use super::chunk_builder::{BuilderError, ChunkBuilder};

verus! {

/// Data that carries a build delay in frames.
pub trait BuildDelay: Sized {
    /// The remaining delay.
    spec fn delay(&self) -> u32;

    /// The same data with the remaining delay set to `d`.
    spec fn with_delay(&self, d: u32) -> Self;

    /// The remaining delay.
    fn build_delay(&self) -> (r: u32)
        ensures
            r == self.delay(),
    ;

    /// Sets the remaining delay; nothing else changes.
    fn set_build_delay(&mut self, build_delay: u32)
        ensures
            final(self).delay() == build_delay,
            *final(self) == old(self).with_delay(build_delay),
    ;
}

/// The data of a queued chunk after one more frame: its delay counts down
/// by one, and a zero delay stays zero.
pub open spec fn ready_data<T: BuildDelay>(d: T) -> T {
    if d.delay() == 0 {
        d
    } else {
        d.with_delay((d.delay() - 1) as u32)
    }
}

/// A build delay together with custom data.
#[derive(Debug, Default)]
pub struct DelayedData<C> {
    pub build_delay: u32,
    pub custom_data: C,
}

impl<C> BuildDelay for DelayedData<C> {
    open spec fn delay(&self) -> u32 {
        self.build_delay
    }

    open spec fn with_delay(&self, d: u32) -> Self {
        DelayedData { build_delay: d, custom_data: self.custom_data }
    }

    fn build_delay(&self) -> (r: u32) {
        self.build_delay
    }

    fn set_build_delay(&mut self, build_delay: u32) {
        self.build_delay = build_delay;
    }
}

/// A queued chunk: its mesh and data.
pub struct QueuedChunk<T> {
    pub mesh: ChunkMesh,
    pub additional_data: T,
}

/// Simulates chunk building with a delay; useful for testing.
pub struct DelayedDummyChunkBuilder<T> {
    queued: PosMap<QueuedChunk<T>>,
    built_chunks: PosMap<(ChunkMesh, T)>,
    /// The blocks of the chunk last handed in for each position.
    given: Ghost<Map<ChunkPos, Seq<BlockID>>>,
}

impl<T: BuildDelay> DelayedDummyChunkBuilder<T> {
    /// Queued chunks by position.
    pub closed spec fn queue(&self) -> Map<ChunkPos, QueuedChunk<T>> {
        self.queued@
    }

    /// Built chunks by position.
    pub closed spec fn built(&self) -> Map<ChunkPos, (ChunkMesh, T)> {
        self.built_chunks@
    }

    /// How an update changes the builder: every queued chunk's delay counts
    /// down by one, and those with at most one frame left are built, with
    /// their delay at zero; chunks already built stay.
    pub open spec fn updated(b: Self, b2: Self) -> bool {
        &&& forall|p: ChunkPos| #[trigger] b2.queue().contains_key(p)
            <==> (b.queue().contains_key(p) && b.queue()[p].additional_data.delay() > 1)
        &&& forall|p: ChunkPos| #[trigger] b2.queue().contains_key(p)
            ==> b2.queue()[p].additional_data.delay() == b.queue()[p].additional_data.delay() - 1
        &&& forall|p: ChunkPos| #[trigger] b2.built().contains_key(p)
            <==> (b.built().contains_key(p) || (b.queue().contains_key(p) && b.queue()[p].additional_data.delay() <= 1))
        &&& forall|p: ChunkPos| b.queue().contains_key(p) && b.queue()[p].additional_data.delay() <= 1
            ==> #[trigger] b2.built()[p] == (b.queue()[p].mesh, ready_data(b.queue()[p].additional_data))
            && b2.built()[p].1.delay() == 0
    }

    /// A chunk queued with delay `d` is built by the `max(d, 1)`-th of a run of
    /// updates and not before; until then it stays queued, its delay counting
    /// down by one per update.
    pub proof fn lemma_built_after_delay(states: Seq<Self>, p: ChunkPos)
        requires
            states.len() > 0,
            states[0].wf(),
            states[0].queue().contains_key(p),
            forall|k: int| 0 <= k < states.len() - 1 ==> #[trigger] Self::updated(states[k], states[k + 1]),
        ensures
            ({
                let d = states[0].queue()[p].additional_data.delay();
                let n: int = if d == 0 { 1 } else { d as int };
                &&& forall|k: int| #![trigger states[k]] 0 <= k < states.len() && k < n ==> states[k].queue().contains_key(p)
                    && !states[k].built().contains_key(p)
                    && states[k].queue()[p].additional_data.delay() == d - k
                &&& n < states.len() ==> states[n].built().contains_key(p)
                    && !states[n].queue().contains_key(p)
                    && states[n].built()[p].1.delay() == 0
            }),
    {
        let d = states[0].queue()[p].additional_data.delay();
        let n: int = if d == 0 { 1 } else { d as int };
        assert forall|k: int| #![trigger states[k]] 0 <= k < states.len() && k < n implies states[k].queue().contains_key(p)
            && !states[k].built().contains_key(p)
            && states[k].queue()[p].additional_data.delay() == d - k by {
            Self::lemma_still_queued(states, p, k);
        }
        if n < states.len() {
            Self::lemma_still_queued(states, p, n - 1);
            assert(Self::updated(states[n - 1], states[(n - 1) + 1]));
            assert(states[n - 1].queue()[p].additional_data.delay() <= 1);
            assert(!states[n].queue().contains_key(p));
            assert(states[n].built().contains_key(p));
        }
    }

    /// The first `k` updates of the run leave the chunk queued and unbuilt,
    /// `k` frames of delay fewer.
    proof fn lemma_still_queued(states: Seq<Self>, p: ChunkPos, k: int)
        requires
            states.len() > 0,
            states[0].wf(),
            states[0].queue().contains_key(p),
            forall|j: int| 0 <= j < states.len() - 1 ==> #[trigger] Self::updated(states[j], states[j + 1]),
            0 <= k < states.len(),
            k < (if states[0].queue()[p].additional_data.delay() == 0 { 1 } else {
                states[0].queue()[p].additional_data.delay() as int }),
        ensures
            states[k].queue().contains_key(p),
            !states[k].built().contains_key(p),
            states[k].queue()[p].additional_data.delay() == states[0].queue()[p].additional_data.delay() - k,
        decreases k,
    {
        if k == 0 {
            assert(states[0].queued@.contains_key(p));
        } else {
            Self::lemma_still_queued(states, p, k - 1);
            let b = states[k - 1];
            let b2 = states[(k - 1) + 1];
            assert(Self::updated(b, b2));
            assert(b.queue()[p].additional_data.delay() > 1);
            assert(b2.queue().contains_key(p));
            assert(b2.queue()[p].additional_data.delay() == b.queue()[p].additional_data.delay() - 1);
            assert(b2 == states[k]);
        }
    }

    /// An empty builder.
    pub fn new() -> (r: Self)
        ensures
            r.queue() == Map::<ChunkPos, QueuedChunk<T>>::empty(),
            r.built() == Map::<ChunkPos, (ChunkMesh, T)>::empty(),
            r.wf(),
    {
        DelayedDummyChunkBuilder { queued: PosMap::new(), built_chunks: PosMap::new(), given: Ghost(Map::empty()) }
    }
}

impl<T: BuildDelay> ChunkBuilder<T> for DelayedDummyChunkBuilder<T> {
    /// No position is both queued and built.
    closed spec fn wf(&self) -> bool {
        &&& self.queued.wf()
        &&& self.built_chunks.wf()
        &&& forall|p: ChunkPos| #[trigger] self.queued@.contains_key(p) ==> !self.built_chunks@.contains_key(p)
    }

    /// A chunk is held while queued or built.
    open spec fn holds_chunk(&self, pos: ChunkPos) -> bool {
        self.queue().contains_key(pos) || self.built().contains_key(pos)
    }

    open spec fn completed_chunk(&self, pos: ChunkPos) -> bool {
        self.built().contains_key(pos)
    }

    open spec fn held_data(&self, pos: ChunkPos) -> T {
        if self.queue().contains_key(pos) {
            self.queue()[pos].additional_data
        } else {
            self.built()[pos].1
        }
    }

    open spec fn completed_mesh(&self, pos: ChunkPos) -> ChunkMesh {
        self.built()[pos].0
    }

    closed spec fn held_chunk(&self, pos: ChunkPos) -> Seq<BlockID> {
        self.given@[pos]
    }

    /// A queued chunk with at most one frame of delay left is built next.
    open spec fn completes_on_update(&self, pos: ChunkPos) -> bool {
        self.queue().contains_key(pos) && self.queue()[pos].additional_data.delay() <= 1
    }

    open spec fn update_result(&self, pos: ChunkPos) -> (ChunkMesh, T) {
        (self.queue()[pos].mesh, ready_data(self.queue()[pos].additional_data))
    }

    /// Queues the chunk; a queued or built chunk at its position is replaced.
    fn force_build(&mut self, chunk_pos: ChunkPos, chunk: &Chunk, additional_data: T)
        ensures
            final(self).queue().contains_key(chunk_pos),
            final(self).queue()[chunk_pos].mesh.is_empty_mesh(),
            final(self).queue()[chunk_pos].additional_data == additional_data,
            final(self).queue().remove(chunk_pos) == old(self).queue().remove(chunk_pos),
            final(self).built() == old(self).built().remove(chunk_pos),
    {
        let mesh = ChunkMesh::new();
        self.built_chunks.remove(chunk_pos);
        self.queued.insert(chunk_pos, QueuedChunk { mesh, additional_data });
        self.given = Ghost(self.given@.insert(chunk_pos, chunk@));
    }

    fn try_build(&mut self, chunk_pos: ChunkPos, chunk: &Chunk, additional_data: T) -> (r: Result<(), BuilderError>)
        ensures
            (old(self).queue().contains_key(chunk_pos) || old(self).built().contains_key(chunk_pos))
                ==> r == Err::<(), BuilderError>(BuilderError::ChunkAlreadyExists(chunk_pos))
                && final(self).queue() == old(self).queue() && final(self).built() == old(self).built(),
            !(old(self).queue().contains_key(chunk_pos) || old(self).built().contains_key(chunk_pos))
                ==> r is Ok && final(self).queue().contains_key(chunk_pos)
                && final(self).queue()[chunk_pos].mesh.is_empty_mesh()
                && final(self).queue()[chunk_pos].additional_data == additional_data
                && final(self).queue().remove(chunk_pos) == old(self).queue()
                && final(self).built() == old(self).built(),
    {
        if self.queued.contains_key(chunk_pos) || self.built_chunks.contains_key(chunk_pos) {
            return Err(BuilderError::ChunkAlreadyExists(chunk_pos));
        }
        let mesh = ChunkMesh::new();
        self.queued.insert(chunk_pos, QueuedChunk { mesh, additional_data });
        self.given = Ghost(self.given@.insert(chunk_pos, chunk@));
        proof {
            assert(self.queued@.remove(chunk_pos) =~= old(self).queued@);
        }
        Ok(())
    }

    /// Counts every queued chunk's delay down by one frame (a zero delay
    /// stays zero); chunks whose delay reaches zero move to the built chunks.
    fn update(&mut self, _player_pos: ChunkPos)
        ensures
            forall|p: ChunkPos| #[trigger] final(self).queue().contains_key(p) <==> (old(self).queue().contains_key(p) && old(self).queue()[p].additional_data.delay() > 1),
            forall|p: ChunkPos| #[trigger] final(self).queue().contains_key(p) ==> final(self).queue()[p].additional_data.delay() == old(self).queue()[p].additional_data.delay() - 1,
            forall|p: ChunkPos| #[trigger] final(self).built().contains_key(p) <==> (old(self).built().contains_key(p) || (old(self).queue().contains_key(p) && old(self).queue()[p].additional_data.delay() <= 1)),
            forall|p: ChunkPos| old(self).queue().contains_key(p) && old(self).queue()[p].additional_data.delay() <= 1 ==> #[trigger] final(self).built()[p] == (old(self).queue()[p].mesh, ready_data(old(self).queue()[p].additional_data))
                && final(self).built()[p].1.delay() == 0,
            Self::updated(*old(self), *final(self)),
            forall|p: ChunkPos| #[trigger] old(self).built().contains_key(p) && !(old(self).queue().contains_key(p) && old(self).queue()[p].additional_data.delay() <= 1) ==> final(self).built()[p] == old(self).built()[p],
    {
        proof {
            self.queued.lemma_wf();
        }
        let ghost oq = self.queued@;
        let ghost ob = self.built_chunks@;
        let ghost oldq = self.queued;
        let entries = self.queued.take_entries();
        let ghost es = entries@;
        proof {
            assert forall|a: int| #![trigger es[a]] 0 <= a < es.len() implies oq.contains_key(es[a].0) && oq[es[a].0] == es[a].1 by {
                assert(oldq@.contains_key(oldq.entry_seq()[a].0));
            }
        }
        let mut remaining: Vec<(ChunkPos, QueuedChunk<T>)> = entries;
        // Process from the back so entries can be moved out one by one.
        let mut requeue: PosMap<QueuedChunk<T>> = PosMap::new();
        let mut k: usize = remaining.len();
        while k > 0
            invariant
                k <= es.len(),
                remaining@ == es.subrange(0, k as int),
                requeue.wf(),
                self.built_chunks.wf(),
                self.queued.wf(),
                self.queued@ == Map::<ChunkPos, QueuedChunk<T>>::empty(),
                forall|a: int, b: int| 0 <= a < es.len() && 0 <= b < es.len() && a != b ==> #[trigger] es[a].0 != #[trigger] es[b].0,
                forall|a: int| #![trigger es[a]] 0 <= a < es.len() ==> oq.contains_key(es[a].0) && oq[es[a].0] == es[a].1,
                forall|p: ChunkPos| #[trigger] oq.contains_key(p) ==> exists|a: int| 0 <= a < es.len() && #[trigger] es[a].0 == p,
                forall|p: ChunkPos| #[trigger] requeue@.contains_key(p) <==> (exists|a: int| k <= a < es.len() && #[trigger] es[a].0 == p && es[a].1.additional_data.delay() > 1),
                forall|p: ChunkPos| #[trigger] requeue@.contains_key(p) ==> requeue@[p].additional_data.delay() == oq[p].additional_data.delay() - 1,
                forall|p: ChunkPos| #[trigger] self.built_chunks@.contains_key(p) <==> (ob.contains_key(p) || exists|a: int| k <= a < es.len() && #[trigger] es[a].0 == p && es[a].1.additional_data.delay() <= 1),
                forall|a: int| k <= a < es.len() && #[trigger] es[a].1.additional_data.delay() <= 1 ==> self.built_chunks@[es[a].0] == (es[a].1.mesh, ready_data(es[a].1.additional_data))
                    && self.built_chunks@[es[a].0].1.delay() == 0,
                forall|p: ChunkPos| #[trigger] ob.contains_key(p) && !(exists|a: int| k <= a < es.len() && #[trigger] es[a].0 == p && es[a].1.additional_data.delay() <= 1) ==> self.built_chunks@[p] == ob[p],
            decreases k,
        {
            let entry = remaining.pop().unwrap();
            k = k - 1;
            let ghost a = k as int;
            let ghost e = entry;
            let (chunk_pos, chunk) = entry;
            let QueuedChunk { mesh, additional_data } = chunk;
            let mut data = additional_data;
            let delay = data.build_delay();
            if delay > 0 {
                data.set_build_delay(delay - 1);
            }
            if delay <= 1 {
                self.built_chunks.insert(chunk_pos, (mesh, data));
            } else {
                requeue.insert(chunk_pos, QueuedChunk { mesh, additional_data: data });
            }
            proof {
                assert(es[a] == e);
                assert(es[a].0 == chunk_pos);
                assert(oq.contains_key(es[a].0));
                assert(oq[chunk_pos] == es[a].1);
                assert forall|p: ChunkPos| #[trigger] requeue@.contains_key(p) implies requeue@[p].additional_data.delay() == oq[p].additional_data.delay() - 1 by {
                    if p == chunk_pos {
                        assert(delay > 1);
                    }
                }
                assert forall|p: ChunkPos| #[trigger] requeue@.contains_key(p) <==> (exists|b: int| k <= b < es.len() && #[trigger] es[b].0 == p && es[b].1.additional_data.delay() > 1) by {
                    if requeue@.contains_key(p) && p != chunk_pos {
                        let b = choose|b: int| k + 1 <= b < es.len() && #[trigger] es[b].0 == p && es[b].1.additional_data.delay() > 1;
                    }
                    if exists|b: int| k <= b < es.len() && #[trigger] es[b].0 == p && es[b].1.additional_data.delay() > 1 {
                        let b = choose|b: int| k <= b < es.len() && #[trigger] es[b].0 == p && es[b].1.additional_data.delay() > 1;
                        if b != a {
                            assert(p != chunk_pos);
                        }
                    }
                }
                assert forall|p: ChunkPos| #[trigger] self.built_chunks@.contains_key(p) <==> (ob.contains_key(p) || exists|b: int| k <= b < es.len() && #[trigger] es[b].0 == p && es[b].1.additional_data.delay() <= 1) by {
                    if exists|b: int| k <= b < es.len() && #[trigger] es[b].0 == p && es[b].1.additional_data.delay() <= 1 {
                        let b = choose|b: int| k <= b < es.len() && #[trigger] es[b].0 == p && es[b].1.additional_data.delay() <= 1;
                        if b != a {
                            assert(p != chunk_pos);
                        }
                    }
                }
                assert forall|b: int| k <= b < es.len() && #[trigger] es[b].1.additional_data.delay() <= 1 implies self.built_chunks@[es[b].0] == (es[b].1.mesh, ready_data(es[b].1.additional_data))
                    && self.built_chunks@[es[b].0].1.delay() == 0 by {
                    if b != a {
                        assert(es[b].0 != chunk_pos);
                    }
                }
                assert forall|p: ChunkPos| #[trigger] ob.contains_key(p) && !(exists|b: int| k <= b < es.len() && #[trigger] es[b].0 == p && es[b].1.additional_data.delay() <= 1) implies self.built_chunks@[p] == ob[p] by {
                    if p == chunk_pos && delay <= 1 {
                        assert(k <= a < es.len() && es[a].0 == p && es[a].1.additional_data.delay() <= 1);
                    }
                }
            }
        }
        self.queued = requeue;
        proof {
            assert forall|p: ChunkPos| #[trigger] self.queued@.contains_key(p) <==> (oq.contains_key(p) && oq[p].additional_data.delay() > 1) by {
                if oq.contains_key(p) {
                    let a = choose|a: int| 0 <= a < es.len() && #[trigger] es[a].0 == p;
                }
            }
            assert forall|p: ChunkPos| #[trigger] self.built_chunks@.contains_key(p) <==> (ob.contains_key(p) || (oq.contains_key(p) && oq[p].additional_data.delay() <= 1)) by {
                if oq.contains_key(p) {
                    let a = choose|a: int| 0 <= a < es.len() && #[trigger] es[a].0 == p;
                }
            }
            assert forall|p: ChunkPos| oq.contains_key(p) && oq[p].additional_data.delay() <= 1 implies #[trigger] self.built_chunks@[p] == (oq[p].mesh, ready_data(oq[p].additional_data))
                && self.built_chunks@[p].1.delay() == 0 by {
                let a = choose|a: int| 0 <= a < es.len() && #[trigger] es[a].0 == p;
            }
            assert forall|p: ChunkPos| #[trigger] ob.contains_key(p) && !(oq.contains_key(p) && oq[p].additional_data.delay() <= 1) implies self.built_chunks@[p] == ob[p] by {
                if exists|b: int| 0 <= b < es.len() && #[trigger] es[b].0 == p && es[b].1.additional_data.delay() <= 1 {
                    let b = choose|b: int| 0 <= b < es.len() && #[trigger] es[b].0 == p && es[b].1.additional_data.delay() <= 1;
                }
            }
        }
    }

    fn remove_chunk(&mut self, chunk_pos: ChunkPos)
        ensures
            final(self).queue() == old(self).queue().remove(chunk_pos),
            final(self).built() == old(self).built().remove(chunk_pos),
    {
        self.queued.remove(chunk_pos);
        self.built_chunks.remove(chunk_pos);
    }

    fn clear_all(&mut self)
        ensures
            final(self).queue() == Map::<ChunkPos, QueuedChunk<T>>::empty(),
            final(self).built() == Map::<ChunkPos, (ChunkMesh, T)>::empty(),
    {
        self.queued.clear();
        self.built_chunks.clear();
    }

    fn poll_completed(&mut self) -> (r: PosMap<(ChunkMesh, T)>)
        ensures
            r@ == old(self).built(),
            final(self).built() == Map::<ChunkPos, (ChunkMesh, T)>::empty(),
            final(self).queue() == old(self).queue(),
    {
        let mut out = PosMap::new();
        std::mem::swap(&mut out, &mut self.built_chunks);
        out
    }
}

} // verus!
