//! Bookkeeping of a builder whose meshes are built by background jobs: which
//! chunks wait, which are being built, and which are done. The jobs run
//! outside; they are started with the chunks handed out by `start_jobs` and
//! report back through `finish_job`.
use vstd::prelude::*;
use crate::types::{Chunk, ChunkPos};
use crate::pos_map::PosMap;
use crate::chunk_manager::pending_chunk_queue::{PendingChunkQueue, manhattan};
use crate::chunk_mesh_builder::chunk_mesh::ChunkMesh;
use super::chunk_builder::BuilderError;

verus! {

/// Upper bound on the jobs started in one update.
pub const MAX_BUILD_JOBS: usize = 16;

/// The state of a builder that meshes chunks in background jobs.
pub struct AsyncChunkBuilder<T> {
    pending_chunk_queue: PendingChunkQueue,
    chunks_to_build: PosMap<(Chunk, T)>,
    tasks: PosMap<T>,
    completed: PosMap<(ChunkMesh, T)>,
}

impl<T> AsyncChunkBuilder<T> {
    /// Chunks waiting for a job, nearest first.
    pub closed spec fn pending(&self) -> Set<ChunkPos> {
        self.pending_chunk_queue@
    }

    /// Chunks waiting for a job, with their data.
    pub closed spec fn to_build(&self) -> Map<ChunkPos, (Chunk, T)> {
        self.chunks_to_build@
    }

    /// Chunks being built, with their data.
    pub closed spec fn running(&self) -> Map<ChunkPos, T> {
        self.tasks@
    }

    /// Built chunks not handed out yet.
    pub closed spec fn done(&self) -> Map<ChunkPos, (ChunkMesh, T)> {
        self.completed@
    }

    /// Well-formedness of the underlying maps.
    pub closed spec fn wf(&self) -> bool {
        &&& self.pending_chunk_queue.wf()
        &&& self.chunks_to_build.wf()
        &&& self.tasks.wf()
        &&& self.completed.wf()
    }

    /// Whether a chunk at `pos` is waiting, being built or done.
    pub open spec fn holds(&self, pos: ChunkPos) -> bool {
        self.to_build().contains_key(pos) || self.running().contains_key(pos) || self.done().contains_key(pos)
    }

    /// An empty builder.
    pub fn new() -> (r: Self)
        ensures
            r.wf(),
            r.pending() == Set::<ChunkPos>::empty(),
            r.to_build() == Map::<ChunkPos, (Chunk, T)>::empty(),
            r.running() == Map::<ChunkPos, T>::empty(),
            r.done() == Map::<ChunkPos, (ChunkMesh, T)>::empty(),
    {
        AsyncChunkBuilder {
            pending_chunk_queue: PendingChunkQueue::new(),
            chunks_to_build: PosMap::new(),
            tasks: PosMap::new(),
            completed: PosMap::new(),
        }
    }

    /// Whether a chunk at `chunk_pos` is waiting, being built or done.
    pub fn is_chunk_in_builder(&self, chunk_pos: ChunkPos) -> (r: bool)
        requires
            self.wf(),
        ensures
            r == self.holds(chunk_pos),
    {
        self.chunks_to_build.contains_key(chunk_pos) || self.tasks.contains_key(chunk_pos)
            || self.completed.contains_key(chunk_pos)
    }

    /// Forgets every trace of `pos`, cancelling its job.
    pub fn remove_chunk(&mut self, pos: ChunkPos)
        requires
            old(self).wf(),
        ensures
            final(self).wf(),
            final(self).pending() == old(self).pending().remove(pos),
            final(self).to_build() == old(self).to_build().remove(pos),
            final(self).running() == old(self).running().remove(pos),
            final(self).done() == old(self).done().remove(pos),
    {
        self.pending_chunk_queue.remove_chunk(pos);
        self.chunks_to_build.remove(pos);
        self.tasks.remove(pos);
        self.completed.remove(pos);
    }

    /// Queues `chunk` for a job, replacing whatever the builder held for its position.
    pub fn force_build(&mut self, chunk_pos: ChunkPos, chunk: &Chunk, additional_data: T)
        requires
            old(self).wf(),
        ensures
            final(self).wf(),
            final(self).pending() == old(self).pending().insert(chunk_pos),
            final(self).to_build().contains_key(chunk_pos),
            final(self).to_build()[chunk_pos].0@ == chunk@,
            final(self).to_build()[chunk_pos].1 == additional_data,
            final(self).to_build().remove(chunk_pos) == old(self).to_build().remove(chunk_pos),
            final(self).running() == old(self).running().remove(chunk_pos),
            final(self).done() == old(self).done().remove(chunk_pos),
    {
        self.remove_chunk(chunk_pos);
        self.pending_chunk_queue.add_chunk(chunk_pos);
        self.chunks_to_build.insert(chunk_pos, (chunk.clone(), additional_data));
        proof {
            assert(self.pending() =~= old(self).pending().insert(chunk_pos));
            assert(self.to_build().remove(chunk_pos) =~= old(self).to_build().remove(chunk_pos));
        }
    }

    /// Queues `chunk` for a job; fails when the builder already holds a chunk
    /// at its position.
    pub fn try_build(&mut self, chunk_pos: ChunkPos, chunk: &Chunk, additional_data: T) -> (r: Result<(), BuilderError>)
        requires
            old(self).wf(),
        ensures
            final(self).wf(),
            old(self).holds(chunk_pos) ==> r == Err::<(), BuilderError>(BuilderError::ChunkAlreadyExists(chunk_pos))
                && *final(self) == *old(self),
            !old(self).holds(chunk_pos) ==> r is Ok
                && final(self).pending() == old(self).pending().insert(chunk_pos)
                && final(self).to_build().contains_key(chunk_pos)
                && final(self).to_build()[chunk_pos].0@ == chunk@
                && final(self).to_build()[chunk_pos].1 == additional_data
                && final(self).to_build().remove(chunk_pos) == old(self).to_build()
                && final(self).running() == old(self).running()
                && final(self).done() == old(self).done(),
    {
        if self.is_chunk_in_builder(chunk_pos) {
            return Err(BuilderError::ChunkAlreadyExists(chunk_pos));
        }
        self.force_build(chunk_pos, chunk, additional_data);
        proof {
            assert(self.running() =~= old(self).running());
            assert(self.done() =~= old(self).done());
            assert(old(self).to_build().remove(chunk_pos) =~= old(self).to_build());
        }
        Ok(())
    }

    /// Takes up to `MAX_BUILD_JOBS` waiting chunks nearest to the player and
    /// starts their jobs: hands out each chunk, keeping its data until the
    /// job reports back.
    pub fn start_jobs(&mut self, player_pos: ChunkPos) -> (r: Vec<(ChunkPos, Chunk)>)
        requires
            old(self).wf(),
        ensures
            final(self).wf(),
            final(self).done() == old(self).done(),
            final(self).pending().subset_of(old(self).pending()),
            r@.len() <= MAX_BUILD_JOBS,
            old(self).pending().len() - final(self).pending().len() == (if MAX_BUILD_JOBS < old(self).pending().len() {
                MAX_BUILD_JOBS as int
            } else {
                old(self).pending().len() as int
            }),
            forall|p: ChunkPos| old(self).pending().contains(p) && !final(self).pending().contains(p)
                ==> (old(self).to_build().contains_key(p) <==> exists|i: int| 0 <= i < r@.len() && #[trigger] r@[i].0 == p),
            forall|i: int| 0 <= i < r@.len() ==> {
                let p = (#[trigger] r@[i]).0;
                &&& old(self).pending().contains(p)
                &&& !final(self).pending().contains(p)
                &&& old(self).to_build().contains_key(p)
                &&& r@[i].1 == old(self).to_build()[p].0
                &&& final(self).running().contains_key(p)
                &&& final(self).running()[p] == old(self).to_build()[p].1
                &&& !final(self).to_build().contains_key(p)
            },
            forall|p: ChunkPos| #[trigger] final(self).running().contains_key(p)
                <==> (old(self).running().contains_key(p) || exists|i: int| 0 <= i < r@.len() && #[trigger] r@[i].0 == p),
            forall|p: ChunkPos| #[trigger] final(self).to_build().contains_key(p)
                <==> (old(self).to_build().contains_key(p) && !exists|i: int| 0 <= i < r@.len() && #[trigger] r@[i].0 == p),
            forall|p: ChunkPos| #[trigger] final(self).to_build().contains_key(p) ==> final(self).to_build()[p] == old(self).to_build()[p],
            forall|p: ChunkPos| old(self).running().contains_key(p) && !(exists|i: int| 0 <= i < r@.len() && #[trigger] r@[i].0 == p)
                ==> #[trigger] final(self).running()[p] == old(self).running()[p],
            forall|i: int, q: ChunkPos| 0 <= i < r@.len() && #[trigger] final(self).pending().contains(q)
                ==> manhattan(#[trigger] r@[i].0, player_pos) <= manhattan(q, player_pos),
    {
        proof {
            self.pending_chunk_queue.lemma_finite();
        }
        let nearest_chunks = self.pending_chunk_queue.take_nearest_chunks(MAX_BUILD_JOBS, player_pos);
        let ghost after_take = self.pending();
        proof {
            self.pending_chunk_queue.lemma_finite();
            assert(old(self).pending() =~= after_take + nearest_chunks@.to_set());
            nearest_chunks@.unique_seq_to_set();
            assert(after_take.disjoint(nearest_chunks@.to_set()));
            vstd::set_lib::lemma_set_disjoint_lens(after_take, nearest_chunks@.to_set());
        }
        let mut out: Vec<(ChunkPos, Chunk)> = Vec::new();
        let mut i: usize = 0;
        while i < nearest_chunks.len()
            invariant
                self.wf(),
                i <= nearest_chunks@.len(),
                nearest_chunks@.len() <= MAX_BUILD_JOBS,
                nearest_chunks@.no_duplicates(),
                out@.len() <= i,
                self.pending() == after_take,
                self.done() == old(self).done(),
                after_take == old(self).pending().difference(nearest_chunks@.to_set()),
                forall|p: ChunkPos| nearest_chunks@.contains(p) ==> old(self).pending().contains(p),
                forall|p: ChunkPos, q: ChunkPos| #[trigger] nearest_chunks@.contains(p) && #[trigger] after_take.contains(q)
                    ==> manhattan(p, player_pos) <= manhattan(q, player_pos),
                forall|k: int| 0 <= k < out@.len() ==> {
                    let p = (#[trigger] out@[k]).0;
                    &&& nearest_chunks@.subrange(0, i as int).contains(p)
                    &&& old(self).to_build().contains_key(p)
                    &&& out@[k].1 == old(self).to_build()[p].0
                    &&& self.running().contains_key(p)
                    &&& self.running()[p] == old(self).to_build()[p].1
                    &&& !self.to_build().contains_key(p)
                },
                forall|p: ChunkPos| #[trigger] self.running().contains_key(p)
                    <==> (old(self).running().contains_key(p) || exists|k: int| 0 <= k < out@.len() && #[trigger] out@[k].0 == p),
                forall|p: ChunkPos| #[trigger] self.to_build().contains_key(p)
                    <==> (old(self).to_build().contains_key(p) && !exists|k: int| 0 <= k < out@.len() && #[trigger] out@[k].0 == p),
                forall|p: ChunkPos| #[trigger] self.to_build().contains_key(p) ==> self.to_build()[p] == old(self).to_build()[p],
                forall|p: ChunkPos| old(self).running().contains_key(p) && !(exists|k: int| 0 <= k < out@.len() && #[trigger] out@[k].0 == p)
                    ==> #[trigger] self.running()[p] == old(self).running()[p],
                forall|k: int| 0 <= k < out@.len() ==> !nearest_chunks@.subrange(i as int, nearest_chunks@.len() as int).contains(#[trigger] out@[k].0),
                forall|p: ChunkPos| nearest_chunks@.subrange(0, i as int).contains(p) ==> !#[trigger] self.to_build().contains_key(p),
            decreases nearest_chunks@.len() - i,
        {
            let pos = nearest_chunks[i];
            let ghost sub0 = nearest_chunks@.subrange(0, i as int);
            let ghost sub1 = nearest_chunks@.subrange(0, i + 1);
            let ghost rest1 = nearest_chunks@.subrange(i + 1, nearest_chunks@.len() as int);
            let ghost old_out = out@;
            let ghost rb = self.running();
            let ghost tb = self.to_build();
            proof {
                assert(sub1 =~= sub0.push(pos));
                assert(nearest_chunks@.contains(pos));
                assert forall|k: int| 0 <= k < old_out.len() implies old_out[k].0 != pos by {
                    let rest0 = nearest_chunks@.subrange(i as int, nearest_chunks@.len() as int);
                    assert(rest0[0] == pos);
                }
            }
            match self.chunks_to_build.remove(pos) {
                Some((chunk, additional_data)) => {
                    self.tasks.insert(pos, additional_data);
                    out.push((pos, chunk));
                    proof {
                        assert forall|p: ChunkPos| #[trigger] self.running().contains_key(p)
                            <==> (old(self).running().contains_key(p) || exists|k: int| 0 <= k < out@.len() && #[trigger] out@[k].0 == p) by {
                            if exists|k: int| 0 <= k < old_out.len() && #[trigger] old_out[k].0 == p {
                                let k = choose|k: int| 0 <= k < old_out.len() && #[trigger] old_out[k].0 == p;
                                assert(out@[k].0 == p);
                            }
                            if exists|k: int| 0 <= k < out@.len() && #[trigger] out@[k].0 == p {
                                let k = choose|k: int| 0 <= k < out@.len() && #[trigger] out@[k].0 == p;
                                if k < old_out.len() {
                                    assert(old_out[k].0 == p);
                                }
                            }
                            if p == pos {
                                assert(out@[old_out.len() as int].0 == p);
                            }
                        }
                        assert forall|p: ChunkPos| #[trigger] self.to_build().contains_key(p)
                            <==> (old(self).to_build().contains_key(p) && !exists|k: int| 0 <= k < out@.len() && #[trigger] out@[k].0 == p) by {
                            if exists|k: int| 0 <= k < out@.len() && #[trigger] out@[k].0 == p {
                                let k = choose|k: int| 0 <= k < out@.len() && #[trigger] out@[k].0 == p;
                                if k < old_out.len() {
                                    assert(old_out[k].0 == p);
                                }
                            }
                            if p == pos {
                                assert(out@[old_out.len() as int].0 == p);
                            }
                            if exists|k: int| 0 <= k < old_out.len() && #[trigger] old_out[k].0 == p {
                                let k = choose|k: int| 0 <= k < old_out.len() && #[trigger] old_out[k].0 == p;
                                assert(out@[k].0 == p);
                            }
                        }
                        assert forall|p: ChunkPos| old(self).running().contains_key(p) && !(exists|k: int| 0 <= k < out@.len() && #[trigger] out@[k].0 == p)
                            implies #[trigger] self.running()[p] == old(self).running()[p] by {
                            if p == pos {
                                assert(out@[old_out.len() as int].0 == p);
                            }
                            if exists|k: int| 0 <= k < old_out.len() && #[trigger] old_out[k].0 == p {
                                let k = choose|k: int| 0 <= k < old_out.len() && #[trigger] old_out[k].0 == p;
                                assert(out@[k].0 == p);
                            }
                        }
                        assert forall|k: int| 0 <= k < out@.len() implies {
                            let p = (#[trigger] out@[k]).0;
                            &&& sub1.contains(p)
                            &&& old(self).to_build().contains_key(p)
                            &&& out@[k].1 == old(self).to_build()[p].0
                            &&& self.running().contains_key(p)
                            &&& self.running()[p] == old(self).to_build()[p].1
                            &&& !self.to_build().contains_key(p)
                        } by {
                            if k < old_out.len() {
                                assert(out@[k] == old_out[k]);
                                let p = out@[k].0;
                                assert(sub0.contains(p));
                                let m = choose|m: int| 0 <= m < sub0.len() && sub0[m] == p;
                                assert(sub1[m] == p);
                                assert(p != pos);
                            } else {
                                assert(sub1[sub0.len() as int] == pos);
                                assert(!(exists|j: int| 0 <= j < old_out.len() && #[trigger] old_out[j].0 == pos));
                                assert(tb.contains_key(pos));
                                assert(old(self).to_build().contains_key(pos));
                            }
                        }
                        assert forall|k: int| 0 <= k < out@.len() implies !rest1.contains(#[trigger] out@[k].0) by {
                            if rest1.contains(out@[k].0) {
                                let m = choose|m: int| 0 <= m < rest1.len() && rest1[m] == out@[k].0;
                                if k < old_out.len() {
                                    let rest0 = nearest_chunks@.subrange(i as int, nearest_chunks@.len() as int);
                                    assert(rest0[m + 1] == rest1[m]);
                                } else {
                                    assert(nearest_chunks@[i + 1 + m] == nearest_chunks@[i as int]);
                                }
                            }
                        }
                    }
                },
                None => {
                    proof {
                        assert forall|k: int| 0 <= k < out@.len() implies {
                            let p = (#[trigger] out@[k]).0;
                            &&& sub1.contains(p)
                        } by {
                            let p = out@[k].0;
                            let m = choose|m: int| 0 <= m < sub0.len() && sub0[m] == p;
                            assert(sub1[m] == p);
                        }
                        assert forall|k: int| 0 <= k < out@.len() implies !rest1.contains(#[trigger] out@[k].0) by {
                            if rest1.contains(out@[k].0) {
                                let m = choose|m: int| 0 <= m < rest1.len() && rest1[m] == out@[k].0;
                                let rest0 = nearest_chunks@.subrange(i as int, nearest_chunks@.len() as int);
                                assert(rest0[m + 1] == rest1[m]);
                            }
                        }
                    }
                },
            }
            proof {
                assert forall|p: ChunkPos| sub1.contains(p) implies !#[trigger] self.to_build().contains_key(p) by {
                    if p != pos {
                        let m = choose|m: int| 0 <= m < sub1.len() && sub1[m] == p;
                        assert(sub0[m] == p);
                        assert(!tb.contains_key(p));
                    }
                }
            }
            i = i + 1;
        }
        proof {
            assert(nearest_chunks@.subrange(0, i as int) =~= nearest_chunks@);
            assert forall|p: ChunkPos| old(self).pending().contains(p) && !self.pending().contains(p)
                implies (old(self).to_build().contains_key(p) <==> exists|k: int| 0 <= k < out@.len() && #[trigger] out@[k].0 == p) by {
                assert(nearest_chunks@.to_set().contains(p));
                assert(nearest_chunks@.contains(p));
                assert(!self.to_build().contains_key(p));
                if exists|k: int| 0 <= k < out@.len() && #[trigger] out@[k].0 == p {
                    let k = choose|k: int| 0 <= k < out@.len() && #[trigger] out@[k].0 == p;
                    assert(old(self).to_build().contains_key(out@[k].0));
                }
            }
            assert forall|k: int| 0 <= k < out@.len() implies {
                let p = (#[trigger] out@[k]).0;
                &&& old(self).pending().contains(p)
                &&& !self.pending().contains(p)
            } by {
                let p = out@[k].0;
                assert(nearest_chunks@.contains(p));
                assert(nearest_chunks@.to_set().contains(p));
            }
            assert forall|k: int, q: ChunkPos| 0 <= k < out@.len() && #[trigger] self.pending().contains(q)
                implies manhattan(#[trigger] out@[k].0, player_pos) <= manhattan(q, player_pos) by {
                assert(nearest_chunks@.contains(out@[k].0));
            }
        }
        out
    }

    /// Records the mesh of a finished job; a job whose chunk was removed
    /// since is ignored.
    pub fn finish_job(&mut self, chunk_pos: ChunkPos, chunk_mesh: ChunkMesh)
        requires
            old(self).wf(),
        ensures
            final(self).wf(),
            final(self).pending() == old(self).pending(),
            final(self).to_build() == old(self).to_build(),
            final(self).running() == old(self).running().remove(chunk_pos),
            old(self).running().contains_key(chunk_pos) ==> final(self).done()
                == old(self).done().insert(chunk_pos, (chunk_mesh, old(self).running()[chunk_pos])),
            !old(self).running().contains_key(chunk_pos) ==> final(self).done() == old(self).done(),
    {
        match self.tasks.remove(chunk_pos) {
            Some(additional_data) => {
                self.completed.insert(chunk_pos, (chunk_mesh, additional_data));
            },
            None => {},
        }
    }

    /// Forgets everything, cancelling every job.
    pub fn clear_all(&mut self)
        requires
            old(self).wf(),
        ensures
            final(self).wf(),
            final(self).pending() == Set::<ChunkPos>::empty(),
            final(self).to_build() == Map::<ChunkPos, (Chunk, T)>::empty(),
            final(self).running() == Map::<ChunkPos, T>::empty(),
            final(self).done() == Map::<ChunkPos, (ChunkMesh, T)>::empty(),
    {
        self.pending_chunk_queue = PendingChunkQueue::new();
        self.chunks_to_build.clear();
        self.tasks.clear();
        self.completed.clear();
    }

    /// Hands out every finished chunk with its data, and forgets them.
    pub fn poll_completed(&mut self) -> (r: PosMap<(ChunkMesh, T)>)
        requires
            old(self).wf(),
        ensures
            final(self).wf(),
            r.wf(),
            r@ == old(self).done(),
            final(self).done() == Map::<ChunkPos, (ChunkMesh, T)>::empty(),
            final(self).pending() == old(self).pending(),
            final(self).to_build() == old(self).to_build(),
            final(self).running() == old(self).running(),
    {
        let mut out = PosMap::new();
        std::mem::swap(&mut out, &mut self.completed);
        out
    }
}

} // verus!
