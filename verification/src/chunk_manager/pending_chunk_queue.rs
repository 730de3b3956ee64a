//! Chunk positions waiting to be loaded or built, handed out nearest first.
use vstd::prelude::*;
use crate::types::{ChunkPos, abs};
use crate::pos_map::PosMap;

verus! {

/// Manhattan distance between two positions, in blocks.
pub open spec fn manhattan(a: ChunkPos, b: ChunkPos) -> int {
    abs(a.x - b.x) + abs(a.y - b.y) + abs(a.z - b.z)
}

/// Whether `taken` is a batch of `count` (or all, where fewer are queued)
/// positions of `pending`, none farther from `target` than a position left behind.
pub open spec fn takes_nearest(pending: Set<ChunkPos>, taken: Set<ChunkPos>, count: int, target: ChunkPos) -> bool {
    &&& taken.finite()
    &&& taken.subset_of(pending)
    &&& taken.len() == (if count < pending.len() { count } else { pending.len() as int })
    &&& forall|p: ChunkPos, q: ChunkPos| #[trigger] taken.contains(p) && #[trigger] pending.contains(q) && !taken.contains(q)
        ==> manhattan(p, target) <= manhattan(q, target)
}

/// Manhattan distance between two positions, in blocks.
pub fn manhattan_distance(a: ChunkPos, b: ChunkPos) -> (r: u128)
    ensures
        r == manhattan(a, b),
{
    let dx: i128 = a.x as i128 - b.x as i128;
    let dy: i128 = a.y as i128 - b.y as i128;
    let dz: i128 = a.z as i128 - b.z as i128;
    let ax: u128 = if dx < 0 { (-dx) as u128 } else { dx as u128 };
    let ay: u128 = if dy < 0 { (-dy) as u128 } else { dy as u128 };
    let az: u128 = if dz < 0 { (-dz) as u128 } else { dz as u128 };
    ax + ay + az
}

/// A set of chunk positions waiting for work.
pub struct PendingChunkQueue {
    chunks: PosMap<()>,
}

impl View for PendingChunkQueue {
    type V = Set<ChunkPos>;

    closed spec fn view(&self) -> Set<ChunkPos> {
        self.chunks@.dom()
    }
}

impl PendingChunkQueue {
    /// Well-formedness of the underlying map.
    pub closed spec fn wf(&self) -> bool {
        self.chunks.wf()
    }

    /// The queued positions form a finite set.
    pub proof fn lemma_finite(&self)
        requires
            self.wf(),
        ensures
            self@.finite(),
    {
        self.chunks.lemma_wf();
    }

    /// An empty queue.
    pub fn new() -> (r: PendingChunkQueue)
        ensures
            r.wf(),
            r@ == Set::<ChunkPos>::empty(),
    {
        PendingChunkQueue { chunks: PosMap::new() }
    }

    /// Queues `pos`; a queued position stays queued once.
    pub fn add_chunk(&mut self, pos: ChunkPos)
        requires
            old(self).wf(),
        ensures
            final(self).wf(),
            final(self)@ == old(self)@.insert(pos),
    {
        self.chunks.insert(pos, ());
    }

    /// Takes `pos` out of the queue.
    pub fn remove_chunk(&mut self, pos: ChunkPos)
        requires
            old(self).wf(),
        ensures
            final(self).wf(),
            final(self)@ == old(self)@.remove(pos),
    {
        self.chunks.remove(pos);
    }

    /// Whether `pos` is queued.
    pub fn contains_chunk(&self, pos: ChunkPos) -> (r: bool)
        requires
            self.wf(),
        ensures
            r == self@.contains(pos),
    {
        self.chunks.contains_key(pos)
    }

    /// Number of queued positions.
    pub fn len(&self) -> (r: usize)
        requires
            self.wf(),
        ensures
            r == self@.len(),
    {
        self.chunks.len()
    }

    /// The queued positions, each once.
    pub fn positions(&self) -> (r: Vec<ChunkPos>)
        requires
            self.wf(),
        ensures
            r@.no_duplicates(),
            r@.to_set() == self@,
    {
        self.chunks.keys()
    }

    /// Takes out the queued position nearest to `target`.
    fn take_nearest(&mut self, target: ChunkPos) -> (r: ChunkPos)
        requires
            old(self).wf(),
            old(self)@.len() > 0,
        ensures
            final(self).wf(),
            old(self)@.contains(r),
            final(self)@ == old(self)@.remove(r),
            forall|q: ChunkPos| #[trigger] old(self)@.contains(q) ==> manhattan(r, target) <= manhattan(q, target),
    {
        proof {
            self.chunks.lemma_wf();
        }
        let keys = self.chunks.keys();
        let mut best = keys[0];
        let mut best_dist = manhattan_distance(best, target);
        let mut i: usize = 1;
        while i < keys.len()
            invariant
                1 <= i <= keys@.len(),
                keys@.to_set() == old(self)@,
                keys@.contains(best),
                best_dist == manhattan(best, target),
                forall|j: int| 0 <= j < i ==> manhattan(best, target) <= manhattan(#[trigger] keys@[j], target),
            decreases keys@.len() - i,
        {
            let d = manhattan_distance(keys[i], target);
            if d < best_dist {
                best = keys[i];
                best_dist = d;
            }
            i = i + 1;
        }
        proof {
            assert(keys@.to_set().contains(best));
            assert forall|q: ChunkPos| #[trigger] old(self)@.contains(q) implies manhattan(best, target) <= manhattan(q, target) by {
                assert(keys@.to_set().contains(q));
                let j = choose|j: int| 0 <= j < keys@.len() && keys@[j] == q;
                assert(manhattan(best, target) <= manhattan(keys@[j], target));
            }
        }
        self.chunks.remove(best);
        best
    }

    /// Takes out up to `count` queued positions, those nearest to `target`
    /// first: every position handed out is at least as near as every
    /// position left in the queue.
    pub fn take_nearest_chunks(&mut self, count: usize, target: ChunkPos) -> (r: Vec<ChunkPos>)
        requires
            old(self).wf(),
        ensures
            final(self).wf(),
            r@.len() == if count < old(self)@.len() { count as int } else { old(self)@.len() as int },
            r@.no_duplicates(),
            forall|p: ChunkPos| r@.contains(p) ==> old(self)@.contains(p),
            final(self)@ == old(self)@.difference(r@.to_set()),
            forall|p: ChunkPos, q: ChunkPos| #[trigger] r@.contains(p) && #[trigger] final(self)@.contains(q)
                ==> manhattan(p, target) <= manhattan(q, target),
    {
        proof {
            self.lemma_finite();
        }
        let mut out: Vec<ChunkPos> = Vec::new();
        while out.len() < count && self.len() > 0
            invariant
                self.wf(),
                self@.finite(),
                old(self)@.finite(),
                out@.len() <= count,
                out@.no_duplicates(),
                forall|p: ChunkPos| out@.contains(p) ==> old(self)@.contains(p),
                self@ == old(self)@.difference(out@.to_set()),
                self@.len() + out@.len() == old(self)@.len(),
                forall|p: ChunkPos, q: ChunkPos| #[trigger] out@.contains(p) && #[trigger] self@.contains(q)
                    ==> manhattan(p, target) <= manhattan(q, target),
            decreases self@.len(),
        {
            let ghost before = self@;
            let p = self.take_nearest(target);
            let ghost old_out = out@;
            out.push(p);
            proof {
                assert(out@ == old_out.push(p));
                assert(!old_out.contains(p));
                assert forall|i: int, j: int| 0 <= i < out@.len() && 0 <= j < out@.len() && i != j implies out@[i] != out@[j] by {
                    if i < old_out.len() && j < old_out.len() {
                        assert(old_out[i] != old_out[j]);
                    } else if i < old_out.len() {
                        assert(old_out.contains(old_out[i]));
                    } else {
                        assert(old_out.contains(old_out[j]));
                    }
                }
                assert forall|a: ChunkPos| out@.to_set().contains(a) <==> old_out.to_set().insert(p).contains(a) by {
                    if out@.contains(a) {
                        let k = choose|k: int| 0 <= k < out@.len() && out@[k] == a;
                        if k < old_out.len() {
                            assert(old_out[k] == a);
                        }
                    }
                    if old_out.contains(a) {
                        let k = choose|k: int| 0 <= k < old_out.len() && old_out[k] == a;
                        assert(out@[k] == a);
                    }
                    if a == p {
                        assert(out@[old_out.len() as int] == a);
                    }
                }
                assert(out@.to_set() =~= old_out.to_set().insert(p));
                assert forall|a: ChunkPos| out@.contains(a) implies old(self)@.contains(a) by {
                    assert(out@.to_set().contains(a));
                    if a != p {
                        assert(old_out.to_set().contains(a));
                    }
                }
                assert(self@ =~= old(self)@.difference(out@.to_set()));
                assert forall|a: ChunkPos, q: ChunkPos| #[trigger] out@.contains(a) && #[trigger] self@.contains(q)
                    implies manhattan(a, target) <= manhattan(q, target) by {
                    assert(before.contains(q));
                    if a != p {
                        assert(old_out.contains(a));
                    }
                }
                assert(self@.len() == before.len() - 1);
            }
        }
        out
    }
}

} // verus!
