//! A map keyed by chunk position.
//!
//! The standard hash map offers no usable specification for a structured key,
//! so chunk-keyed tables are kept in a vector of entries whose keys never
//! repeat, with the abstract map carried alongside as ghost state.
use vstd::prelude::*;
use crate::types::ChunkPos;

verus! {

/// A finite map from chunk positions to values.
pub struct PosMap<V> {
    entries: Vec<(ChunkPos, V)>,
    contents: Ghost<Map<ChunkPos, V>>,
}

impl<V> View for PosMap<V> {
    type V = Map<ChunkPos, V>;

    closed spec fn view(&self) -> Map<ChunkPos, V> {
        self.contents@
    }
}

/// The keys of a sequence of entries, in order.
pub open spec fn keys_of<V>(entries: Seq<(ChunkPos, V)>) -> Seq<ChunkPos> {
    entries.map_values(|e: (ChunkPos, V)| e.0)
}

impl<V> PosMap<V> {
    /// The entries, in storage order.
    pub closed spec fn entry_seq(&self) -> Seq<(ChunkPos, V)> {
        self.entries@
    }

    /// The keys, in storage order.
    pub open spec fn key_seq(&self) -> Seq<ChunkPos> {
        keys_of(self.entry_seq())
    }

    /// Well-formedness: keys are distinct and the entries are exactly the map.
    pub closed spec fn wf(&self) -> bool {
        &&& forall|i: int, j: int|
            0 <= i < self.entries@.len() && 0 <= j < self.entries@.len() && i != j
                ==> #[trigger] self.entries@[i].0 != #[trigger] self.entries@[j].0
        &&& forall|i: int|
            0 <= i < self.entries@.len() ==> #[trigger] self.contents@.contains_key(
                self.entries@[i].0,
            ) && self.contents@[self.entries@[i].0] == self.entries@[i].1
        &&& forall|k: ChunkPos|
            #[trigger] self.contents@.contains_key(k) ==> exists|i: int|
                0 <= i < self.entries@.len() && #[trigger] self.entries@[i].0 == k
    }

    /// What well-formedness gives to users of the map: the stored entries are
    /// exactly the map's key-value pairs, each key once.
    pub proof fn lemma_wf(&self)
        requires
            self.wf(),
        ensures
            self.key_seq().no_duplicates(),
            forall|i: int, j: int|
                0 <= i < self.entry_seq().len() && 0 <= j < self.entry_seq().len() && i != j
                    ==> #[trigger] self.entry_seq()[i].0 != #[trigger] self.entry_seq()[j].0,
            self.key_seq().len() == self.entry_seq().len(),
            self.key_seq().to_set() == self@.dom(),
            self@.dom().finite(),
            self@.dom().len() == self.entry_seq().len(),
            forall|i: int|
                0 <= i < self.entry_seq().len() ==> #[trigger] self@.contains_key(
                    self.entry_seq()[i].0,
                ) && self@[self.entry_seq()[i].0] == self.entry_seq()[i].1,
            forall|k: ChunkPos|
                #[trigger] self@.contains_key(k) ==> exists|i: int|
                    0 <= i < self.entry_seq().len() && #[trigger] self.entry_seq()[i].0 == k,
    {
        let ks = self.key_seq();
        assert forall|i: int, j: int| 0 <= i < ks.len() && 0 <= j < ks.len() && i != j implies ks[i]
            != ks[j] by {
            assert(ks[i] == self.entries@[i].0);
            assert(ks[j] == self.entries@[j].0);
        }
        assert forall|k: ChunkPos| ks.to_set().contains(k) <==> self@.dom().contains(k) by {
            if ks.to_set().contains(k) {
                let i = choose|i: int| 0 <= i < ks.len() && ks[i] == k;
                assert(self.entries@[i].0 == k);
            }
            if self@.dom().contains(k) {
                let i = choose|i: int| 0 <= i < self.entries@.len() && self.entries@[i].0 == k;
                assert(ks[i] == k);
            }
        }
        assert(ks.to_set() =~= self@.dom());
        ks.unique_seq_to_set();
    }

    /// Creates an empty map.
    pub fn new() -> (r: Self)
        ensures
            r.wf(),
            r@ == Map::<ChunkPos, V>::empty(),
    {
        PosMap { entries: Vec::new(), contents: Ghost(Map::empty()) }
    }

    /// Number of entries.
    pub fn len(&self) -> (r: usize)
        requires
            self.wf(),
        ensures
            r == self@.len(),
    {
        proof {
            self.lemma_wf();
        }
        self.entries.len()
    }

    /// Index of `pos` among the entries, if present.
    fn find(&self, pos: ChunkPos) -> (r: Option<usize>)
        requires
            self.wf(),
        ensures
            match r {
                Some(i) => i < self.entries@.len() && self.entries@[i as int].0 == pos,
                None => !self@.contains_key(pos),
            },
    {
        let mut i: usize = 0;
        while i < self.entries.len()
            invariant
                i <= self.entries@.len(),
                forall|j: int| 0 <= j < i ==> #[trigger] self.entries@[j].0 != pos,
            decreases self.entries@.len() - i,
        {
            if self.entries[i].0 == pos {
                return Some(i);
            }
            i = i + 1;
        }
        None
    }

    /// Whether `pos` has an entry.
    pub fn contains_key(&self, pos: ChunkPos) -> (r: bool)
        requires
            self.wf(),
        ensures
            r == self@.contains_key(pos),
    {
        match self.find(pos) {
            Some(_) => true,
            None => false,
        }
    }

    /// The value stored for `pos`, if any.
    pub fn get(&self, pos: ChunkPos) -> (r: Option<&V>)
        requires
            self.wf(),
        ensures
            match r {
                Some(v) => self@.contains_key(pos) && *v == self@[pos],
                None => !self@.contains_key(pos),
            },
    {
        match self.find(pos) {
            Some(i) => {
                assert(self.contents@.contains_key(self.entries@[i as int].0));
                Some(&self.entries[i].1)
            },
            None => None,
        }
    }

    /// Stores `value` for `pos`, replacing any earlier value.
    pub fn insert(&mut self, pos: ChunkPos, value: V)
        requires
            old(self).wf(),
        ensures
            final(self).wf(),
            final(self)@ == old(self)@.insert(pos, value),
    {
        let ghost new_map = self.contents@.insert(pos, value);
        match self.find(pos) {
            Some(i) => {
                self.entries.set(i, (pos, value));
                self.contents = Ghost(new_map);
                assert forall|k: ChunkPos| #[trigger] self.contents@.contains_key(k) implies exists|
                    j: int,
                | 0 <= j < self.entries@.len() && #[trigger] self.entries@[j].0 == k by {
                    if k != pos {
                        let j = choose|j: int|
                            0 <= j < old(self).entries@.len() && old(self).entries@[j].0 == k;
                        assert(self.entries@[j].0 == k);
                    } else {
                        assert(self.entries@[i as int].0 == k);
                    }
                }
            },
            None => {
                self.entries.push((pos, value));
                self.contents = Ghost(new_map);
                assert forall|k: ChunkPos| #[trigger] self.contents@.contains_key(k) implies exists|
                    j: int,
                | 0 <= j < self.entries@.len() && #[trigger] self.entries@[j].0 == k by {
                    if k != pos {
                        let j = choose|j: int|
                            0 <= j < old(self).entries@.len() && old(self).entries@[j].0 == k;
                        assert(self.entries@[j].0 == k);
                    } else {
                        assert(self.entries@[self.entries@.len() - 1].0 == k);
                    }
                }
            },
        }
    }

    /// Removes the entry for `pos`, returning its value if there was one.
    pub fn remove(&mut self, pos: ChunkPos) -> (r: Option<V>)
        requires
            old(self).wf(),
        ensures
            final(self).wf(),
            final(self)@ == old(self)@.remove(pos),
            match r {
                Some(v) => old(self)@.contains_key(pos) && v == old(self)@[pos],
                None => !old(self)@.contains_key(pos),
            },
    {
        match self.find(pos) {
            Some(i) => {
                let ghost old_entries = self.entries@;
                assert(self.contents@.contains_key(old_entries[i as int].0));
                let entry = self.entries.swap_remove(i);
                self.contents = Ghost(self.contents@.remove(pos));
                let ghost n = old_entries.len() - 1;
                assert forall|j: int| 0 <= j < self.entries@.len() implies self.entries@[j] == (
                if j == i {
                    old_entries[n]
                } else {
                    old_entries[j]
                }) by {}
                assert forall|k: ChunkPos| #[trigger] self.contents@.contains_key(k) implies exists|
                    j: int,
                | 0 <= j < self.entries@.len() && #[trigger] self.entries@[j].0 == k by {
                    let j = choose|j: int| 0 <= j < old_entries.len() && old_entries[j].0 == k;
                    if j == n {
                        assert(self.entries@[i as int].0 == k);
                    } else {
                        assert(self.entries@[j].0 == k);
                    }
                }
                Some(entry.1)
            },
            None => {
                assert(self.contents@.remove(pos) =~= self.contents@);
                None
            },
        }
    }

    /// The key of the `i`-th entry in storage order.
    pub fn key_at(&self, i: usize) -> (r: ChunkPos)
        requires
            i < self.entry_seq().len(),
        ensures
            r == self.entry_seq()[i as int].0,
    {
        self.entries[i].0
    }

    /// The value of the `i`-th entry in storage order.
    pub fn value_at(&self, i: usize) -> (r: &V)
        requires
            i < self.entry_seq().len(),
        ensures
            *r == self.entry_seq()[i as int].1,
    {
        &self.entries[i].1
    }

    /// Number of entries in storage order (the same as `len`).
    pub fn entry_count(&self) -> (r: usize)
        ensures
            r == self.entry_seq().len(),
    {
        self.entries.len()
    }

    /// All keys, each once.
    pub fn keys(&self) -> (r: Vec<ChunkPos>)
        requires
            self.wf(),
        ensures
            r@ == self.key_seq(),
            r@.no_duplicates(),
            r@.to_set() == self@.dom(),
    {
        proof {
            self.lemma_wf();
        }
        let mut out: Vec<ChunkPos> = Vec::new();
        let mut i: usize = 0;
        while i < self.entries.len()
            invariant
                i <= self.entries@.len(),
                out@ == keys_of(self.entries@.subrange(0, i as int)),
            decreases self.entries@.len() - i,
        {
            out.push(self.entries[i].0);
            proof {
                assert(self.entries@.subrange(0, i + 1) =~= self.entries@.subrange(0, i as int).push(
                    self.entries@[i as int],
                ));
            }
            i = i + 1;
        }
        proof {
            assert(self.entries@.subrange(0, i as int) =~= self.entries@);
        }
        out
    }

    /// Removes and returns every entry, in storage order.
    pub fn take_entries(&mut self) -> (r: Vec<(ChunkPos, V)>)
        requires
            old(self).wf(),
        ensures
            final(self).wf(),
            final(self)@ == Map::<ChunkPos, V>::empty(),
            r@ == old(self).entry_seq(),
    {
        let mut out: Vec<(ChunkPos, V)> = Vec::new();
        std::mem::swap(&mut out, &mut self.entries);
        self.contents = Ghost(Map::empty());
        out
    }

    /// Removes every entry.
    pub fn clear(&mut self)
        ensures
            final(self).wf(),
            final(self)@ == Map::<ChunkPos, V>::empty(),
    {
        self.entries.clear();
        self.contents = Ghost(Map::empty());
    }

    /// The keys whose value satisfies `f` (which decides `pred`), each once.
    pub fn keys_where<F: Fn(&V) -> bool>(&self, f: F, Ghost(pred): Ghost<spec_fn(V) -> bool>) -> (r: Vec<ChunkPos>)
        requires
            self.wf(),
            forall|v: &V| #[trigger] f.requires((v,)),
            forall|v: &V, b: bool| f.ensures((v,), b) ==> b == pred(*v),
        ensures
            r@.no_duplicates(),
            forall|p: ChunkPos| r@.contains(p) <==> (self@.contains_key(p) && pred(self@[p])),
    {
        proof {
            self.lemma_wf();
        }
        let ghost es = self.entries@;
        let mut out: Vec<ChunkPos> = Vec::new();
        let n = self.entries.len();
        let mut i: usize = 0;
        while i < n
            invariant
                n == es.len(),
                es == self.entries@,
                i <= n,
                self.wf(),
                forall|v: &V| #[trigger] f.requires((v,)),
                forall|v: &V, b: bool| f.ensures((v,), b) ==> b == pred(*v),
                out@.no_duplicates(),
                forall|k: int| #![trigger out@[k]] 0 <= k < out@.len() ==> exists|j: int| 0 <= j < i && #[trigger] es[j].0 == out@[k],
                forall|p: ChunkPos|
                    out@.contains(p) <==> exists|j: int|
                        0 <= j < i && #[trigger] es[j].0 == p && pred(es[j].1),
            decreases n - i,
        {
            let key = self.entries[i].0;
            let keep = f(&self.entries[i].1);
            if keep {
                let ghost old_out = out@;
                proof {
                    assert forall|k: int| 0 <= k < old_out.len() implies old_out[k] != key by {
                        let j = choose|j: int| 0 <= j < i && #[trigger] es[j].0 == old_out[k];
                        assert(es[i as int].0 == key);
                    }
                }
                out.push(key);
                proof {
                    assert(out@ == old_out.push(key));
                    assert forall|p: ChunkPos|
                        out@.contains(p) <==> exists|j: int|
                            0 <= j < i + 1 && #[trigger] es[j].0 == p && pred(es[j].1) by {
                        if out@.contains(p) {
                            let k = choose|k: int| 0 <= k < out@.len() && out@[k] == p;
                            if k == out@.len() - 1 {
                                assert(es[i as int].0 == p);
                            } else {
                                assert(old_out[k] == p);
                                assert(old_out.contains(p));
                            }
                        }
                        if exists|j: int| 0 <= j < i + 1 && #[trigger] es[j].0 == p && pred(es[j].1) {
                            let j = choose|j: int| 0 <= j < i + 1 && #[trigger] es[j].0 == p && pred(es[j].1);
                            if j == i {
                                assert(out@[out@.len() - 1] == p);
                            } else {
                                assert(old_out.contains(p));
                                let k = choose|k: int| 0 <= k < old_out.len() && #[trigger] old_out[k] == p;
                                assert(out@[k] == p);
                            }
                        }
                    }
                    assert forall|k: int| #![trigger out@[k]] 0 <= k < out@.len() implies exists|j: int| 0 <= j < i + 1 && #[trigger] es[j].0 == out@[k] by {
                        if k == out@.len() - 1 {
                            assert(es[i as int].0 == out@[k]);
                        } else {
                            assert(out@[k] == old_out[k]);
                            let j = choose|j: int| 0 <= j < i && #[trigger] es[j].0 == old_out[k];
                            assert(es[j].0 == out@[k]);
                        }
                    }
                }
            } else {
                proof {
                    assert forall|p: ChunkPos|
                        out@.contains(p) <==> exists|j: int|
                            0 <= j < i + 1 && #[trigger] es[j].0 == p && pred(es[j].1) by {
                        if exists|j: int| 0 <= j < i + 1 && #[trigger] es[j].0 == p && pred(es[j].1) {
                            let j = choose|j: int| 0 <= j < i + 1 && #[trigger] es[j].0 == p && pred(es[j].1);
                            assert(j != i);
                        }
                    }
                }
            }
            i = i + 1;
        }
        proof {
            assert forall|p: ChunkPos|
                out@.contains(p) <==> (self@.contains_key(p) && pred(self@[p])) by {
                if self@.contains_key(p) {
                    let j = choose|j: int| 0 <= j < es.len() && #[trigger] es[j].0 == p;
                    assert(self@[es[j].0] == es[j].1);
                }
                if out@.contains(p) {
                    let j = choose|j: int| 0 <= j < n && #[trigger] es[j].0 == p && pred(es[j].1);
                    assert(self@.contains_key(es[j].0));
                }
            }
        }
        out
    }
}

} // verus!
