//! A builder wrapper that only hands out meshes of each chunk's latest version.
use vstd::prelude::*;
use crate::types::{Chunk, ChunkPos};
use crate::pos_map::PosMap;
use crate::chunk_mesh_builder::chunk_mesh::ChunkMesh;
use super::chunk_builder::{ChunkBuilder, Versioned};
use super::delayed_dummy_chunk_builder::BuildDelay;

verus! {

/// Version of a chunk's mesh.
pub type Version = u64;

/// Data of a build request, decorated with the version it was requested at.
#[derive(Debug, Default)]
pub struct DecoratedData<T> {
    pub data: T,
    version: Version,
}

impl<T> DecoratedData<T> {
    /// The request's own data.
    pub closed spec fn spec_data(&self) -> T {
        self.data
    }

    /// The version the build was requested at.
    pub closed spec fn spec_version(&self) -> Version {
        self.version
    }

    /// The version the build was requested at.
    pub fn version(&self) -> (r: Version)
        ensures
            r == self.spec_version(),
    {
        self.version
    }
}

/// Setting the delay of decorated data keeps its version.
pub proof fn lemma_with_delay_keeps_version<T: BuildDelay>(d: DecoratedData<T>, delay: u32)
    ensures
        d.with_delay(delay).spec_version() == d.spec_version(),
        d.with_delay(delay).spec_data() == d.spec_data().with_delay(delay),
{
}

impl<T: BuildDelay> BuildDelay for DecoratedData<T> {
    open spec fn delay(&self) -> u32 {
        self.spec_data().delay()
    }

    closed spec fn with_delay(&self, d: u32) -> Self {
        DecoratedData { data: self.data.with_delay(d), version: self.version }
    }

    fn build_delay(&self) -> (r: u32) {
        self.data.build_delay()
    }

    fn set_build_delay(&mut self, build_delay: u32) {
        self.data.set_build_delay(build_delay);
    }
}

/// Wraps a chunk builder and numbers each chunk's build requests; only a
/// mesh built from the latest request of its chunk is kept and handed out.
pub struct VersionedChunkBuilder<T, B> {
    /// Internal chunk builder.
    chunk_builder: B,
    /// Latest version of each chunk.
    latest_chunk_mesh_versions: PosMap<Version>,
    /// Only meshes built with their chunk's latest version.
    latest_builded_chunks: PosMap<(ChunkMesh, DecoratedData<T>)>,
}

/// The version recorded in `versions` for `pos` (0 when absent).
pub open spec fn version_in(versions: Map<ChunkPos, Version>, pos: ChunkPos) -> Version {
    if versions.contains_key(pos) {
        versions[pos]
    } else {
        0
    }
}

/// The version that follows `v`, wrapping around.
pub open spec fn next_version(v: Version) -> Version {
    if v == u64::MAX {
        0
    } else {
        (v + 1) as u64
    }
}

/// What `inner` hands out for `pos` after its next update: the mesh and data
/// of a chunk already built, or of one that the update builds.
pub open spec fn handed_out_after_update<T, B: ChunkBuilder<DecoratedData<T>>>(
    inner: B,
    pos: ChunkPos,
) -> Option<(ChunkMesh, DecoratedData<T>)> {
    if inner.completed_chunk(pos) {
        Some((inner.completed_mesh(pos), inner.held_data(pos)))
    } else if inner.completes_on_update(pos) {
        Some(inner.update_result(pos))
    } else {
        None
    }
}

impl<T, B: ChunkBuilder<DecoratedData<T>>> VersionedChunkBuilder<T, B> {
    /// Latest version per chunk.
    pub closed spec fn versions(&self) -> Map<ChunkPos, Version> {
        self.latest_chunk_mesh_versions@
    }

    /// Kept meshes per chunk.
    pub closed spec fn built(&self) -> Map<ChunkPos, (ChunkMesh, DecoratedData<T>)> {
        self.latest_builded_chunks@
    }

    /// The wrapped builder.
    pub closed spec fn inner(&self) -> B {
        self.chunk_builder
    }

    /// The latest version of `pos`.
    pub open spec fn version_of(&self, pos: ChunkPos) -> Version {
        version_in(self.versions(), pos)
    }

    /// Invariant: every kept mesh carries its chunk's latest version.
    pub closed spec fn wf(&self) -> bool {
        &&& self.chunk_builder.wf()
        &&& self.latest_chunk_mesh_versions.wf()
        &&& self.latest_builded_chunks.wf()
        &&& forall|p: ChunkPos| #[trigger] self.latest_builded_chunks@.contains_key(p)
            ==> self.latest_builded_chunks@[p].1.version == version_in(self.latest_chunk_mesh_versions@, p)
    }

    /// Every kept mesh carries its chunk's latest version.
    pub proof fn lemma_kept_meshes_are_latest(&self)
        requires
            self.wf(),
        ensures
            forall|p: ChunkPos| #[trigger] self.built().contains_key(p) ==> self.built()[p].1.spec_version() == self.version_of(p),
    {
    }

    /// How a poll changes the builder, with what it hands out: every kept
    /// mesh with its request's data, after which none is kept.
    pub open spec fn polled(b: Self, handed: Map<ChunkPos, (ChunkMesh, T)>, b2: Self) -> bool {
        &&& b2.versions() == b.versions()
        &&& b2.inner() == b.inner()
        &&& b2.built() == Map::<ChunkPos, (ChunkMesh, DecoratedData<T>)>::empty()
        &&& handed.dom() == b.built().dom()
        &&& forall|p: ChunkPos| #[trigger] handed.contains_key(p)
            ==> handed[p].0 == b.built()[p].0 && handed[p].1 == b.built()[p].1.spec_data()
    }

    /// Whatever calls came before, a poll hands out for each chunk only the
    /// mesh built for the chunk's latest request, with that request's data,
    /// and a poll right after it hands out nothing.
    pub proof fn lemma_poll_hands_out_latest(
        b0: Self,
        r1: Map<ChunkPos, (ChunkMesh, T)>,
        b1: Self,
        r2: Map<ChunkPos, (ChunkMesh, T)>,
        b2: Self,
    )
        requires
            b0.wf(),
            Self::polled(b0, r1, b1),
            Self::polled(b1, r2, b2),
        ensures
            forall|p: ChunkPos| #[trigger] r1.contains_key(p)
                ==> b0.built()[p].1.spec_version() == b0.version_of(p) && r1[p].1 == b0.built()[p].1.spec_data(),
            r2 == Map::<ChunkPos, (ChunkMesh, T)>::empty(),
    {
        assert(r2.dom() =~= Set::<ChunkPos>::empty());
        assert(r2 =~= Map::<ChunkPos, (ChunkMesh, T)>::empty());
    }

    /// Wraps `chunk_builder`.
    pub fn new(chunk_builder: B) -> (r: Self)
        requires
            chunk_builder.wf(),
        ensures
            r.wf(),
            r.inner() == chunk_builder,
            r.versions() == Map::<ChunkPos, Version>::empty(),
            r.built() == Map::<ChunkPos, (ChunkMesh, DecoratedData<T>)>::empty(),
    {
        VersionedChunkBuilder {
            chunk_builder,
            latest_chunk_mesh_versions: PosMap::new(),
            latest_builded_chunks: PosMap::new(),
        }
    }

    /// The latest version of `pos`; 0 when it was never built.
    pub fn get_chunk_mesh_version(&self, pos: ChunkPos) -> (r: Version)
        requires
            self.wf(),
        ensures
            r == self.version_of(pos),
    {
        match self.latest_chunk_mesh_versions.get(pos) {
            Some(v) => *v,
            None => 0,
        }
    }

    /// Advances the latest version of `pos`, wrapping around, and returns it;
    /// a kept mesh of `pos`, no longer the latest, is dropped.
    pub fn increment_chunk_mesh_version(&mut self, pos: ChunkPos) -> (r: Version)
        requires
            old(self).wf(),
        ensures
            final(self).wf(),
            r == next_version(old(self).version_of(pos)),
            final(self).versions() == old(self).versions().insert(pos, r),
            final(self).built() == old(self).built().remove(pos),
            final(self).inner() == old(self).inner(),
    {
        self.latest_builded_chunks.remove(pos);
        let current = self.get_chunk_mesh_version(pos);
        let incremented_version = current.wrapping_add(1);
        self.latest_chunk_mesh_versions.insert(pos, incremented_version);
        proof {
            assert forall|p: ChunkPos| #[trigger] self.latest_builded_chunks@.contains_key(p)
                implies self.latest_builded_chunks@[p].1.version == version_in(self.latest_chunk_mesh_versions@, p) by {
                assert(p != pos);
            }
        }
        incremented_version
    }

    /// Sets the latest version of `pos`; a kept mesh of `pos`, no longer
    /// the latest, is dropped.
    pub fn set_chunk_mesh_version(&mut self, pos: ChunkPos, version: Version)
        requires
            old(self).wf(),
        ensures
            final(self).wf(),
            final(self).versions() == old(self).versions().insert(pos, version),
            final(self).built() == old(self).built().remove(pos),
            final(self).inner() == old(self).inner(),
    {
        self.latest_builded_chunks.remove(pos);
        self.latest_chunk_mesh_versions.insert(pos, version);
    }

    /// Requests a build of `chunk`; this newest request becomes the latest
    /// version of the chunk, and a kept mesh of an older version is dropped.
    pub fn build_chunk(&mut self, chunk_pos: ChunkPos, chunk: &Chunk, additional_data: T)
        requires
            old(self).wf(),
        ensures
            final(self).wf(),
            final(self).versions() == old(self).versions().insert(chunk_pos, next_version(old(self).version_of(chunk_pos))),
            final(self).built() == old(self).built().remove(chunk_pos),
            final(self).inner().holds_chunk(chunk_pos),
            final(self).inner().held_data(chunk_pos).spec_data() == additional_data,
            final(self).inner().held_chunk(chunk_pos) == chunk@,
            final(self).inner().held_data(chunk_pos).spec_version() == next_version(old(self).version_of(chunk_pos)),
            forall|q: ChunkPos| q != chunk_pos ==> #[trigger] final(self).inner().holds_chunk(q) == old(self).inner().holds_chunk(q),
            forall|q: ChunkPos| q != chunk_pos ==> #[trigger] final(self).inner().completed_chunk(q) == old(self).inner().completed_chunk(q),
    {
        let version = self.increment_chunk_mesh_version(chunk_pos);
        let decorated_data = DecoratedData { data: additional_data, version };
        self.chunk_builder.force_build(chunk_pos, chunk, decorated_data);
    }

    /// Advances the wrapped builder and keeps those of its finished meshes
    /// that were built with their chunk's latest version.
    pub fn update(&mut self, player_pos: ChunkPos)
        requires
            old(self).wf(),
        ensures
            final(self).wf(),
            final(self).versions() == old(self).versions(),
            forall|p: ChunkPos| #[trigger] old(self).built().contains_key(p) ==> final(self).built().contains_key(p),
            forall|p: ChunkPos| #[trigger] final(self).built().contains_key(p) ==> final(self).built()[p].1.spec_version() == final(self).version_of(p),
            forall|p: ChunkPos| #[trigger] final(self).built().contains_key(p) ==> old(self).built().contains_key(p)
                || old(self).inner().holds_chunk(p),
            forall|p: ChunkPos| #[trigger] final(self).inner().holds_chunk(p) ==> old(self).inner().holds_chunk(p),
            forall|p: ChunkPos| !#[trigger] final(self).inner().completed_chunk(p),
            forall|p: ChunkPos| handed_out_after_update(old(self).inner(), p) is Some
                ==> !#[trigger] final(self).inner().holds_chunk(p),
            forall|p: ChunkPos|
                #![trigger final(self).built().contains_key(p)]
                (handed_out_after_update(old(self).inner(), p) matches Some(e) && e.1.spec_version() == old(self).version_of(p))
                ==> final(self).built().contains_key(p)
                && final(self).built()[p] == handed_out_after_update(old(self).inner(), p)->0,
    {
        self.chunk_builder.update(player_pos);
        let ghost mid = self.chunk_builder;
        let mut completed = self.chunk_builder.poll_completed();
        proof {
            completed.lemma_wf();
        }
        let ghost polled = completed@;
        let ghost inner_after = self.chunk_builder;
        let mut entries = completed.take_entries();
        let ghost es = entries@;
        proof {
            assert forall|a: int| 0 <= a < es.len() implies polled[#[trigger] es[a].0] == es[a].1 by {
                assert(polled.contains_key(es[a].0));
            }
        }
        while entries.len() > 0
            invariant
                self.wf(),
                self.chunk_builder == inner_after,
                entries@.len() <= es.len(),
                self.latest_chunk_mesh_versions@ == old(self).latest_chunk_mesh_versions@,
                forall|p: ChunkPos| #[trigger] old(self).latest_builded_chunks@.contains_key(p) ==> self.latest_builded_chunks@.contains_key(p),
                entries@ == es.subrange(0, entries@.len() as int),
                forall|a: int| 0 <= a < es.len() ==> #[trigger] polled.contains_key(es[a].0),
                forall|p: ChunkPos| #[trigger] self.latest_builded_chunks@.contains_key(p)
                    ==> old(self).latest_builded_chunks@.contains_key(p) || polled.contains_key(p),
                forall|a: int, b: int| 0 <= a < es.len() && 0 <= b < es.len() && a != b ==> #[trigger] es[a].0 != #[trigger] es[b].0,
                forall|a: int| 0 <= a < es.len() ==> polled[#[trigger] es[a].0] == es[a].1,
                forall|a: int| entries@.len() <= a < es.len() && (#[trigger] es[a]).1.1.version == version_in(self.latest_chunk_mesh_versions@, es[a].0)
                    ==> self.latest_builded_chunks@.contains_key(es[a].0) && self.latest_builded_chunks@[es[a].0] == es[a].1,
            decreases entries@.len(),
        {
            let entry = entries.pop().unwrap();
            let ghost a = entries@.len() as int;
            let ghost e = entry;
            let ghost before = self.latest_builded_chunks@;
            let (chunk_pos, (mesh, decorated_data)) = entry;
            proof {
                assert(es[a] == e);
                assert(es[a].0 == chunk_pos);
            }
            let latest = self.get_chunk_mesh_version(chunk_pos);
            if decorated_data.version == latest {
                self.latest_builded_chunks.insert(chunk_pos, (mesh, decorated_data));
            }
            proof {
                assert forall|b: int| entries@.len() <= b < es.len() && (#[trigger] es[b]).1.1.version == version_in(self.latest_chunk_mesh_versions@, es[b].0)
                    implies self.latest_builded_chunks@.contains_key(es[b].0) && self.latest_builded_chunks@[es[b].0] == es[b].1 by {
                    if b != a {
                        assert(es[b].0 != es[a].0);
                    }
                }
            }
        }
        proof {
            assert forall|p: ChunkPos| handed_out_after_update(old(self).chunk_builder, p) is Some
                implies !#[trigger] self.chunk_builder.holds_chunk(p) by {
                assert(mid.completed_chunk(p));
                assert(polled.contains_key(p));
            }
            assert forall|p: ChunkPos|
                #![trigger self.latest_builded_chunks@.contains_key(p)]
                (handed_out_after_update(old(self).chunk_builder, p) matches Some(e) && e.1.spec_version() == old(self).version_of(p))
                implies self.latest_builded_chunks@.contains_key(p)
                && self.latest_builded_chunks@[p] == handed_out_after_update(old(self).chunk_builder, p)->0 by {
                assert(mid.completed_chunk(p));
                assert(polled.contains_key(p));
                let a = choose|a: int| 0 <= a < es.len() && #[trigger] es[a].0 == p;
                assert(polled[es[a].0] == es[a].1);
            }
        }
    }

    /// Removes a chunk from the wrapped builder, cancelling its build.
    pub fn remove_chunk(&mut self, chunk_pos: ChunkPos)
        requires
            old(self).wf(),
        ensures
            final(self).wf(),
            final(self).versions() == old(self).versions(),
            final(self).built() == old(self).built(),
            !final(self).inner().holds_chunk(chunk_pos),
            !final(self).inner().completed_chunk(chunk_pos),
            forall|q: ChunkPos| q != chunk_pos ==> #[trigger] final(self).inner().holds_chunk(q) == old(self).inner().holds_chunk(q),
            forall|q: ChunkPos| q != chunk_pos ==> #[trigger] final(self).inner().completed_chunk(q) == old(self).inner().completed_chunk(q),
    {
        self.chunk_builder.remove_chunk(chunk_pos);
    }

    /// Cancels all builds of the wrapped builder.
    pub fn clear_all(&mut self)
        requires
            old(self).wf(),
        ensures
            final(self).wf(),
            final(self).versions() == old(self).versions(),
            final(self).built() == old(self).built(),
            forall|q: ChunkPos| !#[trigger] final(self).inner().holds_chunk(q),
            forall|q: ChunkPos| !#[trigger] final(self).inner().completed_chunk(q),
    {
        self.chunk_builder.clear_all();
    }

    /// Hands out every kept mesh with its data, and forgets them; each was
    /// built with the latest version of its chunk.
    pub fn poll_completed(&mut self) -> (r: PosMap<(ChunkMesh, T)>)
        requires
            old(self).wf(),
        ensures
            final(self).wf(),
            r.wf(),
            final(self).versions() == old(self).versions(),
            final(self).inner() == old(self).inner(),
            final(self).built() == Map::<ChunkPos, (ChunkMesh, DecoratedData<T>)>::empty(),
            r@.dom() == old(self).built().dom(),
            forall|p: ChunkPos| #[trigger] r@.contains_key(p) ==> r@[p].0 == old(self).built()[p].0,
            Self::polled(*old(self), r@, *final(self)),
            forall|p: ChunkPos| #[trigger] r@.contains_key(p) ==> r@[p].1 == old(self).built()[p].1.spec_data()
                && old(self).built()[p].1.spec_version() == old(self).version_of(p),
    {
        proof {
            self.latest_builded_chunks.lemma_wf();
        }
        let ghost ob = self.latest_builded_chunks@;
        let mut entries = self.latest_builded_chunks.take_entries();
        let ghost es = entries@;
        let mut out: PosMap<(ChunkMesh, T)> = PosMap::new();
        while entries.len() > 0
            invariant
                self.wf(),
                self.latest_chunk_mesh_versions@ == old(self).latest_chunk_mesh_versions@,
                self.latest_builded_chunks@ == Map::<ChunkPos, (ChunkMesh, DecoratedData<T>)>::empty(),
                out.wf(),
                entries@ == es.subrange(0, entries@.len() as int),
                entries@.len() <= es.len(),
                forall|a: int, b: int| 0 <= a < es.len() && 0 <= b < es.len() && a != b ==> #[trigger] es[a].0 != #[trigger] es[b].0,
                forall|a: int| 0 <= a < es.len() ==> #[trigger] ob.contains_key(es[a].0) && ob[es[a].0] == es[a].1,
                forall|p: ChunkPos| #[trigger] ob.contains_key(p) ==> exists|a: int| 0 <= a < es.len() && #[trigger] es[a].0 == p,
                forall|p: ChunkPos| #[trigger] out@.contains_key(p) <==> exists|a: int| entries@.len() <= a < es.len() && #[trigger] es[a].0 == p,
                forall|p: ChunkPos| #[trigger] out@.contains_key(p) ==> out@[p].1 == ob[p].1.data && out@[p].0 == ob[p].0,
            decreases entries@.len(),
        {
            let entry = entries.pop().unwrap();
            let ghost a = entries@.len() as int;
            let ghost e = entry;
            let (chunk_pos, (mesh, decorated_data)) = entry;
            out.insert(chunk_pos, (mesh, decorated_data.data));
            proof {
                assert(es[a] == e);
                assert(es[a].0 == chunk_pos);
                assert(ob.contains_key(es[a].0));
                assert(ob[chunk_pos] == es[a].1);
                assert(ob[chunk_pos].1.data == decorated_data.data);
                assert forall|p: ChunkPos| #[trigger] out@.contains_key(p) <==> exists|b: int| entries@.len() <= b < es.len() && #[trigger] es[b].0 == p by {
                    if p == chunk_pos {
                        assert(es[a].0 == p);
                    }
                }
                assert forall|p: ChunkPos| #[trigger] out@.contains_key(p) implies out@[p].1 == ob[p].1.data && out@[p].0 == ob[p].0 by {
                    if p != chunk_pos {
                    }
                }
            }
        }
        proof {
            assert forall|p: ChunkPos| out@.dom().contains(p) <==> ob.dom().contains(p) by {
                if ob.contains_key(p) {
                    let a = choose|a: int| 0 <= a < es.len() && #[trigger] es[a].0 == p;
                }
            }
            assert(out@.dom() =~= ob.dom());
        }
        out
    }
}

impl<T, B: ChunkBuilder<DecoratedData<T>>> Versioned<T> for VersionedChunkBuilder<T, B> {
    open spec fn versioned_wf(&self) -> bool {
        self.wf()
    }

    /// Whether a mesh of `chunk_pos` built with its latest version is kept.
    fn is_chunk_with_latest_version_built(&self, chunk_pos: ChunkPos) -> (r: bool)
        ensures
            r == (self.built().contains_key(chunk_pos)
                && self.built()[chunk_pos].1.spec_version() == self.version_of(chunk_pos)),
    {
        let version = self.get_chunk_mesh_version(chunk_pos);
        match self.latest_builded_chunks.get(chunk_pos) {
            Some(chunk) => chunk.1.version == version,
            None => false,
        }
    }

    /// Takes the kept mesh of `chunk_pos`, built with its latest version.
    fn take_chunk_built_with_latest_version(&mut self, chunk_pos: ChunkPos) -> (r: Option<(ChunkMesh, T)>)
        ensures
            final(self).built() == old(self).built().remove(chunk_pos),
            final(self).versions() == old(self).versions(),
            r is Some <==> old(self).built().contains_key(chunk_pos),
            r is Some ==> (r->0).1 == old(self).built()[chunk_pos].1.spec_data()
                && old(self).built()[chunk_pos].1.spec_version() == old(self).version_of(chunk_pos),
    {
        match self.latest_builded_chunks.remove(chunk_pos) {
            Some((mesh, data)) => Some((mesh, data.data)),
            None => None,
        }
    }
}

} // verus!
