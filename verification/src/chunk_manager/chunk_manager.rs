//! A synchronous chunk manager: loads the chunks in load distance of the
//! controller and draws those in render distance, all in one update.
use vstd::prelude::*;
use crate::types::{Chunk, ChunkPos};
use crate::chunk_mesh_builder::chunk_mesh::ChunkMesh;
use crate::chunk_state_manager::chunk_state::ChunkState;
use crate::chunk_state_manager::physical_world::PhysicalWorld;
use crate::chunk_state_manager::chunk_state_manager::{
    ChunkLoader, in_visit_range, visit_fits, visit_chunks_in_distance, position_listed, answered,
    lemma_answered_extends,
};

verus! {

/// Builds the mesh of a chunk at once.
pub trait ChunkBuilder {
    /// The mesh this builder makes of `chunk`; an implementation states it
    /// by overriding this definition, which leaves it unspecified.
    open spec fn mesh_of(&self, chunk: Chunk) -> ChunkMesh {
        arbitrary()
    }

    /// The mesh of `chunk`.
    fn build_chunk(&self, chunk: &Chunk) -> (r: ChunkMesh)
        ensures
            r == self.mesh_of(*chunk),
    ;
}

/// Distances that drive the manager, in chunks; the render distance never
/// exceeds the load distance.
#[derive(Debug, PartialEq)]
pub struct Config {
    load_distance: usize,
    render_distance: usize,
}

impl Config {
    /// The load distance.
    pub closed spec fn load(&self) -> usize {
        self.load_distance
    }

    /// The render distance.
    pub closed spec fn render(&self) -> usize {
        self.render_distance
    }

    /// The render distance is at most the load distance.
    #[verifier::type_invariant]
    closed spec fn render_within_load(self) -> bool {
        self.render_distance <= self.load_distance
    }

    /// A configuration; the render distance may not exceed the load distance.
    pub fn new(load_distance: usize, render_distance: usize) -> (r: Config)
        requires
            render_distance <= load_distance,
        ensures
            r.load() == load_distance,
            r.render() == render_distance,
    {
        Config { load_distance, render_distance }
    }
}

impl Clone for Config {
    /// A copy with the same distances.
    fn clone(&self) -> (r: Self)
        ensures
            r == *self,
    {
        proof {
            use_type_invariant(self);
        }
        Config { load_distance: self.load_distance, render_distance: self.render_distance }
    }
}

/// The chunk positions within `dist` chunks of `controller_pos` on the
/// horizontal grid, row by row, each once.
pub fn for_each_chunk_in_distance(controller_pos: ChunkPos, dist: usize) -> (r: Vec<ChunkPos>)
    requires
        visit_fits(controller_pos, dist as int, false),
    ensures
        r@.no_duplicates(),
        forall|p: ChunkPos| r@.contains(p) <==> in_visit_range(controller_pos, dist as int, false, p),
{
    visit_chunks_in_distance(controller_pos, dist, false)
}

/// A smaller distance visits fewer positions.
pub proof fn lemma_visit_range_monotone(c: ChunkPos, d1: int, d2: int, p: ChunkPos)
    requires
        0 <= d1 <= d2,
        in_visit_range(c, d1, false, p),
    ensures
        in_visit_range(c, d2, false, p),
{
}

/// Manages chunks dependent on the controller position.
pub struct ChunkManager<L, B> {
    world: PhysicalWorld,
    chunk_loader: L,
    chunk_builder: B,
    config: Config,
    last_controller_pos: Option<ChunkPos>,
}

impl<L: ChunkLoader, B: ChunkBuilder> ChunkManager<L, B> {
    /// The world.
    pub closed spec fn spec_world(&self) -> PhysicalWorld {
        self.world
    }

    /// The configuration.
    pub closed spec fn spec_config(&self) -> Config {
        self.config
    }

    /// The mesh builder.
    pub closed spec fn builder(&self) -> B {
        self.chunk_builder
    }

    /// The chunk loader.
    pub closed spec fn loader(&self) -> L {
        self.chunk_loader
    }

    /// The controller position of the last update, if any.
    pub closed spec fn last_pos(&self) -> Option<ChunkPos> {
        self.last_controller_pos
    }

    /// Whether `pos` is loaded around a controller at `c`.
    pub open spec fn loads(&self, c: ChunkPos, pos: ChunkPos) -> bool {
        in_visit_range(c, self.spec_config().load() as int, false, pos)
    }

    /// Whether `pos` is drawn around a controller at `c`.
    pub open spec fn draws(&self, c: ChunkPos, pos: ChunkPos) -> bool {
        in_visit_range(c, self.spec_config().render() as int, false, pos)
    }

    /// Invariant: every chunk with a state is loaded or drawn and has its
    /// data; exactly the drawn chunks have a mesh, the builder's mesh of
    /// their data.
    pub closed spec fn wf(&self) -> bool {
        &&& self.world.wf()
        &&& forall|p: ChunkPos| #[trigger] self.world.states().contains_key(p)
            ==> self.world.states()[p] == ChunkState::Loaded || self.world.states()[p] == ChunkState::Drawn
        &&& forall|p: ChunkPos| #[trigger] self.world.chunks().contains_key(p)
            <==> self.world.states().contains_key(p)
        &&& forall|p: ChunkPos| #[trigger] self.world.meshes().contains_key(p)
            <==> self.world.state(p) == ChunkState::Drawn
        &&& forall|p: ChunkPos| #[trigger] self.world.meshes().contains_key(p)
            ==> self.world.meshes()[p] == self.chunk_builder.mesh_of(self.world.chunks()[p])
    }

    /// A manager with an empty world that has seen no controller position.
    pub fn new(chunk_loader: L, chunk_builder: B, config: Config) -> (r: Self)
        ensures
            r.wf(),
            r.spec_world().states() == Map::<ChunkPos, ChunkState>::empty(),
            r.spec_config() == config,
            r.builder() == chunk_builder,
            r.loader() == chunk_loader,
            r.last_pos() is None,
    {
        ChunkManager {
            world: PhysicalWorld::new(),
            chunk_loader,
            chunk_builder,
            config,
            last_controller_pos: None,
        }
    }

    /// The world.
    pub fn get_world(&self) -> (r: &PhysicalWorld)
        ensures
            *r == self.spec_world(),
    {
        &self.world
    }

    /// Updates the world for the controller at `controller_pos`, unless it
    /// has not moved since the last update; returns whether it updated.
    /// Afterwards the world holds exactly the chunks in load distance, and
    /// exactly those in render distance are drawn.
    pub fn update(&mut self, controller_pos: ChunkPos) -> (r: bool)
        requires
            old(self).wf(),
            visit_fits(controller_pos, old(self).spec_config().load() as int, false),
        ensures
            final(self).wf(),
            final(self).spec_config() == old(self).spec_config(),
            final(self).builder() == old(self).builder(),
            old(self).loader().loads().is_prefix_of(final(self).loader().loads()),
            !r ==> final(self).loader() == old(self).loader(),
            r ==> forall|p: ChunkPos| !old(self).spec_world().chunks().contains_key(p)
                && #[trigger] final(self).spec_world().chunks().contains_key(p)
                ==> answered(final(self).loader().loads(), old(self).loader().loads().len() as int, p, final(self).spec_world().chunks()[p]),
            final(self).last_pos() == Some(controller_pos),
            r == (old(self).last_pos() != Some(controller_pos)),
            !r ==> final(self).spec_world() == old(self).spec_world(),
            r ==> forall|p: ChunkPos| #[trigger] final(self).spec_world().states().contains_key(p)
                <==> final(self).loads(controller_pos, p),
            r ==> forall|p: ChunkPos| final(self).spec_world().states().contains_key(p)
                ==> #[trigger] final(self).spec_world().states()[p] == (if final(self).draws(controller_pos, p) {
                ChunkState::Drawn
            } else {
                ChunkState::Loaded
            }),
            r ==> forall|p: ChunkPos| old(self).spec_world().chunks().contains_key(p)
                && #[trigger] final(self).spec_world().chunks().contains_key(p)
                ==> final(self).spec_world().chunks()[p] == old(self).spec_world().chunks()[p],
            r ==> forall|p: ChunkPos| #[trigger] final(self).spec_world().meshes().contains_key(p)
                <==> final(self).draws(controller_pos, p),
            r ==> forall|p: ChunkPos| #[trigger] final(self).spec_world().meshes().contains_key(p)
                ==> final(self).spec_world().meshes()[p] == old(self).builder().mesh_of(final(self).spec_world().chunks()[p]),
    {
        if let Some(last_controller_pos) = self.last_controller_pos {
            if controller_pos == last_controller_pos {
                return false;
            }
        }
        self.update_all_chunks_in_controller_range(controller_pos);
        self.last_controller_pos = Some(controller_pos);
        proof {
            use_type_invariant(&self.config);
            assert forall|p: ChunkPos| #[trigger] self.world.meshes().contains_key(p)
                <==> self.draws(controller_pos, p) by {
                if self.draws(controller_pos, p) {
                    lemma_visit_range_monotone(controller_pos, self.config.render_distance as int, self.config.load_distance as int, p);
                }
            }
        }
        true
    }

    /// Loads the chunks in load distance that have no state yet.
    fn load_missing_chunks(&mut self, positions: &Vec<ChunkPos>)
        requires
            old(self).wf(),
            positions@.no_duplicates(),
        ensures
            final(self).wf(),
            final(self).config == old(self).config,
            final(self).last_controller_pos == old(self).last_controller_pos,
            final(self).chunk_builder == old(self).chunk_builder,
            old(self).chunk_loader.loads().is_prefix_of(final(self).chunk_loader.loads()),
            forall|p: ChunkPos| !old(self).world.chunks().contains_key(p) && #[trigger] final(self).world.chunks().contains_key(p)
                ==> answered(final(self).chunk_loader.loads(), old(self).chunk_loader.loads().len() as int, p, final(self).world.chunks()[p]),
            forall|p: ChunkPos| #[trigger] final(self).world.states().contains_key(p)
                <==> (old(self).world.states().contains_key(p) || positions@.contains(p)),
            forall|p: ChunkPos| #[trigger] old(self).world.states().contains_key(p)
                ==> final(self).world.states()[p] == old(self).world.states()[p],
            forall|p: ChunkPos| !old(self).world.states().contains_key(p) && #[trigger] final(self).world.states().contains_key(p)
                ==> final(self).world.states()[p] == ChunkState::Loaded,
            forall|p: ChunkPos| old(self).world.chunks().contains_key(p)
                ==> #[trigger] final(self).world.chunks()[p] == old(self).world.chunks()[p],
    {
        let mut i: usize = 0;
        while i < positions.len()
            invariant
                self.wf(),
                self.config == old(self).config,
                self.last_controller_pos == old(self).last_controller_pos,
                self.chunk_builder == old(self).chunk_builder,
                old(self).chunk_loader.loads().is_prefix_of(self.chunk_loader.loads()),
                forall|p: ChunkPos| !old(self).world.chunks().contains_key(p) && #[trigger] self.world.chunks().contains_key(p)
                    ==> answered(self.chunk_loader.loads(), old(self).chunk_loader.loads().len() as int, p, self.world.chunks()[p]),
                i <= positions@.len(),
                forall|p: ChunkPos| #[trigger] self.world.states().contains_key(p)
                    <==> (old(self).world.states().contains_key(p) || positions@.subrange(0, i as int).contains(p)),
                forall|p: ChunkPos| #[trigger] old(self).world.states().contains_key(p)
                    ==> self.world.states()[p] == old(self).world.states()[p],
                forall|p: ChunkPos| !old(self).world.states().contains_key(p) && #[trigger] self.world.states().contains_key(p)
                    ==> self.world.states()[p] == ChunkState::Loaded,
                forall|p: ChunkPos| old(self).world.chunks().contains_key(p)
                    ==> #[trigger] self.world.chunks()[p] == old(self).world.chunks()[p],
                forall|p: ChunkPos| old(self).world.chunks().contains_key(p) ==> #[trigger] self.world.chunks().contains_key(p),
            decreases positions@.len() - i,
        {
            let pos = positions[i];
            let ghost before = self.world;
            let ghost loads_before = self.chunk_loader.loads();
            if !self.world.has_chunk_state(pos) {
                let chunk = self.chunk_loader.load_chunk(pos);
                self.world.set_chunk(pos, chunk);
                self.world.set_chunk_state(pos, ChunkState::Loaded);
                proof {
                    let n = loads_before.len() as int;
                    assert(self.chunk_loader.loads()[n] == (pos, self.world.chunks()[pos]));
                    assert forall|p: ChunkPos| !old(self).world.chunks().contains_key(p) && #[trigger] self.world.chunks().contains_key(p)
                        implies answered(self.chunk_loader.loads(), old(self).chunk_loader.loads().len() as int, p, self.world.chunks()[p]) by {
                        if p != pos {
                            lemma_answered_extends(loads_before, self.chunk_loader.loads(), old(self).chunk_loader.loads().len() as int, p, self.world.chunks()[p]);
                        }
                    }
                }
            }
            proof {
                let sub0 = positions@.subrange(0, i as int);
                let sub1 = positions@.subrange(0, i + 1);
                assert(sub1 =~= sub0.push(pos));
                assert forall|p: ChunkPos| #[trigger] self.world.states().contains_key(p)
                    <==> (old(self).world.states().contains_key(p) || sub1.contains(p)) by {
                    if sub0.contains(p) {
                        let k = choose|k: int| 0 <= k < sub0.len() && sub0[k] == p;
                        assert(sub1[k] == p);
                    }
                    if sub1.contains(p) && p != pos {
                        let k = choose|k: int| 0 <= k < sub1.len() && sub1[k] == p;
                        assert(sub0[k] == p);
                    }
                    if p == pos {
                        assert(sub1[sub0.len() as int] == p);
                    }
                }
                assert forall|p: ChunkPos| old(self).world.chunks().contains_key(p)
                    implies #[trigger] self.world.chunks()[p] == old(self).world.chunks()[p] by {
                    if p == pos {
                        assert(before.chunks().contains_key(p));
                        assert(before.states().contains_key(p));
                    }
                }
            }
            i = i + 1;
        }
        proof {
            assert(positions@.subrange(0, i as int) =~= positions@);
        }
    }

    /// Draws the loaded chunks in render distance.
    fn draw_chunks(&mut self, positions: &Vec<ChunkPos>)
        requires
            old(self).wf(),
            positions@.no_duplicates(),
        ensures
            final(self).wf(),
            final(self).config == old(self).config,
            final(self).last_controller_pos == old(self).last_controller_pos,
            final(self).chunk_builder == old(self).chunk_builder,
            final(self).chunk_loader == old(self).chunk_loader,
            final(self).world.chunks() == old(self).world.chunks(),
            forall|p: ChunkPos| #[trigger] final(self).world.states().contains_key(p)
                <==> old(self).world.states().contains_key(p),
            forall|p: ChunkPos| #[trigger] final(self).world.states().contains_key(p)
                ==> final(self).world.states()[p] == (if positions@.contains(p) {
                ChunkState::Drawn
            } else {
                old(self).world.states()[p]
            }),
    {
        let mut i: usize = 0;
        while i < positions.len()
            invariant
                self.wf(),
                self.config == old(self).config,
                self.last_controller_pos == old(self).last_controller_pos,
                self.chunk_builder == old(self).chunk_builder,
                self.chunk_loader == old(self).chunk_loader,
                i <= positions@.len(),
                self.world.chunks() == old(self).world.chunks(),
                forall|p: ChunkPos| #[trigger] self.world.states().contains_key(p)
                    <==> old(self).world.states().contains_key(p),
                forall|p: ChunkPos| #[trigger] self.world.states().contains_key(p)
                    ==> self.world.states()[p] == (if positions@.subrange(0, i as int).contains(p) {
                    ChunkState::Drawn
                } else {
                    old(self).world.states()[p]
                }),
            decreases positions@.len() - i,
        {
            let pos = positions[i];
            let ghost before = self.world;
            if self.world.has_chunk_state(pos) && self.world.get_chunk_state(pos) == ChunkState::Loaded {
                self.world.set_chunk_state(pos, ChunkState::ToDraw);
                self.draw_chunk(pos);
            }
            proof {
                let sub0 = positions@.subrange(0, i as int);
                let sub1 = positions@.subrange(0, i + 1);
                assert(sub1 =~= sub0.push(pos));
                assert forall|p: ChunkPos| #[trigger] self.world.states().contains_key(p)
                    implies self.world.states()[p] == (if sub1.contains(p) {
                    ChunkState::Drawn
                } else {
                    old(self).world.states()[p]
                }) by {
                    if sub0.contains(p) {
                        let k = choose|k: int| 0 <= k < sub0.len() && sub0[k] == p;
                        assert(sub1[k] == p);
                    }
                    if sub1.contains(p) && p != pos {
                        let k = choose|k: int| 0 <= k < sub1.len() && sub1[k] == p;
                        assert(sub0[k] == p);
                    }
                    if p == pos {
                        assert(sub1[sub0.len() as int] == p);
                    }
                }
            }
            i = i + 1;
        }
        proof {
            assert(positions@.subrange(0, i as int) =~= positions@);
        }
    }

    /// Builds and stores the mesh of the loaded chunk at `pos`, which is then drawn.
    fn draw_chunk(&mut self, pos: ChunkPos)
        requires
            old(self).world.wf(),
            old(self).world.chunks().contains_key(pos),
        ensures
            final(self).world.wf(),
            final(self).config == old(self).config,
            final(self).last_controller_pos == old(self).last_controller_pos,
            final(self).chunk_builder == old(self).chunk_builder,
            final(self).chunk_loader == old(self).chunk_loader,
            final(self).world.chunks() == old(self).world.chunks(),
            final(self).world.states() == old(self).world.states().insert(pos, ChunkState::Drawn),
            final(self).world.meshes() == old(self).world.meshes().insert(pos, old(self).chunk_builder.mesh_of(old(self).world.chunks()[pos])),
    {
        match self.world.get_chunk(pos) {
            Some(chunk) => {
                let chunk_mesh = self.chunk_builder.build_chunk(chunk);
                self.world.add_chunk_mesh(pos, chunk_mesh);
                self.world.set_chunk_state(pos, ChunkState::Drawn);
            },
            None => {},
        }
    }

    /// Takes the mesh of every drawn chunk outside render distance; the chunk
    /// stays loaded.
    fn undraw_chunks(&mut self, render_positions: &Vec<ChunkPos>)
        requires
            old(self).wf(),
        ensures
            final(self).wf(),
            final(self).config == old(self).config,
            final(self).last_controller_pos == old(self).last_controller_pos,
            final(self).chunk_builder == old(self).chunk_builder,
            final(self).chunk_loader == old(self).chunk_loader,
            final(self).world.chunks() == old(self).world.chunks(),
            forall|p: ChunkPos| #[trigger] final(self).world.states().contains_key(p)
                <==> old(self).world.states().contains_key(p),
            forall|p: ChunkPos| #[trigger] final(self).world.states().contains_key(p)
                ==> final(self).world.states()[p] == (if render_positions@.contains(p) {
                old(self).world.states()[p]
            } else {
                ChunkState::Loaded
            }),
    {
        let drawn_chunks = self.world.get_chunks_with_state(ChunkState::Drawn);
        let mut i: usize = 0;
        while i < drawn_chunks.len()
            invariant
                self.wf(),
                self.config == old(self).config,
                self.last_controller_pos == old(self).last_controller_pos,
                self.chunk_builder == old(self).chunk_builder,
                self.chunk_loader == old(self).chunk_loader,
                i <= drawn_chunks@.len(),
                drawn_chunks@.no_duplicates(),
                forall|p: ChunkPos| drawn_chunks@.contains(p)
                    <==> (old(self).world.states().contains_key(p) && old(self).world.states()[p] == ChunkState::Drawn),
                self.world.chunks() == old(self).world.chunks(),
                forall|p: ChunkPos| #[trigger] self.world.states().contains_key(p)
                    <==> old(self).world.states().contains_key(p),
                forall|p: ChunkPos| #[trigger] self.world.states().contains_key(p)
                    ==> self.world.states()[p] == (if drawn_chunks@.subrange(0, i as int).contains(p) && !render_positions@.contains(p) {
                    ChunkState::Loaded
                } else {
                    old(self).world.states()[p]
                }),
            decreases drawn_chunks@.len() - i,
        {
            let pos = drawn_chunks[i];
            let ghost before = self.world;
            if !position_listed(render_positions, pos) {
                self.world.remove_chunk_mesh(pos);
                self.world.set_chunk_state(pos, ChunkState::Loaded);
                proof {
                    assert forall|p: ChunkPos| #[trigger] self.world.meshes().contains_key(p)
                        <==> self.world.state(p) == ChunkState::Drawn by {
                        assert(before.meshes().contains_key(p) <==> before.state(p) == ChunkState::Drawn);
                    }
                }
            }
            proof {
                let sub0 = drawn_chunks@.subrange(0, i as int);
                let sub1 = drawn_chunks@.subrange(0, i + 1);
                assert(sub1 =~= sub0.push(pos));
                assert(drawn_chunks@.contains(pos));
                assert forall|p: ChunkPos| #[trigger] self.world.states().contains_key(p)
                    implies self.world.states()[p] == (if sub1.contains(p) && !render_positions@.contains(p) {
                    ChunkState::Loaded
                } else {
                    old(self).world.states()[p]
                }) by {
                    if sub0.contains(p) {
                        let k = choose|k: int| 0 <= k < sub0.len() && sub0[k] == p;
                        assert(sub1[k] == p);
                    }
                    if sub1.contains(p) && p != pos {
                        let k = choose|k: int| 0 <= k < sub1.len() && sub1[k] == p;
                        assert(sub0[k] == p);
                    }
                    if p == pos {
                        assert(sub1[sub0.len() as int] == p);
                        assert(!sub0.contains(p)) by {
                            if sub0.contains(p) {
                                let k = choose|k: int| 0 <= k < sub0.len() && sub0[k] == p;
                                assert(drawn_chunks@[k] == drawn_chunks@[i as int]);
                            }
                        }
                    }
                }
            }
            i = i + 1;
        }
        proof {
            assert(drawn_chunks@.subrange(0, i as int) =~= drawn_chunks@);
            assert forall|p: ChunkPos| #[trigger] self.world.states().contains_key(p)
                implies self.world.states()[p] == (if render_positions@.contains(p) {
                old(self).world.states()[p]
            } else {
                ChunkState::Loaded
            }) by {
                if !drawn_chunks@.contains(p) {
                    assert(old(self).world.states()[p] == ChunkState::Loaded);
                }
            }
        }
    }

    /// Removes every loaded (not drawn) chunk outside load distance.
    fn unload_chunks(&mut self, load_positions: &Vec<ChunkPos>)
        requires
            old(self).wf(),
        ensures
            final(self).wf(),
            final(self).config == old(self).config,
            final(self).last_controller_pos == old(self).last_controller_pos,
            final(self).chunk_builder == old(self).chunk_builder,
            final(self).chunk_loader == old(self).chunk_loader,
            forall|p: ChunkPos| #[trigger] final(self).world.states().contains_key(p)
                <==> (old(self).world.states().contains_key(p)
                && (load_positions@.contains(p) || old(self).world.states()[p] == ChunkState::Drawn)),
            forall|p: ChunkPos| #[trigger] final(self).world.states().contains_key(p)
                ==> final(self).world.states()[p] == old(self).world.states()[p],
            forall|p: ChunkPos| #[trigger] final(self).world.chunks().contains_key(p)
                ==> final(self).world.chunks()[p] == old(self).world.chunks()[p],
    {
        let loaded_chunks = self.world.get_chunks_with_state(ChunkState::Loaded);
        let mut i: usize = 0;
        while i < loaded_chunks.len()
            invariant
                self.wf(),
                self.config == old(self).config,
                self.last_controller_pos == old(self).last_controller_pos,
                self.chunk_builder == old(self).chunk_builder,
                self.chunk_loader == old(self).chunk_loader,
                i <= loaded_chunks@.len(),
                forall|p: ChunkPos| loaded_chunks@.contains(p)
                    <==> (old(self).world.states().contains_key(p) && old(self).world.states()[p] == ChunkState::Loaded),
                forall|p: ChunkPos| #[trigger] self.world.states().contains_key(p)
                    <==> (old(self).world.states().contains_key(p)
                    && !(loaded_chunks@.subrange(0, i as int).contains(p) && !load_positions@.contains(p))),
                forall|p: ChunkPos| #[trigger] self.world.states().contains_key(p)
                    ==> self.world.states()[p] == old(self).world.states()[p],
                forall|p: ChunkPos| #[trigger] self.world.chunks().contains_key(p)
                    ==> self.world.chunks()[p] == old(self).world.chunks()[p],
            decreases loaded_chunks@.len() - i,
        {
            let pos = loaded_chunks[i];
            let ghost before = self.world;
            if !position_listed(load_positions, pos) {
                self.world.remove_chunk(pos);
                proof {
                    assert forall|p: ChunkPos| #[trigger] self.world.meshes().contains_key(p)
                        <==> self.world.state(p) == ChunkState::Drawn by {
                        assert(before.meshes().contains_key(p) <==> before.state(p) == ChunkState::Drawn);
                    }
                }
            }
            proof {
                let sub0 = loaded_chunks@.subrange(0, i as int);
                let sub1 = loaded_chunks@.subrange(0, i + 1);
                assert(sub1 =~= sub0.push(pos));
                assert forall|p: ChunkPos| #[trigger] self.world.states().contains_key(p)
                    <==> (old(self).world.states().contains_key(p)
                    && !(sub1.contains(p) && !load_positions@.contains(p))) by {
                    if sub0.contains(p) {
                        let k = choose|k: int| 0 <= k < sub0.len() && sub0[k] == p;
                        assert(sub1[k] == p);
                    }
                    if sub1.contains(p) && p != pos {
                        let k = choose|k: int| 0 <= k < sub1.len() && sub1[k] == p;
                        assert(sub0[k] == p);
                    }
                    if p == pos {
                        assert(sub1[sub0.len() as int] == p);
                    }
                }
            }
            i = i + 1;
        }
        proof {
            assert(loaded_chunks@.subrange(0, i as int) =~= loaded_chunks@);
            assert forall|p: ChunkPos| #[trigger] self.world.states().contains_key(p)
                <==> (old(self).world.states().contains_key(p)
                && (load_positions@.contains(p) || old(self).world.states()[p] == ChunkState::Drawn)) by {
                if old(self).world.states().contains_key(p) && old(self).world.states()[p] == ChunkState::Loaded {
                    assert(loaded_chunks@.contains(p));
                }
            }
        }
    }

    /// Loads the chunks in load distance, draws those in render distance,
    /// takes the mesh of drawn chunks outside render distance and removes
    /// loaded chunks outside load distance.
    fn update_all_chunks_in_controller_range(&mut self, controller_pos: ChunkPos)
        requires
            old(self).wf(),
            visit_fits(controller_pos, old(self).spec_config().load() as int, false),
        ensures
            final(self).wf(),
            final(self).config == old(self).config,
            final(self).last_controller_pos == old(self).last_controller_pos,
            final(self).chunk_builder == old(self).chunk_builder,
            old(self).chunk_loader.loads().is_prefix_of(final(self).chunk_loader.loads()),
            forall|p: ChunkPos| !old(self).world.chunks().contains_key(p) && #[trigger] final(self).world.chunks().contains_key(p)
                ==> answered(final(self).chunk_loader.loads(), old(self).chunk_loader.loads().len() as int, p, final(self).world.chunks()[p]),
            forall|p: ChunkPos| #[trigger] final(self).world.states().contains_key(p)
                <==> old(self).loads(controller_pos, p),
            forall|p: ChunkPos| final(self).world.states().contains_key(p)
                ==> #[trigger] final(self).world.states()[p] == (if old(self).draws(controller_pos, p) {
                ChunkState::Drawn
            } else {
                ChunkState::Loaded
            }),
            forall|p: ChunkPos| old(self).world.chunks().contains_key(p)
                && #[trigger] final(self).world.chunks().contains_key(p)
                ==> final(self).world.chunks()[p] == old(self).world.chunks()[p],
    {
        proof {
            use_type_invariant(&self.config);
        }
        let ghost c = controller_pos;
        let ghost w0 = self.world;
        // empty -> loaded
        let chunks_in_load_distance = for_each_chunk_in_distance(controller_pos, self.config.load_distance);
        self.load_missing_chunks(&chunks_in_load_distance);
        let ghost w1 = self.world;
        // loaded -> drawn
        let chunks_in_render_distance = for_each_chunk_in_distance(controller_pos, self.config.render_distance);
        self.draw_chunks(&chunks_in_render_distance);
        let ghost w2 = self.world;
        // drawn -> loaded
        self.undraw_chunks(&chunks_in_render_distance);
        let ghost w3 = self.world;
        // loaded -> empty
        self.unload_chunks(&chunks_in_load_distance);
        proof {
            assert forall|p: ChunkPos| #[trigger] self.world.states().contains_key(p)
                <==> old(self).loads(c, p) by {
                if old(self).draws(c, p) {
                    lemma_visit_range_monotone(c, self.config.render_distance as int, self.config.load_distance as int, p);
                }
                if w2.states().contains_key(p) && w2.states()[p] == ChunkState::Drawn && !old(self).draws(c, p) {
                    assert(w3.states().contains_key(p));
                    assert(!chunks_in_render_distance@.contains(p));
                    assert(w3.states()[p] == ChunkState::Loaded);
                }
            }
            assert forall|p: ChunkPos| self.world.states().contains_key(p)
                implies #[trigger] self.world.states()[p] == (if old(self).draws(c, p) {
                ChunkState::Drawn
            } else {
                ChunkState::Loaded
            }) by {
                if old(self).draws(c, p) {
                    lemma_visit_range_monotone(c, self.config.render_distance as int, self.config.load_distance as int, p);
                }
            }
            assert forall|p: ChunkPos| old(self).world.chunks().contains_key(p)
                && #[trigger] self.world.chunks().contains_key(p)
                implies self.world.chunks()[p] == old(self).world.chunks()[p] by {
                assert(w0.states().contains_key(p));
                assert(w1.chunks()[p] == w0.chunks()[p]);
            }
            assert forall|p: ChunkPos| !old(self).world.chunks().contains_key(p) && #[trigger] self.world.chunks().contains_key(p)
                implies answered(self.chunk_loader.loads(), old(self).chunk_loader.loads().len() as int, p, self.world.chunks()[p]) by {
                assert(w3.chunks().contains_key(p));
                assert(w1.chunks().contains_key(p));
                assert(self.world.chunks()[p] == w3.chunks()[p]);
            }
        }
    }
}

} // verus!
