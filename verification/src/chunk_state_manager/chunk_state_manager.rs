//! Keeps chunk data, meshes and states in step with the controller position.
use vstd::prelude::*;
use crate::types::{BlockID, Chunk, ChunkPos, CHUNK_SIZE};
use crate::chunk_mesh_builder::chunk_mesh::ChunkMesh;
use crate::chunk_mesh_builder::builders::versioned_chunk_builder::{version_in, next_version};
use crate::chunk_manager::chunk_state_manager::{Config, within_distance};
use super::chunk_state::ChunkState;
use super::physical_world::{PhysicalWorld, Version, state_of};

verus! {

/// The quotient of `a` by `b` rounded toward zero, as integer division in
/// Rust computes it.
pub open spec fn div_toward_zero(a: int, b: int) -> int {
    if a >= 0 {
        a / b
    } else {
        -((-a) / b)
    }
}

/// The chunk-grid coordinate of a block coordinate, as the client computes it.
pub open spec fn grid_coord(a: int) -> int {
    div_toward_zero(a, CHUNK_SIZE as int)
}

/// Whether the block coordinate `a` is a multiple of the chunk size whose
/// grid coordinate lies in `lo..=hi`.
pub open spec fn on_grid_between(a: int, lo: int, hi: int) -> bool {
    a % (CHUNK_SIZE as int) == 0 && lo <= a / (CHUNK_SIZE as int) <= hi
}

/// Lowest and highest grid coordinate visited on the vertical axis: the
/// controller's layer and `dist` around it when loading vertically, else layer 0.
pub open spec fn z_range(center: ChunkPos, dist: int, vertical: bool) -> (int, int) {
    if vertical {
        (grid_coord(center.z as int) - dist, grid_coord(center.z as int) + dist)
    } else {
        (0, 0)
    }
}

/// Whether `p` is one of the chunk positions visited around `center`: those
/// whose grid cell is at most `dist` cells from the centre cell on each
/// horizontal axis, and on the vertical axis too when `vertical`, else in
/// layer 0.
pub open spec fn in_visit_range(center: ChunkPos, dist: int, vertical: bool, p: ChunkPos) -> bool {
    &&& on_grid_between(p.x as int, grid_coord(center.x as int) - dist, grid_coord(center.x as int) + dist)
    &&& on_grid_between(p.y as int, grid_coord(center.y as int) - dist, grid_coord(center.y as int) + dist)
    &&& on_grid_between(p.z as int, z_range(center, dist, vertical).0, z_range(center, dist, vertical).1)
}

/// Whether a grid coordinate `dist` cells away from `a`'s, scaled back to
/// block coordinates, fits in `isize`.
pub open spec fn axis_fits(a: int, dist: int) -> bool {
    (if grid_coord(a) >= 0 { grid_coord(a) } else { -grid_coord(a) }) + dist
        <= (isize::MAX as int) / (CHUNK_SIZE as int)
}

/// Whether every position visited around `center` fits in `isize`.
pub open spec fn visit_fits(center: ChunkPos, dist: int, vertical: bool) -> bool {
    &&& axis_fits(center.x as int, dist)
    &&& axis_fits(center.y as int, dist)
    &&& (vertical ==> axis_fits(center.z as int, dist))
}

/// Whether `p` comes before the grid cell `(x, y, z)` in visiting order:
/// layer by layer, row by row, cell by cell.
pub open spec fn visited_before(p: ChunkPos, x: int, y: int, z: int) -> bool {
    let s = CHUNK_SIZE as int;
    ||| (p.z as int) / s < z
    ||| (p.z as int) / s == z && (p.y as int) / s < y
    ||| (p.z as int) / s == z && (p.y as int) / s == y && (p.x as int) / s < x
}

/// The grid coordinate of a block coordinate.
fn grid_coord_of(a: isize) -> (r: isize)
    ensures
        r == grid_coord(a as int),
{
    let m: u128 = if a >= 0 {
        a as u128
    } else {
        (-(a as i128)) as u128
    };
    let q: u128 = m / 16;
    if a >= 0 {
        q as isize
    } else {
        -(q as isize)
    }
}

/// Whether a grid coordinate `dist` cells away from `a`'s fits, as `axis_fits`.
fn axis_fits_exec(a: isize, dist: usize) -> (r: bool)
    ensures
        r == axis_fits(a as int, dist as int),
{
    let g = grid_coord_of(a) as i128;
    let m: i128 = if g >= 0 { g } else { -g };
    m + (dist as i128) <= (isize::MAX as i128) / 16
}

/// Whether every position visited around `center` fits in `isize`.
pub fn visit_fits_exec(center: ChunkPos, dist: usize, vertical: bool) -> (r: bool)
    ensures
        r == visit_fits(center, dist as int, vertical),
{
    axis_fits_exec(center.x, dist) && axis_fits_exec(center.y, dist) && (!vertical || axis_fits_exec(center.z, dist))
}

/// Whether `pos` is one of `positions`.
pub fn position_listed(positions: &Vec<ChunkPos>, pos: ChunkPos) -> (r: bool)
    ensures
        r == positions@.contains(pos),
{
    let mut i: usize = 0;
    while i < positions.len()
        invariant
            i <= positions@.len(),
            forall|j: int| 0 <= j < i ==> positions@[j] != pos,
        decreases positions@.len() - i,
    {
        if positions[i] == pos {
            return true;
        }
        i = i + 1;
    }
    false
}

/// The chunk positions around `controller_pos`, each once: every grid cell at
/// most `dist` cells from the controller's cell on each horizontal axis (and
/// vertically too when `vertical`, else in layer 0), layer by layer, row by
/// row, cell by cell.
pub fn visit_chunks_in_distance(controller_pos: ChunkPos, dist: usize, vertical: bool) -> (r: Vec<ChunkPos>)
    requires
        visit_fits(controller_pos, dist as int, vertical),
    ensures
        r@.no_duplicates(),
        forall|p: ChunkPos| r@.contains(p) <==> in_visit_range(controller_pos, dist as int, vertical, p),
{
    let d = dist as isize;
    let cx = grid_coord_of(controller_pos.x);
    let cy = grid_coord_of(controller_pos.y);
    let x_start = cx - d;
    let x_end = cx + d;
    let y_start = cy - d;
    let y_end = cy + d;
    let (z_start, z_end) = if vertical {
        let cz = grid_coord_of(controller_pos.z);
        (cz - d, cz + d)
    } else {
        (0isize, 0isize)
    };
    let ghost c = controller_pos;
    let ghost dd = dist as int;
    let mut out: Vec<ChunkPos> = Vec::new();
    let mut z = z_start;
    while z <= z_end
        invariant
            x_start == grid_coord(c.x as int) - dd,
            x_end == grid_coord(c.x as int) + dd,
            y_start == grid_coord(c.y as int) - dd,
            y_end == grid_coord(c.y as int) + dd,
            z_start == z_range(c, dd, vertical).0,
            z_end == z_range(c, dd, vertical).1,
            visit_fits(c, dd, vertical),
            dd >= 0,
            z_start <= z <= z_end + 1,
            out@.no_duplicates(),
            forall|p: ChunkPos| out@.contains(p) <==> (in_visit_range(c, dd, vertical, p) && visited_before(p, x_start as int, y_start as int, z as int)),
        decreases z_end + 1 - z,
    {
        let mut y = y_start;
        while y <= y_end
            invariant
                x_start == grid_coord(c.x as int) - dd,
                x_end == grid_coord(c.x as int) + dd,
                y_start == grid_coord(c.y as int) - dd,
                y_end == grid_coord(c.y as int) + dd,
                z_start == z_range(c, dd, vertical).0,
                z_end == z_range(c, dd, vertical).1,
                visit_fits(c, dd, vertical),
                dd >= 0,
                z_start <= z <= z_end,
                y_start <= y <= y_end + 1,
                out@.no_duplicates(),
                forall|p: ChunkPos| out@.contains(p) <==> (in_visit_range(c, dd, vertical, p) && visited_before(p, x_start as int, y as int, z as int)),
            decreases y_end + 1 - y,
        {
            let mut x = x_start;
            while x <= x_end
                invariant
                    x_start == grid_coord(c.x as int) - dd,
                    x_end == grid_coord(c.x as int) + dd,
                    y_start == grid_coord(c.y as int) - dd,
                    y_end == grid_coord(c.y as int) + dd,
                    z_start == z_range(c, dd, vertical).0,
                    z_end == z_range(c, dd, vertical).1,
                    visit_fits(c, dd, vertical),
                    dd >= 0,
                    z_start <= z <= z_end,
                    y_start <= y <= y_end,
                    x_start <= x <= x_end + 1,
                    out@.no_duplicates(),
                    forall|p: ChunkPos| out@.contains(p) <==> (in_visit_range(c, dd, vertical, p) && visited_before(p, x as int, y as int, z as int)),
                decreases x_end + 1 - x,
            {
                let pos = ChunkPos::new(x * 16, y * 16, z * 16);
                let ghost old_out = out@;
                proof {
                    assert(!visited_before(pos, x as int, y as int, z as int));
                    assert(!old_out.contains(pos));
                }
                out.push(pos);
                proof {
                    assert(out@ == old_out.push(pos));
                    assert forall|i: int, j: int| 0 <= i < out@.len() && 0 <= j < out@.len() && i != j implies out@[i] != out@[j] by {
                        if i < old_out.len() && j < old_out.len() {
                            assert(old_out[i] != old_out[j]);
                        } else if i < old_out.len() {
                            assert(old_out.contains(old_out[i]));
                        } else {
                            assert(old_out.contains(old_out[j]));
                        }
                    }
                    assert forall|p: ChunkPos| out@.contains(p) <==> (in_visit_range(c, dd, vertical, p) && visited_before(p, x + 1, y as int, z as int)) by {
                        if out@.contains(p) && p != pos {
                            let k = choose|k: int| 0 <= k < out@.len() && out@[k] == p;
                            assert(k < old_out.len());
                            assert(old_out.contains(p));
                        }
                        if p != pos && in_visit_range(c, dd, vertical, p) && visited_before(p, x + 1, y as int, z as int) {
                            assert(visited_before(p, x as int, y as int, z as int));
                            assert(old_out.contains(p));
                            let k = choose|k: int| 0 <= k < old_out.len() && old_out[k] == p;
                            assert(out@[k] == p);
                        }
                        if p == pos {
                            assert(out@[out@.len() - 1] == p);
                        }
                    }
                }
                x = x + 1;
            }
            y = y + 1;
        }
        z = z + 1;
    }
    out
}

/// A coordinate on the grid `dist` cells or fewer from the grid cell of `c`
/// is less than `dist + 1` chunks from `c`.
proof fn lemma_axis_within(c: int, a: int, dist: int)
    requires
        dist >= 0,
        on_grid_between(a, grid_coord(c) - dist, grid_coord(c) + dist),
    ensures
        crate::types::coord_within(a, c, dist),
{
    let g = a / 16;
    assert(a == 16 * g);
    if c >= 0 {
        assert(c == 16 * (c / 16) + c % 16);
    } else {
        assert(-c == 16 * ((-c) / 16) + (-c) % 16);
    }
}

/// Every visited position lies within the distance of the controller that
/// the state machine uses: horizontally, and vertically too when loading
/// vertically.
pub proof fn lemma_visited_within_distance(center: ChunkPos, dist: int, vertical: bool, p: ChunkPos)
    requires
        dist >= 0,
        in_visit_range(center, dist, vertical, p),
    ensures
        p.within_distance_2d(center, dist),
        vertical ==> p.within_distance_3d(center, dist),
{
    lemma_axis_within(center.x as int, p.x as int, dist);
    lemma_axis_within(center.y as int, p.y as int, dist);
    if vertical {
        lemma_axis_within(center.z as int, p.z as int, dist);
    }
}

/// Supplies chunk data, by generating or reading it.
pub trait ChunkLoader {
    /// Every answer the loader gave, oldest first: the position asked for and
    /// the chunk handed back. An implementation states it by overriding this
    /// definition, which leaves it unspecified.
    open spec fn loads(&self) -> Seq<(ChunkPos, Chunk)> {
        arbitrary()
    }

    /// The data of the chunk at `pos`.
    fn load_chunk(&mut self, pos: ChunkPos) -> (r: Chunk)
        ensures
            final(self).loads() == old(self).loads().push((pos, r)),
    ;
}

/// Whether one of the answers of `loads` from index `from` on handed out `c`
/// for `p`.
pub open spec fn answered(loads: Seq<(ChunkPos, Chunk)>, from: int, p: ChunkPos, c: Chunk) -> bool {
    exists|i: int| 0 <= i < loads.len() && from <= i && #[trigger] loads[i] == (p, c)
}

/// An answer stays in the record when later answers are added.
pub proof fn lemma_answered_extends(
    l1: Seq<(ChunkPos, Chunk)>,
    l2: Seq<(ChunkPos, Chunk)>,
    from: int,
    p: ChunkPos,
    c: Chunk,
)
    requires
        l1.is_prefix_of(l2),
        answered(l1, from, p, c),
    ensures
        answered(l2, from, p, c),
{
    let i = choose|i: int| 0 <= i < l1.len() && from <= i && #[trigger] l1[i] == (p, c);
    assert(l2.subrange(0, l1.len() as int)[i] == l2[i]);
    assert(l2[i] == (p, c));
}

/// Builds chunk meshes, possibly in the background; each build carries the
/// mesh version it was requested for.
pub trait ChunkBuilder {
    /// The latest build request for `chunk_pos`: the chunk's blocks and the
    /// mesh version, if any was made. An implementation states it by
    /// overriding this definition, which leaves it unspecified.
    open spec fn requested(&self, chunk_pos: ChunkPos) -> Option<(Seq<BlockID>, Version)> {
        arbitrary()
    }

    /// The mesh of `chunk_pos` built for `version`, if it is ready. An
    /// implementation states it by overriding this definition, which leaves
    /// it unspecified.
    open spec fn built_mesh(&self, chunk_pos: ChunkPos, version: Version) -> Option<ChunkMesh> {
        arbitrary()
    }

    /// Starts building the mesh of `chunk` for `version`.
    fn build_chunk(&mut self, chunk_pos: ChunkPos, chunk: &Chunk, version: Version)
        ensures
            final(self).requested(chunk_pos) == Some((chunk@, version)),
            forall|q: ChunkPos| q != chunk_pos ==> #[trigger] final(self).requested(q) == old(self).requested(q),
    ;

    /// Gathers the builds that have finished.
    fn collect_finished_results(&mut self);

    /// Takes the mesh of `chunk_pos` built for `version`, if it is ready.
    fn take_built_chunk_mesh_by_version(&mut self, chunk_pos: ChunkPos, version: Version) -> (r: Option<ChunkMesh>)
        ensures
            r == old(self).built_mesh(chunk_pos, version),
    ;

    /// Whether the mesh of `chunk_pos` built for `version` is ready.
    fn is_chunk_mesh_built_with_version(&self, chunk_pos: ChunkPos, version: Version) -> (r: bool)
        ensures
            r == self.built_mesh(chunk_pos, version) is Some,
    ;
}

/// A change of the chunk's rendered object, for whoever draws chunks.
#[derive(Debug)]
pub enum ChunkObjectEvent {
    /// The chunk got a mesh to draw.
    Created(ChunkPos, ChunkMesh),
    /// The chunk's drawn object must go.
    Removed(ChunkPos),
}

/// A change of a chunk's data, for whoever keeps a copy of the world.
#[derive(Debug, Clone, PartialEq)]
pub struct WorldChunkUpdate {
    pub chunk_pos: ChunkPos,
    pub chunk: Chunk,
}

/// States whose chunk has its data loaded.
pub open spec fn holds_data(s: ChunkState) -> bool {
    s == ChunkState::Loaded || s == ChunkState::ToDraw || s == ChunkState::Drawn
}

/// The state changes that the manager carries out.
pub open spec fn supported(from: ChunkState, to: ChunkState) -> bool {
    match (from, to) {
        (ChunkState::Empty, ChunkState::Loaded) => true,
        (ChunkState::Loaded, ChunkState::Empty) => true,
        (ChunkState::Loaded, ChunkState::ToDraw) => true,
        (ChunkState::ToDraw, ChunkState::Loaded) => true,
        (ChunkState::ToDraw, ChunkState::Drawn) => true,
        (ChunkState::Drawn, ChunkState::ToDraw) => true,
        (ChunkState::Drawn, ChunkState::Loaded) => true,
        _ => false,
    }
}

/// The state that follows `s` for a chunk in render distance (`render`), in
/// load distance (`load`), whose mesh of the current version is `built`.
pub open spec fn manager_next_state(s: ChunkState, render: bool, load: bool, built: bool) -> ChunkState {
    match s {
        ChunkState::Empty => if load { ChunkState::Loaded } else { ChunkState::Empty },
        ChunkState::Loaded => if render {
            ChunkState::ToDraw
        } else if load {
            ChunkState::Loaded
        } else {
            ChunkState::Empty
        },
        ChunkState::ToDraw => if render {
            if built { ChunkState::Drawn } else { ChunkState::ToDraw }
        } else {
            ChunkState::Loaded
        },
        ChunkState::Drawn => if render { ChunkState::Drawn } else { ChunkState::Loaded },
        ChunkState::Loading => ChunkState::Loading,
    }
}

/// Number of state changes left before a chunk settles.
pub open spec fn steps_to_settle(s: ChunkState, render: bool, load: bool) -> int {
    if render {
        match s {
            ChunkState::Empty => if load { 3 } else { 0 },
            ChunkState::Loaded => 2,
            ChunkState::ToDraw => 1,
            _ => 0,
        }
    } else if load {
        match s {
            ChunkState::Empty => 1,
            ChunkState::ToDraw => 1,
            ChunkState::Drawn => 1,
            _ => 0,
        }
    } else {
        match s {
            ChunkState::Loaded => 1,
            ChunkState::ToDraw => 2,
            ChunkState::Drawn => 2,
            _ => 0,
        }
    }
}

/// Where a chunk in state `s0` can come to rest: outside the load distance
/// it is emptied; in load but not render distance it is loaded; in render
/// distance it is drawn or waits for its mesh, and a drawn chunk stays drawn.
pub open spec fn settles(s0: ChunkState, render: bool, load: bool, s: ChunkState) -> bool {
    if s0 == ChunkState::Loading {
        s == ChunkState::Loading
    } else if render {
        if s0 == ChunkState::Empty && !load {
            s == ChunkState::Empty
        } else if s0 == ChunkState::Drawn {
            s == ChunkState::Drawn
        } else {
            s == ChunkState::ToDraw || s == ChunkState::Drawn
        }
    } else if load {
        s == ChunkState::Loaded
    } else {
        s == ChunkState::Empty
    }
}

/// Whether a chunk in state `s0` comes to rest as `Empty`, and so leaves the world.
pub open spec fn settles_empty(s0: ChunkState, render: bool, load: bool) -> bool {
    !load && (!render || s0 == ChunkState::Empty)
}

/// Upper bound on state changes in one update of a chunk.
const MAX_ITERATIONS: u32 = 16;

/// Manages chunk data, meshes and states dependent on the controller position.
pub struct ChunkManager<L, B> {
    world: PhysicalWorld,
    chunk_loader: L,
    chunk_builder: B,
    object_events: Vec<ChunkObjectEvent>,
    world_updates: Vec<WorldChunkUpdate>,
    config: Config,
    controller_pos: ChunkPos,
}

impl<L: ChunkLoader, B: ChunkBuilder> ChunkManager<L, B> {
    /// The world.
    pub closed spec fn spec_world(&self) -> PhysicalWorld {
        self.world
    }

    /// The mesh builder.
    pub closed spec fn builder(&self) -> B {
        self.chunk_builder
    }

    /// The chunk loader.
    pub closed spec fn loader(&self) -> L {
        self.chunk_loader
    }

    /// The configuration.
    pub closed spec fn spec_config(&self) -> Config {
        self.config
    }

    /// The controller position.
    pub closed spec fn controller(&self) -> ChunkPos {
        self.controller_pos
    }

    /// Rendered-object changes not handed out yet, oldest first.
    pub closed spec fn object_events(&self) -> Seq<ChunkObjectEvent> {
        self.object_events@
    }

    /// Chunk data changes not handed out yet, oldest first.
    pub closed spec fn world_updates(&self) -> Seq<WorldChunkUpdate> {
        self.world_updates@
    }

    /// Whether `pos` is in render distance of a controller at `c`.
    pub open spec fn render_at(&self, pos: ChunkPos, c: ChunkPos) -> bool {
        within_distance(self.spec_config(), pos, self.spec_config().render_distance as int, c)
    }

    /// Whether `pos` is in load distance of a controller at `c`.
    pub open spec fn load_at(&self, pos: ChunkPos, c: ChunkPos) -> bool {
        within_distance(self.spec_config(), pos, self.spec_config().load_distance as int, c)
    }

    /// Whether `pos` is in render distance of the controller.
    pub open spec fn in_render(&self, pos: ChunkPos) -> bool {
        self.render_at(pos, self.controller())
    }

    /// Whether `pos` is in load distance of the controller.
    pub open spec fn in_load(&self, pos: ChunkPos) -> bool {
        self.load_at(pos, self.controller())
    }

    /// The state of `pos`.
    pub open spec fn state(&self, pos: ChunkPos) -> ChunkState {
        self.spec_world().state(pos)
    }

    /// Invariant: no chunk is `Loading`; a chunk's data is held exactly when
    /// its state says so; a drawn chunk has its mesh.
    pub closed spec fn wf(&self) -> bool {
        &&& self.world.wf()
        &&& forall|p: ChunkPos| #[trigger] self.world.states().contains_key(p)
            ==> self.world.states()[p] != ChunkState::Loading
        &&& forall|p: ChunkPos| #[trigger] self.world.chunks().contains_key(p)
            <==> holds_data(self.world.state(p))
        &&& forall|p: ChunkPos| self.world.state(p) == ChunkState::Drawn
            ==> #[trigger] self.world.meshes().contains_key(p)
    }

    /// What the invariant gives to users of the manager.
    pub proof fn lemma_wf(&self)
        requires
            self.wf(),
        ensures
            self.spec_world().wf(),
            forall|p: ChunkPos| #[trigger] self.spec_world().chunks().contains_key(p)
                <==> holds_data(self.state(p)),
            forall|p: ChunkPos| self.state(p) == ChunkState::Drawn
                ==> #[trigger] self.spec_world().meshes().contains_key(p),
            forall|p: ChunkPos| #[trigger] self.state(p) != ChunkState::Loading,
    {
        assert forall|p: ChunkPos| #[trigger] self.state(p) != ChunkState::Loading by {
            if self.world.states().contains_key(p) {
                assert(self.world.states()[p] != ChunkState::Loading);
            }
        }
    }

    /// A manager with an empty world, the controller at the origin.
    pub fn new(chunk_loader: L, chunk_builder: B, config: Config) -> (r: Self)
        ensures
            r.wf(),
            r.spec_world().states() == Map::<ChunkPos, ChunkState>::empty(),
            r.spec_world().chunks() == Map::<ChunkPos, Chunk>::empty(),
            r.spec_world().meshes() == Map::<ChunkPos, ChunkMesh>::empty(),
            r.builder() == chunk_builder,
            r.loader() == chunk_loader,
            r.spec_config() == config,
            r.controller() == (ChunkPos { x: 0, y: 0, z: 0 }),
            r.object_events() == Seq::<ChunkObjectEvent>::empty(),
            r.world_updates() == Seq::<WorldChunkUpdate>::empty(),
    {
        ChunkManager {
            world: PhysicalWorld::new(),
            chunk_loader,
            chunk_builder,
            object_events: Vec::new(),
            world_updates: Vec::new(),
            config,
            controller_pos: ChunkPos::new(0, 0, 0),
        }
    }

    /// The world.
    pub fn get_world(&self) -> (r: &PhysicalWorld)
        ensures
            *r == self.spec_world(),
    {
        &self.world
    }

    /// Whether `pos` lies within `distance_in_chunks` of the controller.
    fn is_within_distance(&self, pos: ChunkPos, distance_in_chunks: usize) -> (r: bool)
        ensures
            r == within_distance(self.config, pos, distance_in_chunks as int, self.controller_pos),
    {
        match self.config.dynamic_vertical_loading {
            true => pos.is_within_distance(self.controller_pos, distance_in_chunks),
            false => pos.is_within_distance_2d(self.controller_pos, distance_in_chunks),
        }
    }

    /// Whether `pos` is inside the part of the world the manager handles.
    fn is_in_world_scope(&self, pos: ChunkPos) -> (r: bool)
        ensures
            r == (self.config.dynamic_vertical_loading || pos.z == 0),
    {
        if !self.config.dynamic_vertical_loading {
            if pos.z != 0 {
                return false;
            }
        }
        true
    }

    /// The state that follows `curr_state` for `pos`.
    fn next_chunk_state(&self, pos: ChunkPos, curr_state: ChunkState) -> (r: ChunkState)
        requires
            self.world.wf(),
        ensures
            r == manager_next_state(curr_state, self.in_render(pos), self.in_load(pos), true)
                || r == manager_next_state(curr_state, self.in_render(pos), self.in_load(pos), false),
    {
        let is_within_render = self.is_within_distance(pos, self.config.render_distance);
        let is_within_load = self.is_within_distance(pos, self.config.load_distance);
        match curr_state {
            ChunkState::Empty => {
                if is_within_load {
                    ChunkState::Loaded
                } else {
                    ChunkState::Empty
                }
            },
            ChunkState::Loaded => {
                if is_within_render {
                    ChunkState::ToDraw
                } else {
                    if is_within_load {
                        curr_state
                    } else {
                        ChunkState::Empty
                    }
                }
            },
            ChunkState::ToDraw => {
                let mesh_version = self.world.get_chunk_mesh_version(pos);
                if is_within_render {
                    if self.chunk_builder.is_chunk_mesh_built_with_version(pos, mesh_version) {
                        ChunkState::Drawn
                    } else {
                        curr_state
                    }
                } else {
                    ChunkState::Loaded
                }
            },
            ChunkState::Drawn => {
                if is_within_render {
                    curr_state
                } else {
                    ChunkState::Loaded
                }
            },
            ChunkState::Loading => curr_state,
        }
    }

    /// Gives the builder the data of `pos` under a new mesh version.
    fn pass_chunk_to_builder(&mut self, pos: ChunkPos)
        requires
            old(self).world.wf(),
            old(self).world.chunks().contains_key(pos),
        ensures
            final(self).world.wf(),
            final(self).world.versions() == old(self).world.versions().insert(
                pos,
                next_version(version_in(old(self).world.versions(), pos)),
            ),
            final(self).world.chunks() == old(self).world.chunks(),
            final(self).world.meshes() == old(self).world.meshes(),
            final(self).world.states() == old(self).world.states(),
            final(self).world.rebuilds() == old(self).world.rebuilds(),
            final(self).object_events == old(self).object_events,
            final(self).world_updates == old(self).world_updates,
            final(self).config == old(self).config,
            final(self).controller_pos == old(self).controller_pos,
            final(self).chunk_builder.requested(pos) == Some((old(self).world.chunks()[pos]@,
                next_version(version_in(old(self).world.versions(), pos)))),
            final(self).chunk_loader == old(self).chunk_loader,
    {
        let new_mesh_version = self.world.increment_chunk_mesh_version(pos);
        let chunk = self.world.get_chunk(pos).unwrap();
        self.chunk_builder.build_chunk(pos, chunk, new_mesh_version);
    }

    /// Carries out the side effects of the change of `pos` from `old_state`
    /// to `new_state`; the state itself is recorded by the caller.
    fn on_state_transition(&mut self, pos: ChunkPos, old_state: ChunkState, new_state: ChunkState)
        requires
            old(self).world.wf(),
            supported(old_state, new_state),
            holds_data(old_state) ==> old(self).world.chunks().contains_key(pos),
        ensures
            final(self).world.wf(),
            final(self).world.states() == old(self).world.states(),
            final(self).world.rebuilds() == old(self).world.rebuilds(),
            final(self).world_updates == old(self).world_updates,
            final(self).config == old(self).config,
            final(self).controller_pos == old(self).controller_pos,
            old_state == ChunkState::Empty ==> final(self).world.chunks().contains_key(pos)
                && final(self).world.chunks().remove(pos) == old(self).world.chunks().remove(pos),
            old_state == ChunkState::Loaded && new_state == ChunkState::Empty
                ==> final(self).world.chunks() == old(self).world.chunks().remove(pos),
            !(old_state == ChunkState::Empty || (old_state == ChunkState::Loaded && new_state == ChunkState::Empty))
                ==> final(self).world.chunks() == old(self).world.chunks(),
            new_state == ChunkState::ToDraw ==> final(self).world.versions() == old(self).world.versions().insert(
                pos,
                next_version(version_in(old(self).world.versions(), pos)),
            ),
            new_state != ChunkState::ToDraw ==> final(self).world.versions() == old(self).world.versions(),
            new_state == ChunkState::Drawn ==> final(self).world.meshes().contains_key(pos)
                && final(self).world.meshes().remove(pos) == old(self).world.meshes().remove(pos)
                && final(self).object_events@.len() == old(self).object_events@.len() + 1
                && final(self).object_events@.drop_last() == old(self).object_events@
                && (final(self).object_events@.last() matches ChunkObjectEvent::Created(p, m)
                    && p == pos && m.spec_layers() == final(self).world.meshes()[pos].spec_layers()),
            old_state == ChunkState::Drawn && new_state == ChunkState::Loaded
                ==> final(self).world.meshes() == old(self).world.meshes().remove(pos)
                && final(self).object_events@ == old(self).object_events@.push(ChunkObjectEvent::Removed(pos)),
            new_state != ChunkState::Drawn && !(old_state == ChunkState::Drawn && new_state == ChunkState::Loaded)
                ==> final(self).world.meshes() == old(self).world.meshes()
                && final(self).object_events == old(self).object_events,
            new_state == ChunkState::ToDraw ==> final(self).chunk_builder.requested(pos) == Some((old(self).world.chunks()[pos]@,
                next_version(version_in(old(self).world.versions(), pos)))),
            new_state == ChunkState::Drawn ==> match old(self).chunk_builder.built_mesh(pos, version_in(old(self).world.versions(), pos)) {
                Some(m) => final(self).world.meshes()[pos] == m,
                None => final(self).world.meshes()[pos].is_empty_mesh(),
            },
            new_state != ChunkState::ToDraw && new_state != ChunkState::Drawn ==> final(self).chunk_builder == old(self).chunk_builder,
            old_state == ChunkState::Empty ==> final(self).chunk_loader.loads()
                == old(self).chunk_loader.loads().push((pos, final(self).world.chunks()[pos])),
            old_state != ChunkState::Empty ==> final(self).chunk_loader == old(self).chunk_loader,
    {
        match (old_state, new_state) {
            (ChunkState::Empty, ChunkState::Loaded) => {
                let chunk = self.chunk_loader.load_chunk(pos);
                self.world.set_chunk(pos, chunk);
            },
            (ChunkState::Loaded, ChunkState::Empty) => {
                self.world.remove_chunk_data(pos);
            },
            (ChunkState::Loaded, ChunkState::ToDraw) => {
                self.pass_chunk_to_builder(pos);
            },
            (ChunkState::ToDraw, ChunkState::Loaded) => {
                // The builder keeps building; a stale mesh is never taken.
            },
            (ChunkState::ToDraw, ChunkState::Drawn) => {
                let version = self.world.get_chunk_mesh_version(pos);
                // The state machine chooses `Drawn` only once the builder reports
                // the mesh ready; a builder that then hands none out leaves the
                // chunk drawn with an empty mesh.
                let mesh = match self.chunk_builder.take_built_chunk_mesh_by_version(pos, version) {
                    Some(mesh) => mesh,
                    None => ChunkMesh::new(),
                };
                let created = mesh.clone();
                self.world.add_chunk_mesh(pos, mesh);
                self.object_events.push(ChunkObjectEvent::Created(pos, created));
            },
            (ChunkState::Drawn, ChunkState::ToDraw) => {
                self.pass_chunk_to_builder(pos);
            },
            (ChunkState::Drawn, ChunkState::Loaded) => {
                self.world.remove_chunk_mesh(pos);
                self.object_events.push(ChunkObjectEvent::Removed(pos));
            },
            _ => {},
        }
    }

    /// Moves `pos` to `new_state`, carrying out the side effects of the
    /// change, and records the state. The change must be supported.
    fn change_chunk_state(&mut self, pos: ChunkPos, new_state: ChunkState)
        requires
            old(self).wf(),
            new_state != ChunkState::Loading,
            old(self).state(pos) == new_state || supported(old(self).state(pos), new_state),
        ensures
            final(self).wf(),
            final(self).world.states() == old(self).world.states().insert(pos, new_state),
            final(self).world.chunks().remove(pos) == old(self).world.chunks().remove(pos),
            final(self).world.meshes().remove(pos) == old(self).world.meshes().remove(pos),
            old(self).world.chunks().contains_key(pos) && final(self).world.chunks().contains_key(pos)
                ==> final(self).world.chunks()[pos] == old(self).world.chunks()[pos],
            old(self).state(pos) != ChunkState::Empty && new_state != ChunkState::Empty
                ==> final(self).world.chunks() == old(self).world.chunks(),
            new_state != ChunkState::Drawn && !(old(self).state(pos) == ChunkState::Drawn && new_state == ChunkState::Loaded)
                ==> final(self).world.meshes() == old(self).world.meshes(),
            new_state == ChunkState::ToDraw && old(self).state(pos) != ChunkState::ToDraw
                ==> final(self).world.versions() == old(self).world.versions().insert(
                pos,
                next_version(version_in(old(self).world.versions(), pos)),
            ),
            !(new_state == ChunkState::ToDraw && old(self).state(pos) != ChunkState::ToDraw)
                ==> final(self).world.versions() == old(self).world.versions(),
            final(self).world.rebuilds() == old(self).world.rebuilds(),
            final(self).world_updates == old(self).world_updates,
            final(self).config == old(self).config,
            final(self).controller_pos == old(self).controller_pos,
            new_state == ChunkState::ToDraw && old(self).state(pos) != ChunkState::ToDraw
                ==> final(self).chunk_builder.requested(pos) == Some((old(self).world.chunks()[pos]@,
                next_version(version_in(old(self).world.versions(), pos)))),
            !(new_state == ChunkState::ToDraw && old(self).state(pos) != ChunkState::ToDraw)
                && !(new_state == ChunkState::Drawn && old(self).state(pos) != ChunkState::Drawn)
                ==> final(self).chunk_builder == old(self).chunk_builder,
            old(self).state(pos) == ChunkState::Drawn && new_state == ChunkState::Loaded
                ==> final(self).object_events@ == old(self).object_events@.push(ChunkObjectEvent::Removed(pos)),
            new_state != ChunkState::Drawn && !(old(self).state(pos) == ChunkState::Drawn && new_state == ChunkState::Loaded)
                ==> final(self).object_events == old(self).object_events,
            old(self).state(pos) == ChunkState::Empty && new_state != ChunkState::Empty ==> final(self).chunk_loader.loads()
                == old(self).chunk_loader.loads().push((pos, final(self).world.chunks()[pos])),
            !(old(self).state(pos) == ChunkState::Empty && new_state != ChunkState::Empty)
                ==> final(self).chunk_loader == old(self).chunk_loader,
    {
        let prev_state = self.world.get_chunk_state(pos);
        if prev_state != new_state {
            self.on_state_transition(pos, prev_state, new_state);
        }
        self.world.set_chunk_state(pos, new_state);
        proof {
            assert(self.world.chunks().remove(pos) =~= old(self).world.chunks().remove(pos));
            assert(self.world.meshes().remove(pos) =~= old(self).world.meshes().remove(pos));
            assert forall|p: ChunkPos| #[trigger] self.world.states().contains_key(p)
                implies self.world.states()[p] != ChunkState::Loading by {
                if p != pos {
                    assert(old(self).world.states().contains_key(p));
                }
            }
            assert forall|p: ChunkPos| #[trigger] self.world.chunks().contains_key(p)
                <==> holds_data(self.world.state(p)) by {
                if p != pos {
                    assert(old(self).world.chunks().remove(pos).contains_key(p) == self.world.chunks().remove(pos).contains_key(p));
                    assert(old(self).world.chunks().contains_key(p) == self.world.chunks().contains_key(p));
                    assert(old(self).world.state(p) == self.world.state(p));
                }
            }
            assert forall|p: ChunkPos| self.world.state(p) == ChunkState::Drawn
                implies #[trigger] self.world.meshes().contains_key(p) by {
                if p != pos {
                    assert(old(self).world.state(p) == self.world.state(p));
                    assert(old(self).world.meshes().contains_key(p));
                    assert(old(self).world.meshes().remove(pos).contains_key(p));
                }
            }
        }
    }

    /// Runs the state machine on `pos` until its state comes to rest.
    fn update_chunk_state(&mut self, pos: ChunkPos)
        requires
            old(self).wf(),
        ensures
            final(self).wf(),
            final(self).config == old(self).config,
            final(self).controller_pos == old(self).controller_pos,
            final(self).world_updates == old(self).world_updates,
            settles(old(self).state(pos), old(self).in_render(pos), old(self).in_load(pos), final(self).state(pos)),
            final(self).world.states().contains_key(pos)
                <==> (old(self).world.states().contains_key(pos) || final(self).state(pos) != old(self).state(pos)),
            final(self).world.states().remove(pos) == old(self).world.states().remove(pos),
            final(self).world.chunks().remove(pos) == old(self).world.chunks().remove(pos),
            final(self).world.meshes().remove(pos) == old(self).world.meshes().remove(pos),
            old(self).world.chunks().contains_key(pos) && final(self).world.chunks().contains_key(pos)
                ==> final(self).world.chunks()[pos] == old(self).world.chunks()[pos],
            old(self).chunk_loader.loads().is_prefix_of(final(self).chunk_loader.loads()),
            final(self).world.chunks().contains_key(pos) && !old(self).world.chunks().contains_key(pos)
                ==> answered(final(self).chunk_loader.loads(), old(self).chunk_loader.loads().len() as int, pos, final(self).world.chunks()[pos]),
    {
        let ghost s0 = self.state(pos);
        let ghost r = self.in_render(pos);
        let ghost l = self.in_load(pos);
        let ghost old_world = self.world;
        let ghost old_loads = self.chunk_loader.loads();
        proof {
            self.lemma_wf();
            assert(old_world.chunks().contains_key(pos) == holds_data(s0));
        }
        let mut iterations: u32 = 0;
        let mut prev_state = self.world.get_chunk_state(pos);
        loop
            invariant
                self.wf(),
                self.config == old(self).config,
                self.controller_pos == old(self).controller_pos,
                self.world_updates == old(self).world_updates,
                r == self.in_render(pos),
                l == self.in_load(pos),
                s0 != ChunkState::Loading,
                prev_state == self.state(pos),
                prev_state != ChunkState::Loading,
                r && s0 != ChunkState::Empty ==> prev_state != ChunkState::Empty,
                r && s0 == ChunkState::Drawn ==> prev_state == ChunkState::Drawn,
                s0 == ChunkState::Empty && !l ==> prev_state == ChunkState::Empty,
                iterations + steps_to_settle(prev_state, r, l) <= 3,
                prev_state == s0 || steps_to_settle(prev_state, r, l) < steps_to_settle(s0, r, l),
                holds_data(s0) && prev_state == ChunkState::Empty ==> !l,
                old_world.chunks().contains_key(pos) == holds_data(s0),
                self.world.states().contains_key(pos)
                    <==> (old_world.states().contains_key(pos) || prev_state != s0),
                self.world.states().remove(pos) == old_world.states().remove(pos),
                self.world.chunks().remove(pos) == old_world.chunks().remove(pos),
                self.world.meshes().remove(pos) == old_world.meshes().remove(pos),
                old_world.chunks().contains_key(pos) && self.world.chunks().contains_key(pos)
                    ==> self.world.chunks()[pos] == old_world.chunks()[pos],
                old_loads.is_prefix_of(self.chunk_loader.loads()),
                self.world.chunks().contains_key(pos) && !old_world.chunks().contains_key(pos)
                    ==> answered(self.chunk_loader.loads(), old_loads.len() as int, pos, self.world.chunks()[pos]),
            ensures
                self.wf(),
                self.config == old(self).config,
                self.controller_pos == old(self).controller_pos,
                self.world_updates == old(self).world_updates,
                prev_state == self.state(pos),
                prev_state != ChunkState::Loading,
                r && s0 != ChunkState::Empty ==> prev_state != ChunkState::Empty,
                r && s0 == ChunkState::Drawn ==> prev_state == ChunkState::Drawn,
                s0 == ChunkState::Empty && !l ==> prev_state == ChunkState::Empty,
                manager_next_state(prev_state, r, l, true) == prev_state
                    || manager_next_state(prev_state, r, l, false) == prev_state,
                self.world.states().contains_key(pos)
                    <==> (old_world.states().contains_key(pos) || prev_state != s0),
                self.world.states().remove(pos) == old_world.states().remove(pos),
                self.world.chunks().remove(pos) == old_world.chunks().remove(pos),
                self.world.meshes().remove(pos) == old_world.meshes().remove(pos),
                old_world.chunks().contains_key(pos) && self.world.chunks().contains_key(pos)
                    ==> self.world.chunks()[pos] == old_world.chunks()[pos],
                old_loads.is_prefix_of(self.chunk_loader.loads()),
                self.world.chunks().contains_key(pos) && !old_world.chunks().contains_key(pos)
                    ==> answered(self.chunk_loader.loads(), old_loads.len() as int, pos, self.world.chunks()[pos]),
            decreases steps_to_settle(prev_state, r, l),
        {
            let next_state = self.next_chunk_state(pos, prev_state);
            if next_state == prev_state {
                break;
            }
            proof {
                assert(iterations < MAX_ITERATIONS);
                self.lemma_wf();
                assert(self.world.chunks().contains_key(pos) == holds_data(prev_state));
            }
            let ghost loads_before = self.chunk_loader.loads();
            let ghost chunks_before = self.world.chunks();
            self.change_chunk_state(pos, next_state);
            proof {
                if self.world.chunks().contains_key(pos) && !old_world.chunks().contains_key(pos) {
                    if chunks_before.contains_key(pos) {
                        lemma_answered_extends(loads_before, self.chunk_loader.loads(), old_loads.len() as int, pos, self.world.chunks()[pos]);
                    } else {
                        assert(self.chunk_loader.loads()[loads_before.len() as int] == (pos, self.world.chunks()[pos]));
                    }
                }
            }
            if iterations >= MAX_ITERATIONS {
                break;
            }
            prev_state = next_state;
            iterations = iterations + 1;
        }
    }

    /// Whether `pos` is visited around a controller at `c` in an update.
    pub open spec fn visited_at(&self, pos: ChunkPos, c: ChunkPos) -> bool {
        in_visit_range(
            c,
            self.spec_config().load_distance as int,
            self.spec_config().dynamic_vertical_loading,
            pos,
        )
    }

    /// Whether `pos` is visited around the controller in an update.
    pub open spec fn visited(&self, pos: ChunkPos) -> bool {
        self.visited_at(pos, self.controller())
    }

    /// Whether `pos` takes part in an update: it has a state, or is visited.
    pub open spec fn updated(&self, pos: ChunkPos) -> bool {
        self.spec_world().states().contains_key(pos) || self.visited(pos)
    }

    /// Whether the world around a controller at `c` can be walked without overflow.
    pub open spec fn walkable_at(&self, c: ChunkPos) -> bool {
        visit_fits(
            c,
            self.spec_config().load_distance as int,
            self.spec_config().dynamic_vertical_loading,
        )
    }

    /// Whether the world around the controller can be walked without overflow.
    pub open spec fn walkable(&self) -> bool {
        self.walkable_at(self.controller())
    }

    /// Gives every visited position without a state the state `Empty`, then
    /// brings every chunk of the world to rest and drops the chunks that
    /// end `Empty`.
    fn update_chunk_states_in_world(&mut self)
        requires
            old(self).wf(),
            old(self).walkable(),
        ensures
            final(self).wf(),
            final(self).config == old(self).config,
            final(self).controller_pos == old(self).controller_pos,
            final(self).world_updates == old(self).world_updates,
            forall|p: ChunkPos| #[trigger] final(self).world.states().contains_key(p) <==> (old(self).updated(p)
                && !settles_empty(old(self).state(p), old(self).in_render(p), old(self).in_load(p))),
            forall|p: ChunkPos| #[trigger] final(self).world.states().contains_key(p)
                ==> settles(old(self).state(p), old(self).in_render(p), old(self).in_load(p), final(self).state(p)),
            forall|p: ChunkPos| old(self).world.chunks().contains_key(p) && #[trigger] final(self).world.chunks().contains_key(p)
                ==> final(self).world.chunks()[p] == old(self).world.chunks()[p],
            old(self).chunk_loader.loads().is_prefix_of(final(self).chunk_loader.loads()),
            forall|p: ChunkPos| #[trigger] final(self).world.chunks().contains_key(p) && !old(self).world.chunks().contains_key(p)
                ==> answered(final(self).chunk_loader.loads(), old(self).chunk_loader.loads().len() as int, p, final(self).world.chunks()[p]),
    {
        let ghost old_world = self.world;
        proof {
            self.lemma_wf();
        }
        let positions = visit_chunks_in_distance(
            self.controller_pos,
            self.config.load_distance,
            self.config.dynamic_vertical_loading,
        );
        let mut i: usize = 0;
        while i < positions.len()
            invariant
                self.wf(),
                self.config == old(self).config,
                self.controller_pos == old(self).controller_pos,
                self.world_updates == old(self).world_updates,
                self.chunk_loader == old(self).chunk_loader,
                i <= positions@.len(),
                self.world.chunks() == old_world.chunks(),
                self.world.meshes() == old_world.meshes(),
                self.world.versions() == old_world.versions(),
                forall|p: ChunkPos| #[trigger] self.world.states().contains_key(p)
                    <==> (old_world.states().contains_key(p) || positions@.subrange(0, i as int).contains(p)),
                forall|p: ChunkPos| #[trigger] self.world.state(p) == old_world.state(p),
                forall|p: ChunkPos| #[trigger] old_world.chunks().contains_key(p) <==> holds_data(old_world.state(p)),
                forall|p: ChunkPos| old_world.state(p) == ChunkState::Drawn ==> #[trigger] old_world.meshes().contains_key(p),
            decreases positions@.len() - i,
        {
            let pos = positions[i];
            let ghost before1 = self.world;
            if !self.world.has_chunk_state(pos) {
                // A position without a state is `Empty`: recording it changes nothing else.
                self.world.set_chunk_state(pos, ChunkState::Empty);
            }
            proof {
                assert forall|p: ChunkPos| #[trigger] self.world.state(p) == old_world.state(p) by {
                    assert(before1.state(p) == old_world.state(p));
                    if p != pos {
                        assert(self.world.states().contains_key(p) == before1.states().contains_key(p));
                    }
                }
                let sub0 = positions@.subrange(0, i as int);
                let sub1 = positions@.subrange(0, i + 1);
                assert(sub1 =~= sub0.push(pos));
                assert forall|p: ChunkPos| #[trigger] self.world.states().contains_key(p)
                    <==> (old_world.states().contains_key(p) || sub1.contains(p)) by {
                    if sub0.contains(p) {
                        let k = choose|k: int| 0 <= k < sub0.len() && sub0[k] == p;
                        assert(sub1[k] == p);
                    }
                    if sub1.contains(p) && p != pos {
                        let k = choose|k: int| 0 <= k < sub1.len() && sub1[k] == p;
                        assert(sub0[k] == p);
                    }
                    if p == pos {
                        assert(sub1[sub0.len() as int] == p);
                    }
                }
                assert forall|p: ChunkPos| #[trigger] self.world.chunks().contains_key(p)
                    <==> holds_data(self.world.state(p)) by {
                    assert(self.world.state(p) == old_world.state(p));
                    assert(old_world.chunks().contains_key(p) <==> holds_data(old_world.state(p)));
                }
                assert forall|p: ChunkPos| self.world.state(p) == ChunkState::Drawn
                    implies #[trigger] self.world.meshes().contains_key(p) by {
                    assert(self.world.state(p) == old_world.state(p));
                    assert(old_world.state(p) == ChunkState::Drawn ==> old_world.meshes().contains_key(p));
                }
            }
            i = i + 1;
        }
        proof {
            assert(positions@.subrange(0, i as int) =~= positions@);
        }
        let ghost mid = self.world;
        let chunks_in_world = self.world.get_chunks_with_any_state();
        let ghost ks = chunks_in_world@;
        proof {
            assert forall|p: ChunkPos| mid.states().contains_key(p) <==> old(self).updated(p) by {}
        }
        let mut k: usize = 0;
        while k < chunks_in_world.len()
            invariant
                self.wf(),
                self.config == old(self).config,
                self.controller_pos == old(self).controller_pos,
                self.world_updates == old(self).world_updates,
                ks == chunks_in_world@,
                old(self).chunk_loader.loads().is_prefix_of(self.chunk_loader.loads()),
                forall|p: ChunkPos| #[trigger] self.world.chunks().contains_key(p) && !old_world.chunks().contains_key(p)
                    ==> answered(self.chunk_loader.loads(), old(self).chunk_loader.loads().len() as int, p, self.world.chunks()[p]),
                ks.no_duplicates(),
                ks.to_set() == mid.states().dom(),
                k <= ks.len(),
                forall|p: ChunkPos| mid.states().contains_key(p) <==> old(self).updated(p),
                forall|p: ChunkPos| #[trigger] mid.state(p) == old_world.state(p),
                forall|p: ChunkPos| #[trigger] self.in_render(p) == old(self).in_render(p),
                forall|p: ChunkPos| #[trigger] self.in_load(p) == old(self).in_load(p),
                forall|p: ChunkPos| #[trigger] self.world.states().contains_key(p) ==> mid.states().contains_key(p),
                forall|p: ChunkPos| mid.states().contains_key(p) && !(exists|j: int| 0 <= j < k && ks[j] == p)
                    ==> #[trigger] self.world.states().contains_key(p) && self.world.state(p) == mid.state(p),
                forall|p: ChunkPos| !(exists|j: int| 0 <= j < k && ks[j] == p)
                    ==> (#[trigger] self.world.chunks().contains_key(p) == old_world.chunks().contains_key(p))
                    && (self.world.chunks().contains_key(p) ==> self.world.chunks()[p] == old_world.chunks()[p]),
                forall|j: int| 0 <= j < k ==> {
                    let p = #[trigger] ks[j];
                    &&& self.world.states().contains_key(p) <==> !settles_empty(mid.state(p), self.in_render(p), self.in_load(p))
                    &&& self.world.states().contains_key(p) ==> settles(mid.state(p), self.in_render(p), self.in_load(p), self.world.state(p))
                    &&& old_world.chunks().contains_key(p) && self.world.chunks().contains_key(p)
                        ==> self.world.chunks()[p] == old_world.chunks()[p]
                },
            decreases ks.len() - k,
        {
            let pos = chunks_in_world[k];
            let ghost before = self.world;
            proof {
                assert(ks.to_set().contains(pos));
                assert(!(exists|j: int| 0 <= j < k && ks[j] == pos)) by {
                    if exists|j: int| 0 <= j < k && ks[j] == pos {
                        let j = choose|j: int| 0 <= j < k && ks[j] == pos;
                        assert(ks[j] == ks[k as int]);
                    }
                }
            }
            let ghost loads_before = self.chunk_loader.loads();
            let ghost chunks_before = self.world.chunks();
            self.update_chunk_state(pos);
            let ghost updated_world = self.world;
            proof {
                let n = old(self).chunk_loader.loads().len() as int;
                assert forall|p: ChunkPos| #[trigger] self.world.chunks().contains_key(p) && !old_world.chunks().contains_key(p)
                    implies answered(self.chunk_loader.loads(), n, p, self.world.chunks()[p]) by {
                    if p != pos {
                        assert(chunks_before.remove(pos).contains_key(p));
                        assert(self.world.chunks().remove(pos)[p] == chunks_before.remove(pos)[p]);
                        lemma_answered_extends(loads_before, self.chunk_loader.loads(), n, p, self.world.chunks()[p]);
                    } else if chunks_before.contains_key(pos) {
                        lemma_answered_extends(loads_before, self.chunk_loader.loads(), n, p, self.world.chunks()[p]);
                    } else {
                        let i = choose|i: int| 0 <= i < self.chunk_loader.loads().len() && loads_before.len() <= i
                            && #[trigger] self.chunk_loader.loads()[i] == (pos, self.world.chunks()[pos]);
                        assert(n <= loads_before.len());
                    }
                }
            }
            proof {
                self.lemma_wf();
            }
            if self.world.get_chunk_state(pos) == ChunkState::Empty {
                self.world.remove_chunk(pos);
                proof {
                    assert forall|p: ChunkPos| #[trigger] self.world.states().contains_key(p)
                        implies self.world.states()[p] != ChunkState::Loading by {
                        assert(updated_world.states().contains_key(p));
                    }
                    assert forall|p: ChunkPos| #[trigger] self.world.chunks().contains_key(p)
                        <==> holds_data(self.world.state(p)) by {
                        if p != pos {
                            assert(updated_world.chunks().contains_key(p) <==> holds_data(updated_world.state(p)));
                        }
                    }
                    assert forall|p: ChunkPos| self.world.state(p) == ChunkState::Drawn
                        implies #[trigger] self.world.meshes().contains_key(p) by {
                        assert(updated_world.state(p) == ChunkState::Drawn ==> updated_world.meshes().contains_key(p));
                    }
                }
            }
            proof {
                assert(self.world.states().remove(pos) =~= updated_world.states().remove(pos));
                assert(self.world.chunks().remove(pos) =~= updated_world.chunks().remove(pos));
                assert(before.state(pos) == mid.state(pos));
                assert(mid.state(pos) != ChunkState::Loading);
                assert(updated_world.states().contains_key(pos));
                assert forall|p: ChunkPos| mid.states().contains_key(p) && !(exists|j: int| 0 <= j < k + 1 && ks[j] == p)
                    implies #[trigger] self.world.states().contains_key(p) && self.world.state(p) == mid.state(p) by {
                    assert(!(exists|j: int| 0 <= j < k && ks[j] == p));
                    assert(ks[k as int] == pos);
                    assert(p != pos);
                    assert(before.states().remove(pos).contains_key(p));
                    assert(updated_world.states().remove(pos).contains_key(p));
                    assert(self.world.states().remove(pos)[p] == before.states().remove(pos)[p]);
                    assert(self.world.states()[p] == before.states()[p]);
                }
                assert forall|p: ChunkPos| !(exists|j: int| 0 <= j < k + 1 && ks[j] == p)
                    implies (#[trigger] self.world.chunks().contains_key(p) == old_world.chunks().contains_key(p))
                    && (self.world.chunks().contains_key(p) ==> self.world.chunks()[p] == old_world.chunks()[p]) by {
                    assert(!(exists|j: int| 0 <= j < k && ks[j] == p));
                    assert(ks[k as int] == pos);
                    assert(p != pos);
                    assert(before.chunks().remove(pos).contains_key(p) == updated_world.chunks().remove(pos).contains_key(p));
                    if before.chunks().contains_key(p) {
                        assert(before.chunks().remove(pos)[p] == updated_world.chunks().remove(pos)[p]);
                    }
                }
                assert forall|p: ChunkPos| #[trigger] self.world.states().contains_key(p) implies mid.states().contains_key(p) by {
                    if p != pos {
                        assert(updated_world.states().remove(pos).contains_key(p));
                        assert(before.states().remove(pos).contains_key(p));
                    }
                }
                assert forall|j: int| 0 <= j < k + 1 implies {
                    let p = #[trigger] ks[j];
                    &&& self.world.states().contains_key(p) <==> !settles_empty(mid.state(p), self.in_render(p), self.in_load(p))
                    &&& self.world.states().contains_key(p) ==> settles(mid.state(p), self.in_render(p), self.in_load(p), self.world.state(p))
                    &&& old_world.chunks().contains_key(p) && self.world.chunks().contains_key(p)
                        ==> self.world.chunks()[p] == old_world.chunks()[p]
                } by {
                    let p = ks[j];
                    if j < k {
                        assert(p != pos) by {
                            assert(ks[j] != ks[k as int]);
                        }
                        assert(updated_world.states().remove(pos).contains_key(p) == before.states().remove(pos).contains_key(p));
                        assert(updated_world.states().remove(pos).contains_key(p) ==> updated_world.states().remove(pos)[p] == before.states().remove(pos)[p]);
                        assert(before.chunks().remove(pos).contains_key(p) == updated_world.chunks().remove(pos).contains_key(p));
                        if before.chunks().contains_key(p) {
                            assert(before.chunks().remove(pos)[p] == updated_world.chunks().remove(pos)[p]);
                        }
                    }
                }
            }
            k = k + 1;
        }
        proof {
            assert forall|p: ChunkPos| #[trigger] self.world.states().contains_key(p) <==> (old(self).updated(p)
                && !settles_empty(old(self).state(p), old(self).in_render(p), old(self).in_load(p))) by {
                if mid.states().contains_key(p) {
                    assert(ks.to_set().contains(p));
                    let j = choose|j: int| 0 <= j < ks.len() && ks[j] == p;
                    assert(ks[j] == p);
                }
            }
            assert forall|p: ChunkPos| #[trigger] self.world.states().contains_key(p)
                implies settles(old(self).state(p), old(self).in_render(p), old(self).in_load(p), self.state(p)) by {
                assert(mid.states().contains_key(p));
                assert(ks.to_set().contains(p));
                let j = choose|j: int| 0 <= j < ks.len() && ks[j] == p;
                assert(ks[j] == p);
            }
            assert forall|p: ChunkPos| old(self).world.chunks().contains_key(p) && #[trigger] self.world.chunks().contains_key(p)
                implies self.world.chunks()[p] == old(self).world.chunks()[p] by {
                if exists|j: int| 0 <= j < k && ks[j] == p {
                    let j = choose|j: int| 0 <= j < k && ks[j] == p;
                    assert(ks[j] == p);
                }
            }
        }
    }

    /// Moves the controller; when it moved, every chunk that has a state or
    /// lies around the new position is brought to rest, and the chunks that
    /// end `Empty` leave the world.
    pub fn update_controller_pos(&mut self, new_controller_pos: ChunkPos)
        requires
            old(self).wf(),
            old(self).walkable_at(new_controller_pos),
        ensures
            final(self).wf(),
            final(self).controller() == new_controller_pos,
            final(self).spec_config() == old(self).spec_config(),
            final(self).world_updates() == old(self).world_updates(),
            new_controller_pos == old(self).controller() ==> final(self).spec_world() == old(self).spec_world()
                && final(self).object_events() == old(self).object_events()
                && final(self).loader() == old(self).loader(),
            old(self).loader().loads().is_prefix_of(final(self).loader().loads()),
            forall|p: ChunkPos| #[trigger] final(self).spec_world().chunks().contains_key(p)
                && !old(self).spec_world().chunks().contains_key(p)
                ==> answered(final(self).loader().loads(), old(self).loader().loads().len() as int, p,
                final(self).spec_world().chunks()[p]),
            new_controller_pos != old(self).controller() ==> {
                let c = new_controller_pos;
                &&& forall|p: ChunkPos| #[trigger] final(self).spec_world().states().contains_key(p)
                    <==> ((old(self).spec_world().states().contains_key(p) || old(self).visited_at(p, c))
                    && !settles_empty(old(self).state(p), old(self).render_at(p, c), old(self).load_at(p, c)))
                &&& forall|p: ChunkPos| #[trigger] final(self).spec_world().states().contains_key(p)
                    ==> settles(old(self).state(p), old(self).render_at(p, c), old(self).load_at(p, c), final(self).state(p))
                &&& forall|p: ChunkPos| old(self).spec_world().chunks().contains_key(p)
                    && #[trigger] final(self).spec_world().chunks().contains_key(p)
                    ==> final(self).spec_world().chunks()[p] == old(self).spec_world().chunks()[p]
            },
    {
        if new_controller_pos != self.controller_pos {
            self.controller_pos = new_controller_pos;
            self.update_chunk_states_in_world();
        }
    }

    /// Gathers the builder's finished meshes and brings every chunk waiting
    /// for its mesh to rest.
    pub fn check_built_chunks(&mut self)
        requires
            old(self).wf(),
        ensures
            final(self).wf(),
            final(self).controller() == old(self).controller(),
            final(self).spec_config() == old(self).spec_config(),
            final(self).world_updates() == old(self).world_updates(),
            forall|p: ChunkPos| old(self).state(p) != ChunkState::ToDraw
                ==> #[trigger] final(self).state(p) == old(self).state(p)
                && final(self).spec_world().states().contains_key(p) == old(self).spec_world().states().contains_key(p),
            forall|p: ChunkPos| old(self).state(p) == ChunkState::ToDraw
                ==> settles(ChunkState::ToDraw, old(self).in_render(p), old(self).in_load(p), #[trigger] final(self).state(p)),
            forall|p: ChunkPos| old(self).spec_world().chunks().contains_key(p)
                && #[trigger] final(self).spec_world().chunks().contains_key(p)
                ==> final(self).spec_world().chunks()[p] == old(self).spec_world().chunks()[p],
    {
        self.chunk_builder.collect_finished_results();
        let ghost w0 = self.world;
        let chunks_to_draw: Vec<ChunkPos> = self.world.get_chunks_with_state(ChunkState::ToDraw);
        let ghost ks = chunks_to_draw@;
        let mut k: usize = 0;
        while k < chunks_to_draw.len()
            invariant
                self.wf(),
                self.config == old(self).config,
                self.controller_pos == old(self).controller_pos,
                self.world_updates == old(self).world_updates,
                ks == chunks_to_draw@,
                ks.no_duplicates(),
                forall|p: ChunkPos| ks.contains(p) <==> (w0.states().contains_key(p) && w0.states()[p] == ChunkState::ToDraw),
                k <= ks.len(),
                forall|p: ChunkPos| !(exists|j: int| 0 <= j < k && ks[j] == p)
                    ==> #[trigger] self.world.state(p) == w0.state(p)
                    && self.world.states().contains_key(p) == w0.states().contains_key(p)
                    && self.world.chunks().contains_key(p) == w0.chunks().contains_key(p)
                    && (self.world.chunks().contains_key(p) ==> self.world.chunks()[p] == w0.chunks()[p]),
                forall|j: int| 0 <= j < k ==> {
                    let p = #[trigger] ks[j];
                    &&& settles(ChunkState::ToDraw, self.in_render(p), self.in_load(p), self.world.state(p))
                    &&& w0.chunks().contains_key(p) && self.world.chunks().contains_key(p)
                        ==> self.world.chunks()[p] == w0.chunks()[p]
                },
            decreases ks.len() - k,
        {
            let pos = chunks_to_draw[k];
            let ghost before = self.world;
            proof {
                assert(ks.contains(pos));
                assert(!(exists|j: int| 0 <= j < k && ks[j] == pos)) by {
                    if exists|j: int| 0 <= j < k && ks[j] == pos {
                        let j = choose|j: int| 0 <= j < k && ks[j] == pos;
                        assert(ks[j] == ks[k as int]);
                    }
                }
            }
            self.update_chunk_state(pos);
            proof {
                assert forall|p: ChunkPos| !(exists|j: int| 0 <= j < k + 1 && ks[j] == p)
                    implies #[trigger] self.world.state(p) == w0.state(p)
                    && self.world.states().contains_key(p) == w0.states().contains_key(p)
                    && self.world.chunks().contains_key(p) == w0.chunks().contains_key(p)
                    && (self.world.chunks().contains_key(p) ==> self.world.chunks()[p] == w0.chunks()[p]) by {
                    assert(!(exists|j: int| 0 <= j < k && ks[j] == p));
                    assert(ks[k as int] == pos);
                    assert(p != pos);
                    assert(self.world.states().remove(pos).contains_key(p) == before.states().remove(pos).contains_key(p));
                    if before.states().contains_key(p) {
                        assert(self.world.states().remove(pos)[p] == before.states().remove(pos)[p]);
                    }
                    assert(self.world.chunks().remove(pos).contains_key(p) == before.chunks().remove(pos).contains_key(p));
                    if before.chunks().contains_key(p) {
                        assert(self.world.chunks().remove(pos)[p] == before.chunks().remove(pos)[p]);
                    }
                }
                assert forall|j: int| 0 <= j < k + 1 implies {
                    let p = #[trigger] ks[j];
                    &&& settles(ChunkState::ToDraw, self.in_render(p), self.in_load(p), self.world.state(p))
                    &&& w0.chunks().contains_key(p) && self.world.chunks().contains_key(p)
                        ==> self.world.chunks()[p] == w0.chunks()[p]
                } by {
                    let p = ks[j];
                    if j < k {
                        assert(p != pos) by {
                            assert(ks[j] != ks[k as int]);
                        }
                        assert(self.world.states().remove(pos).contains_key(p) == before.states().remove(pos).contains_key(p));
                        if before.states().contains_key(p) {
                            assert(self.world.states().remove(pos)[p] == before.states().remove(pos)[p]);
                        }
                        assert(self.world.chunks().remove(pos).contains_key(p) == before.chunks().remove(pos).contains_key(p));
                        if before.chunks().contains_key(p) {
                            assert(self.world.chunks().remove(pos)[p] == before.chunks().remove(pos)[p]);
                        }
                    } else {
                        assert(w0.states().contains_key(pos) && w0.states()[pos] == ChunkState::ToDraw);
                        assert(before.state(pos) == ChunkState::ToDraw);
                    }
                }
            }
            k = k + 1;
        }
        proof {
            assert forall|p: ChunkPos| old(self).state(p) == ChunkState::ToDraw
                implies settles(ChunkState::ToDraw, old(self).in_render(p), old(self).in_load(p), #[trigger] self.state(p)) by {
                assert(ks.contains(p));
                let j = choose|j: int| 0 <= j < ks.len() && ks[j] == p;
                assert(ks[j] == p);
            }
            assert forall|p: ChunkPos| old(self).state(p) != ChunkState::ToDraw
                implies #[trigger] self.state(p) == old(self).state(p)
                && self.world.states().contains_key(p) == old(self).world.states().contains_key(p) by {
                if exists|j: int| 0 <= j < k && ks[j] == p {
                    let j = choose|j: int| 0 <= j < k && ks[j] == p;
                    assert(ks.contains(p));
                }
            }
            assert forall|p: ChunkPos| old(self).world.chunks().contains_key(p)
                && #[trigger] self.world.chunks().contains_key(p)
                implies self.world.chunks()[p] == old(self).world.chunks()[p] by {
                if exists|j: int| 0 <= j < k && ks[j] == p {
                    let j = choose|j: int| 0 <= j < k && ks[j] == p;
                    assert(ks[j] == p);
                }
            }
        }
    }

    /// Loads `pos` if it is `Empty`, whatever its distance.
    fn load_chunk_if_is_empty(&mut self, pos: ChunkPos)
        requires
            old(self).wf(),
        ensures
            final(self).wf(),
            final(self).config == old(self).config,
            final(self).controller_pos == old(self).controller_pos,
            final(self).world_updates == old(self).world_updates,
            old(self).state(pos) == ChunkState::Empty ==> final(self).world.states() == old(self).world.states().insert(pos, ChunkState::Loaded)
                && final(self).world.chunks().contains_key(pos)
                && final(self).world.chunks().remove(pos) == old(self).world.chunks().remove(pos),
            old(self).state(pos) != ChunkState::Empty ==> final(self).world == old(self).world
                && final(self).chunk_loader == old(self).chunk_loader,
            old(self).state(pos) == ChunkState::Empty ==> final(self).chunk_loader.loads()
                == old(self).chunk_loader.loads().push((pos, final(self).world.chunks()[pos])),
    {
        let curr_chunk_state = self.world.get_chunk_state(pos);
        if !self.world.has_chunk_state(pos) {
            self.change_chunk_state(pos, ChunkState::Empty);
            self.change_chunk_state(pos, ChunkState::Loaded);
            proof {
                assert(self.world.states() =~= old(self).world.states().insert(pos, ChunkState::Loaded));
            }
        } else if curr_chunk_state == ChunkState::Empty {
            self.change_chunk_state(pos, ChunkState::Loaded);
        }
    }

    /// The data of `pos`, loaded first if it is `Empty`; `None` only when
    /// `pos` lies outside the part of the world the manager handles.
    pub fn get_or_load_chunk(&mut self, pos: ChunkPos) -> (r: Option<&Chunk>)
        requires
            old(self).wf(),
        ensures
            final(self).wf(),
            final(self).spec_config() == old(self).spec_config(),
            final(self).controller() == old(self).controller(),
            final(self).world_updates() == old(self).world_updates(),
            !(old(self).spec_config().dynamic_vertical_loading || pos.z == 0) ==> r is None
                && final(self).spec_world() == old(self).spec_world()
                && final(self).loader() == old(self).loader(),
            (old(self).spec_config().dynamic_vertical_loading || pos.z == 0) ==> {
                &&& r is Some
                &&& final(self).spec_world().chunks().contains_key(pos)
                &&& *r->0 == final(self).spec_world().chunks()[pos]
                &&& old(self).state(pos) == ChunkState::Empty ==> final(self).spec_world().states()
                    == old(self).spec_world().states().insert(pos, ChunkState::Loaded)
                    && final(self).spec_world().chunks().remove(pos) == old(self).spec_world().chunks().remove(pos)
                &&& old(self).state(pos) != ChunkState::Empty ==> final(self).spec_world() == old(self).spec_world()
                    && final(self).loader() == old(self).loader()
                &&& old(self).state(pos) == ChunkState::Empty ==> final(self).loader().loads()
                    == old(self).loader().loads().push((pos, *r->0))
            },
    {
        if !self.is_in_world_scope(pos) {
            return None;
        }
        self.load_chunk_if_is_empty(pos);
        proof {
            self.lemma_wf();
        }
        self.world.get_chunk(pos)
    }

    /// Rebuilds the mesh of `pos` if it is drawn or waiting for its mesh.
    fn redraw_chunk(&mut self, pos: ChunkPos)
        requires
            old(self).wf(),
        ensures
            final(self).wf(),
            final(self).config == old(self).config,
            final(self).controller_pos == old(self).controller_pos,
            final(self).world_updates == old(self).world_updates,
            final(self).world.chunks() == old(self).world.chunks(),
            final(self).world.meshes() == old(self).world.meshes(),
            old(self).state(pos) == ChunkState::Drawn
                ==> final(self).world.states() == old(self).world.states().insert(pos, ChunkState::ToDraw),
            old(self).state(pos) != ChunkState::Drawn ==> final(self).world.states() == old(self).world.states(),
            (old(self).state(pos) == ChunkState::Drawn || old(self).state(pos) == ChunkState::ToDraw)
                ==> final(self).world.versions() == old(self).world.versions().insert(
                pos,
                next_version(version_in(old(self).world.versions(), pos)),
            ),
            !(old(self).state(pos) == ChunkState::Drawn || old(self).state(pos) == ChunkState::ToDraw)
                ==> final(self).world == old(self).world && final(self).chunk_builder == old(self).chunk_builder,
            (old(self).state(pos) == ChunkState::Drawn || old(self).state(pos) == ChunkState::ToDraw)
                ==> final(self).chunk_builder.requested(pos) == Some((old(self).world.chunks()[pos]@,
                next_version(version_in(old(self).world.versions(), pos)))),
            final(self).object_events == old(self).object_events,
            final(self).chunk_loader == old(self).chunk_loader,
    {
        proof {
            self.lemma_wf();
        }
        let curr_chunk_state = self.world.get_chunk_state(pos);
        match curr_chunk_state {
            ChunkState::ToDraw => {
                self.pass_chunk_to_builder(pos);
                proof {
                    assert forall|p: ChunkPos| self.world.state(p) == ChunkState::Drawn
                        implies #[trigger] self.world.meshes().contains_key(p) by {
                        assert(old(self).world.state(p) == ChunkState::Drawn ==> old(self).world.meshes().contains_key(p));
                    }
                    assert forall|p: ChunkPos| #[trigger] self.world.chunks().contains_key(p)
                        <==> holds_data(self.world.state(p)) by {
                        assert(old(self).world.chunks().contains_key(p) <==> holds_data(old(self).world.state(p)));
                    }
                }
            },
            ChunkState::Drawn => {
                self.change_chunk_state(pos, ChunkState::ToDraw);
            },
            _ => {},
        }
    }

    /// Stores new data for `pos` without loading it: an `Empty` chunk
    /// becomes `Loaded`, and a drawn or waiting chunk is rebuilt. The change
    /// is reported as a world update.
    pub fn set_chunk(&mut self, pos: ChunkPos, new_chunk: Chunk)
        requires
            old(self).wf(),
        ensures
            final(self).wf(),
            final(self).spec_config() == old(self).spec_config(),
            final(self).controller() == old(self).controller(),
            final(self).spec_world().chunks().contains_key(pos),
            final(self).spec_world().chunks()[pos]@ == new_chunk@,
            final(self).spec_world().chunks().remove(pos) == old(self).spec_world().chunks().remove(pos),
            final(self).spec_world().meshes() == old(self).spec_world().meshes(),
            final(self).spec_world().states() == old(self).spec_world().states().insert(pos, match old(self).state(pos) {
                ChunkState::Empty => ChunkState::Loaded,
                ChunkState::Drawn => ChunkState::ToDraw,
                s => s,
            }),
            final(self).world_updates() == old(self).world_updates().push(WorldChunkUpdate { chunk_pos: pos, chunk: new_chunk }),
            final(self).object_events() == old(self).object_events(),
            final(self).loader() == old(self).loader(),
            (old(self).state(pos) == ChunkState::Drawn || old(self).state(pos) == ChunkState::ToDraw)
                ==> final(self).spec_world().versions() == old(self).spec_world().versions().insert(pos,
                next_version(version_in(old(self).spec_world().versions(), pos)))
                && final(self).builder().requested(pos) == Some((new_chunk@,
                next_version(version_in(old(self).spec_world().versions(), pos)))),
            !(old(self).state(pos) == ChunkState::Drawn || old(self).state(pos) == ChunkState::ToDraw)
                ==> final(self).spec_world().versions() == old(self).spec_world().versions()
                && final(self).builder() == old(self).builder(),
    {
        proof {
            self.lemma_wf();
        }
        let ghost s0 = self.state(pos);
        self.world.set_chunk(pos, new_chunk.clone());
        let curr_chunk_state = self.world.get_chunk_state(pos);
        if curr_chunk_state == ChunkState::Empty {
            self.world.set_chunk_state(pos, ChunkState::Loaded);
        } else {
            proof {
                assert(self.world.states().contains_key(pos));
                assert(self.world.states() =~= old(self).world.states().insert(pos, s0));
            }
        }
        proof {
            assert forall|p: ChunkPos| #[trigger] self.world.states().contains_key(p)
                implies self.world.states()[p] != ChunkState::Loading by {
                if p != pos {
                    assert(old(self).world.states().contains_key(p));
                }
            }
            assert forall|p: ChunkPos| #[trigger] self.world.chunks().contains_key(p)
                <==> holds_data(self.world.state(p)) by {
                if p != pos {
                    assert(old(self).world.chunks().contains_key(p) <==> holds_data(old(self).world.state(p)));
                }
            }
            assert forall|p: ChunkPos| self.world.state(p) == ChunkState::Drawn
                implies #[trigger] self.world.meshes().contains_key(p) by {
                assert(old(self).world.state(p) == ChunkState::Drawn ==> old(self).world.meshes().contains_key(p));
            }
        }
        self.redraw_chunk(pos);
        self.world_updates.push(WorldChunkUpdate { chunk_pos: pos, chunk: new_chunk });
        proof {
            assert(self.world.chunks().remove(pos) =~= old(self).world.chunks().remove(pos));
        }
    }

    /// Unloads `pos` and removes it from the world; a loaded chunk's removal
    /// is reported as a world update with its last data.
    pub fn remove_chunk(&mut self, pos: ChunkPos)
        requires
            old(self).wf(),
        ensures
            final(self).wf(),
            final(self).spec_config() == old(self).spec_config(),
            final(self).controller() == old(self).controller(),
            final(self).spec_world().states() == old(self).spec_world().states().remove(pos),
            final(self).spec_world().chunks() == old(self).spec_world().chunks().remove(pos),
            final(self).spec_world().meshes() == old(self).spec_world().meshes().remove(pos),
            old(self).spec_world().chunks().contains_key(pos) ==> final(self).world_updates().len()
                == old(self).world_updates().len() + 1
                && final(self).world_updates().drop_last() == old(self).world_updates()
                && final(self).world_updates().last().chunk_pos == pos
                && final(self).world_updates().last().chunk@ == old(self).spec_world().chunks()[pos]@,
            !old(self).spec_world().chunks().contains_key(pos) ==> final(self).world_updates() == old(self).world_updates(),
            final(self).spec_world().versions() == old(self).spec_world().versions().remove(pos),
            old(self).state(pos) == ChunkState::Drawn
                ==> final(self).object_events() == old(self).object_events().push(ChunkObjectEvent::Removed(pos)),
            old(self).state(pos) != ChunkState::Drawn ==> final(self).object_events() == old(self).object_events(),
            final(self).loader() == old(self).loader(),
    {
        proof {
            self.lemma_wf();
        }
        let data = match self.world.get_chunk(pos) {
            Some(chunk) => Some(chunk.clone()),
            None => None,
        };
        if let Some(chunk) = data {
            self.world_updates.push(WorldChunkUpdate { chunk_pos: pos, chunk });
            let chunk_state = self.world.get_chunk_state(pos);
            if chunk_state == ChunkState::Drawn || chunk_state == ChunkState::ToDraw {
                self.change_chunk_state(pos, ChunkState::Loaded);
            }
            self.change_chunk_state(pos, ChunkState::Empty);
        }
        let ghost mid = self.world;
        self.world.remove_chunk(pos);
        proof {
            assert(self.world.states() =~= old(self).world.states().remove(pos));
            assert(self.world.chunks() =~= old(self).world.chunks().remove(pos));
            assert(self.world.meshes() =~= old(self).world.meshes().remove(pos));
            assert forall|p: ChunkPos| #[trigger] self.world.states().contains_key(p)
                implies self.world.states()[p] != ChunkState::Loading by {
                assert(old(self).world.states().contains_key(p));
            }
            assert forall|p: ChunkPos| #[trigger] self.world.chunks().contains_key(p)
                <==> holds_data(self.world.state(p)) by {
                if p != pos {
                    assert(old(self).world.chunks().contains_key(p) <==> holds_data(old(self).world.state(p)));
                }
            }
            assert forall|p: ChunkPos| self.world.state(p) == ChunkState::Drawn
                implies #[trigger] self.world.meshes().contains_key(p) by {
                assert(old(self).world.state(p) == ChunkState::Drawn ==> old(self).world.meshes().contains_key(p));
            }
        }
    }

    /// The data of `pos`, if loaded.
    pub fn get_chunk(&self, pos: ChunkPos) -> (r: Option<&Chunk>)
        requires
            self.wf(),
        ensures
            match r {
                Some(c) => self.spec_world().chunks().contains_key(pos) && *c == self.spec_world().chunks()[pos],
                None => !self.spec_world().chunks().contains_key(pos),
            },
    {
        proof {
            self.lemma_wf();
        }
        self.world.get_chunk(pos)
    }

    /// Hands out the rendered-object changes, oldest first, and forgets them.
    pub fn take_object_events(&mut self) -> (r: Vec<ChunkObjectEvent>)
        requires
            old(self).wf(),
        ensures
            final(self).wf(),
            r@ == old(self).object_events(),
            final(self).object_events() == Seq::<ChunkObjectEvent>::empty(),
            final(self).spec_world() == old(self).spec_world(),
            final(self).world_updates() == old(self).world_updates(),
            final(self).spec_config() == old(self).spec_config(),
            final(self).controller() == old(self).controller(),
    {
        let mut out: Vec<ChunkObjectEvent> = Vec::new();
        std::mem::swap(&mut out, &mut self.object_events);
        out
    }

    /// Hands out the chunk data changes, oldest first, and forgets them.
    pub fn take_world_updates(&mut self) -> (r: Vec<WorldChunkUpdate>)
        requires
            old(self).wf(),
        ensures
            final(self).wf(),
            r@ == old(self).world_updates(),
            final(self).world_updates() == Seq::<WorldChunkUpdate>::empty(),
            final(self).spec_world() == old(self).spec_world(),
            final(self).object_events() == old(self).object_events(),
            final(self).spec_config() == old(self).spec_config(),
            final(self).controller() == old(self).controller(),
    {
        let mut out: Vec<WorldChunkUpdate> = Vec::new();
        std::mem::swap(&mut out, &mut self.world_updates);
        out
    }
}

/// Where a chunk comes to rest matches its distance: it is waiting for its
/// mesh or drawn only in render distance, loaded only in load distance but
/// outside render distance, and emptied only outside load distance.
pub proof fn lemma_rest_state_matches_distance(s0: ChunkState, render: bool, load: bool, s: ChunkState)
    requires
        s0 != ChunkState::Loading,
        settles(s0, render, load, s),
    ensures
        s == ChunkState::ToDraw || s == ChunkState::Drawn ==> render,
        s == ChunkState::Loaded ==> load && !render,
        s == ChunkState::Empty ==> !load,
        s == ChunkState::Empty <==> settles_empty(s0, render, load),
{
}

/// Every chunk position visited around the controller lies in its load
/// distance, so none of them leaves the world in an update.
pub proof fn lemma_visited_chunks_stay(c: ChunkPos, config: Config, p: ChunkPos)
    requires
        in_visit_range(c, config.load_distance as int, config.dynamic_vertical_loading, p),
    ensures
        within_distance(config, p, config.load_distance as int, c),
        forall|s0: ChunkState, render: bool| !settles_empty(s0, render, within_distance(config, p, config.load_distance as int, c)),
{
    lemma_visited_within_distance(c, config.load_distance as int, config.dynamic_vertical_loading, p);
}

} // verus!
