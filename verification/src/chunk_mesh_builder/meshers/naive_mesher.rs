//! A mesher that emits one face per visible block side.
use vstd::prelude::*;
use std::collections::HashMap;
use crate::types::{BlockID, BlockInChunkPos, BlockSide, IVec3, CHUNK_VOLUME, side_at, cube_index};
use crate::chunk_mesh_builder::chunk_mesh::MaterialId;
use crate::chunk_mesh_builder::storage::render_shape::RenderShape;
use crate::chunk_mesh_builder::storage::chunk_with_neighbors::{ChunkWithNeighbors, out_count, shiftable};
use super::chunk_mesher::{ChunkMeshData, FaceData, MesherWarning};

verus! {

broadcast use vstd::std_specs::hash::group_hash_axioms;

/// Number of warnings per unknown block id.
pub type MesherWarnings = HashMap<BlockID, u32>;

/// What a mesher produces for one chunk.
pub struct MesherOutput {
    /// Faces per material layer.
    pub layers: HashMap<MaterialId, ChunkMeshData>,
    /// Unknown render shapes met, with the number of times each was met.
    pub warnings: MesherWarnings,
}

/// The faces of each material layer of mesher output `layers`.
pub open spec fn layer_faces_view(layers: Map<MaterialId, ChunkMeshData>) -> Map<MaterialId, Seq<FaceData>> {
    layers.map_values(|d: ChunkMeshData| d.faces@)
}

/// Creates chunk mesh data from a chunk and its neighbours; warnings never
/// interrupt the mesh creation.
pub trait ChunkMesher {
    /// The faces, per material layer, that this mesher makes of `chunk`. An
    /// implementation states them by overriding this definition, which leaves
    /// them unspecified.
    open spec fn faces_of(&self, chunk: ChunkWithNeighbors) -> Map<MaterialId, Seq<FaceData>> {
        arbitrary()
    }

    /// The warnings this mesher reports for `chunk`. An implementation states
    /// them by overriding this definition, which leaves them unspecified.
    open spec fn warnings_of(&self, chunk: ChunkWithNeighbors) -> Map<BlockID, u32> {
        arbitrary()
    }

    fn create_mesh(&self, chunk: &ChunkWithNeighbors) -> (r: MesherOutput)
        ensures
            layer_faces_view(r.layers@) == self.faces_of(*chunk),
            r.warnings@ == self.warnings_of(*chunk),
    ;
}

/// Emits, for every visible block, one face per side whose neighbour lets it show.
#[derive(Debug)]
pub struct NaiveMesher {
    render_shape_storage: Vec<RenderShape>,
}

/// Occurrences of `id` in `s`.
pub open spec fn count_in(s: Seq<BlockID>, id: BlockID) -> nat
    decreases s.len(),
{
    if s.len() == 0 {
        0
    } else {
        count_in(s.drop_last(), id) + if s.last() == id {
            1nat
        } else {
            0nat
        }
    }
}

/// The count a warning map holds for `id` (0 when absent).
pub open spec fn wcount(w: Map<BlockID, u32>, id: BlockID) -> int {
    if w.contains_key(id) {
        w[id] as int
    } else {
        0
    }
}

/// Position of linear index `i` of a chunk.
pub open spec fn block_pos_at(i: int) -> BlockInChunkPos {
    BlockInChunkPos { x: (i % 16) as usize, y: ((i / 16) % 16) as usize, z: (i / 256) as usize }
}

/// The position next to `pos` on `side`.
pub open spec fn neighbor_pos_spec(pos: BlockInChunkPos, side: BlockSide) -> IVec3 {
    IVec3 {
        x: (pos.x + side.dir().x) as isize,
        y: (pos.y + side.dir().y) as isize,
        z: (pos.z + side.dir().z) as isize,
    }
}

/// The face of `side` of the block at `pos`.
pub open spec fn face_for(shape: RenderShape, side: BlockSide, pos: BlockInChunkPos) -> FaceData {
    FaceData {
        facing_side: side,
        block_pos: pos,
        uv_2: match shape.spec_storage_index(side) {
            Some(v) => v,
            None => 0,
        },
    }
}

proof fn lemma_count_push(s: Seq<BlockID>, x: BlockID, id: BlockID)
    ensures
        count_in(s.push(x), id) == count_in(s, id) + if x == id { 1int } else { 0int },
{
    assert(s.push(x).drop_last() =~= s);
}

proof fn lemma_count_le_len(s: Seq<BlockID>, id: BlockID)
    ensures
        count_in(s, id) <= s.len(),
    decreases s.len(),
{
    if s.len() > 0 {
        lemma_count_le_len(s.drop_last(), id);
    }
}

proof fn lemma_count_concat(s: Seq<BlockID>, t: Seq<BlockID>, id: BlockID)
    ensures
        count_in(s + t, id) == count_in(s, id) + count_in(t, id),
    decreases t.len(),
{
    if t.len() == 0 {
        assert(s + t =~= s);
    } else {
        lemma_count_concat(s, t.drop_last(), id);
        assert((s + t).drop_last() =~= s + t.drop_last());
    }
}

impl NaiveMesher {
    /// Render shapes indexed by block id.
    pub closed spec fn shapes(&self) -> Seq<RenderShape> {
        self.render_shape_storage@
    }

    /// The shape of block `id`, if known.
    pub open spec fn shape_of(&self, id: BlockID) -> Option<RenderShape> {
        if (id as int) < self.shapes().len() {
            Some(self.shapes()[id as int])
        } else {
            None
        }
    }

    /// The block id next to `pos` on `side`.
    pub open spec fn neighbor_id(&self, cwn: ChunkWithNeighbors, pos: BlockInChunkPos, side: BlockSide) -> BlockID {
        cwn.block_at(neighbor_pos_spec(pos, side))
    }

    /// Whether the face of `side` of the block at `pos` shows: its neighbour
    /// is translucent, or has an unknown shape.
    pub open spec fn side_shows(&self, cwn: ChunkWithNeighbors, pos: BlockInChunkPos, side: BlockSide) -> bool {
        match self.shape_of(self.neighbor_id(cwn, pos, side)) {
            Some(s) => s.spec_render_data().translucent,
            None => true,
        }
    }

    /// Faces of the block at `pos` for the first `k` sides.
    pub open spec fn sides_faces(&self, shape: RenderShape, cwn: ChunkWithNeighbors, pos: BlockInChunkPos, k: int) -> Seq<FaceData>
        decreases k,
    {
        if k <= 0 {
            Seq::empty()
        } else {
            self.sides_faces(shape, cwn, pos, k - 1) + if self.side_shows(cwn, pos, side_at(k - 1)) {
                seq![face_for(shape, side_at(k - 1), pos)]
            } else {
                Seq::empty()
            }
        }
    }

    /// Unknown neighbour ids met for the first `k` sides of the block at `pos`.
    pub open spec fn sides_warnings(&self, cwn: ChunkWithNeighbors, pos: BlockInChunkPos, k: int) -> Seq<BlockID>
        decreases k,
    {
        if k <= 0 {
            Seq::empty()
        } else {
            self.sides_warnings(cwn, pos, k - 1) + if self.shape_of(self.neighbor_id(cwn, pos, side_at(k - 1))) is None {
                seq![self.neighbor_id(cwn, pos, side_at(k - 1))]
            } else {
                Seq::empty()
            }
        }
    }

    /// Faces of a block with shape `shape` at `pos`.
    pub open spec fn block_faces(&self, shape: RenderShape, cwn: ChunkWithNeighbors, pos: BlockInChunkPos) -> Seq<FaceData> {
        if shape.spec_render_data().visible {
            self.sides_faces(shape, cwn, pos, 6)
        } else {
            Seq::empty()
        }
    }

    /// Unknown neighbour ids met meshing a block with shape `shape` at `pos`.
    pub open spec fn block_warnings(&self, shape: RenderShape, cwn: ChunkWithNeighbors, pos: BlockInChunkPos) -> Seq<BlockID> {
        if shape.spec_render_data().visible {
            self.sides_warnings(cwn, pos, 6)
        } else {
            Seq::empty()
        }
    }

    /// Faces of material `m` from the first `n` blocks, in block order.
    pub open spec fn layer_faces(&self, cwn: ChunkWithNeighbors, m: MaterialId, n: int) -> Seq<FaceData>
        decreases n,
    {
        if n <= 0 {
            Seq::empty()
        } else {
            let id = cwn.chunk@[n - 1];
            self.layer_faces(cwn, m, n - 1) + match self.shape_of(id) {
                Some(s) => if s.spec_render_data().material == m {
                    self.block_faces(s, cwn, block_pos_at(n - 1))
                } else {
                    Seq::empty()
                },
                None => Seq::empty(),
            }
        }
    }

    /// Unknown ids met in the first `n` blocks, in order of meeting.
    pub open spec fn all_warnings(&self, cwn: ChunkWithNeighbors, n: int) -> Seq<BlockID>
        decreases n,
    {
        if n <= 0 {
            Seq::empty()
        } else {
            let id = cwn.chunk@[n - 1];
            self.all_warnings(cwn, n - 1) + match self.shape_of(id) {
                Some(s) => self.block_warnings(s, cwn, block_pos_at(n - 1)),
                None => seq![id],
            }
        }
    }

    /// Whether one of the first `n` blocks has a known shape of material `m`.
    pub open spec fn has_material(&self, cwn: ChunkWithNeighbors, m: MaterialId, n: int) -> bool {
        exists|j: int| 0 <= j < n && (#[trigger] self.shape_of(cwn.chunk@[j]) matches Some(s) && s.spec_render_data().material == m)
    }

    /// A mesher over the render shapes, indexed by block id.
    pub fn new(render_shape_storage: Vec<RenderShape>) -> (r: NaiveMesher)
        ensures
            r.shapes() == render_shape_storage@,
    {
        NaiveMesher { render_shape_storage }
    }

    /// The shape of block `id`, if known.
    fn get_shape(&self, id: BlockID) -> (r: Option<&RenderShape>)
        ensures
            match r {
                Some(s) => self.shape_of(id) == Some(*s),
                None => self.shape_of(id) is None,
            },
    {
        let i = id as usize;
        if i < self.render_shape_storage.len() {
            Some(&self.render_shape_storage[i])
        } else {
            None
        }
    }

    /// Counts one more warning for `id`.
    fn add_warning(warnings: &mut MesherWarnings, id: BlockID)
        requires
            wcount(old(warnings)@, id) < u32::MAX,
        ensures
            forall|k: BlockID| #[trigger] wcount(final(warnings)@, k) == wcount(old(warnings)@, k) + if k == id { 1int } else { 0int },
            forall|k: BlockID| #[trigger] final(warnings)@.contains_key(k) <==> (old(warnings)@.contains_key(k) || k == id),
    {
        let c: u32 = match warnings.get(&id) {
            Some(c) => *c,
            None => 0,
        };
        warnings.insert(id, c + 1);
    }

    /// Emits the faces of a visible block that show, and counts a warning
    /// for each neighbour with an unknown shape (whose face then shows).
    fn create_block(
        &self,
        render_shape: &RenderShape,
        pos: BlockInChunkPos,
        out: &mut ChunkMeshData,
        chunk: &ChunkWithNeighbors,
        warnings: &mut MesherWarnings,
    )
        requires
            pos.in_chunk(),
            forall|k: BlockID| #[trigger] wcount(old(warnings)@, k) <= u32::MAX - 6,
        ensures
            final(out).faces@ == old(out).faces@ + self.block_faces(*render_shape, *chunk, pos),
            forall|k: BlockID| #[trigger] wcount(final(warnings)@, k) == wcount(old(warnings)@, k) + count_in(self.block_warnings(*render_shape, *chunk, pos), k),
            forall|k: BlockID| #[trigger] final(warnings)@.contains_key(k) <==> (old(warnings)@.contains_key(k) || count_in(self.block_warnings(*render_shape, *chunk, pos), k) > 0),
    {
        if !render_shape.render_data().visible {
            proof {
                assert(old(out).faces@ + Seq::<FaceData>::empty() =~= old(out).faces@);
            }
            return;
        }
        let mut i: usize = 0;
        while i < 6
            invariant
                i <= 6,
                pos.in_chunk(),
                render_shape.spec_render_data().visible,
                out.faces@ == old(out).faces@ + self.sides_faces(*render_shape, *chunk, pos, i as int),
                forall|k: BlockID| #[trigger] wcount(old(warnings)@, k) <= u32::MAX - 6,
                forall|k: BlockID| #[trigger] wcount(warnings@, k) == wcount(old(warnings)@, k) + count_in(self.sides_warnings(*chunk, pos, i as int), k),
                forall|k: BlockID| #[trigger] warnings@.contains_key(k) <==> (old(warnings)@.contains_key(k) || count_in(self.sides_warnings(*chunk, pos, i as int), k) > 0),
                self.sides_warnings(*chunk, pos, i as int).len() <= i,
            decreases 6 - i,
        {
            let side = BlockSide::from_index(i);
            let result = self.has_translucent_neighbor(side, pos, chunk);
            let ghost prev_w = self.sides_warnings(*chunk, pos, i as int);
            let has_transparent_neighbor = match result {
                Err(MesherWarning::UnknownRenderShape(nid)) => {
                    proof {
                        lemma_count_le_len(prev_w, nid);
                    }
                    Self::add_warning(warnings, nid);
                    proof {
                        assert(self.sides_warnings(*chunk, pos, i + 1) == prev_w.push(nid));
                        assert forall|k: BlockID| #[trigger] wcount(warnings@, k) == wcount(old(warnings)@, k) + count_in(self.sides_warnings(*chunk, pos, i + 1), k) by {
                            lemma_count_push(prev_w, nid, k);
                        }
                        assert forall|k: BlockID| #[trigger] warnings@.contains_key(k) <==> (old(warnings)@.contains_key(k) || count_in(self.sides_warnings(*chunk, pos, i + 1), k) > 0) by {
                            lemma_count_push(prev_w, nid, k);
                        }
                    }
                    true
                },
                Ok(has_transparent_neighbor) => {
                    proof {
                        assert(self.sides_warnings(*chunk, pos, i + 1) =~= prev_w);
                    }
                    has_transparent_neighbor
                },
            };
            if has_transparent_neighbor {
                let face = self.create_face(side, pos, render_shape);
                out.faces.push(face);
                proof {
                    assert(out.faces@ =~= old(out).faces@ + self.sides_faces(*render_shape, *chunk, pos, i + 1));
                }
            } else {
                proof {
                    assert(out.faces@ =~= old(out).faces@ + self.sides_faces(*render_shape, *chunk, pos, i + 1));
                }
            }
            i = i + 1;
        }
    }

    /// Whether the neighbour of `pos` on `side` is translucent; an error
    /// when its shape is unknown.
    fn has_translucent_neighbor(&self, side: BlockSide, pos: BlockInChunkPos, chunk: &ChunkWithNeighbors) -> (r: Result<bool, MesherWarning>)
        requires
            pos.in_chunk(),
        ensures
            match self.shape_of(self.neighbor_id(*chunk, pos, side)) {
                Some(s) => r == Ok::<bool, MesherWarning>(s.spec_render_data().translucent),
                None => r == Err::<bool, MesherWarning>(MesherWarning::UnknownRenderShape(self.neighbor_id(*chunk, pos, side))),
            },
    {
        let neighbor_pos = self.get_neighbor_pos(pos, side);
        let neighbor_id: BlockID = chunk.get(neighbor_pos);
        match self.get_shape(neighbor_id) {
            Some(neighbor_render_shape) => Ok(neighbor_render_shape.render_data().translucent),
            None => Err(MesherWarning::UnknownRenderShape(neighbor_id)),
        }
    }

    /// The position next to `pos` on `side`.
    fn get_neighbor_pos(&self, pos: BlockInChunkPos, side: BlockSide) -> (r: IVec3)
        requires
            pos.in_chunk(),
        ensures
            r == neighbor_pos_spec(pos, side),
            out_count(r) <= 1,
            shiftable(r),
    {
        let dir = side.direction();
        proof {
            side.lemma_dir_unit();
        }
        let x = pos.x as isize + dir.x;
        let y = pos.y as isize + dir.y;
        let z = pos.z as isize + dir.z;
        proof {
            match side {
                BlockSide::Front => {},
                BlockSide::Back => {},
                BlockSide::Right => {},
                BlockSide::Left => {},
                BlockSide::Top => {},
                BlockSide::Bottom => {},
            }
        }
        IVec3 { x, y, z }
    }

    /// The face of `side` of the block at `block_pos`.
    fn create_face(&self, side: BlockSide, block_pos: BlockInChunkPos, render_shape: &RenderShape) -> (r: FaceData)
        ensures
            r == face_for(*render_shape, side, block_pos),
    {
        let uv_2 = match render_shape.get_storage_index(side) {
            Some(v) => v,
            None => 0,
        };
        FaceData { facing_side: side, block_pos, uv_2 }
    }
}


impl ChunkMesher for NaiveMesher {
    /// One layer per material met, with the faces of its blocks.
    open spec fn faces_of(&self, chunk: ChunkWithNeighbors) -> Map<MaterialId, Seq<FaceData>> {
        Map::new(
            |m: MaterialId| self.has_material(chunk, m, CHUNK_VOLUME as int),
            |m: MaterialId| self.layer_faces(chunk, m, CHUNK_VOLUME as int),
        )
    }

    /// The number of times each unknown block id was met.
    open spec fn warnings_of(&self, chunk: ChunkWithNeighbors) -> Map<BlockID, u32> {
        Map::new(
            |id: BlockID| count_in(self.all_warnings(chunk, CHUNK_VOLUME as int), id) > 0,
            |id: BlockID| count_in(self.all_warnings(chunk, CHUNK_VOLUME as int), id) as u32,
        )
    }

    /// Meshes every block of the chunk in index order. A block with a known
    /// shape adds its faces to the layer of its material (creating the layer
    /// even when no face shows); a block with an unknown shape counts a
    /// warning for its id.
    fn create_mesh(&self, chunk: &ChunkWithNeighbors) -> (r: MesherOutput)
        ensures
            forall|m: MaterialId| #[trigger] r.layers@.contains_key(m) <==> self.has_material(*chunk, m, CHUNK_VOLUME as int),
            forall|m: MaterialId| #[trigger] r.layers@.contains_key(m) ==> r.layers@[m].faces@ == self.layer_faces(*chunk, m, CHUNK_VOLUME as int),
            forall|id: BlockID| #[trigger] wcount(r.warnings@, id) == count_in(self.all_warnings(*chunk, CHUNK_VOLUME as int), id),
            forall|id: BlockID| #[trigger] r.warnings@.contains_key(id) <==> count_in(self.all_warnings(*chunk, CHUNK_VOLUME as int), id) > 0,
    {
        let mut out: HashMap<MaterialId, ChunkMeshData> = HashMap::new();
        let mut warnings: MesherWarnings = HashMap::new();
        let block_storage = chunk.get_origin_block_storage();
        let n = block_storage.len();
        let mut index: usize = 0;
        while index < n
            invariant
                n == CHUNK_VOLUME,
                block_storage@ == chunk.chunk@,
                block_storage@.len() == CHUNK_VOLUME,
                index <= n,
                forall|m: MaterialId| #[trigger] out@.contains_key(m) <==> self.has_material(*chunk, m, index as int),
                forall|m: MaterialId| #[trigger] out@.contains_key(m) ==> out@[m].faces@ == self.layer_faces(*chunk, m, index as int),
                forall|id: BlockID| #[trigger] wcount(warnings@, id) == count_in(self.all_warnings(*chunk, index as int), id),
                forall|id: BlockID| #[trigger] warnings@.contains_key(id) <==> count_in(self.all_warnings(*chunk, index as int), id) > 0,
                self.all_warnings(*chunk, index as int).len() <= 7 * index,
            decreases n - index,
        {
            let block_id = block_storage.get_index(index);
            let pos = BlockInChunkPos::from_index(index);
            let ghost i = index as int;
            let ghost prev_w = self.all_warnings(*chunk, i);
            proof {
                assert(pos == block_pos_at(i)) by {
                    assert(cube_index(pos.x as int, pos.y as int, pos.z as int, 16) == i);
                    assert(pos.x + 16 * (pos.y + 16 * pos.z) == i);
                    assert(pos.x as int == i % 16 && pos.y as int == (i / 16) % 16 && pos.z as int == i / 256) by (nonlinear_arith)
                        requires
                            pos.x + 16 * (pos.y + 16 * pos.z) == i,
                            pos.x < 16,
                            pos.y < 16,
                            pos.z < 16,
                    ;
                }
                assert forall|id: BlockID| #[trigger] wcount(warnings@, id) <= u32::MAX - 6 by {
                    lemma_count_le_len(prev_w, id);
                }
            }
            match self.get_shape(block_id) {
                Some(render_shape) => {
                    let material = render_shape.render_data().material;
                    let mut layer_mesh = match out.remove(&material) {
                        Some(l) => l,
                        None => ChunkMeshData::new(),
                    };
                    let ghost old_faces = layer_mesh.faces@;
                    self.create_block(render_shape, BlockInChunkPos::new(pos.x, pos.y, pos.z), &mut layer_mesh, chunk, &mut warnings);
                    out.insert(material, layer_mesh);
                    proof {
                        let bw = self.block_warnings(*render_shape, *chunk, pos);
                        assert(self.all_warnings(*chunk, i + 1) == prev_w + bw);
                        assert(bw.len() <= 6) by {
                            if render_shape.spec_render_data().visible {
                                assert(self.sides_warnings(*chunk, pos, 6).len() <= 6) by {
                                    reveal_with_fuel(NaiveMesher::sides_warnings, 7);
                                }
                            }
                        }
                        assert forall|id: BlockID| #[trigger] wcount(warnings@, id) == count_in(self.all_warnings(*chunk, i + 1), id) by {
                            lemma_count_concat(prev_w, bw, id);
                        }
                        assert forall|id: BlockID| #[trigger] warnings@.contains_key(id) <==> count_in(self.all_warnings(*chunk, i + 1), id) > 0 by {
                            lemma_count_concat(prev_w, bw, id);
                        }
                        assert forall|m: MaterialId| #[trigger] out@.contains_key(m) <==> self.has_material(*chunk, m, i + 1) by {
                            if m == material {
                                assert(self.shape_of(chunk.chunk@[i]) == Some(*render_shape));
                            }
                            if self.has_material(*chunk, m, i + 1) && m != material {
                                let j = choose|j: int| 0 <= j < i + 1 && (#[trigger] self.shape_of(chunk.chunk@[j]) matches Some(s) && s.spec_render_data().material == m);
                                assert(j != i);
                            }
                        }
                        assert forall|m: MaterialId| #[trigger] out@.contains_key(m) implies out@[m].faces@ == self.layer_faces(*chunk, m, i + 1) by {
                            if m == material {
                                if !self.has_material(*chunk, m, i) {
                                    lemma_layer_faces_absent(self, *chunk, m, i);
                                }
                            }
                        }
                    }
                },
                None => {
                    proof {
                        lemma_count_le_len(prev_w, block_id);
                    }
                    Self::add_warning(&mut warnings, block_id);
                    proof {
                        assert(self.all_warnings(*chunk, i + 1) == prev_w.push(block_id));
                        assert forall|id: BlockID| #[trigger] wcount(warnings@, id) == count_in(self.all_warnings(*chunk, i + 1), id) by {
                            lemma_count_push(prev_w, block_id, id);
                        }
                        assert forall|id: BlockID| #[trigger] warnings@.contains_key(id) <==> count_in(self.all_warnings(*chunk, i + 1), id) > 0 by {
                            lemma_count_push(prev_w, block_id, id);
                        }
                        assert forall|m: MaterialId| #[trigger] out@.contains_key(m) <==> self.has_material(*chunk, m, i + 1) by {
                            if self.has_material(*chunk, m, i + 1) {
                                let j = choose|j: int| 0 <= j < i + 1 && (#[trigger] self.shape_of(chunk.chunk@[j]) matches Some(s) && s.spec_render_data().material == m);
                                assert(j != i);
                            }
                        }
                        assert forall|m: MaterialId| #[trigger] out@.contains_key(m) implies out@[m].faces@ == self.layer_faces(*chunk, m, i + 1) by {
                            assert(self.layer_faces(*chunk, m, i + 1) =~= self.layer_faces(*chunk, m, i));
                        }
                    }
                },
            }
            index = index + 1;
        }
        proof {
            assert(layer_faces_view(out@) =~= self.faces_of(*chunk));
            assert forall|id: BlockID| warnings@.contains_key(id) implies warnings@[id] == self.warnings_of(*chunk)[id] by {
                assert(wcount(warnings@, id) == count_in(self.all_warnings(*chunk, CHUNK_VOLUME as int), id));
            }
            assert(warnings@ =~= self.warnings_of(*chunk));
        }
        MesherOutput { layers: out, warnings }
    }
}

/// A material none of the first `n` blocks has gathers no faces.
proof fn lemma_layer_faces_absent(mesher: &NaiveMesher, cwn: ChunkWithNeighbors, m: MaterialId, n: int)
    requires
        !mesher.has_material(cwn, m, n),
    ensures
        mesher.layer_faces(cwn, m, n) == Seq::<FaceData>::empty(),
    decreases n,
{
    if n > 0 {
        assert(!mesher.has_material(cwn, m, n - 1)) by {
            if mesher.has_material(cwn, m, n - 1) {
                let j = choose|j: int| 0 <= j < n - 1 && (#[trigger] mesher.shape_of(cwn.chunk@[j]) matches Some(s) && s.spec_render_data().material == m);
                assert(0 <= j < n && (mesher.shape_of(cwn.chunk@[j]) matches Some(s) && s.spec_render_data().material == m));
            }
        }
        lemma_layer_faces_absent(mesher, cwn, m, n - 1);
        let id = cwn.chunk@[n - 1];
        match mesher.shape_of(id) {
            Some(s) => {
                if s.spec_render_data().material == m {
                    assert(0 <= n - 1 < n && (mesher.shape_of(cwn.chunk@[n - 1]) matches Some(s) && s.spec_render_data().material == m));
                }
            },
            None => {},
        }
        assert(mesher.layer_faces(cwn, m, n) =~= Seq::<FaceData>::empty());
    }
}

/// Whether `x` occurs in `a + b`.
proof fn lemma_concat_contains<A>(a: Seq<A>, b: Seq<A>, x: A)
    ensures
        (a + b).contains(x) <==> (a.contains(x) || b.contains(x)),
{
    if (a + b).contains(x) {
        let i = choose|i: int| 0 <= i < (a + b).len() && (a + b)[i] == x;
        if i < a.len() {
            assert(a[i] == x);
        } else {
            assert(b[i - a.len()] == x);
        }
    }
    if a.contains(x) {
        let i = choose|i: int| 0 <= i < a.len() && a[i] == x;
        assert((a + b)[i] == x);
    }
    if b.contains(x) {
        let i = choose|i: int| 0 <= i < b.len() && b[i] == x;
        assert((a + b)[a.len() + i] == x);
    }
}

/// Linear index and position of a chunk's blocks correspond.
proof fn lemma_block_pos_index(j: int)
    requires
        0 <= j < 4096,
    ensures
        block_pos_at(j).in_chunk(),
        block_pos_at(j).spec_index() == j,
{
    assert((j % 16) + 16 * ((j / 16) % 16 + 16 * (j / 256)) == j) by (nonlinear_arith)
        requires
            0 <= j < 4096,
    ;
    assert(j / 256 < 16) by (nonlinear_arith)
        requires
            0 <= j < 4096,
    ;
}

/// A position inside a chunk is the position of its own linear index.
proof fn lemma_pos_block_index(p: BlockInChunkPos)
    requires
        p.in_chunk(),
    ensures
        0 <= p.spec_index() < 4096,
        block_pos_at(p.spec_index()) == p,
{
    let x = p.x as int;
    let y = p.y as int;
    let z = p.z as int;
    assert((x + 16 * (y + 16 * z)) % 16 == x && ((x + 16 * (y + 16 * z)) / 16) % 16 == y && (x + 16 * (y
        + 16 * z)) / 256 == z && 0 <= x + 16 * (y + 16 * z) < 4096) by (nonlinear_arith)
        requires
            0 <= x < 16,
            0 <= y < 16,
            0 <= z < 16,
    ;
}

impl NaiveMesher {
    /// The faces of the first `k` sides of a block are those of the sides
    /// that show.
    proof fn lemma_sides_faces_member(&self, shape: RenderShape, cwn: ChunkWithNeighbors, pos: BlockInChunkPos, k: int, f: FaceData)
        requires
            0 <= k <= 6,
        ensures
            self.sides_faces(shape, cwn, pos, k).contains(f) <==> exists|i: int|
                0 <= i < k && self.side_shows(cwn, pos, side_at(i)) && f == #[trigger] face_for(shape, side_at(i), pos),
        decreases k,
    {
        if k > 0 {
            self.lemma_sides_faces_member(shape, cwn, pos, k - 1, f);
            let last = if self.side_shows(cwn, pos, side_at(k - 1)) {
                seq![face_for(shape, side_at(k - 1), pos)]
            } else {
                Seq::empty()
            };
            lemma_concat_contains(self.sides_faces(shape, cwn, pos, k - 1), last, f);
            if last.contains(f) {
                assert(last[0] == f);
            }
            if exists|i: int| 0 <= i < k && self.side_shows(cwn, pos, side_at(i)) && f == #[trigger] face_for(shape, side_at(i), pos) {
                let i = choose|i: int| 0 <= i < k && self.side_shows(cwn, pos, side_at(i)) && f == #[trigger] face_for(shape, side_at(i), pos);
                if i == k - 1 {
                    assert(last[0] == f);
                }
            }
        }
    }

    /// The faces of material `m` from the first `n` blocks are the faces of
    /// those blocks that are visible and of material `m`.
    proof fn lemma_layer_faces_member(&self, cwn: ChunkWithNeighbors, m: MaterialId, n: int, f: FaceData)
        requires
            0 <= n,
        ensures
            self.layer_faces(cwn, m, n).contains(f) <==> exists|j: int|
                0 <= j < n && (#[trigger] self.shape_of(cwn.chunk@[j]) matches Some(s) && s.spec_render_data().material == m
                    && s.spec_render_data().visible && self.sides_faces(s, cwn, block_pos_at(j), 6).contains(f)),
        decreases n,
    {
        if n > 0 {
            self.lemma_layer_faces_member(cwn, m, n - 1, f);
            let id = cwn.chunk@[n - 1];
            let last = match self.shape_of(id) {
                Some(s) => if s.spec_render_data().material == m {
                    self.block_faces(s, cwn, block_pos_at(n - 1))
                } else {
                    Seq::empty()
                },
                None => Seq::empty(),
            };
            lemma_concat_contains(self.layer_faces(cwn, m, n - 1), last, f);
            assert(self.layer_faces(cwn, m, n) == self.layer_faces(cwn, m, n - 1) + last);
            if last.contains(f) {
                assert(0 <= n - 1 < n && (self.shape_of(cwn.chunk@[n - 1]) matches Some(s) && s.spec_render_data().material == m
                    && s.spec_render_data().visible && self.sides_faces(s, cwn, block_pos_at(n - 1), 6).contains(f)));
            }
        }
    }

    /// Law. A face is meshed exactly on a side of a visible block whose
    /// neighbour on that side is translucent, or has an unknown shape, and
    /// it lies in the layer of the block's material. So a face between two
    /// opaque blocks is never meshed, and a lone opaque block in translucent
    /// air gets one face on each of its six sides.
    #[verifier::spinoff_prover]
    pub proof fn lemma_face_shows_iff_neighbor_translucent(&self, cwn: ChunkWithNeighbors, f: FaceData)
        ensures
            forall|m: MaterialId|
                self.faces_of(cwn).contains_key(m) && #[trigger] self.faces_of(cwn)[m].contains(f) ==> {
                    &&& f.block_pos.in_chunk()
                    &&& self.shape_of(cwn.chunk@[f.block_pos.spec_index()]) matches Some(s)
                    &&& s.spec_render_data().visible
                    &&& s.spec_render_data().material == m
                    &&& f.uv_2 == (match s.spec_storage_index(f.facing_side) {
                        Some(v) => v,
                        None => 0u32,
                    })
                    &&& match self.shape_of(cwn.block_at(IVec3 {
                        x: (f.block_pos.x + f.facing_side.dir().x) as isize,
                        y: (f.block_pos.y + f.facing_side.dir().y) as isize,
                        z: (f.block_pos.z + f.facing_side.dir().z) as isize,
                    })) {
                        Some(t) => t.spec_render_data().translucent,
                        None => true,
                    }
                },
            f.block_pos.in_chunk() ==> match self.shape_of(cwn.chunk@[f.block_pos.spec_index()]) {
                Some(s) => (s.spec_render_data().visible && f.uv_2 == (match s.spec_storage_index(f.facing_side) {
                    Some(v) => v,
                    None => 0u32,
                }) && match self.shape_of(cwn.block_at(IVec3 {
                    x: (f.block_pos.x + f.facing_side.dir().x) as isize,
                    y: (f.block_pos.y + f.facing_side.dir().y) as isize,
                    z: (f.block_pos.z + f.facing_side.dir().z) as isize,
                })) {
                    Some(t) => t.spec_render_data().translucent,
                    None => true,
                }) ==> self.faces_of(cwn).contains_key(s.spec_render_data().material)
                    && self.faces_of(cwn)[s.spec_render_data().material].contains(f),
                None => true,
            },
    {
        assert forall|m: MaterialId|
            self.faces_of(cwn).contains_key(m) && #[trigger] self.faces_of(cwn)[m].contains(f) implies {
                &&& f.block_pos.in_chunk()
                &&& self.shape_of(cwn.chunk@[f.block_pos.spec_index()]) matches Some(s)
                &&& s.spec_render_data().visible
                &&& s.spec_render_data().material == m
                &&& f.uv_2 == (match s.spec_storage_index(f.facing_side) {
                    Some(v) => v,
                    None => 0u32,
                })
                &&& match self.shape_of(cwn.block_at(IVec3 {
                    x: (f.block_pos.x + f.facing_side.dir().x) as isize,
                    y: (f.block_pos.y + f.facing_side.dir().y) as isize,
                    z: (f.block_pos.z + f.facing_side.dir().z) as isize,
                })) {
                    Some(t) => t.spec_render_data().translucent,
                    None => true,
                }
            } by {
            self.lemma_layer_faces_member(cwn, m, 4096, f);
            let j = choose|j: int|
                0 <= j < 4096 && (#[trigger] self.shape_of(cwn.chunk@[j]) matches Some(s) && s.spec_render_data().material == m
                    && s.spec_render_data().visible && self.sides_faces(s, cwn, block_pos_at(j), 6).contains(f));
            let s = self.shape_of(cwn.chunk@[j])->0;
            lemma_block_pos_index(j);
            self.lemma_sides_faces_member(s, cwn, block_pos_at(j), 6, f);
            let i = choose|i: int|
                0 <= i < 6 && self.side_shows(cwn, block_pos_at(j), side_at(i)) && f == #[trigger] face_for(s, side_at(i), block_pos_at(j));
            assert(f.block_pos == block_pos_at(j));
            assert(f.facing_side == side_at(i));
        }
        if f.block_pos.in_chunk() {
            let p = f.block_pos;
            let j = p.spec_index();
            lemma_pos_block_index(p);
            match self.shape_of(cwn.chunk@[j]) {
                Some(s) => {
                    if s.spec_render_data().visible && self.side_shows(cwn, p, f.facing_side) && f == face_for(s, f.facing_side, p) {
                        let m = s.spec_render_data().material;
                        let i = f.facing_side.spec_index();
                        assert(side_at(i) == f.facing_side) by {
                            match f.facing_side {
                                BlockSide::Front => {},
                                BlockSide::Back => {},
                                BlockSide::Right => {},
                                BlockSide::Left => {},
                                BlockSide::Top => {},
                                BlockSide::Bottom => {},
                            }
                        }
                        assert(0 <= i < 6);
                        self.lemma_sides_faces_member(s, cwn, p, 6, f);
                        assert(self.sides_faces(s, cwn, p, 6).contains(f));
                        self.lemma_layer_faces_member(cwn, m, 4096, f);
                        assert(0 <= j < 4096 && (self.shape_of(cwn.chunk@[j]) matches Some(s2) && s2.spec_render_data().material == m
                            && s2.spec_render_data().visible && self.sides_faces(s2, cwn, block_pos_at(j), 6).contains(f)));
                        assert(self.has_material(cwn, m, CHUNK_VOLUME as int));
                    }
                },
                None => {},
            }
        }
    }
}

/// Two lists without repeats and without a common element join into one
/// without repeats.
proof fn lemma_concat_no_duplicates<A>(a: Seq<A>, b: Seq<A>)
    requires
        a.no_duplicates(),
        b.no_duplicates(),
        forall|x: A| a.contains(x) ==> !b.contains(x),
    ensures
        (a + b).no_duplicates(),
{
    assert forall|i: int, j: int| 0 <= i < (a + b).len() && 0 <= j < (a + b).len() && i != j implies (a + b)[i] != (a
        + b)[j] by {
        if i < a.len() && j >= a.len() {
            assert(a.contains((a + b)[i]));
            assert(b[j - a.len()] == (a + b)[j]);
        } else if j < a.len() && i >= a.len() {
            assert(a.contains((a + b)[j]));
            assert(b[i - a.len()] == (a + b)[i]);
        } else if i >= a.len() && j >= a.len() {
            assert(b[i - a.len()] == (a + b)[i]);
            assert(b[j - a.len()] == (a + b)[j]);
        }
    }
}

impl NaiveMesher {
    /// The faces of a block's sides are all different, and belong to it.
    proof fn lemma_sides_faces_distinct(&self, shape: RenderShape, cwn: ChunkWithNeighbors, pos: BlockInChunkPos, k: int)
        requires
            0 <= k <= 6,
        ensures
            self.sides_faces(shape, cwn, pos, k).no_duplicates(),
        decreases k,
    {
        if k > 0 {
            self.lemma_sides_faces_distinct(shape, cwn, pos, k - 1);
            let prev = self.sides_faces(shape, cwn, pos, k - 1);
            let last = if self.side_shows(cwn, pos, side_at(k - 1)) {
                seq![face_for(shape, side_at(k - 1), pos)]
            } else {
                Seq::empty()
            };
            assert forall|x: FaceData| prev.contains(x) implies !last.contains(x) by {
                self.lemma_sides_faces_member(shape, cwn, pos, k - 1, x);
                let i = choose|i: int|
                    0 <= i < k - 1 && self.side_shows(cwn, pos, side_at(i)) && x == #[trigger] face_for(shape, side_at(i), pos);
                if last.contains(x) {
                    assert(last[0] == x);
                    assert(side_at(i) != side_at(k - 1));
                }
            }
            lemma_concat_no_duplicates(prev, last);
        }
    }

    /// The faces of material `m` from the first `n` blocks are all different.
    proof fn lemma_layer_faces_distinct(&self, cwn: ChunkWithNeighbors, m: MaterialId, n: int)
        requires
            0 <= n <= 4096,
        ensures
            self.layer_faces(cwn, m, n).no_duplicates(),
        decreases n,
    {
        if n > 0 {
            self.lemma_layer_faces_distinct(cwn, m, n - 1);
            let prev = self.layer_faces(cwn, m, n - 1);
            let id = cwn.chunk@[n - 1];
            let last = match self.shape_of(id) {
                Some(s) => if s.spec_render_data().material == m {
                    self.block_faces(s, cwn, block_pos_at(n - 1))
                } else {
                    Seq::empty()
                },
                None => Seq::empty(),
            };
            assert(self.layer_faces(cwn, m, n) == prev + last);
            match self.shape_of(id) {
                Some(s) => {
                    if s.spec_render_data().material == m && s.spec_render_data().visible {
                        self.lemma_sides_faces_distinct(s, cwn, block_pos_at(n - 1), 6);
                    }
                },
                None => {},
            }
            assert forall|x: FaceData| prev.contains(x) implies !last.contains(x) by {
                self.lemma_layer_faces_member(cwn, m, n - 1, x);
                let j = choose|j: int|
                    0 <= j < n - 1 && (#[trigger] self.shape_of(cwn.chunk@[j]) matches Some(s) && s.spec_render_data().material == m
                        && s.spec_render_data().visible && self.sides_faces(s, cwn, block_pos_at(j), 6).contains(x));
                let sj = self.shape_of(cwn.chunk@[j])->0;
                self.lemma_sides_faces_member(sj, cwn, block_pos_at(j), 6, x);
                lemma_block_pos_index(j);
                lemma_block_pos_index(n - 1);
                if last.contains(x) {
                    let s = self.shape_of(id)->0;
                    self.lemma_sides_faces_member(s, cwn, block_pos_at(n - 1), 6, x);
                    assert(x.block_pos == block_pos_at(n - 1));
                    assert(x.block_pos == block_pos_at(j));
                }
            }
            lemma_concat_no_duplicates(prev, last);
        }
    }

    /// Law. Each face appears at most once in its layer.
    pub proof fn lemma_faces_listed_once(&self, cwn: ChunkWithNeighbors)
        ensures
            forall|m: MaterialId| #[trigger] self.faces_of(cwn).contains_key(m) ==> self.faces_of(cwn)[m].no_duplicates(),
    {
        assert forall|m: MaterialId| #[trigger] self.faces_of(cwn).contains_key(m) implies self.faces_of(cwn)[m].no_duplicates() by {
            self.lemma_layer_faces_distinct(cwn, m, 4096);
        }
    }
}

/// An id is counted in `s` exactly when it occurs in `s`.
proof fn lemma_count_pos_contains(s: Seq<BlockID>, id: BlockID)
    ensures
        count_in(s, id) > 0 <==> s.contains(id),
    decreases s.len(),
{
    if s.len() > 0 {
        lemma_count_pos_contains(s.drop_last(), id);
        assert(s =~= s.drop_last().push(s.last()));
        lemma_concat_contains(s.drop_last(), seq![s.last()], id);
        assert(s.drop_last() + seq![s.last()] =~= s);
        if seq![s.last()].contains(id) {
            assert(seq![s.last()][0] == id);
        }
        if s.last() == id {
            assert(seq![s.last()][0] == id);
        }
    }
}

impl NaiveMesher {
    /// The ids met for the first `k` sides of a block are its neighbours on
    /// those sides whose shape is unknown.
    proof fn lemma_sides_warnings_member(&self, cwn: ChunkWithNeighbors, pos: BlockInChunkPos, k: int, id: BlockID)
        requires
            0 <= k <= 6,
        ensures
            self.sides_warnings(cwn, pos, k).contains(id) <==> exists|i: int|
                0 <= i < k && self.shape_of(id) is None && #[trigger] self.neighbor_id(cwn, pos, side_at(i)) == id,
        decreases k,
    {
        if k > 0 {
            self.lemma_sides_warnings_member(cwn, pos, k - 1, id);
            let nid = self.neighbor_id(cwn, pos, side_at(k - 1));
            let last = if self.shape_of(nid) is None {
                seq![nid]
            } else {
                Seq::empty()
            };
            lemma_concat_contains(self.sides_warnings(cwn, pos, k - 1), last, id);
            if last.contains(id) {
                assert(last[0] == id);
            }
            if exists|i: int| 0 <= i < k && self.shape_of(id) is None && #[trigger] self.neighbor_id(cwn, pos, side_at(i)) == id {
                let i = choose|i: int| 0 <= i < k && self.shape_of(id) is None && #[trigger] self.neighbor_id(cwn, pos, side_at(i)) == id;
                if i == k - 1 {
                    assert(last[0] == id);
                }
            }
        }
    }

    /// The ids met in the first `n` blocks: unknown blocks themselves, and
    /// the unknown neighbours of visible blocks of known shape.
    proof fn lemma_all_warnings_member(&self, cwn: ChunkWithNeighbors, n: int, id: BlockID)
        requires
            0 <= n,
        ensures
            self.all_warnings(cwn, n).contains(id) <==> exists|j: int|
                0 <= j < n && match #[trigger] self.shape_of(cwn.chunk@[j]) {
                    None => cwn.chunk@[j] == id,
                    Some(s) => s.spec_render_data().visible && self.sides_warnings(cwn, block_pos_at(j), 6).contains(id),
                },
        decreases n,
    {
        if n > 0 {
            self.lemma_all_warnings_member(cwn, n - 1, id);
            let bid = cwn.chunk@[n - 1];
            let last = match self.shape_of(bid) {
                Some(s) => self.block_warnings(s, cwn, block_pos_at(n - 1)),
                None => seq![bid],
            };
            lemma_concat_contains(self.all_warnings(cwn, n - 1), last, id);
            if last.contains(id) {
                if self.shape_of(bid) is None {
                    assert(last[0] == id);
                }
                assert(0 <= n - 1 < n && match self.shape_of(cwn.chunk@[n - 1]) {
                    None => cwn.chunk@[n - 1] == id,
                    Some(s) => s.spec_render_data().visible && self.sides_warnings(cwn, block_pos_at(n - 1), 6).contains(id),
                });
            }
            if exists|j: int| 0 <= j < n && match #[trigger] self.shape_of(cwn.chunk@[j]) {
                None => cwn.chunk@[j] == id,
                Some(s) => s.spec_render_data().visible && self.sides_warnings(cwn, block_pos_at(j), 6).contains(id),
            } {
                let j = choose|j: int| 0 <= j < n && match #[trigger] self.shape_of(cwn.chunk@[j]) {
                    None => cwn.chunk@[j] == id,
                    Some(s) => s.spec_render_data().visible && self.sides_warnings(cwn, block_pos_at(j), 6).contains(id),
                };
                if j == n - 1 && self.shape_of(bid) is None {
                    assert(last[0] == id);
                }
            }
        }
    }

    /// Law. A block id is warned about exactly when it has no known render
    /// shape and the mesher meets it: as a block of the chunk, or as the
    /// neighbour, on some side, of a visible block of known shape.
    #[verifier::spinoff_prover]
    pub proof fn lemma_warned_ids_unknown_and_met(&self, cwn: ChunkWithNeighbors, id: BlockID)
        ensures
            self.warnings_of(cwn).contains_key(id) <==> (self.shape_of(id) is None && ((exists|j: int|
                0 <= j < 4096 && #[trigger] cwn.chunk@[j] == id) || (exists|p: BlockInChunkPos, side: BlockSide|
                #![trigger self.shape_of(cwn.chunk@[p.spec_index()]), side.dir()]
                p.in_chunk() && (self.shape_of(cwn.chunk@[p.spec_index()]) matches Some(s) && s.spec_render_data().visible)
                    && cwn.block_at(IVec3 {
                    x: (p.x + side.dir().x) as isize,
                    y: (p.y + side.dir().y) as isize,
                    z: (p.z + side.dir().z) as isize,
                }) == id))),
    {
        let all = self.all_warnings(cwn, CHUNK_VOLUME as int);
        lemma_count_pos_contains(all, id);
        self.lemma_all_warnings_member(cwn, 4096, id);
        assert(self.warnings_of(cwn).contains_key(id) <==> all.contains(id));
        if all.contains(id) {
            let j = choose|j: int| 0 <= j < 4096 && match #[trigger] self.shape_of(cwn.chunk@[j]) {
                None => cwn.chunk@[j] == id,
                Some(s) => s.spec_render_data().visible && self.sides_warnings(cwn, block_pos_at(j), 6).contains(id),
            };
            match self.shape_of(cwn.chunk@[j]) {
                None => {},
                Some(s) => {
                    let p = block_pos_at(j);
                    lemma_block_pos_index(j);
                    self.lemma_sides_warnings_member(cwn, p, 6, id);
                    let i = choose|i: int| 0 <= i < 6 && self.shape_of(id) is None && #[trigger] self.neighbor_id(cwn, p, side_at(i)) == id;
                    let side = side_at(i);
                    assert(p.in_chunk() && (self.shape_of(cwn.chunk@[p.spec_index()]) matches Some(s) && s.spec_render_data().visible)
                        && cwn.block_at(IVec3 {
                        x: (p.x + side.dir().x) as isize,
                        y: (p.y + side.dir().y) as isize,
                        z: (p.z + side.dir().z) as isize,
                    }) == id);
                },
            }
        }
        if self.shape_of(id) is None {
            if exists|j: int| 0 <= j < 4096 && #[trigger] cwn.chunk@[j] == id {
                let j = choose|j: int| 0 <= j < 4096 && #[trigger] cwn.chunk@[j] == id;
                assert(0 <= j < 4096 && match self.shape_of(cwn.chunk@[j]) {
                    None => cwn.chunk@[j] == id,
                    Some(s) => s.spec_render_data().visible && self.sides_warnings(cwn, block_pos_at(j), 6).contains(id),
                });
            }
            if exists|p: BlockInChunkPos, side: BlockSide|
                #![trigger self.shape_of(cwn.chunk@[p.spec_index()]), side.dir()]
                p.in_chunk() && (self.shape_of(cwn.chunk@[p.spec_index()]) matches Some(s) && s.spec_render_data().visible)
                    && cwn.block_at(IVec3 {
                    x: (p.x + side.dir().x) as isize,
                    y: (p.y + side.dir().y) as isize,
                    z: (p.z + side.dir().z) as isize,
                }) == id {
                let (p, side) = choose|p: BlockInChunkPos, side: BlockSide|
                    #![trigger self.shape_of(cwn.chunk@[p.spec_index()]), side.dir()]
                    p.in_chunk() && (self.shape_of(cwn.chunk@[p.spec_index()]) matches Some(s) && s.spec_render_data().visible)
                        && cwn.block_at(IVec3 {
                        x: (p.x + side.dir().x) as isize,
                        y: (p.y + side.dir().y) as isize,
                        z: (p.z + side.dir().z) as isize,
                    }) == id;
                let j = p.spec_index();
                lemma_pos_block_index(p);
                let i = side.spec_index();
                assert(side_at(i) == side) by {
                    match side {
                        BlockSide::Front => {},
                        BlockSide::Back => {},
                        BlockSide::Right => {},
                        BlockSide::Left => {},
                        BlockSide::Top => {},
                        BlockSide::Bottom => {},
                    }
                }
                assert(0 <= i < 6);
                assert(self.neighbor_id(cwn, p, side_at(i)) == id);
                self.lemma_sides_warnings_member(cwn, p, 6, id);
                assert(0 <= j < 4096 && match self.shape_of(cwn.chunk@[j]) {
                    None => cwn.chunk@[j] == id,
                    Some(s) => s.spec_render_data().visible && self.sides_warnings(cwn, block_pos_at(j), 6).contains(id),
                });
            }
        }
    }
}

} // verus!
