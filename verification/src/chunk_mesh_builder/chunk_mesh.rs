//! Index types of the mesh data.
use vstd::prelude::*;
use std::collections::HashMap;
use super::meshers::mesher::MeshBuffers;

verus! {

/// Index of a texture in the texture array.
pub type TextureIndex = u32;

/// Index of a colour in a palette.
pub type ColorIndex = u32;

/// Index into the per-block-type storage of the shader.
pub type StorageIndex = u32;

/// Identifier of a material layer.
pub type MaterialId = u8;

broadcast use vstd::std_specs::hash::group_hash_axioms;

/// The packed mesh of a chunk: one mesh per material layer.
#[derive(Debug)]
pub struct ChunkMesh {
    layers: HashMap<MaterialId, MeshBuffers>,
    /// Diagnosis: vertices added over all layers.
    vertex_count: usize,
}

impl ChunkMesh {
    /// The layers.
    pub closed spec fn spec_layers(&self) -> Map<MaterialId, MeshBuffers> {
        self.layers@
    }

    /// Vertices added over all layers.
    pub closed spec fn spec_vertex_count(&self) -> usize {
        self.vertex_count
    }

    /// Whether the mesh has no layers and no vertices.
    pub open spec fn is_empty_mesh(&self) -> bool {
        self.spec_layers() == Map::<MaterialId, MeshBuffers>::empty() && self.spec_vertex_count() == 0
    }

    /// A mesh without layers.
    pub fn new() -> (r: ChunkMesh)
        ensures
            r.spec_layers() == Map::<MaterialId, MeshBuffers>::empty(),
            r.spec_vertex_count() == 0,
    {
        ChunkMesh { layers: HashMap::new(), vertex_count: 0 }
    }

    /// The layers.
    pub fn layers(&self) -> (r: &HashMap<MaterialId, MeshBuffers>)
        ensures
            r@ == self.spec_layers(),
    {
        &self.layers
    }

    /// Vertices added over all layers.
    pub fn vertex_count(&self) -> (r: usize)
        ensures
            r == self.spec_vertex_count(),
    {
        self.vertex_count
    }

    /// Stores `mesh` as the layer of `material_id` and adds its vertices to
    /// the count (a replaced layer's vertices stay counted).
    pub fn add_layer(&mut self, material_id: MaterialId, mesh: MeshBuffers)
        requires
            old(self).spec_vertex_count() + mesh.packed_data@.len() <= usize::MAX,
        ensures
            final(self).spec_layers() == old(self).spec_layers().insert(material_id, mesh),
            final(self).spec_vertex_count() == old(self).spec_vertex_count() + mesh.packed_data@.len(),
    {
        self.vertex_count = self.vertex_count + mesh.count_vertices();
        self.layers.insert(material_id, mesh);
    }
}

impl Clone for ChunkMesh {
    /// A copy with the same layers and count.
    fn clone(&self) -> (r: Self)
        ensures
            r.spec_layers() == self.spec_layers(),
            r.spec_vertex_count() == self.spec_vertex_count(),
    {
        let layers = self.layers.clone();
        ChunkMesh { layers, vertex_count: self.vertex_count }
    }
}

impl Default for ChunkMesh {
    /// A mesh without layers.
    fn default() -> (r: Self)
        ensures
            r.spec_layers() == Map::<MaterialId, MeshBuffers>::empty(),
            r.spec_vertex_count() == 0,
    {
        ChunkMesh::new()
    }
}

} // verus!
