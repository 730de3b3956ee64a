//! How each block type is drawn.
use vstd::prelude::*;
use crate::types::{BlockSide, side_at};
use crate::chunk_mesh_builder::chunk_mesh::{MaterialId, TextureIndex};
use super::colored_block_type::VoxelColor;

verus! {

/// Rendering data of a block type, shared by its render shapes.
#[derive(Debug, Clone, Copy, PartialEq, Eq, Structural)]
pub struct VoxelRenderData {
    pub visible: bool,
    pub translucent: bool,
    pub material: MaterialId,
}

impl VoxelRenderData {
    /// Invisible, opaque, material 0.
    pub fn default() -> (r: VoxelRenderData)
        ensures
            r == (VoxelRenderData { visible: false, translucent: false, material: 0 }),
    {
        VoxelRenderData { visible: false, translucent: false, material: 0 }
    }
}

/// Rendering data of one block type.
#[derive(Debug, PartialEq)]
pub enum RenderShape {
    /// A cube with one texture per side, in side order.
    TexturedCube { render_data: VoxelRenderData, textures: [TextureIndex; 6] },
    /// A cube coloured from a palette.
    ColoredCube { render_data: VoxelRenderData, palette: Vec<VoxelColor> },
    /// Nothing to draw.
    Invisible,
}

impl RenderShape {
    /// The render data of the shape; an invisible shape has the default.
    pub open spec fn spec_render_data(&self) -> VoxelRenderData {
        match self {
            RenderShape::TexturedCube { render_data, .. } => *render_data,
            RenderShape::ColoredCube { render_data, .. } => *render_data,
            RenderShape::Invisible => VoxelRenderData { visible: false, translucent: false, material: 0 },
        }
    }

    /// The storage index the shader receives for `side`: the side's texture
    /// for a textured cube; none otherwise (coloured cubes carry no per-side
    /// index).
    pub open spec fn spec_storage_index(&self, side: BlockSide) -> Option<u32> {
        match self {
            RenderShape::TexturedCube { textures, .. } => Some(textures@[side.spec_index()]),
            _ => None,
        }
    }

    /// A textured cube: each side takes its texture from `textures`, or
    /// `default_texture` where `textures` has none for it.
    pub fn create_textured_cube(
        render_data: VoxelRenderData,
        default_texture: TextureIndex,
        textures: [Option<TextureIndex>; 6],
    ) -> (r: RenderShape)
        ensures
            r matches RenderShape::TexturedCube { render_data: rd, textures: t } && rd == render_data
                && forall|i: int|
                0 <= i < 6 ==> #[trigger] t@[i] == match textures@[i] {
                    Some(tex) => tex,
                    None => default_texture,
                },
    {
        let mut out: [TextureIndex; 6] = [default_texture; 6];
        let mut i: usize = 0;
        while i < 6
            invariant
                i <= 6,
                forall|k: int| 0 <= k < i ==> #[trigger] out@[k] == match textures@[k] {
                    Some(tex) => tex,
                    None => default_texture,
                },
            decreases 6 - i,
        {
            let side = BlockSide::from_index(i);
            let texture = match textures[side.index()] {
                Some(tex) => tex,
                None => default_texture,
            };
            out[i] = texture;
            i = i + 1;
        }
        RenderShape::TexturedCube { render_data, textures: out }
    }

    /// The render data of the shape.
    pub fn render_data(&self) -> (r: VoxelRenderData)
        ensures
            r == self.spec_render_data(),
    {
        match self {
            RenderShape::TexturedCube { render_data, .. } => *render_data,
            RenderShape::ColoredCube { render_data, .. } => *render_data,
            RenderShape::Invisible => VoxelRenderData::default(),
        }
    }

    /// The storage index the shader receives for `side`, if the shape has one.
    pub fn get_storage_index(&self, side: BlockSide) -> (r: Option<u32>)
        ensures
            r == self.spec_storage_index(side),
    {
        match self {
            RenderShape::TexturedCube { textures, .. } => Some(textures[side.index()]),
            _ => None,
        }
    }

    /// The vertex attribute of `side`: its storage index, or 0.
    pub fn get_vertex_attribute(&self, side: BlockSide) -> (r: u32)
        ensures
            r == match self.spec_storage_index(side) {
                Some(v) => v,
                None => 0,
            },
    {
        match self.get_storage_index(side) {
            Some(v) => v,
            None => 0,
        }
    }
}

} // verus!
