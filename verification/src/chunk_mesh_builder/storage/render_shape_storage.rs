//! Render shapes indexed by block id.
use vstd::prelude::*;
use crate::types::BlockID;
use super::render_shape::RenderShape;

verus! {

/// Map from block id (as index) to render shape.
#[derive(Debug)]
pub struct RenderShapeStorage {
    render_shapes: Vec<RenderShape>,
}

impl RenderShapeStorage {
    /// The shapes, indexed by block id.
    pub closed spec fn shapes(&self) -> Seq<RenderShape> {
        self.render_shapes@
    }

    /// Wraps the shapes, indexed by block id.
    pub fn new(render_shapes: Vec<RenderShape>) -> (r: RenderShapeStorage)
        ensures
            r.shapes() == render_shapes@,
    {
        RenderShapeStorage { render_shapes }
    }

    /// The shape of block `id`, if known.
    pub fn get_render_shape_from_id(&self, id: BlockID) -> (r: Option<&RenderShape>)
        ensures
            (id as int) < self.shapes().len() ==> r == Some(&self.shapes()[id as int]),
            (id as int) >= self.shapes().len() ==> r is None,
    {
        let i = id as usize;
        if i < self.render_shapes.len() {
            Some(&self.render_shapes[i])
        } else {
            None
        }
    }
}

} // verus!
