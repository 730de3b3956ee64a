//! Textured block types indexed by block id.
use vstd::prelude::*;
use std::collections::HashMap;
use crate::types::BlockID;
use super::textured_block_type::TexturedBlockType;

verus! {

broadcast use vstd::std_specs::hash::group_hash_axioms;

/// Textured block types by block id.
pub struct RenderBlockTypeStorage {
    block_types: HashMap<BlockID, TexturedBlockType>,
}

impl View for RenderBlockTypeStorage {
    type V = Map<BlockID, TexturedBlockType>;

    closed spec fn view(&self) -> Map<BlockID, TexturedBlockType> {
        self.block_types@
    }
}

impl RenderBlockTypeStorage {
    /// A storage holding `block_types`.
    pub fn new(block_types: HashMap<BlockID, TexturedBlockType>) -> (r: RenderBlockTypeStorage)
        ensures
            r@ == block_types@,
    {
        RenderBlockTypeStorage { block_types }
    }

    /// Records the block type of `block_id`, replacing an earlier one.
    pub fn set_block_type(&mut self, block_id: BlockID, block_type: TexturedBlockType)
        ensures
            final(self)@ == old(self)@.insert(block_id, block_type),
    {
        self.block_types.insert(block_id, block_type);
    }

    /// The block type of `id`, if recorded.
    pub fn get_block_type_from_id(&self, id: BlockID) -> (r: Option<&TexturedBlockType>)
        ensures
            match r {
                Some(t) => self@.contains_key(id) && *t == self@[id],
                None => !self@.contains_key(id),
            },
    {
        self.block_types.get(&id)
    }
}

} // verus!
