//! Inputs from the player's controller.
use vstd::prelude::*;
use crate::types::BlockID;
use crate::chunk_manager::voxel_edit::BlockPos;

verus! {

/// A mouse action of the player.
#[derive(Debug, Clone, Copy, PartialEq, Eq, Structural)]
pub enum ActionType {
    RightClick,
    LeftClick,
}

/// A block change the player asked for, and whether it can be made.
#[derive(Debug, Clone, Copy, PartialEq, Eq, Structural)]
pub struct BlockAction {
    pub feasible: bool,
    pub pos: BlockPos,
    pub new_block: BlockID,
}

/// Breaking the block that was hit: it becomes air; always possible.
pub fn destroy_block_action(hit_pos: BlockPos, air: BlockID) -> (r: BlockAction)
    ensures
        r == (BlockAction { feasible: true, pos: hit_pos, new_block: air }),
{
    BlockAction { feasible: true, pos: hit_pos, new_block: air }
}

/// Placing a block in front of the block that was hit: the cell the ray
/// passed last becomes `placed`, possible only where that cell holds air.
pub fn place_block_action(before_hit_pos: BlockPos, before_hit_block: BlockID, air: BlockID, placed: BlockID) -> (r: BlockAction)
    ensures
        r == (BlockAction { feasible: before_hit_block == air, pos: before_hit_pos, new_block: placed }),
{
    BlockAction { feasible: before_hit_block == air, pos: before_hit_pos, new_block: placed }
}

/// The block change for a mouse action: a left click breaks the hit block, a
/// right click places a block in front of it.
pub fn block_action_for(
    action_type: ActionType,
    hit_pos: BlockPos,
    before_hit_pos: BlockPos,
    before_hit_block: BlockID,
    air: BlockID,
    placed: BlockID,
) -> (r: BlockAction)
    ensures
        action_type == ActionType::LeftClick ==> r == (BlockAction { feasible: true, pos: hit_pos, new_block: air }),
        action_type == ActionType::RightClick ==> r == (BlockAction {
            feasible: before_hit_block == air,
            pos: before_hit_pos,
            new_block: placed,
        }),
{
    match action_type {
        ActionType::LeftClick => destroy_block_action(hit_pos, air),
        ActionType::RightClick => place_block_action(before_hit_pos, before_hit_block, air, placed),
    }
}

} // verus!
