//! Block types drawn with a colour palette.
use vstd::prelude::*;

verus! {

/// A block type drawn with a colour palette.
#[derive(Debug, Clone, PartialEq)]
pub struct ColoredBlockType {
    pub block_type: String,
    pub is_visible: bool,
    pub is_translucent: bool,
    /// The colour palette.
    pub palette: Vec<VoxelColor>,
}

/// An RGBA colour.
#[derive(Copy, Clone, PartialEq, Eq, Debug, Structural)]
pub struct VoxelColor {
    pub r: u8,
    pub g: u8,
    pub b: u8,
    pub a: u8,
}

} // verus!
