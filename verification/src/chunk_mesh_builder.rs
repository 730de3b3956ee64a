//! Turning chunk blocks into mesh data.

pub mod builders;
pub mod chunk_mesh;
pub mod meshers;
pub mod storage;
