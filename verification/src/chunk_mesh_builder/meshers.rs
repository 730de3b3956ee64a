//! Meshers: from blocks to faces, and from faces to packed vertex data.

pub mod chunk_mesher;
pub mod mesher;
pub mod naive_mesher;
