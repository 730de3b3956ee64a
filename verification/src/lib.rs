//! Chunk management and meshing logic of a voxel game client.
//!
//! The crate holds the parts of the client that decide: the chunk and mesh
//! state machines, the chunk stores, the pending-chunk queue, the vertex
//! packing and face generation of the mesher, and the versioned mesh builder.
#![allow(unused_imports)]

pub mod chunk_manager;
pub mod pos_map;
pub mod types;
pub mod chunk_state_manager;
pub mod chunk_mesh_builder;
pub mod controller;
pub mod diagnostics;
pub mod seq_lemmas;
