//! Block and render data that meshing reads.

pub mod chunk_with_border;
pub mod chunk_with_neighbors;
pub mod colored_block_type;
pub mod render_block_type_storage;
pub mod render_shape;
pub mod render_shape_storage;
pub mod texture_dictionary;
pub mod textured_block_type;
