# voxel_client

The chunk management and meshing logic of a voxel game client, written in
Verus and proved against its contracts.

- `src/` is the verified library: the chunk and mesh state machines, the chunk
  stores and world, the chunk managers that follow the player, the streamer,
  loader and builder bookkeeping, the pending-chunk queue, the mesher with its
  vertex packing, and the mesh builders (a versioned builder keeps only meshes
  of each chunk's latest request).
- `tests/` runs the library on concrete values.
- `app/` is the game around the library: the engine's systems, input,
  rendering and configuration. It is ordinary Rust and is not verified.
