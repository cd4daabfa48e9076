//! Voxel terrain streaming and meshing core: chunk keys and the coordinate
//! map, the in-memory chunk store with its neighbour apron, the procedural
//! material rules, the chunk codec used for persistence, the mesh data
//! builder, and the bookkeeping that decides what to build, rebuild and evict.
use vstd::prelude::*;

pub mod bytes;
pub mod chunk;
pub mod chunk_command;
pub mod chunk_map;
pub mod collections;
pub mod collider_generator;
pub mod host;
pub mod map_database;
pub mod map_generator;
pub mod mesh;
pub mod mesh_generator;
pub mod voxel;
pub mod voxel_config;

verus! {

/// Edge length of a chunk, in voxels.
pub const CHUNK_SIZE: i32 = 16;

/// View radius, in voxels.
pub const VIEW_RADIUS: u32 = 128;

/// Number of textures in the shared texture array.
pub const MAX_TEXTURE_COUNT: usize = 8;

} // verus!
