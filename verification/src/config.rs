//! The world configuration surface consumed by the chunk core.

use vstd::prelude::*;
use crate::coords::Vec2;

verus! {

/// Smallest and largest chunk coordinate the core accepts in a world's
/// bounds; keeps every chunk origin (`cx * chunk_size`) inside `i32`.
pub const CHUNK_COORD_LIMIT: i32 = 8000000;

/// The configuration the chunk core reads: world bounds in chunk
/// coordinates, the chunk dimensions, the light ceiling, and whether
/// persistence is enabled. Paths and I/O live with the embedding program.
#[derive(Clone, Copy, PartialEq, Eq, Structural, Debug)]
pub struct WorldConfig {
    /// Smallest chunk coordinate (inclusive) on each axis.
    pub min_chunk: Vec2,
    /// Largest chunk coordinate (inclusive) on each axis.
    pub max_chunk: Vec2,
    /// Horizontal edge length of a chunk, in voxels.
    pub chunk_size: u32,
    /// Number of vertical sub-chunks a chunk is divided into for
    /// dirty-range tracking.
    pub sub_chunks: u32,
    /// Height of a chunk, in voxels.
    pub max_height: u32,
    /// Largest light level a voxel can carry (fits in one nibble).
    pub max_light_level: u32,
    /// Whether chunks are persisted to storage.
    pub saving: bool,
}

impl WorldConfig {
    /// The ranges under which every chunk index and origin computation
    /// stays in bounds.
    pub open spec fn wf(self) -> bool {
        &&& 1 <= self.chunk_size <= 256
        &&& 1 <= self.max_height <= 1024
        &&& 1 <= self.sub_chunks <= self.max_height
        &&& self.max_height as int % self.sub_chunks as int == 0
        &&& self.max_light_level <= 15
        &&& -CHUNK_COORD_LIMIT <= self.min_chunk.0 <= CHUNK_COORD_LIMIT
        &&& -CHUNK_COORD_LIMIT <= self.min_chunk.1 <= CHUNK_COORD_LIMIT
        &&& -CHUNK_COORD_LIMIT <= self.max_chunk.0 <= CHUNK_COORD_LIMIT
        &&& -CHUNK_COORD_LIMIT <= self.max_chunk.1 <= CHUNK_COORD_LIMIT
    }
}

} // verus!
