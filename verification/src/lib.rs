//! Verified core of a streaming voxel-terrain engine.
//!
//! The crate generates chunks of procedural terrain around a moving
//! observer, meshes them into merged-quad geometry, and keeps the set of
//! live chunks bounded as the observer moves.  All arithmetic is integer
//! (fixed-point); the surrounding application converts to whatever its
//! renderer wants.

pub mod block;
pub mod cull;
pub mod grid;
pub mod mesher;
pub mod noise;
pub mod scheduler;
pub mod settings;
pub mod terrain;

use vstd::prelude::*;

verus! {

/// Edge length of one cubic chunk, in blocks.
pub const CHUNK_SIZE: i32 = 32;

/// Maximum world height, in blocks.
pub const MAX_HEIGHT: i32 = 256;

/// Number of vertical chunk layers making up the world height.
pub const MAX_CHUNKS_Y: i32 = 8;

/// Largest chunk coordinate magnitude the generator and scheduler accept,
/// a machine bound that keeps world-coordinate arithmetic within what the
/// noise samplers admit.
pub const CHUNK_COORD_MAX: i32 = 60000;

/// The integer triple identifying a cubic chunk-sized region of the
/// world; the unique key for residency, pending work and placement.
#[derive(Clone, Copy, PartialEq, Eq, Structural, Hash, Debug)]
pub struct ChunkCoord {
    pub x: i32,
    pub y: i32,
    pub z: i32,
}

impl ChunkCoord {
    /// Machine bound on coordinates (see `CHUNK_COORD_MAX`).
    pub open spec fn wf(self) -> bool {
        &&& -CHUNK_COORD_MAX <= self.x <= CHUNK_COORD_MAX
        &&& -CHUNK_COORD_MAX <= self.y <= CHUNK_COORD_MAX
        &&& -CHUNK_COORD_MAX <= self.z <= CHUNK_COORD_MAX
    }

    /// The world-space block offset of this chunk's origin: the
    /// coordinate times the chunk edge, per axis.
    pub fn world_origin(&self) -> (o: (i64, i64, i64))
        requires
            self.wf(),
        ensures
            o.0 == self.x * CHUNK_SIZE,
            o.1 == self.y * CHUNK_SIZE,
            o.2 == self.z * CHUNK_SIZE,
    {
        (
            self.x as i64 * CHUNK_SIZE as i64,
            self.y as i64 * CHUNK_SIZE as i64,
            self.z as i64 * CHUNK_SIZE as i64,
        )
    }
}

} // verus!
