//! A chunk: a dense voxel grid of fixed width and height at a chunk
//! coordinate, mutated in place by edits.
//!
//! Voxels are stored y-major, x-mid, z-minor, exactly the order the
//! persisted dump format uses.

use crate::addressing::{ChunkCoord, HEIGHT, WIDTH, WIDTH_I64};
use vstd::prelude::*;

verus! {

/// Voxels in one chunk.
pub const CHUNK_VOLUME: usize = 55296;

/// The flat index of a local voxel position: y-major, x-mid, z-minor.
pub open spec fn spec_voxel_index(x: int, z: int, y: int) -> int {
    y * 256 + x * 16 + z
}

/// Distinct in-bounds local positions have distinct flat indices.
pub proof fn lemma_voxel_index_injective(x: int, z: int, y: int, xi: int, zi: int, yi: int)
    requires
        0 <= x < 16,
        0 <= z < 16,
        0 <= y < 216,
        0 <= xi < 16,
        0 <= zi < 16,
        0 <= yi < 216,
        spec_voxel_index(x, z, y) == spec_voxel_index(xi, zi, yi),
    ensures
        x == xi,
        z == zi,
        y == yi,
{
}

/// A dense voxel grid at a chunk coordinate.
pub struct Chunk {
    /// Where the chunk sits in chunk-grid space.
    pub coord: ChunkCoord,
    /// The packed voxel values, y-major, x-mid, z-minor.
    pub voxels: Vec<u64>,
}

impl Chunk {
    /// Whether the grid has its fixed footprint.
    pub open spec fn wf(&self) -> bool {
        self.voxels@.len() == CHUNK_VOLUME
    }

    /// The voxel at a local position.
    pub open spec fn spec_voxel(&self, x: int, z: int, y: int) -> u64 {
        self.voxels@[spec_voxel_index(x, z, y)]
    }

    /// A chunk whose every voxel holds the given value.
    pub fn filled(coord: ChunkCoord, value: u64) -> (r: Chunk)
        ensures
            r.wf(),
            r.coord == coord,
            forall|i: int| 0 <= i < CHUNK_VOLUME ==> r.voxels@[i] == value,
    {
        let mut voxels: Vec<u64> = Vec::new();
        let mut i: usize = 0;
        while i < CHUNK_VOLUME
            invariant
                i <= CHUNK_VOLUME,
                voxels@.len() == i,
                forall|j: int| 0 <= j < i ==> voxels@[j] == value,
            decreases CHUNK_VOLUME - i,
        {
            voxels.push(value);
            i = i + 1;
        }
        Chunk { coord, voxels }
    }

    /// A chunk over a caller-built voxel grid.
    pub fn from_voxels(coord: ChunkCoord, voxels: Vec<u64>) -> (r: Chunk)
        requires
            voxels@.len() == CHUNK_VOLUME,
        ensures
            r.wf(),
            r.coord == coord,
            r.voxels == voxels,
    {
        Chunk { coord, voxels }
    }

    /// World-space x origin of the chunk, in block units.
    pub fn xoffset(&self) -> (r: i64)
        ensures
            r as int == self.coord.x as int * 16,
    {
        self.coord.x as i64 * WIDTH_I64
    }

    /// World-space z origin of the chunk, in block units.
    pub fn zoffset(&self) -> (r: i64)
        ensures
            r as int == self.coord.z as int * 16,
    {
        self.coord.z as i64 * WIDTH_I64
    }

    /// The whole voxel grid.
    pub fn blocks(&self) -> (r: &Vec<u64>)
        ensures
            r == &self.voxels,
    {
        &self.voxels
    }

    /// The voxel at a local position.
    pub fn block_at(&self, x: usize, z: usize, y: usize) -> (r: u64)
        requires
            self.wf(),
            x < WIDTH,
            z < WIDTH,
            y < HEIGHT,
        ensures
            r == self.spec_voxel(x as int, z as int, y as int),
    {
        self.voxels[y * 256 + x * 16 + z]
    }

    /// Overwrites the voxel at a local position; every other voxel and
    /// the chunk coordinate stay as they were.
    pub fn set_block_at(&mut self, x: usize, z: usize, y: usize, new_block: u64)
        requires
            old(self).wf(),
            x < WIDTH,
            z < WIDTH,
            y < HEIGHT,
        ensures
            final(self).wf(),
            final(self).coord == old(self).coord,
            final(self).voxels@ == old(self).voxels@.update(
                spec_voxel_index(x as int, z as int, y as int),
                new_block,
            ),
            final(self).spec_voxel(x as int, z as int, y as int) == new_block,
            forall|xi: int, zi: int, yi: int|
                0 <= xi < 16 && 0 <= zi < 16 && 0 <= yi < 216
                    && !(xi == x && zi == z && yi == y)
                    ==> #[trigger] final(self).spec_voxel(xi, zi, yi) == old(self).spec_voxel(
                        xi,
                        zi,
                        yi,
                    ),
    {
        self.voxels.set(y * 256 + x * 16 + z, new_block);
        proof {
            assert forall|xi: int, zi: int, yi: int|
                0 <= xi < 16 && 0 <= zi < 16 && 0 <= yi < 216
                    && !(xi == x && zi == z && yi == y) implies #[trigger] self.spec_voxel(
                xi,
                zi,
                yi,
            ) == old(self).spec_voxel(xi, zi, yi) by {
                if spec_voxel_index(xi, zi, yi) == spec_voxel_index(
                    x as int,
                    z as int,
                    y as int,
                ) {
                    lemma_voxel_index_injective(x as int, z as int, y as int, xi, zi, yi);
                }
            }
        }
    }
}

impl Clone for Chunk {
    /// An identical copy of the chunk.
    fn clone(&self) -> (r: Chunk)
        ensures
            r.coord == self.coord,
            r.voxels@ == self.voxels@,
    {
        Chunk { coord: self.coord, voxels: self.voxels.clone() }
    }
}

} // verus!
