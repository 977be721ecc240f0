//! Deterministic, seeded terrain: one coherent-noise sample per (x, z)
//! column fixes the column's surface height, and a voxel is solid exactly
//! when it lies below that surface.
//!
//! The noise source itself works in floating point, which this library
//! does not admit, so samples cross the boundary as plain integers in
//! thousandths of the noise range [-1, 1]. The grid builder works from a
//! vector of per-column samples: it is a pure function of its arguments,
//! the caller samples its generator once per column, and a test can hand
//! it stub samples.

use crate::addressing::{ChunkCoord, WIDTH};
use crate::chunk::Chunk;
use crate::voxel::{spec_is_air, Block};
use vstd::prelude::*;

verus! {

/// The surface height every column starts from before noise displaces it.
pub const SURFACE_LINE: usize = 100;

/// Samples per chunk: one per (x, z) column.
pub const COLUMN_COUNT: usize = 256;

/// The height the spawn search starts from.
pub const ANTICIPATED_SURFACE: usize = 50;

/// Whether a value is a noise sample in thousandths: within [-1000, 1000].
pub open spec fn sample_in_range(m: int) -> bool {
    -1000 <= m <= 1000
}

/// Whether a vector holds one in-range sample per chunk column.
pub open spec fn samples_wf(s: Seq<i64>) -> bool {
    &&& s.len() == COLUMN_COUNT
    &&& forall|i: int| 0 <= i < s.len() ==> sample_in_range(#[trigger] s[i] as int)
}

/// Surface height of a column whose noise sample, in thousandths, is `m`:
/// the surface line displaced by twenty times the sample.
pub open spec fn spec_surface_height(m: int) -> int {
    SURFACE_LINE + (20 * m) / 1000
}

/// The voxel a freshly generated column holds at height `y`: solid dirt
/// below the surface, air at and above it.
pub open spec fn spec_generated_voxel(y: int, surface: int) -> u64 {
    if y < surface {
        1u64
    } else {
        0u64
    }
}

/// The voxel generation puts at local (x, z, y) of a chunk whose
/// per-column samples are `samples`.
pub open spec fn spec_terrain_voxel(samples: Seq<i64>, x: int, z: int, y: int) -> u64 {
    spec_generated_voxel(y, spec_surface_height(samples[x * 16 + z] as int))
}

/// Computes a column's surface height from its noise sample.
pub fn surface_height_from_sample(m: i64) -> (h: usize)
    requires
        sample_in_range(m as int),
    ensures
        h as int == spec_surface_height(m as int),
        80 <= h <= 120,
{
    let spread = (20 * m).checked_div_euclid(1000).unwrap();
    (100 + spread) as usize
}

/// What a not-yet-built chunk holds at height `y` of a column whose noise
/// sample is `m` — the boundary query meshing makes against a neighbor
/// that was never generated.
pub fn anticipated_block_from_sample(m: i64, y: usize) -> (r: u64)
    requires
        sample_in_range(m as int),
    ensures
        r == spec_generated_voxel(y as int, spec_surface_height(m as int)),
{
    let surface = surface_height_from_sample(m);
    if y < surface {
        1u64
    } else {
        0u64
    }
}

/// Builds a chunk's voxel grid from per-column noise samples (indexed
/// x-major: entry `x * WIDTH + z` is column (x, z)): the voxel at
/// (x, z, y) is solid exactly when y lies below the surface height of its
/// column. A pure function of its arguments: repeated calls on the same
/// coordinate and samples yield the same grid.
pub fn chunk_voxels_from_samples(coord: ChunkCoord, samples: &Vec<i64>) -> (r: Chunk)
    requires
        samples_wf(samples@),
    ensures
        r.wf(),
        r.coord == coord,
        forall|x: int, z: int, y: int|
            0 <= x < 16 && 0 <= z < 16 && 0 <= y < 216
                ==> #[trigger] r.spec_voxel(x, z, y) == spec_terrain_voxel(samples@, x, z, y),
{
    let mut chunk = Chunk::filled(coord, 0u64);
    let mut x: usize = 0;
    while x < WIDTH
        invariant
            x <= WIDTH,
            chunk.wf(),
            chunk.coord == coord,
            samples_wf(samples@),
            forall|xi: int, zi: int, yi: int|
                0 <= xi < x && 0 <= zi < 16 && 0 <= yi < 216
                    ==> #[trigger] chunk.spec_voxel(xi, zi, yi) == spec_terrain_voxel(
                        samples@,
                        xi,
                        zi,
                        yi,
                    ),
            forall|xi: int, zi: int, yi: int|
                x <= xi < 16 && 0 <= zi < 16 && 0 <= yi < 216
                    ==> #[trigger] chunk.spec_voxel(xi, zi, yi) == 0u64,
        decreases WIDTH - x,
    {
        let mut z: usize = 0;
        while z < WIDTH
            invariant
                x < WIDTH,
                z <= WIDTH,
                chunk.wf(),
                chunk.coord == coord,
                samples_wf(samples@),
                forall|xi: int, zi: int, yi: int|
                    0 <= xi < x && 0 <= zi < 16 && 0 <= yi < 216
                        ==> #[trigger] chunk.spec_voxel(xi, zi, yi) == spec_terrain_voxel(
                            samples@,
                            xi,
                            zi,
                            yi,
                        ),
                forall|zi: int, yi: int|
                    0 <= zi < z && 0 <= yi < 216
                        ==> #[trigger] chunk.spec_voxel(x as int, zi, yi) == spec_terrain_voxel(
                            samples@,
                            x as int,
                            zi,
                            yi,
                        ),
                forall|xi: int, zi: int, yi: int|
                    0 <= xi < 16 && 0 <= zi < 16 && 0 <= yi < 216
                        && (xi > x || (xi == x && zi >= z))
                        ==> #[trigger] chunk.spec_voxel(xi, zi, yi) == 0u64,
            decreases WIDTH - z,
        {
            let surface = surface_height_from_sample(samples[x * 16 + z]);
            let mut y: usize = 0;
            while y < surface
                invariant
                    x < WIDTH,
                    z < WIDTH,
                    y <= surface,
                    surface <= 120,
                    surface as int == spec_surface_height(samples@[x as int * 16 + z as int] as int),
                    chunk.wf(),
                    chunk.coord == coord,
                    samples_wf(samples@),
                    forall|xi: int, zi: int, yi: int|
                        0 <= xi < x && 0 <= zi < 16 && 0 <= yi < 216
                            ==> #[trigger] chunk.spec_voxel(xi, zi, yi) == spec_terrain_voxel(
                                samples@,
                                xi,
                                zi,
                                yi,
                            ),
                    forall|zi: int, yi: int|
                        0 <= zi < z && 0 <= yi < 216
                            ==> #[trigger] chunk.spec_voxel(x as int, zi, yi)
                                == spec_terrain_voxel(samples@, x as int, zi, yi),
                    forall|xi: int, zi: int, yi: int|
                        0 <= xi < 16 && 0 <= zi < 16 && 0 <= yi < 216
                            && (xi > x || (xi == x && zi > z))
                            ==> #[trigger] chunk.spec_voxel(xi, zi, yi) == 0u64,
                    forall|yi: int|
                        0 <= yi < y ==> #[trigger] chunk.spec_voxel(x as int, z as int, yi)
                            == 1u64,
                    forall|yi: int|
                        y <= yi < 216 ==> #[trigger] chunk.spec_voxel(x as int, z as int, yi)
                            == 0u64,
                decreases surface - y,
            {
                chunk.set_block_at(x, z, y, 1u64);
                y = y + 1;
            }
            z = z + 1;
        }
        x = x + 1;
    }
    chunk
}

/// Whether a chunk is exactly what generation puts at its coordinate for
/// the given per-column samples.
pub open spec fn spec_generated_chunk(c: Chunk, coord: ChunkCoord, samples: Seq<i64>) -> bool {
    &&& c.wf()
    &&& c.coord == coord
    &&& forall|x: int, z: int, y: int|
        0 <= x < 16 && 0 <= z < 16 && 0 <= y < 216 ==> #[trigger] c.spec_voxel(x, z, y)
            == spec_terrain_voxel(samples, x, z, y)
}

/// Generation is deterministic: there is no hidden randomness, so two
/// grids built from the same coordinate and the same samples hold the
/// same voxel at every position.
pub proof fn lemma_generation_deterministic(
    a: Chunk,
    b: Chunk,
    coord: ChunkCoord,
    samples: Seq<i64>,
)
    requires
        spec_generated_chunk(a, coord, samples),
        spec_generated_chunk(b, coord, samples),
    ensures
        forall|x: int, z: int, y: int|
            0 <= x < 16 && 0 <= z < 16 && 0 <= y < 216 ==> #[trigger] a.spec_voxel(x, z, y)
                == b.spec_voxel(x, z, y),
{
}

/// Whether heights `y` and `y + 1` of the chunk's corner column are both
/// air: room for the player to stand.
pub open spec fn spec_air_gap(c: &Chunk, y: int) -> bool {
    &&& spec_is_air(c.spec_voxel(0, 0, y))
    &&& spec_is_air(c.spec_voxel(0, 0, y + 1))
}

/// Finds the height the player spawns at in the chunk's corner column:
/// two stacked air cells, searched downward from the anticipated surface
/// when that is already air — the highest gap at or below it — else
/// upward — the lowest gap above it. `None` when the column offers no
/// such gap on the searched side.
pub fn init_player_position(chunk: &Chunk) -> (r: Option<usize>)
    requires
        chunk.wf(),
    ensures
        match r {
            Some(y) => {
                &&& y < 215
                &&& spec_air_gap(chunk, y as int)
                &&& if spec_is_air(chunk.spec_voxel(0, 0, ANTICIPATED_SURFACE as int)) {
                    y <= ANTICIPATED_SURFACE && forall|y2: int|
                        y < y2 <= ANTICIPATED_SURFACE ==> !spec_air_gap(chunk, y2)
                } else {
                    ANTICIPATED_SURFACE <= y && forall|y2: int|
                        ANTICIPATED_SURFACE <= y2 < y ==> !spec_air_gap(chunk, y2)
                }
            },
            None => if spec_is_air(chunk.spec_voxel(0, 0, ANTICIPATED_SURFACE as int)) {
                forall|y2: int| 0 <= y2 <= ANTICIPATED_SURFACE ==> !spec_air_gap(chunk, y2)
            } else {
                forall|y2: int| ANTICIPATED_SURFACE <= y2 < 215 ==> !spec_air_gap(chunk, y2)
            },
        },
{
    if Block::is_air(chunk.block_at(0, 0, ANTICIPATED_SURFACE)) {
        let mut y: usize = ANTICIPATED_SURFACE;
        loop
            invariant
                chunk.wf(),
                y <= ANTICIPATED_SURFACE,
                spec_is_air(chunk.spec_voxel(0, 0, ANTICIPATED_SURFACE as int)),
                forall|y2: int| y < y2 <= ANTICIPATED_SURFACE ==> !spec_air_gap(chunk, y2),
            decreases y,
        {
            if Block::is_air(chunk.block_at(0, 0, y)) && Block::is_air(
                chunk.block_at(0, 0, y + 1),
            ) {
                return Some(y);
            }
            if y == 0 {
                return None;
            }
            y = y - 1;
        }
    } else {
        let mut y: usize = ANTICIPATED_SURFACE;
        while y < 215
            invariant
                chunk.wf(),
                ANTICIPATED_SURFACE <= y <= 215,
                !spec_is_air(chunk.spec_voxel(0, 0, ANTICIPATED_SURFACE as int)),
                forall|y2: int| ANTICIPATED_SURFACE <= y2 < y ==> !spec_air_gap(chunk, y2),
            decreases 215 - y,
        {
            if Block::is_air(chunk.block_at(0, 0, y)) && Block::is_air(
                chunk.block_at(0, 0, y + 1),
            ) {
                return Some(y);
            }
            y = y + 1;
        }
        None
    }
}

} // verus!
