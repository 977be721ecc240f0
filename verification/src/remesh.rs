//! Rebuilding a chunk's mesh in place: assembling the four neighbor
//! boundary planes from resident chunks — or from anticipated terrain
//! where a neighbor was never generated — and storing the fresh mesh.

use crate::addressing::{ChunkCoord, HEIGHT, WIDTH};
use crate::chunk::Chunk;
use crate::editor::{spec_east_of, spec_north_of, spec_south_of, spec_west_of};
use crate::mesh::{BoundaryVoxels, ChunkMesh, PLANE_VOLUME};
use crate::storage::{spec_key_of, Storage};
use crate::terrain::{anticipated_block_from_sample, sample_in_range, spec_generated_voxel, spec_surface_height};
use vstd::prelude::*;

verus! {

/// Per-column noise samples for the four boundary columns surrounding a
/// chunk: what anticipated terrain puts in a neighbor that was never
/// generated. `west` and `east` are indexed by the local z of the touching
/// column, `north` and `south` by its local x.
pub struct EdgeSamples {
    pub west: Vec<i64>,
    pub east: Vec<i64>,
    pub north: Vec<i64>,
    pub south: Vec<i64>,
}

impl EdgeSamples {
    /// Whether each side holds one in-range sample per boundary column.
    pub open spec fn wf(&self) -> bool {
        &&& self.west@.len() == WIDTH
        &&& self.east@.len() == WIDTH
        &&& self.north@.len() == WIDTH
        &&& self.south@.len() == WIDTH
        &&& forall|i: int| 0 <= i < 16 ==> sample_in_range(#[trigger] self.west@[i] as int)
        &&& forall|i: int| 0 <= i < 16 ==> sample_in_range(#[trigger] self.east@[i] as int)
        &&& forall|i: int| 0 <= i < 16 ==> sample_in_range(#[trigger] self.north@[i] as int)
        &&& forall|i: int| 0 <= i < 16 ==> sample_in_range(#[trigger] self.south@[i] as int)
    }
}

/// The voxel a boundary plane holds at one slot: the resident neighbor's
/// voxel, or the anticipated voxel of its column when the neighbor was
/// never generated.
pub open spec fn spec_plane_voxel(
    s: Storage,
    neighbor: ChunkCoord,
    lx: int,
    lz: int,
    y: int,
    sample: i64,
) -> u64 {
    if s.spec_has_chunk(neighbor) {
        s.spec_chunk(neighbor).spec_voxel(lx, lz, y)
    } else {
        spec_generated_voxel(y, spec_surface_height(sample as int))
    }
}

/// The voxel at a world block column and height: the resident chunk's
/// voxel, or — when no chunk was ever generated there — the anticipated
/// voxel of the column's noise sample, so a query never forces eager
/// generation.
pub fn get_block_at(s: &Storage, wx: i64, wz: i64, y: usize, fallback_sample: i64) -> (r: u64)
    requires
        s.wf(),
        crate::addressing::world_coord_in_range(wx as int),
        crate::addressing::world_coord_in_range(wz as int),
        y < HEIGHT,
        sample_in_range(fallback_sample as int),
    ensures
        r == spec_plane_voxel(
            *s,
            ChunkCoord {
                x: crate::addressing::spec_chunk_of(wx as int) as i32,
                z: crate::addressing::spec_chunk_of(wz as int) as i32,
            },
            crate::addressing::spec_local_of(wx as int),
            crate::addressing::spec_local_of(wz as int),
            y as int,
            fallback_sample,
        ),
{
    let (cc, lx, lz) = crate::addressing::world_to_chunk(wx, wz);
    match s.chunk(cc) {
        Some(c) => c.block_at(lx, lz, y),
        None => anticipated_block_from_sample(fallback_sample, y),
    }
}

/// Builds one boundary plane from a neighbor chunk: slot `y * WIDTH + i`
/// holds the neighbor's voxel at its touching column `i`, height `y`.
fn boundary_plane(
    s: &Storage,
    neighbor: ChunkCoord,
    fixed_x: bool,
    fixed_index: usize,
    samples: &Vec<i64>,
) -> (r: Vec<u64>)
    requires
        s.wf(),
        fixed_index < WIDTH,
        samples@.len() == WIDTH,
        forall|i: int| 0 <= i < 16 ==> sample_in_range(#[trigger] samples@[i] as int),
    ensures
        r@.len() == PLANE_VOLUME,
        forall|i: int, y: int|
            0 <= i < 16 && 0 <= y < 216 ==> #[trigger] r@[y * 16 + i] == spec_plane_voxel(
                *s,
                neighbor,
                if fixed_x { fixed_index as int } else { i },
                if fixed_x { i } else { fixed_index as int },
                y,
                samples@[i],
            ),
{
    let mut out: Vec<u64> = Vec::new();
    let resident = s.chunk(neighbor).is_some();
    let mut y: usize = 0;
    while y < HEIGHT
        invariant
            s.wf(),
            fixed_index < WIDTH,
            samples@.len() == WIDTH,
            forall|i: int| 0 <= i < 16 ==> sample_in_range(#[trigger] samples@[i] as int),
            resident == s.spec_has_chunk(neighbor),
            y <= HEIGHT,
            out@.len() == y * 16,
            forall|i: int, yi: int|
                0 <= i < 16 && 0 <= yi < y ==> #[trigger] out@[yi * 16 + i] == spec_plane_voxel(
                    *s,
                    neighbor,
                    if fixed_x { fixed_index as int } else { i },
                    if fixed_x { i } else { fixed_index as int },
                    yi,
                    samples@[i],
                ),
        decreases HEIGHT - y,
    {
        let mut i: usize = 0;
        while i < WIDTH
            invariant
                s.wf(),
                fixed_index < WIDTH,
                samples@.len() == WIDTH,
                forall|k: int| 0 <= k < 16 ==> sample_in_range(#[trigger] samples@[k] as int),
                resident == s.spec_has_chunk(neighbor),
                y < HEIGHT,
                i <= WIDTH,
                out@.len() == y * 16 + i,
                forall|k: int, yi: int|
                    0 <= k < 16 && 0 <= yi < y ==> #[trigger] out@[yi * 16 + k] == spec_plane_voxel(
                        *s,
                        neighbor,
                        if fixed_x { fixed_index as int } else { k },
                        if fixed_x { k } else { fixed_index as int },
                        yi,
                        samples@[k],
                    ),
                forall|k: int|
                    0 <= k < i ==> #[trigger] out@[y * 16 + k] == spec_plane_voxel(
                        *s,
                        neighbor,
                        if fixed_x { fixed_index as int } else { k },
                        if fixed_x { k } else { fixed_index as int },
                        y as int,
                        samples@[k],
                    ),
            decreases WIDTH - i,
        {
            let v: u64 = if resident {
                let c = s.chunk(neighbor).unwrap();
                if fixed_x {
                    c.block_at(fixed_index, i, y)
                } else {
                    c.block_at(i, fixed_index, y)
                }
            } else {
                anticipated_block_from_sample(samples[i], y)
            };
            out.push(v);
            i = i + 1;
        }
        y = y + 1;
    }
    out
}

/// Whether a boundary is exactly what the store and the edge samples give
/// for the chunk at `cc`: each plane slot holds the resident neighbor's
/// touching voxel, or its column's anticipated voxel.
pub open spec fn spec_boundary_ok(
    s: Storage,
    cc: ChunkCoord,
    edges: EdgeSamples,
    b: BoundaryVoxels,
) -> bool {
    &&& b.wf()
    &&& forall|z: int, y: int|
        0 <= z < 16 && 0 <= y < 216 ==> #[trigger] b.west@[y * 16 + z] == spec_plane_voxel(
            s,
            spec_west_of(cc),
            15,
            z,
            y,
            edges.west@[z],
        )
    &&& forall|z: int, y: int|
        0 <= z < 16 && 0 <= y < 216 ==> #[trigger] b.east@[y * 16 + z] == spec_plane_voxel(
            s,
            spec_east_of(cc),
            0,
            z,
            y,
            edges.east@[z],
        )
    &&& forall|x: int, y: int|
        0 <= x < 16 && 0 <= y < 216 ==> #[trigger] b.north@[y * 16 + x] == spec_plane_voxel(
            s,
            spec_north_of(cc),
            x,
            15,
            y,
            edges.north@[x],
        )
    &&& forall|x: int, y: int|
        0 <= x < 16 && 0 <= y < 216 ==> #[trigger] b.south@[y * 16 + x] == spec_plane_voxel(
            s,
            spec_south_of(cc),
            x,
            0,
            y,
            edges.south@[x],
        )
}

/// Assembles the four boundary planes a mesh build of the chunk at `cc`
/// consults: each from the resident axis neighbor, or from anticipated
/// terrain over the caller's edge samples — so meshing never forces a
/// neighbor to be generated.
pub fn build_boundary(s: &Storage, cc: ChunkCoord, edges: &EdgeSamples) -> (r: BoundaryVoxels)
    requires
        s.wf(),
        edges.wf(),
        i32::MIN < cc.x < i32::MAX,
        i32::MIN < cc.z < i32::MAX,
    ensures
        spec_boundary_ok(*s, cc, *edges, r),
{
    let west = boundary_plane(s, ChunkCoord { x: cc.x - 1, z: cc.z }, true, WIDTH - 1, &edges.west);
    let east = boundary_plane(s, ChunkCoord { x: cc.x + 1, z: cc.z }, true, 0, &edges.east);
    let north = boundary_plane(
        s,
        ChunkCoord { x: cc.x, z: cc.z - 1 },
        false,
        WIDTH - 1,
        &edges.north,
    );
    let south = boundary_plane(s, ChunkCoord { x: cc.x, z: cc.z + 1 }, false, 0, &edges.south);
    BoundaryVoxels { west, east, north, south }
}

/// Rebuilds the mesh of the resident chunk at `cc` against the given
/// boundary planes and stores it, replacing any previous mesh there.
pub fn rebuild_mesh(s: &mut Storage, cc: ChunkCoord, boundary: &BoundaryVoxels)
    requires
        old(s).wf(),
        old(s).spec_has_chunk(cc),
        boundary.wf(),
    ensures
        final(s).wf(),
        final(s).chunks@ == old(s).chunks@,
        final(s).spec_has_mesh(cc),
        final(s).spec_mesh(cc).is_mesh_of(&old(s).spec_chunk(cc), boundary),
        final(s).meshes@ == old(s).meshes@.insert(spec_key_of(cc), final(s).spec_mesh(cc)),
    {
    let m = {
        let c = s.chunk(cc).unwrap();
        ChunkMesh::new(c, boundary)
    };
    s.update_mesh(cc, m);
}

} // verus!
