//! Derived render geometry of a chunk: one entry per solid voxel with at
//! least one visible face.
//!
//! A face is visible when the cell it looks into holds air. Faces on the
//! chunk's x/z boundary look into one of the four axis neighbors; those
//! neighbor voxels arrive as boundary planes, assembled by the caller from
//! resident chunks or from anticipated terrain, so meshing never forces a
//! neighbor to be generated eagerly.

use crate::addressing::{HEIGHT, WIDTH};
use crate::chunk::Chunk;
use crate::voxel::{spec_is_air, Block};
use vstd::prelude::*;

verus! {

broadcast use vstd::seq_lib::group_seq_properties;

/// Which neighbor a visible face looks into.
#[derive(Clone, Copy, PartialEq, Eq, Structural, Debug)]
pub enum RenderPosition {
    /// Negative z.
    NORTH,
    /// Positive z.
    SOUTH,
    /// Negative x.
    WEST,
    /// Positive x.
    EAST,
    /// Positive y.
    TOP,
    /// Negative y.
    BOTTOM,
}

/// The set of visible faces of one voxel.
#[derive(Clone, Copy, PartialEq, Eq, Structural, Debug)]
pub struct FaceSet {
    pub west: bool,
    pub east: bool,
    pub north: bool,
    pub south: bool,
    pub top: bool,
    pub bottom: bool,
}

impl FaceSet {
    /// Whether any face is visible.
    pub open spec fn spec_any(&self) -> bool {
        self.west || self.east || self.north || self.south || self.top || self.bottom
    }

    /// The visible faces as render positions, in the renderer's north,
    /// south, west, east, top, bottom order.
    pub fn positions(&self) -> (r: Vec<RenderPosition>)
        ensures
            r@.contains(RenderPosition::NORTH) == self.north,
            r@.contains(RenderPosition::SOUTH) == self.south,
            r@.contains(RenderPosition::WEST) == self.west,
            r@.contains(RenderPosition::EAST) == self.east,
            r@.contains(RenderPosition::TOP) == self.top,
            r@.contains(RenderPosition::BOTTOM) == self.bottom,
    {
        let mut out: Vec<RenderPosition> = Vec::new();
        if self.north {
            out.push(RenderPosition::NORTH);
        }
        if self.south {
            out.push(RenderPosition::SOUTH);
        }
        if self.west {
            out.push(RenderPosition::WEST);
        }
        if self.east {
            out.push(RenderPosition::EAST);
        }
        if self.top {
            out.push(RenderPosition::TOP);
        }
        if self.bottom {
            out.push(RenderPosition::BOTTOM);
        }
        out
    }
}

/// One solid voxel of the mesh: its local position, its packed value and
/// its visible faces.
#[derive(Clone, Copy, PartialEq, Eq, Structural, Debug)]
pub struct MeshEntry {
    pub x: usize,
    pub z: usize,
    pub y: usize,
    pub block: u64,
    pub faces: FaceSet,
}

/// Voxels per boundary plane a neighbor contributes.
pub const PLANE_VOLUME: usize = 3456;

/// The four neighbor boundary planes a mesh build consults: `west` and
/// `east` hold the neighbor column at the touching x face, indexed
/// `y * WIDTH + z`; `north` and `south` the touching z face, indexed
/// `y * WIDTH + x`.
pub struct BoundaryVoxels {
    pub west: Vec<u64>,
    pub east: Vec<u64>,
    pub north: Vec<u64>,
    pub south: Vec<u64>,
}

impl BoundaryVoxels {
    /// Whether each plane has its fixed footprint.
    pub open spec fn wf(&self) -> bool {
        &&& self.west@.len() == PLANE_VOLUME
        &&& self.east@.len() == PLANE_VOLUME
        &&& self.north@.len() == PLANE_VOLUME
        &&& self.south@.len() == PLANE_VOLUME
    }
}

/// Whether the west face of local (x, z, y) is visible: the cell at x-1,
/// read from the west neighbor plane when x is on the boundary, holds air.
pub open spec fn spec_face_west(c: &Chunk, b: &BoundaryVoxels, x: int, z: int, y: int) -> bool {
    if x == 0 {
        spec_is_air(b.west@[y * 16 + z])
    } else {
        spec_is_air(c.spec_voxel(x - 1, z, y))
    }
}

/// Whether the east face of local (x, z, y) is visible.
pub open spec fn spec_face_east(c: &Chunk, b: &BoundaryVoxels, x: int, z: int, y: int) -> bool {
    if x == 15 {
        spec_is_air(b.east@[y * 16 + z])
    } else {
        spec_is_air(c.spec_voxel(x + 1, z, y))
    }
}

/// Whether the north face of local (x, z, y) is visible.
pub open spec fn spec_face_north(c: &Chunk, b: &BoundaryVoxels, x: int, z: int, y: int) -> bool {
    if z == 0 {
        spec_is_air(b.north@[y * 16 + x])
    } else {
        spec_is_air(c.spec_voxel(x, z - 1, y))
    }
}

/// Whether the south face of local (x, z, y) is visible.
pub open spec fn spec_face_south(c: &Chunk, b: &BoundaryVoxels, x: int, z: int, y: int) -> bool {
    if z == 15 {
        spec_is_air(b.south@[y * 16 + x])
    } else {
        spec_is_air(c.spec_voxel(x, z + 1, y))
    }
}

/// Whether the top face of local (x, z, y) is visible: it is the world's
/// top layer or the cell above holds air.
pub open spec fn spec_face_top(c: &Chunk, x: int, z: int, y: int) -> bool {
    y + 1 == 216 || spec_is_air(c.spec_voxel(x, z, y + 1))
}

/// Whether the bottom face of local (x, z, y) is visible: never on the
/// world's bottom layer, else when the cell below holds air.
pub open spec fn spec_face_bottom(c: &Chunk, x: int, z: int, y: int) -> bool {
    y > 0 && spec_is_air(c.spec_voxel(x, z, y - 1))
}

/// The visible faces of local (x, z, y).
pub open spec fn spec_faceset(c: &Chunk, b: &BoundaryVoxels, x: int, z: int, y: int) -> FaceSet {
    FaceSet {
        west: spec_face_west(c, b, x, z, y),
        east: spec_face_east(c, b, x, z, y),
        north: spec_face_north(c, b, x, z, y),
        south: spec_face_south(c, b, x, z, y),
        top: spec_face_top(c, x, z, y),
        bottom: spec_face_bottom(c, x, z, y),
    }
}

/// Whether local (x, z, y) earns a mesh entry: solid with a visible face.
pub open spec fn spec_entry_needed(c: &Chunk, b: &BoundaryVoxels, x: int, z: int, y: int) -> bool {
    &&& !spec_is_air(c.spec_voxel(x, z, y))
    &&& spec_faceset(c, b, x, z, y).spec_any()
}

/// The canonical mesh entry of local (x, z, y).
pub open spec fn spec_mesh_entry(c: &Chunk, b: &BoundaryVoxels, x: int, z: int, y: int) -> MeshEntry {
    MeshEntry {
        x: x as usize,
        z: z as usize,
        y: y as usize,
        block: c.spec_voxel(x, z, y),
        faces: spec_faceset(c, b, x, z, y),
    }
}

/// The scan rank of a mesh entry: the position its cell is visited at,
/// x-major, z-mid, y-minor. Distinct in-bounds cells get distinct ranks.
pub open spec fn spec_entry_rank(e: MeshEntry) -> int {
    e.x * 3456 + e.z * 216 + e.y
}

/// Render geometry derived from one chunk's voxels.
pub struct ChunkMesh {
    pub entries: Vec<MeshEntry>,
}

impl ChunkMesh {
    /// Whether this mesh is exactly the geometry of chunk `c` seen against
    /// boundary planes `b`: every entry is the canonical entry of a cell
    /// that earns one, every cell that earns one has its entry, and the
    /// entries come in scan order — strictly increasing rank, so the whole
    /// sequence is determined by the chunk and the boundary.
    pub open spec fn is_mesh_of(&self, c: &Chunk, b: &BoundaryVoxels) -> bool {
        &&& forall|i: int|
            0 <= i < self.entries@.len() ==> {
                let e = #[trigger] self.entries@[i];
                &&& e.x < 16
                &&& e.z < 16
                &&& e.y < 216
                &&& spec_entry_needed(c, b, e.x as int, e.z as int, e.y as int)
                &&& e == spec_mesh_entry(c, b, e.x as int, e.z as int, e.y as int)
            }
        &&& forall|x: int, z: int, y: int|
            0 <= x < 16 && 0 <= z < 16 && 0 <= y < 216 && spec_entry_needed(c, b, x, z, y)
                ==> self.entries@.contains(#[trigger] spec_mesh_entry(c, b, x, z, y))
        &&& forall|i: int, j: int|
            #![trigger self.entries@[i], self.entries@[j]]
            0 <= i < j < self.entries@.len() ==> spec_entry_rank(self.entries@[i])
                < spec_entry_rank(self.entries@[j])
    }

    /// Builds the mesh of a chunk: walks every cell and keeps each solid
    /// voxel that shows at least one visible face, with exactly those
    /// faces.
    pub fn new(chunk: &Chunk, boundary: &BoundaryVoxels) -> (r: ChunkMesh)
        requires
            chunk.wf(),
            boundary.wf(),
        ensures
            r.is_mesh_of(chunk, boundary),
    {
        let mut entries: Vec<MeshEntry> = Vec::new();
        let mut x: usize = 0;
        while x < WIDTH
            invariant
                chunk.wf(),
                boundary.wf(),
                x <= WIDTH,
                forall|i: int|
                    0 <= i < entries@.len() ==> {
                        let e = #[trigger] entries@[i];
                        &&& e.x < 16
                        &&& e.z < 16
                        &&& e.y < 216
                        &&& spec_entry_needed(chunk, boundary, e.x as int, e.z as int, e.y as int)
                        &&& e == spec_mesh_entry(chunk, boundary, e.x as int, e.z as int, e.y as int)
                    },
                forall|xi: int, zi: int, yi: int|
                    0 <= xi < x && 0 <= zi < 16 && 0 <= yi < 216
                        && spec_entry_needed(chunk, boundary, xi, zi, yi)
                        ==> entries@.contains(#[trigger] spec_mesh_entry(chunk, boundary, xi, zi, yi)),
                forall|i: int, j: int|
                    #![trigger entries@[i], entries@[j]]
                    0 <= i < j < entries@.len() ==> spec_entry_rank(entries@[i])
                        < spec_entry_rank(entries@[j]),
                forall|i: int|
                    0 <= i < entries@.len() ==> spec_entry_rank(#[trigger] entries@[i]) < x as int
                        * 3456,
            decreases WIDTH - x,
        {
            let mut z: usize = 0;
            while z < WIDTH
                invariant
                    chunk.wf(),
                    boundary.wf(),
                    x < WIDTH,
                    z <= WIDTH,
                    forall|i: int|
                        0 <= i < entries@.len() ==> {
                            let e = #[trigger] entries@[i];
                            &&& e.x < 16
                            &&& e.z < 16
                            &&& e.y < 216
                            &&& spec_entry_needed(chunk, boundary, e.x as int, e.z as int, e.y as int)
                            &&& e == spec_mesh_entry(chunk, boundary, e.x as int, e.z as int, e.y as int)
                        },
                    forall|xi: int, zi: int, yi: int|
                        0 <= xi < x && 0 <= zi < 16 && 0 <= yi < 216
                            && spec_entry_needed(chunk, boundary, xi, zi, yi)
                            ==> entries@.contains(
                            #[trigger] spec_mesh_entry(chunk, boundary, xi, zi, yi),
                        ),
                    forall|zi: int, yi: int|
                        0 <= zi < z && 0 <= yi < 216
                            && spec_entry_needed(chunk, boundary, x as int, zi, yi)
                            ==> entries@.contains(
                            #[trigger] spec_mesh_entry(chunk, boundary, x as int, zi, yi),
                        ),
                    forall|i: int, j: int|
                    #![trigger entries@[i], entries@[j]]
                    0 <= i < j < entries@.len() ==> spec_entry_rank(entries@[i])
                        < spec_entry_rank(entries@[j]),
                    forall|i: int|
                        0 <= i < entries@.len() ==> spec_entry_rank(#[trigger] entries@[i])
                            < x as int * 3456 + z as int * 216,
                decreases WIDTH - z,
            {
                let mut y: usize = 0;
                while y < HEIGHT
                    invariant
                        chunk.wf(),
                        boundary.wf(),
                        x < WIDTH,
                        z < WIDTH,
                        y <= HEIGHT,
                        forall|i: int|
                            0 <= i < entries@.len() ==> {
                                let e = #[trigger] entries@[i];
                                &&& e.x < 16
                                &&& e.z < 16
                                &&& e.y < 216
                                &&& spec_entry_needed(
                                    chunk,
                                    boundary,
                                    e.x as int,
                                    e.z as int,
                                    e.y as int,
                                )
                                &&& e == spec_mesh_entry(
                                    chunk,
                                    boundary,
                                    e.x as int,
                                    e.z as int,
                                    e.y as int,
                                )
                            },
                        forall|xi: int, zi: int, yi: int|
                            0 <= xi < x && 0 <= zi < 16 && 0 <= yi < 216
                                && spec_entry_needed(chunk, boundary, xi, zi, yi)
                                ==> entries@.contains(
                                #[trigger] spec_mesh_entry(chunk, boundary, xi, zi, yi),
                            ),
                        forall|zi: int, yi: int|
                            0 <= zi < z && 0 <= yi < 216
                                && spec_entry_needed(chunk, boundary, x as int, zi, yi)
                                ==> entries@.contains(
                                #[trigger] spec_mesh_entry(chunk, boundary, x as int, zi, yi),
                            ),
                        forall|yi: int|
                            0 <= yi < y && spec_entry_needed(chunk, boundary, x as int, z as int, yi)
                                ==> entries@.contains(
                                #[trigger] spec_mesh_entry(chunk, boundary, x as int, z as int, yi),
                            ),
                        forall|i: int, j: int|
                            #![trigger entries@[i], entries@[j]]
                            0 <= i < j < entries@.len() ==> spec_entry_rank(entries@[i])
                                < spec_entry_rank(entries@[j]),
                        forall|i: int|
                            0 <= i < entries@.len() ==> spec_entry_rank(#[trigger] entries@[i])
                                < x as int * 3456 + z as int * 216 + y as int,
                    decreases HEIGHT - y,
                {
                    let block = chunk.block_at(x, z, y);
                    if !Block::is_air(block) {
                        let west = if x == 0 {
                            Block::is_air(boundary.west[y * 16 + z])
                        } else {
                            Block::is_air(chunk.block_at(x - 1, z, y))
                        };
                        let east = if x + 1 == WIDTH {
                            Block::is_air(boundary.east[y * 16 + z])
                        } else {
                            Block::is_air(chunk.block_at(x + 1, z, y))
                        };
                        let north = if z == 0 {
                            Block::is_air(boundary.north[y * 16 + x])
                        } else {
                            Block::is_air(chunk.block_at(x, z - 1, y))
                        };
                        let south = if z + 1 == WIDTH {
                            Block::is_air(boundary.south[y * 16 + x])
                        } else {
                            Block::is_air(chunk.block_at(x, z + 1, y))
                        };
                        let top = y + 1 == HEIGHT || Block::is_air(chunk.block_at(x, z, y + 1));
                        let bottom = y > 0 && Block::is_air(chunk.block_at(x, z, y - 1));
                        let faces = FaceSet { west, east, north, south, top, bottom };
                        if west || east || north || south || top || bottom {
                            let e = MeshEntry { x, z, y, block, faces };
                            assert(e == spec_mesh_entry(chunk, boundary, x as int, z as int, y as int));
                            entries.push(e);
                        }
                    }
                    y = y + 1;
                }
                z = z + 1;
            }
            x = x + 1;
        }
        ChunkMesh { entries }
    }
}

/// Two strictly rank-increasing entry sequences with the same members are
/// the same sequence.
proof fn lemma_ranked_unique(x: Seq<MeshEntry>, y: Seq<MeshEntry>)
    requires
        forall|i: int, j: int|
            #![trigger x[i], x[j]]
            0 <= i < j < x.len() ==> spec_entry_rank(x[i]) < spec_entry_rank(x[j]),
        forall|i: int, j: int|
            #![trigger y[i], y[j]]
            0 <= i < j < y.len() ==> spec_entry_rank(y[i]) < spec_entry_rank(y[j]),
        forall|e: MeshEntry| x.contains(e) <==> y.contains(e),
    ensures
        x =~= y,
    decreases x.len(),
{
    if x.len() == 0 {
        if y.len() > 0 {
            assert(y.contains(y[0]));
            assert(x.contains(y[0]));
            assert(false);
        }
    } else if y.len() == 0 {
        assert(x.contains(x[0]));
        assert(y.contains(x[0]));
        assert(false);
    } else {
        assert(x.contains(x[0]));
        assert(y.contains(x[0]));
        let i = choose|i: int| 0 <= i < y.len() && y[i] == x[0];
        assert(y.contains(y[0]));
        assert(x.contains(y[0]));
        let j = choose|j: int| 0 <= j < x.len() && x[j] == y[0];
        if i > 0 && j > 0 {
            assert(spec_entry_rank(y[0]) < spec_entry_rank(y[i]));
            assert(spec_entry_rank(x[0]) < spec_entry_rank(x[j]));
            assert(false);
        }
        assert(x[0] == y[0]);
        let xt = x.drop_first();
        let yt = y.drop_first();
        assert forall|e: MeshEntry| xt.contains(e) <==> yt.contains(e) by {
            if xt.contains(e) {
                let k = choose|k: int| 0 <= k < xt.len() && xt[k] == e;
                assert(x[k + 1] == e);
                assert(x.contains(e));
                assert(spec_entry_rank(x[0]) < spec_entry_rank(x[k + 1]));
                assert(y.contains(e));
                let m = choose|m: int| 0 <= m < y.len() && y[m] == e;
                assert(m != 0);
                assert(yt[m - 1] == e);
                assert(yt.contains(e));
            }
            if yt.contains(e) {
                let k = choose|k: int| 0 <= k < yt.len() && yt[k] == e;
                assert(y[k + 1] == e);
                assert(y.contains(e));
                assert(spec_entry_rank(y[0]) < spec_entry_rank(y[k + 1]));
                assert(x.contains(e));
                let m = choose|m: int| 0 <= m < x.len() && x[m] == e;
                assert(m != 0);
                assert(xt[m - 1] == e);
                assert(xt.contains(e));
            }
        }
        assert forall|i2: int, j2: int|
            #![trigger xt[i2], xt[j2]]
            0 <= i2 < j2 < xt.len() implies spec_entry_rank(xt[i2]) < spec_entry_rank(
            xt[j2],
        ) by {
            assert(xt[i2] == x[i2 + 1] && xt[j2] == x[j2 + 1]);
        }
        assert forall|i2: int, j2: int|
            #![trigger yt[i2], yt[j2]]
            0 <= i2 < j2 < yt.len() implies spec_entry_rank(yt[i2]) < spec_entry_rank(
            yt[j2],
        ) by {
            assert(yt[i2] == y[i2 + 1] && yt[j2] == y[j2 + 1]);
        }
        lemma_ranked_unique(xt, yt);
        assert forall|k: int| 0 <= k < x.len() implies x[k] == y[k] by {
            if k > 0 {
                assert(x[k] == xt[k - 1] && y[k] == yt[k - 1]);
            }
        }
    }
}

/// Meshing is deterministic: any two meshes of the same chunk against the
/// same boundary planes are the same sequence of entries.
pub proof fn lemma_mesh_deterministic(
    a: &ChunkMesh,
    b: &ChunkMesh,
    c: &Chunk,
    boundary: &BoundaryVoxels,
)
    requires
        a.is_mesh_of(c, boundary),
        b.is_mesh_of(c, boundary),
    ensures
        a.entries@ == b.entries@,
{
    assert forall|e: MeshEntry| a.entries@.contains(e) <==> b.entries@.contains(e) by {
        if a.entries@.contains(e) {
            let i = choose|i: int| 0 <= i < a.entries@.len() && a.entries@[i] == e;
            assert(b.entries@.contains(
                spec_mesh_entry(c, boundary, e.x as int, e.z as int, e.y as int),
            ));
        }
        if b.entries@.contains(e) {
            let i = choose|i: int| 0 <= i < b.entries@.len() && b.entries@[i] == e;
            assert(a.entries@.contains(
                spec_mesh_entry(c, boundary, e.x as int, e.z as int, e.y as int),
            ));
        }
    }
    lemma_ranked_unique(a.entries@, b.entries@);
}

impl Clone for ChunkMesh {
    /// An identical copy of the mesh.
    fn clone(&self) -> (r: ChunkMesh)
        ensures
            r.entries@ == self.entries@,
    {
        ChunkMesh { entries: self.entries.clone() }
    }
}

} // verus!
