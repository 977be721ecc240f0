//! Point-in-time edits: destroying the solid voxel a ray hits, and placing
//! a block into the empty cell the ray entered it from.
//!
//! Both edits name the chunks whose meshes the edit staled: the edited
//! chunk itself, and any axis neighbor whose boundary plane touches the
//! edited voxel while its touching voxel is solid. Rebuilding those meshes
//! is a separate step, since a rebuild against an absent neighbor needs
//! terrain samples the caller supplies.

use crate::addressing::{spec_local_of, world_to_chunk, ChunkCoord, HEIGHT, WIDTH};
use crate::chunk::spec_voxel_index;
use crate::geometry::{fxvec_in_range, on_plane, spec_dir_nonzero, spec_on_plane, CellPos, FxVec, Ratio};
use crate::raycast::{
    find_nearest_block_in_ray, spec_cell_cc, spec_hit_wf, spec_in_search_region, spec_not_farther,
    spec_ray_candidate, RayHit, MAX_RAY_RADIUS,
};
use crate::raycast::fx_floor_center;
use crate::storage::{spec_key_of, Storage};
use crate::voxel::{spec_is_air, Block};
use vstd::prelude::*;

verus! {

/// The west axis neighbor of a chunk.
pub open spec fn spec_west_of(cc: ChunkCoord) -> ChunkCoord {
    ChunkCoord { x: (cc.x - 1) as i32, z: cc.z }
}

/// The east axis neighbor of a chunk.
pub open spec fn spec_east_of(cc: ChunkCoord) -> ChunkCoord {
    ChunkCoord { x: (cc.x + 1) as i32, z: cc.z }
}

/// The north axis neighbor of a chunk.
pub open spec fn spec_north_of(cc: ChunkCoord) -> ChunkCoord {
    ChunkCoord { x: cc.x, z: (cc.z - 1) as i32 }
}

/// The south axis neighbor of a chunk.
pub open spec fn spec_south_of(cc: ChunkCoord) -> ChunkCoord {
    ChunkCoord { x: cc.x, z: (cc.z + 1) as i32 }
}

/// Whether an edit at local (x, z, y) stales the west neighbor's mesh: the
/// voxel sits on the x = 0 plane, the neighbor is resident, and the
/// neighbor's touching voxel is solid.
pub open spec fn spec_remesh_west(s: Storage, cc: ChunkCoord, x: int, z: int, y: int) -> bool {
    &&& x == 0
    &&& s.spec_has_chunk(spec_west_of(cc))
    &&& !spec_is_air(s.spec_chunk(spec_west_of(cc)).spec_voxel(15, z, y))
}

/// Whether an edit stales the east neighbor's mesh.
pub open spec fn spec_remesh_east(s: Storage, cc: ChunkCoord, x: int, z: int, y: int) -> bool {
    &&& x == 15
    &&& s.spec_has_chunk(spec_east_of(cc))
    &&& !spec_is_air(s.spec_chunk(spec_east_of(cc)).spec_voxel(0, z, y))
}

/// Whether an edit stales the north neighbor's mesh.
pub open spec fn spec_remesh_north(s: Storage, cc: ChunkCoord, x: int, z: int, y: int) -> bool {
    &&& z == 0
    &&& s.spec_has_chunk(spec_north_of(cc))
    &&& !spec_is_air(s.spec_chunk(spec_north_of(cc)).spec_voxel(x, 15, y))
}

/// Whether an edit stales the south neighbor's mesh.
pub open spec fn spec_remesh_south(s: Storage, cc: ChunkCoord, x: int, z: int, y: int) -> bool {
    &&& z == 15
    &&& s.spec_has_chunk(spec_south_of(cc))
    &&& !spec_is_air(s.spec_chunk(spec_south_of(cc)).spec_voxel(x, 0, y))
}

/// The chunks whose meshes an edit at local (x, z, y) of chunk `cc`
/// stales: the chunk itself first, then each triggered axis neighbor in
/// west, east, north, south order.
pub open spec fn spec_remesh_targets(s: Storage, cc: ChunkCoord, x: int, z: int, y: int) -> Seq<
    ChunkCoord,
> {
    let r0 = seq![cc];
    let r1 = if spec_remesh_west(s, cc, x, z, y) {
        r0.push(spec_west_of(cc))
    } else {
        r0
    };
    let r2 = if spec_remesh_east(s, cc, x, z, y) {
        r1.push(spec_east_of(cc))
    } else {
        r1
    };
    let r3 = if spec_remesh_north(s, cc, x, z, y) {
        r2.push(spec_north_of(cc))
    } else {
        r2
    };
    if spec_remesh_south(s, cc, x, z, y) {
        r3.push(spec_south_of(cc))
    } else {
        r3
    }
}

/// Names the chunks whose meshes an edit staled: the edited chunk and the
/// axis neighbors whose touching boundary voxel is solid.
pub fn remesh_targets(s: &Storage, cc: ChunkCoord, x: usize, z: usize, y: usize) -> (r: Vec<
    ChunkCoord,
>)
    requires
        s.wf(),
        i32::MIN < cc.x < i32::MAX,
        i32::MIN < cc.z < i32::MAX,
        x < WIDTH,
        z < WIDTH,
        y < HEIGHT,
    ensures
        r@ == spec_remesh_targets(*s, cc, x as int, z as int, y as int),
{
    let mut out: Vec<ChunkCoord> = Vec::new();
    out.push(cc);
    if x == 0 {
        let w = ChunkCoord { x: cc.x - 1, z: cc.z };
        match s.chunk(w) {
            Some(c) => {
                if !Block::is_air(c.block_at(WIDTH - 1, z, y)) {
                    out.push(w);
                }
            },
            None => {},
        }
    }
    if x == WIDTH - 1 {
        let e = ChunkCoord { x: cc.x + 1, z: cc.z };
        match s.chunk(e) {
            Some(c) => {
                if !Block::is_air(c.block_at(0, z, y)) {
                    out.push(e);
                }
            },
            None => {},
        }
    }
    if z == 0 {
        let n = ChunkCoord { x: cc.x, z: cc.z - 1 };
        match s.chunk(n) {
            Some(c) => {
                if !Block::is_air(c.block_at(x, WIDTH - 1, y)) {
                    out.push(n);
                }
            },
            None => {},
        }
    }
    if z == WIDTH - 1 {
        let so = ChunkCoord { x: cc.x, z: cc.z + 1 };
        match s.chunk(so) {
            Some(c) => {
                if !Block::is_air(c.block_at(x, 0, y)) {
                    out.push(so);
                }
            },
            None => {},
        }
    }
    proof {
        assert(out@ =~= spec_remesh_targets(*s, cc, x as int, z as int, y as int));
    }
    out
}

/// What a destroy edit did: the hit it resolved and the chunks whose
/// meshes it staled.
pub struct DestroyOutcome {
    pub hit: RayHit,
    pub remesh: Vec<ChunkCoord>,
}

/// Destroys the nearest solid voxel along the ray, if the search radius
/// holds one: sets it to air and names the meshes the edit staled — the
/// edited chunk and every axis neighbor whose touching boundary voxel is
/// solid. No solid cell within the radius is a no-op.
pub fn player_destroy_block_if_possible(
    s: &mut Storage,
    origin: FxVec,
    dir: FxVec,
    radius: usize,
) -> (r: Option<DestroyOutcome>)
    requires
        old(s).wf(),
        fxvec_in_range(origin),
        fxvec_in_range(dir),
        spec_dir_nonzero(dir),
        1 <= radius <= MAX_RAY_RADIUS,
    ensures
        final(s).wf(),
        match r {
            None => {
                &&& *final(s) == *old(s)
                &&& forall|cell: CellPos|
                    spec_in_search_region(cell, fx_floor_center(origin), radius as int)
                        ==> !spec_ray_candidate(old(s), cell, origin, dir)
            },
            Some(o) => {
                &&& spec_hit_wf(old(s), o.hit, origin, dir, fx_floor_center(origin), radius as int)
                &&& forall|cell: CellPos|
                    spec_in_search_region(cell, fx_floor_center(origin), radius as int)
                        && spec_ray_candidate(old(s), cell, origin, dir) ==> spec_not_farther(
                        o.hit,
                        cell,
                        origin,
                        dir,
                    )
                &&& final(s).meshes@ == old(s).meshes@
                &&& final(s).chunks@ == old(s).chunks@.insert(
                    spec_key_of(o.hit.cc),
                    final(s).spec_chunk(o.hit.cc),
                )
                &&& final(s).spec_chunk(o.hit.cc).voxels@ == old(s).spec_chunk(
                    o.hit.cc,
                ).voxels@.update(
                    spec_voxel_index(o.hit.x as int, o.hit.z as int, o.hit.y as int),
                    0u64,
                )
                &&& o.remesh@ == spec_remesh_targets(
                    *final(s),
                    o.hit.cc,
                    o.hit.x as int,
                    o.hit.z as int,
                    o.hit.y as int,
                )
            },
        },
{
    match find_nearest_block_in_ray(s, origin, dir, radius) {
        None => None,
        Some(h) => {
            proof {
                lemma_hit_fields(s, h, origin, dir, fx_floor_center(origin), radius as int);
            }
            s.set_block(h.cc, h.x, h.z, h.y, 0u64);
            let remesh = remesh_targets(s, h.cc, h.x, h.z, h.y);
            Some(DestroyOutcome { hit: h, remesh })
        },
    }
}

/// The cell one axis steps to when the ray's entry point lies exactly on
/// one of the cell's two planes along that axis: on the far plane (a
/// fractional offset of exactly one) the next cell, on the near plane (an
/// offset of exactly zero) the previous cell, else the cell itself.
pub open spec fn spec_step_axis(c: int, o: int, d: int, t: (int, int)) -> int {
    if spec_on_plane(o, d, t, (c + 1) * 1024) {
        c + 1
    } else if spec_on_plane(o, d, t, c * 1024) {
        c - 1
    } else {
        c
    }
}

/// The cell a placement lands in: from the hit cell, each axis steps
/// across the face the ray's entry point lies exactly on.
pub open spec fn spec_place_target(cell: CellPos, o: FxVec, d: FxVec, t: (int, int)) -> CellPos {
    CellPos {
        x: spec_step_axis(cell.x as int, o.x as int, d.x as int, t) as i64,
        y: spec_step_axis(cell.y as int, o.y as int, d.y as int, t) as i64,
        z: spec_step_axis(cell.z as int, o.z as int, d.z as int, t) as i64,
    }
}

/// The cell a hitbox vertex occupies when the agent stands at `o`.
pub open spec fn spec_vertex_cell(o: FxVec, v: FxVec) -> CellPos {
    CellPos {
        x: ((o.x as int + v.x as int) / 1024) as i64,
        y: ((o.y as int + v.y as int) / 1024) as i64,
        z: ((o.z as int + v.z as int) / 1024) as i64,
    }
}

/// Whether any hitbox vertex occupies the target cell: the overlap test
/// that rejects a placement into the acting agent's own body.
pub open spec fn spec_hitbox_overlap(o: FxVec, hitbox: Seq<FxVec>, target: CellPos) -> bool {
    exists|i: int| 0 <= i < hitbox.len() && spec_vertex_cell(o, hitbox[i]) == target
}

/// Whether a placement derived from hit `h` is rejected: the target cell
/// leaves the world's height range, overlaps the agent's hitbox, lies in a
/// chunk that is not resident, or already holds a solid voxel.
pub open spec fn spec_place_rejected(
    s: Storage,
    h: RayHit,
    o: FxVec,
    d: FxVec,
    hitbox: Seq<FxVec>,
) -> bool {
    let t = spec_place_target(h.cell, o, d, h.tmin.view_pair());
    ||| !(0 <= t.y < 216)
    ||| spec_hitbox_overlap(o, hitbox, t)
    ||| !s.spec_has_chunk(spec_cell_cc(t))
    ||| !spec_is_air(
        s.spec_chunk(spec_cell_cc(t)).spec_voxel(
            spec_local_of(t.x as int),
            spec_local_of(t.z as int),
            t.y as int,
        ),
    )
}

/// Steps one axis across the face the ray's entry point lies exactly on.
fn step_axis(c: i64, o: i64, d: i64, t: Ratio) -> (r: i64)
    requires
        -0x41_0000_0000 <= c <= 0x41_0000_0000,
        crate::geometry::fx_in_range(o as int),
        crate::geometry::fx_in_range(d as int),
        t.wf(),
    ensures
        r as int == spec_step_axis(c as int, o as int, d as int, t.view_pair()),
{
    if on_plane(o, d, t, (c + 1) * 1024) {
        c + 1
    } else if on_plane(o, d, t, c * 1024) {
        c - 1
    } else {
        c
    }
}

/// What a place edit did: the hit it derived the target from, the target
/// cell with its addressing, and the chunks whose meshes it staled.
pub struct PlaceOutcome {
    pub hit: RayHit,
    pub target: CellPos,
    pub cc: ChunkCoord,
    pub x: usize,
    pub z: usize,
    pub y: usize,
    pub remesh: Vec<ChunkCoord>,
}

/// Places a block into the empty cell the ray entered the nearest solid
/// voxel from: from the hit cell, each axis whose entry offset is exactly
/// zero or one steps to the neighboring cell, wrapping into the adjacent
/// chunk at boundaries. The placement is rejected — no voxel mutated —
/// when the target leaves the height range, overlaps a vertex of the
/// acting agent's hitbox, lies in a chunk that is not resident, or is not
/// air.
pub fn player_place_block_if_possible(
    s: &mut Storage,
    block: u64,
    origin: FxVec,
    dir: FxVec,
    radius: usize,
    hitbox: &Vec<FxVec>,
) -> (r: Option<PlaceOutcome>)
    requires
        old(s).wf(),
        fxvec_in_range(origin),
        fxvec_in_range(dir),
        spec_dir_nonzero(dir),
        1 <= radius <= MAX_RAY_RADIUS,
        forall|i: int| 0 <= i < hitbox@.len() ==> fxvec_in_range(#[trigger] hitbox@[i]),
    ensures
        final(s).wf(),
        match r {
            None => {
                &&& *final(s) == *old(s)
                &&& {
                    ||| forall|cell: CellPos|
                        spec_in_search_region(cell, fx_floor_center(origin), radius as int)
                            ==> !spec_ray_candidate(old(s), cell, origin, dir)
                    ||| exists|h: RayHit|
                        {
                            &&& spec_hit_wf(
                                old(s),
                                h,
                                origin,
                                dir,
                                fx_floor_center(origin),
                                radius as int,
                            )
                            &&& forall|cell: CellPos|
                                spec_in_search_region(cell, fx_floor_center(origin), radius as int)
                                    && spec_ray_candidate(old(s), cell, origin, dir)
                                    ==> spec_not_farther(h, cell, origin, dir)
                            &&& #[trigger] spec_place_rejected(*old(s), h, origin, dir, hitbox@)
                        }
                }
            },
            Some(p) => {
                &&& spec_hit_wf(old(s), p.hit, origin, dir, fx_floor_center(origin), radius as int)
                &&& forall|cell: CellPos|
                    spec_in_search_region(cell, fx_floor_center(origin), radius as int)
                        && spec_ray_candidate(old(s), cell, origin, dir) ==> spec_not_farther(
                        p.hit,
                        cell,
                        origin,
                        dir,
                    )
                &&& p.target == spec_place_target(p.hit.cell, origin, dir, p.hit.tmin.view_pair())
                &&& 0 <= p.target.y < 216
                &&& !spec_hitbox_overlap(origin, hitbox@, p.target)
                &&& p.cc == spec_cell_cc(p.target)
                &&& p.x == spec_local_of(p.target.x as int)
                &&& p.z == spec_local_of(p.target.z as int)
                &&& p.y == p.target.y
                &&& old(s).spec_has_chunk(p.cc)
                &&& spec_is_air(
                    old(s).spec_chunk(p.cc).spec_voxel(p.x as int, p.z as int, p.y as int),
                )
                &&& final(s).meshes@ == old(s).meshes@
                &&& final(s).chunks@ == old(s).chunks@.insert(
                    spec_key_of(p.cc),
                    final(s).spec_chunk(p.cc),
                )
                &&& final(s).spec_chunk(p.cc).voxels@ == old(s).spec_chunk(p.cc).voxels@.update(
                    spec_voxel_index(p.x as int, p.z as int, p.y as int),
                    block,
                )
                &&& p.remesh@ == spec_remesh_targets(
                    *final(s),
                    p.cc,
                    p.x as int,
                    p.z as int,
                    p.y as int,
                )
            },
        },
{
    let h = match find_nearest_block_in_ray(s, origin, dir, radius) {
        None => {
            return None;
        },
        Some(h) => h,
    };
    proof {
        lemma_hit_fields(s, h, origin, dir, fx_floor_center(origin), radius as int);
        assert(-0x41_0000_0000 <= h.cell.x as int <= 0x41_0000_0000);
        assert(-0x41_0000_0000 <= h.cell.y as int <= 0x41_0000_0000);
        assert(-0x41_0000_0000 <= h.cell.z as int <= 0x41_0000_0000);
    }
    let tx = step_axis(h.cell.x, origin.x, dir.x, h.tmin);
    let ty = step_axis(h.cell.y, origin.y, dir.y, h.tmin);
    let tz = step_axis(h.cell.z, origin.z, dir.z, h.tmin);
    let target = CellPos { x: tx, y: ty, z: tz };
    assert(target == spec_place_target(h.cell, origin, dir, h.tmin.view_pair()));

    if ty < 0 || ty >= 216 {
        proof {
            assert(spec_place_rejected(*s, h, origin, dir, hitbox@));
        }
        return None;
    }

    let mut i: usize = 0;
    while i < hitbox.len()
        invariant
            *s == *old(s),
            s.wf(),
            fxvec_in_range(origin),
            fxvec_in_range(dir),
            spec_dir_nonzero(dir),
            1 <= radius <= MAX_RAY_RADIUS,
            spec_hit_wf(old(s), h, origin, dir, fx_floor_center(origin), radius as int),
            forall|cell: CellPos|
                spec_in_search_region(cell, fx_floor_center(origin), radius as int)
                    && spec_ray_candidate(old(s), cell, origin, dir) ==> spec_not_farther(
                    h,
                    cell,
                    origin,
                    dir,
                ),
            target == spec_place_target(h.cell, origin, dir, h.tmin.view_pair()),
            0 <= target.y < 216,
            forall|j: int| 0 <= j < hitbox@.len() ==> fxvec_in_range(#[trigger] hitbox@[j]),
            i <= hitbox@.len(),
            forall|j: int| 0 <= j < i ==> spec_vertex_cell(origin, #[trigger] hitbox@[j]) != target,
        decreases hitbox@.len() - i,
    {
        let v = hitbox[i];
        let cx = crate::geometry::fx_floor(origin.x + v.x);
        let cy = crate::geometry::fx_floor(origin.y + v.y);
        let cz = crate::geometry::fx_floor(origin.z + v.z);
        if cx == target.x && cy == target.y && cz == target.z {
            proof {
                assert(spec_vertex_cell(origin, hitbox@[i as int]) == target);
                assert(spec_hitbox_overlap(origin, hitbox@, target));
                assert(spec_place_rejected(*old(s), h, origin, dir, hitbox@));
            }
            return None;
        }
        i = i + 1;
    }
    proof {
        assert(!spec_hitbox_overlap(origin, hitbox@, target));
    }

    let (cc_t, lx, lz) = world_to_chunk(target.x, target.z);
    let tyu = ty as usize;
    match s.chunk(cc_t) {
        None => {
            proof {
                assert(cc_t == spec_cell_cc(target));
                assert(spec_place_rejected(*s, h, origin, dir, hitbox@));
            }
            None
        },
        Some(c) => {
            let v = c.block_at(lx, lz, tyu);
            if !Block::is_air(v) {
                proof {
                    assert(spec_place_rejected(*s, h, origin, dir, hitbox@));
                }
                return None;
            }
            s.set_block(cc_t, lx, lz, tyu, block);
            proof {
                assert(-0x8000_0000 < (cc_t.x as int) && (cc_t.x as int) < 0x8000_0000) by {
                    assert(-0x4100_0001 <= target.x as int <= 0x4100_0001);
                }
                assert(-0x8000_0000 < (cc_t.z as int) && (cc_t.z as int) < 0x8000_0000) by {
                    assert(-0x4100_0001 <= target.z as int <= 0x4100_0001);
                }
            }
            let remesh = remesh_targets(s, cc_t, lx, lz, tyu);
            Some(PlaceOutcome { hit: h, target, cc: cc_t, x: lx, z: lz, y: tyu, remesh })
        },
    }
}

/// A well-formed hit addresses a resident chunk with in-range local
/// indices and an in-range chunk coordinate.
pub proof fn lemma_hit_fields(
    s: &Storage,
    h: RayHit,
    o: FxVec,
    d: FxVec,
    center: CellPos,
    radius: int,
)
    requires
        s.wf(),
        spec_hit_wf(s, h, o, d, center, radius),
        center == fx_floor_center(o),
        fxvec_in_range(o),
        1 <= radius <= MAX_RAY_RADIUS,
    ensures
        s.spec_has_chunk(h.cc),
        h.x < WIDTH,
        h.z < WIDTH,
        h.y < HEIGHT,
        i32::MIN < h.cc.x < i32::MAX,
        i32::MIN < h.cc.z < i32::MAX,
{
    assert(0 <= spec_local_of(h.cell.x as int) < 16);
    assert(0 <= spec_local_of(h.cell.z as int) < 16);
    assert(-0x8000_0000 < (h.cell.x as int) / 16 < 0x8000_0000) by {
        assert(-0x4100_0000 <= h.cell.x as int <= 0x4100_0000);
    }
    assert(-0x8000_0000 < (h.cell.z as int) / 16 < 0x8000_0000) by {
        assert(-0x4100_0000 <= h.cell.z as int <= 0x4100_0000);
    }
}

} // verus!
