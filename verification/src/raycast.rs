//! Nearest-hit search of a ray against the voxel grid.
//!
//! Candidate cells within a fixed Chebyshev radius of the ray origin's
//! cell are slab-tested; among the solid resident cells the ray hits, the
//! one whose entry parameter has the smallest magnitude — the smallest
//! distance from the origin — wins, earlier cells in scan order winning
//! ties. No solid cell within the radius is a no-op, not an error.

use crate::addressing::{spec_chunk_of, spec_local_of, world_to_chunk, ChunkCoord};
use crate::geometry::{
    cell_hit, cell_slab, fx_floor_vec, fxvec_in_range, rat_abs_le, spec_abs, spec_cell_hit,
    spec_cell_lo, spec_dir_nonzero, spec_rat_abs_le, CellPos, FxVec, Ratio,
};
use crate::storage::Storage;
use crate::voxel::{spec_is_air, Block};
use vstd::prelude::*;

verus! {

broadcast use vstd::seq_lib::group_seq_properties;

/// Largest search radius the nearest-hit scan accepts.
pub const MAX_RAY_RADIUS: usize = 64;

/// The chunk coordinate a cell falls in.
pub open spec fn spec_cell_cc(cell: CellPos) -> ChunkCoord {
    ChunkCoord {
        x: spec_chunk_of(cell.x as int) as i32,
        z: spec_chunk_of(cell.z as int) as i32,
    }
}

/// Whether the cell's chunk is resident and the cell's voxel is solid.
pub open spec fn spec_solid_resident(s: &Storage, cell: CellPos) -> bool {
    let cc = spec_cell_cc(cell);
    &&& s.spec_has_chunk(cc)
    &&& !spec_is_air(
        s.spec_chunk(cc).spec_voxel(
            spec_local_of(cell.x as int),
            spec_local_of(cell.z as int),
            cell.y as int,
        ),
    )
}

/// Whether a cell lies in the search region: within the Chebyshev radius
/// of the center on x and z, within the radius on y clipped to the world's
/// height range.
pub open spec fn spec_in_search_region(cell: CellPos, center: CellPos, radius: int) -> bool {
    &&& center.x - radius <= cell.x <= center.x + radius
    &&& center.z - radius <= cell.z <= center.z + radius
    &&& center.y - radius <= cell.y <= center.y + radius
    &&& 0 <= cell.y < 216
}

/// Whether a cell is a hit candidate: the slab test passes and the cell is
/// solid in a resident chunk.
pub open spec fn spec_ray_candidate(s: &Storage, cell: CellPos, o: FxVec, d: FxVec) -> bool {
    &&& spec_cell_hit(cell, o, d)
    &&& spec_solid_resident(s, cell)
}

/// The nearest solid cell a ray hit, with its addressing and its exact
/// entry parameter.
#[derive(Clone, Copy, PartialEq, Eq, Structural, Debug)]
pub struct RayHit {
    /// The hit cell in world block units.
    pub cell: CellPos,
    /// The chunk the cell falls in.
    pub cc: ChunkCoord,
    /// Local x index within the chunk.
    pub x: usize,
    /// Local z index within the chunk.
    pub z: usize,
    /// Height of the cell.
    pub y: usize,
    /// The slab entry parameter of the hit.
    pub tmin: Ratio,
}

/// The canonical hit record of a candidate cell.
pub open spec fn spec_hit_of(cell: CellPos, o: FxVec, d: FxVec) -> RayHit {
    let l = match spec_cell_lo(cell, o, d) {
        Some(l) => l,
        None => (0int, 1int),
    };
    RayHit {
        cell,
        cc: spec_cell_cc(cell),
        x: spec_local_of(cell.x as int) as usize,
        z: spec_local_of(cell.z as int) as usize,
        y: cell.y as usize,
        tmin: Ratio { num: l.0 as i64, den: l.1 as i64 },
    }
}

/// Whether a hit record is the canonical record of a candidate cell in the
/// search region.
pub open spec fn spec_hit_wf(
    s: &Storage,
    h: RayHit,
    o: FxVec,
    d: FxVec,
    center: CellPos,
    radius: int,
) -> bool {
    &&& spec_in_search_region(h.cell, center, radius)
    &&& spec_ray_candidate(s, h.cell, o, d)
    &&& h == spec_hit_of(h.cell, o, d)
    &&& Some(h.tmin.view_pair()) == spec_cell_lo(h.cell, o, d)
    &&& h.tmin.wf()
    &&& h.tmin.num > i64::MIN
}

/// The magnitude order of two candidates' entry parameters, as the
/// nearest-hit scan ranks them.
pub open spec fn spec_not_farther(a: RayHit, cell: CellPos, o: FxVec, d: FxVec) -> bool {
    match spec_cell_lo(cell, o, d) {
        Some(l) => spec_rat_abs_le(a.tmin.view_pair(), l),
        None => true,
    }
}

/// Finds the nearest solid resident cell the ray hits within the radius:
/// its slab entry parameter has the smallest magnitude among all candidate
/// cells of the search region, and `None` means the region holds no
/// candidate at all.
pub fn find_nearest_block_in_ray(s: &Storage, origin: FxVec, dir: FxVec, radius: usize) -> (r:
    Option<RayHit>)
    requires
        s.wf(),
        fxvec_in_range(origin),
        fxvec_in_range(dir),
        spec_dir_nonzero(dir),
        1 <= radius <= MAX_RAY_RADIUS,
    ensures
        ({
            let center = fx_floor_center(origin);
            match r {
                None => forall|cell: CellPos|
                    spec_in_search_region(cell, center, radius as int) ==> !spec_ray_candidate(
                        s,
                        cell,
                        origin,
                        dir,
                    ),
                Some(h) => {
                    &&& spec_hit_wf(s, h, origin, dir, center, radius as int)
                    &&& forall|cell: CellPos|
                        spec_in_search_region(cell, center, radius as int) && spec_ray_candidate(
                            s,
                            cell,
                            origin,
                            dir,
                        ) ==> spec_not_farther(h, cell, origin, dir)
                },
            }
        }),
{
    let center = fx_floor_vec(origin);
    let rad = radius as i64;
    let ghost radi = radius as int;
    let mut cands: Vec<RayHit> = Vec::new();

    let ylo: i64 = if center.y - rad > 0 {
        center.y - rad
    } else {
        0
    };
    let yhi: i64 = if center.y + rad < 215 {
        center.y + rad
    } else {
        215
    };
    let xlo: i64 = center.x - rad;
    let xhi: i64 = center.x + rad;
    let zlo: i64 = center.z - rad;
    let zhi: i64 = center.z + rad;

    let mut y: i64 = ylo;
    while y <= yhi
        invariant
            s.wf(),
            fxvec_in_range(origin),
            fxvec_in_range(dir),
            spec_dir_nonzero(dir),
            1 <= radius <= MAX_RAY_RADIUS,
            center == fx_floor_center(origin),
            radi == radius as int,
            rad == radius as i64,
            ylo as int == if center.y as int - radi > 0 { center.y as int - radi } else { 0int },
            yhi as int == if center.y as int + radi < 215 { center.y as int + radi } else { 215int },
            0 <= ylo,
            yhi <= 215,
            xlo == center.x - rad && xhi == center.x + rad,
            zlo == center.z - rad && zhi == center.z + rad,
            ylo <= y,
            y <= yhi + 1 || y == ylo,
            forall|i: int|
                0 <= i < cands@.len() ==> spec_hit_wf(s, #[trigger] cands@[i], origin, dir, center, radi),
            forall|cell: CellPos|
                spec_in_search_region(cell, center, radi) && cell.y < y && spec_ray_candidate(
                    s,
                    cell,
                    origin,
                    dir,
                ) ==> cands@.contains(#[trigger] spec_hit_of(cell, origin, dir)),
        decreases yhi + 1 - y,
    {
        let mut x: i64 = xlo;
        while x <= xhi
            invariant
                s.wf(),
                fxvec_in_range(origin),
                fxvec_in_range(dir),
                spec_dir_nonzero(dir),
                1 <= radius <= MAX_RAY_RADIUS,
                center == fx_floor_center(origin),
                radi == radius as int,
                rad == radius as i64,
                ylo as int == if center.y as int - radi > 0 { center.y as int - radi } else { 0int },
                yhi as int == if center.y as int + radi < 215 { center.y as int + radi } else { 215int },
                0 <= ylo,
                yhi <= 215,
                xlo == center.x - rad && xhi == center.x + rad,
                zlo == center.z - rad && zhi == center.z + rad,
                ylo <= y <= yhi,
                xlo <= x,
                x <= xhi + 1,
                forall|i: int|
                    0 <= i < cands@.len() ==> spec_hit_wf(s, #[trigger] cands@[i], origin, dir, center, radi),
                forall|cell: CellPos|
                    spec_in_search_region(cell, center, radi) && cell.y < y && spec_ray_candidate(
                        s,
                        cell,
                        origin,
                        dir,
                    ) ==> cands@.contains(#[trigger] spec_hit_of(cell, origin, dir)),
                forall|cell: CellPos|
                    spec_in_search_region(cell, center, radi) && cell.y == y && cell.x < x
                        && spec_ray_candidate(s, cell, origin, dir) ==> cands@.contains(
                        #[trigger] spec_hit_of(cell, origin, dir),
                    ),
            decreases xhi + 1 - x,
        {
            let mut z: i64 = zlo;
            while z <= zhi
                invariant
                    s.wf(),
                    fxvec_in_range(origin),
                    fxvec_in_range(dir),
                    spec_dir_nonzero(dir),
                    1 <= radius <= MAX_RAY_RADIUS,
                    center == fx_floor_center(origin),
                    radi == radius as int,
                    rad == radius as i64,
                    ylo as int == if center.y as int - radi > 0 { center.y as int - radi } else { 0int },
                    yhi as int == if center.y as int + radi < 215 { center.y as int + radi } else { 215int },
                    0 <= ylo,
                    yhi <= 215,
                    xlo == center.x - rad && xhi == center.x + rad,
                    zlo == center.z - rad && zhi == center.z + rad,
                    ylo <= y <= yhi,
                    xlo <= x <= xhi,
                    zlo <= z,
                    z <= zhi + 1,
                    forall|i: int|
                        0 <= i < cands@.len() ==> spec_hit_wf(s, #[trigger] cands@[i], origin, dir, center, radi),
                    forall|cell: CellPos|
                        spec_in_search_region(cell, center, radi) && cell.y < y
                            && spec_ray_candidate(s, cell, origin, dir) ==> cands@.contains(
                            #[trigger] spec_hit_of(cell, origin, dir),
                        ),
                    forall|cell: CellPos|
                        spec_in_search_region(cell, center, radi) && cell.y == y && cell.x < x
                            && spec_ray_candidate(s, cell, origin, dir) ==> cands@.contains(
                            #[trigger] spec_hit_of(cell, origin, dir),
                        ),
                    forall|cell: CellPos|
                        spec_in_search_region(cell, center, radi) && cell.y == y && cell.x == x
                            && cell.z < z && spec_ray_candidate(s, cell, origin, dir)
                            ==> cands@.contains(#[trigger] spec_hit_of(cell, origin, dir)),
                decreases zhi + 1 - z,
            {
                let cell = CellPos { x, y, z };
                if cell_hit(cell, origin, dir) {
                    let (cc, lx, lz) = world_to_chunk(cell.x, cell.z);
                    match s.chunk(cc) {
                        Some(ch) => {
                            let v = ch.block_at(lx, lz, y as usize);
                            if !Block::is_air(v) {
                                let slab = cell_slab(cell, origin, dir);
                                match slab {
                                    Some((lo, _hi)) => {
                                        let h = RayHit { cell, cc, x: lx, z: lz, y: y as usize, tmin: lo };
                                        assert(h == spec_hit_of(cell, origin, dir));
                                        cands.push(h);
                                    },
                                    None => {
                                        proof {
                                            assert(false);
                                        }
                                    },
                                }
                            }
                        },
                        None => {},
                    }
                }
                z = z + 1;
            }
            x = x + 1;
        }
        y = y + 1;
    }

    proof {
        assert forall|cell: CellPos|
            spec_in_search_region(cell, center, radi) && spec_ray_candidate(
                s,
                cell,
                origin,
                dir,
            ) implies cands@.contains(spec_hit_of(cell, origin, dir)) by {
            assert(cell.y < y);
        }
    }

    if cands.len() == 0 {
        return None;
    }
    let mut best: RayHit = cands[0];
    let mut i: usize = 1;
    while i < cands.len()
        invariant
            s.wf(),
            1 <= i <= cands@.len(),
            cands@.len() > 0,
            forall|j: int|
                0 <= j < cands@.len() ==> spec_hit_wf(s, #[trigger] cands@[j], origin, dir, center, radi),
            spec_hit_wf(s, best, origin, dir, center, radi),
            forall|j: int|
                0 <= j < i ==> spec_rat_abs_le(
                    best.tmin.view_pair(),
                    (#[trigger] cands@[j]).tmin.view_pair(),
                ),
        decreases cands@.len() - i,
    {
        let c = cands[i];
        if !rat_abs_le(best.tmin, c.tmin) {
            let ghost prev = best;
            best = c;
            proof {
                lemma_rat_abs_le_total(prev.tmin.view_pair(), c.tmin.view_pair());
                assert forall|j: int| 0 <= j < i + 1 implies spec_rat_abs_le(
                    best.tmin.view_pair(),
                    (#[trigger] cands@[j]).tmin.view_pair(),
                ) by {
                    if j < i {
                        lemma_rat_abs_le_trans(
                            c.tmin.view_pair(),
                            prev.tmin.view_pair(),
                            cands@[j].tmin.view_pair(),
                        );
                    }
                }
            }
        }
        i = i + 1;
    }
    proof {
        assert forall|cell: CellPos|
            spec_in_search_region(cell, center, radi) && spec_ray_candidate(
                s,
                cell,
                origin,
                dir,
            ) implies spec_not_farther(best, cell, origin, dir) by {
            assert(cands@.contains(spec_hit_of(cell, origin, dir)));
            let j = choose|j: int|
                0 <= j < cands@.len() && cands@[j] == spec_hit_of(cell, origin, dir);
            assert(spec_rat_abs_le(best.tmin.view_pair(), cands@[j].tmin.view_pair()));
        }
    }
    Some(best)
}

/// The cell of the ray origin, each component floored to block units.
pub open spec fn fx_floor_center(origin: FxVec) -> CellPos {
    CellPos {
        x: ((origin.x as int) / 1024) as i64,
        y: ((origin.y as int) / 1024) as i64,
        z: ((origin.z as int) / 1024) as i64,
    }
}

/// Magnitude order of ray parameters is transitive.
pub proof fn lemma_rat_abs_le_trans(a: (int, int), b: (int, int), c: (int, int))
    requires
        a.1 > 0,
        b.1 > 0,
        c.1 > 0,
        spec_rat_abs_le(a, b),
        spec_rat_abs_le(b, c),
    ensures
        spec_rat_abs_le(a, c),
{
    assert(spec_abs(a.0) * c.1 <= spec_abs(c.0) * a.1) by (nonlinear_arith)
        requires
            a.1 > 0,
            b.1 > 0,
            c.1 > 0,
            spec_abs(a.0) * b.1 <= spec_abs(b.0) * a.1,
            spec_abs(b.0) * c.1 <= spec_abs(c.0) * b.1,
            spec_abs(a.0) >= 0,
            spec_abs(b.0) >= 0,
            spec_abs(c.0) >= 0,
    ;
}

/// Magnitude comparison of rationals with positive denominators is total:
/// two parameters are always ordered one way or the other.
pub proof fn lemma_rat_abs_le_total(a: (int, int), b: (int, int))
    requires
        a.1 > 0,
        b.1 > 0,
    ensures
        spec_rat_abs_le(a, b) || spec_rat_abs_le(b, a),
{
    if !spec_rat_abs_le(a, b) {
        assert(spec_abs(a.0) * b.1 > spec_abs(b.0) * a.1);
        assert(spec_rat_abs_le(b, a));
    }
}

} // verus!
