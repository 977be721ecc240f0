//! Swept collision resolution: a moving hitbox against the voxel grid.
//!
//! For each hitbox vertex, up to three relaxation passes. A pass maps the
//! vertex at the proposed position to its voxel cell; if that cell holds a
//! solid voxel, the slab intersection from the proposed position toward
//! the vertex offset names the face the vertex crossed — its entry point
//! lies exactly on a grid plane — and the position is pushed back along
//! that axis so the vertex lands exactly on the crossed face. A pass that
//! finds no axis exactly on a plane is a broken geometric precondition,
//! reported as a defect, never recovered from. A cell outside the world's
//! height range or in a chunk that is not resident collides with nothing.
//!
//! This is a discrete per-tick approximation: a displacement large
//! relative to the voxel size can tunnel through a thin obstacle.

use crate::addressing::world_to_chunk;
use crate::editor::spec_vertex_cell;
use crate::geometry::{
    cell_slab, fx_floor, fxvec_in_range, on_plane, spec_cell_lo, spec_on_plane, spec_parallel_ok,
    CellPos, FxVec, Ratio,
};
use crate::raycast::spec_solid_resident;
use crate::storage::Storage;
use crate::voxel::Block;
use vstd::prelude::*;

verus! {

/// Relaxation passes each vertex gets.
pub const RELAX_PASSES: usize = 3;

/// Largest hitbox the resolver accepts.
pub const MAX_HITBOX_LEN: usize = 4096;

/// A broken geometric precondition: a pass found a solid cell but no axis
/// whose entry point lies exactly on one of its planes.
#[derive(Clone, Copy, PartialEq, Eq, Structural, Debug)]
pub struct CollisionDefect {}

/// Whether a cell collides: it lies in the world's height range and holds
/// a solid voxel of a resident chunk.
pub open spec fn spec_cell_collides(s: Storage, cell: CellPos) -> bool {
    &&& 0 <= cell.y < 216
    &&& spec_solid_resident(&s, cell)
}

/// The first cell plane the entry point at parameter `t` lies exactly on,
/// probing x, then y, then z, near plane before far plane on each axis:
/// the axis index and the plane's fixed-point coordinate.
pub open spec fn spec_crossed_face(cell: CellPos, o: FxVec, d: FxVec, t: (int, int)) -> Option<
    (int, int),
> {
    if spec_on_plane(o.x as int, d.x as int, t, cell.x as int * 1024) {
        Some((0int, cell.x as int * 1024))
    } else if spec_on_plane(o.x as int, d.x as int, t, (cell.x as int + 1) * 1024) {
        Some((0int, (cell.x as int + 1) * 1024))
    } else if spec_on_plane(o.y as int, d.y as int, t, cell.y as int * 1024) {
        Some((1int, cell.y as int * 1024))
    } else if spec_on_plane(o.y as int, d.y as int, t, (cell.y as int + 1) * 1024) {
        Some((1int, (cell.y as int + 1) * 1024))
    } else if spec_on_plane(o.z as int, d.z as int, t, cell.z as int * 1024) {
        Some((2int, cell.z as int * 1024))
    } else if spec_on_plane(o.z as int, d.z as int, t, (cell.z as int + 1) * 1024) {
        Some((2int, (cell.z as int + 1) * 1024))
    } else {
        None
    }
}

/// The position pushed back along one axis so the vertex at `offset` lands
/// exactly on the plane at `plane_fx`.
pub open spec fn spec_push(pos: FxVec, offset: FxVec, axis: int, plane_fx: int) -> FxVec {
    if axis == 0 {
        FxVec { x: (plane_fx - offset.x) as i64, y: pos.y, z: pos.z }
    } else if axis == 1 {
        FxVec { x: pos.x, y: (plane_fx - offset.y) as i64, z: pos.z }
    } else {
        FxVec { x: pos.x, y: pos.y, z: (plane_fx - offset.z) as i64 }
    }
}

/// One relaxation pass of one vertex, as a function of the store, the
/// proposed position and the vertex offset: no collision leaves the
/// position alone, a collision pushes it back across the crossed face, and
/// a collision without a crossed face is the defect.
pub open spec fn spec_relax_once(s: Storage, pos: FxVec, offset: FxVec) -> Result<
    Option<FxVec>,
    CollisionDefect,
> {
    let cell = spec_vertex_cell(pos, offset);
    if !spec_cell_collides(s, cell) {
        Ok(None)
    } else if !spec_parallel_ok(cell, pos, offset) {
        Err(CollisionDefect {})
    } else {
        match spec_cell_lo(cell, pos, offset) {
            None => Err(CollisionDefect {}),
            Some(t) => match spec_crossed_face(cell, pos, offset, t) {
                None => Err(CollisionDefect {}),
                Some((axis, plane_fx)) => Ok(Some(spec_push(pos, offset, axis, plane_fx))),
            },
        }
    }
}

/// The position after running the remaining passes, vertex `i` pass `j`
/// onward: the whole resolution as a function of its inputs.
pub open spec fn spec_resolve_from(
    s: Storage,
    hitbox: Seq<FxVec>,
    pos: FxVec,
    i: int,
    j: int,
) -> Result<FxVec, CollisionDefect>
    decreases hitbox.len() - i, 3 - j,
{
    if i < 0 || j < 0 || i >= hitbox.len() {
        Ok(pos)
    } else if j >= 3 {
        spec_resolve_from(s, hitbox, pos, i + 1, 0)
    } else {
        match spec_relax_once(s, pos, hitbox[i]) {
            Err(e) => Err(e),
            Ok(None) => spec_resolve_from(s, hitbox, pos, i, j + 1),
            Ok(Some(p)) => spec_resolve_from(s, hitbox, p, i, j + 1),
        }
    }
}

/// One relaxation pass of one vertex: if the vertex's cell holds a solid
/// voxel, pushes the position back along the one axis whose entry point
/// lies exactly on a cell plane, so the vertex lands exactly on that face;
/// a solid cell without such an axis is the defect.
pub fn relax_vertex_once(s: &Storage, pos: FxVec, offset: FxVec) -> (r: Result<
    Option<FxVec>,
    CollisionDefect,
>)
    requires
        s.wf(),
        fxvec_in_range(pos),
        fxvec_in_range(offset),
    ensures
        r == spec_relax_once(*s, pos, offset),
        match r {
            Ok(Some(p)) => {
                let cell = spec_vertex_cell(pos, offset);
                &&& (p.x as int == pos.x as int && p.y as int == pos.y as int) || (p.y as int
                    == pos.y as int && p.z as int == pos.z as int) || (p.x as int == pos.x as int
                    && p.z as int == pos.z as int)
                &&& -1024 <= p.x as int - pos.x as int <= 1024
                &&& -1024 <= p.y as int - pos.y as int <= 1024
                &&& -1024 <= p.z as int - pos.z as int <= 1024
            },
            _ => true,
        },
{
    let vx = pos.x + offset.x;
    let vy = pos.y + offset.y;
    let vz = pos.z + offset.z;
    let cell = CellPos { x: fx_floor(vx), y: fx_floor(vy), z: fx_floor(vz) };
    proof {
        assert(cell == spec_vertex_cell(pos, offset));
        vstd::arithmetic::div_mod::lemma_fundamental_div_mod(vx as int, 1024);
        vstd::arithmetic::div_mod::lemma_fundamental_div_mod(vy as int, 1024);
        vstd::arithmetic::div_mod::lemma_fundamental_div_mod(vz as int, 1024);
    }

    if cell.y < 0 || cell.y >= 216 {
        return Ok(None);
    }
    let (cc, lx, lz) = world_to_chunk(cell.x, cell.z);
    let solid = match s.chunk(cc) {
        Some(c) => !Block::is_air(c.block_at(lx, lz, cell.y as usize)),
        None => false,
    };
    if !solid {
        return Ok(None);
    }

    if offset.x == 0 && offset.y == 0 && offset.z == 0 {
        return Err(CollisionDefect {});
    }
    let t = match cell_slab(cell, pos, offset) {
        None => {
            return Err(CollisionDefect {});
        },
        Some((lo, _hi)) => lo,
    };

    let pushed = push_on_crossed_face(cell, pos, offset, t);
    match pushed {
        Some(p) => Ok(Some(p)),
        None => Err(CollisionDefect {}),
    }
}

/// Finds the crossed face and pushes the position back along its axis.
fn push_on_crossed_face(cell: CellPos, pos: FxVec, offset: FxVec, t: Ratio) -> (r: Option<FxVec>)
    requires
        t.wf(),
        fxvec_in_range(pos),
        fxvec_in_range(offset),
        -0x41_0000_0000 <= cell.x as int <= 0x41_0000_0000,
        -0x41_0000_0000 <= cell.y as int <= 0x41_0000_0000,
        -0x41_0000_0000 <= cell.z as int <= 0x41_0000_0000,
        cell.x as int * 1024 <= pos.x as int + offset.x as int <= (cell.x as int + 1) * 1024,
        cell.y as int * 1024 <= pos.y as int + offset.y as int <= (cell.y as int + 1) * 1024,
        cell.z as int * 1024 <= pos.z as int + offset.z as int <= (cell.z as int + 1) * 1024,
    ensures
        match r {
            Some(p) => {
                &&& spec_crossed_face(cell, pos, offset, t.view_pair()) matches Some((
                    axis,
                    plane_fx,
                )) && p == spec_push(pos, offset, axis, plane_fx)
                &&& -1024 <= p.x as int - pos.x as int <= 1024
                &&& -1024 <= p.y as int - pos.y as int <= 1024
                &&& -1024 <= p.z as int - pos.z as int <= 1024
                &&& (p.x as int == pos.x as int && p.y as int == pos.y as int) || (p.y as int
                    == pos.y as int && p.z as int == pos.z as int) || (p.x as int == pos.x as int
                    && p.z as int == pos.z as int)
            },
            None => spec_crossed_face(cell, pos, offset, t.view_pair()) is None,
        },
{
    if on_plane(pos.x, offset.x, t, cell.x * 1024) {
        Some(FxVec { x: cell.x * 1024 - offset.x, y: pos.y, z: pos.z })
    } else if on_plane(pos.x, offset.x, t, (cell.x + 1) * 1024) {
        Some(FxVec { x: (cell.x + 1) * 1024 - offset.x, y: pos.y, z: pos.z })
    } else if on_plane(pos.y, offset.y, t, cell.y * 1024) {
        Some(FxVec { x: pos.x, y: cell.y * 1024 - offset.y, z: pos.z })
    } else if on_plane(pos.y, offset.y, t, (cell.y + 1) * 1024) {
        Some(FxVec { x: pos.x, y: (cell.y + 1) * 1024 - offset.y, z: pos.z })
    } else if on_plane(pos.z, offset.z, t, cell.z * 1024) {
        Some(FxVec { x: pos.x, y: pos.y, z: cell.z * 1024 - offset.z })
    } else if on_plane(pos.z, offset.z, t, (cell.z + 1) * 1024) {
        Some(FxVec { x: pos.x, y: pos.y, z: (cell.z + 1) * 1024 - offset.z })
    } else {
        None
    }
}

/// Resolves a proposed position against the voxel grid: each hitbox vertex
/// in order gets up to three relaxation passes, each pushing the position
/// back across the face its entry point lies exactly on. The result is the
/// unique outcome of that process; a pass that meets a solid cell with no
/// axis exactly on a plane surfaces the defect.
pub fn update_player_position(s: &Storage, hitbox: &Vec<FxVec>, new_position: FxVec) -> (r: Result<
    FxVec,
    CollisionDefect,
>)
    requires
        s.wf(),
        hitbox@.len() <= MAX_HITBOX_LEN,
        forall|i: int| 0 <= i < hitbox@.len() ==> fxvec_in_range(#[trigger] hitbox@[i]),
        -0x80_0000_0000 <= new_position.x as int <= 0x80_0000_0000,
        -0x80_0000_0000 <= new_position.y as int <= 0x80_0000_0000,
        -0x80_0000_0000 <= new_position.z as int <= 0x80_0000_0000,
    ensures
        r == spec_resolve_from(*s, hitbox@, new_position, 0, 0),
{
    let mut pos = new_position;
    let mut i: usize = 0;
    while i < hitbox.len()
        invariant
            s.wf(),
            hitbox@.len() <= MAX_HITBOX_LEN,
            forall|k: int| 0 <= k < hitbox@.len() ==> fxvec_in_range(#[trigger] hitbox@[k]),
            i <= hitbox@.len(),
            -0x80_0000_0000 - 3072 * i <= pos.x as int <= 0x80_0000_0000 + 3072 * i,
            -0x80_0000_0000 - 3072 * i <= pos.y as int <= 0x80_0000_0000 + 3072 * i,
            -0x80_0000_0000 - 3072 * i <= pos.z as int <= 0x80_0000_0000 + 3072 * i,
            spec_resolve_from(*s, hitbox@, pos, i as int, 0) == spec_resolve_from(
                *s,
                hitbox@,
                new_position,
                0,
                0,
            ),
        decreases hitbox@.len() - i,
    {
        let offset = hitbox[i];
        let mut j: usize = 0;
        while j < RELAX_PASSES
            invariant
                s.wf(),
                hitbox@.len() <= MAX_HITBOX_LEN,
                forall|k: int| 0 <= k < hitbox@.len() ==> fxvec_in_range(#[trigger] hitbox@[k]),
                i < hitbox@.len(),
                offset == hitbox@[i as int],
                j <= RELAX_PASSES,
                -0x80_0000_0000 - 3072 * i - 1024 * j <= pos.x as int <= 0x80_0000_0000 + 3072 * i
                    + 1024 * j,
                -0x80_0000_0000 - 3072 * i - 1024 * j <= pos.y as int <= 0x80_0000_0000 + 3072 * i
                    + 1024 * j,
                -0x80_0000_0000 - 3072 * i - 1024 * j <= pos.z as int <= 0x80_0000_0000 + 3072 * i
                    + 1024 * j,
                spec_resolve_from(*s, hitbox@, pos, i as int, j as int) == spec_resolve_from(
                    *s,
                    hitbox@,
                    new_position,
                    0,
                    0,
                ),
            decreases RELAX_PASSES - j,
        {
            match relax_vertex_once(s, pos, offset) {
                Err(e) => {
                    return Err(e);
                },
                Ok(None) => {},
                Ok(Some(p)) => {
                    pos = p;
                },
            }
            j = j + 1;
        }
        i = i + 1;
    }
    Ok(pos)
}

} // verus!
