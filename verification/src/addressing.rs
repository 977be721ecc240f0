//! Coordinate transforms between world block positions and (chunk
//! coordinate, local voxel index), exact for negative coordinates.
//!
//! A chunk covers `WIDTH` cells along x and z; the transform is floor
//! division (not truncation), so a negative world coordinate maps to the
//! mathematically correct chunk and a local index in `[0, WIDTH)`.

use vstd::prelude::*;

verus! {

/// Cells per chunk along the x and z axes.
pub const WIDTH: usize = 16;

/// Cells per chunk along the y axis: the fixed world height.
pub const HEIGHT: usize = 216;

/// `WIDTH` as a signed world coordinate.
pub const WIDTH_I64: i64 = 16;

/// Bound on world block coordinates the transforms accept: exactly the
/// range whose chunk coordinates fill `i32`.
pub const WORLD_COORD_LIMIT: i64 = 0x8_0000_0000;

/// An integer (x, z) pair identifying a chunk in chunk-grid space.
#[derive(Clone, Copy, PartialEq, Eq, Structural, Debug)]
pub struct ChunkCoord {
    pub x: i32,
    pub z: i32,
}

/// The chunk a world coordinate falls in: floor division by `WIDTH`.
pub open spec fn spec_chunk_of(w: int) -> int {
    w / 16
}

/// The local index of a world coordinate within its chunk.
pub open spec fn spec_local_of(w: int) -> int {
    w % 16
}

/// The world coordinate of a local index within a chunk.
pub open spec fn spec_world_of(c: int, l: int) -> int {
    c * 16 + l
}

/// Whether a world block coordinate is within the accepted range.
pub open spec fn world_coord_in_range(w: int) -> bool {
    -WORLD_COORD_LIMIT <= w < WORLD_COORD_LIMIT
}

/// Splits one world axis coordinate into its chunk coordinate and local
/// index, flooring so negative inputs land in the correct chunk.
pub fn world_to_chunk_axis(w: i64) -> (r: (i64, usize))
    requires
        world_coord_in_range(w as int),
    ensures
        r.0 == spec_chunk_of(w as int),
        r.1 == spec_local_of(w as int),
        r.1 < WIDTH,
        spec_world_of(r.0 as int, r.1 as int) == w as int,
{
    let c = w.checked_div_euclid(WIDTH_I64).unwrap();
    let l = w.checked_rem_euclid(WIDTH_I64).unwrap();
    (c, l as usize)
}

/// Splits a world (x, z) block position into the chunk coordinate and the
/// local (x, z) voxel index, exact for negative coordinates.
pub fn world_to_chunk(wx: i64, wz: i64) -> (r: (ChunkCoord, usize, usize))
    requires
        world_coord_in_range(wx as int),
        world_coord_in_range(wz as int),
    ensures
        r.0.x == spec_chunk_of(wx as int),
        r.0.z == spec_chunk_of(wz as int),
        r.1 == spec_local_of(wx as int),
        r.2 == spec_local_of(wz as int),
        r.1 < WIDTH,
        r.2 < WIDTH,
        spec_world_of(r.0.x as int, r.1 as int) == wx as int,
        spec_world_of(r.0.z as int, r.2 as int) == wz as int,
{
    let (cx, lx) = world_to_chunk_axis(wx);
    let (cz, lz) = world_to_chunk_axis(wz);
    (ChunkCoord { x: cx as i32, z: cz as i32 }, lx, lz)
}

/// Rebuilds the world axis coordinate of a local index within a chunk:
/// the inverse of `world_to_chunk_axis`.
pub fn local_to_world_axis(c: i64, l: usize) -> (w: i64)
    requires
        i32::MIN <= c <= i32::MAX,
        l < WIDTH,
    ensures
        w as int == spec_world_of(c as int, l as int),
        world_coord_in_range(w as int),
{
    c * WIDTH_I64 + l as i64
}

/// Rebuilds the world (x, z) block position of a local voxel index within
/// a chunk: the inverse of `world_to_chunk`.
pub fn local_to_world(cc: ChunkCoord, lx: usize, lz: usize) -> (r: (i64, i64))
    requires
        lx < WIDTH,
        lz < WIDTH,
    ensures
        r.0 as int == spec_world_of(cc.x as int, lx as int),
        r.1 as int == spec_world_of(cc.z as int, lz as int),
        world_coord_in_range(r.0 as int),
        world_coord_in_range(r.1 as int),
{
    let wx = local_to_world_axis(cc.x as i64, lx);
    let wz = local_to_world_axis(cc.z as i64, lz);
    (wx, wz)
}

/// Splits a fixed-point world position into its chunk coordinate and
/// local index: the position is divided by the blocksize and floored to
/// its block — floor division on both steps, so negative positions land
/// in the mathematically correct cell — then split as a block coordinate.
pub fn world_pos_to_chunk_axis(p: i64, blocksize: i64) -> (r: (i64, usize))
    requires
        blocksize > 0,
        p > i64::MIN,
        world_coord_in_range(p as int / blocksize as int),
    ensures
        r.0 == spec_chunk_of(p as int / blocksize as int),
        r.1 == spec_local_of(p as int / blocksize as int),
        r.1 < WIDTH,
{
    let w = p.checked_div_euclid(blocksize).unwrap();
    world_to_chunk_axis(w)
}

/// Folds a truncating remainder of a world coordinate by `WIDTH` (which
/// lies between `-WIDTH` and `WIDTH`) into the floored local index in
/// `[0, WIDTH)`.
pub fn shift_negative_block_coord(coord: isize) -> (r: usize)
    requires
        -16 <= coord < 16,
    ensures
        r as int == (coord as int) % 16,
        r < WIDTH,
{
    if coord < 0 {
        (coord + 16) as usize
    } else {
        coord as usize
    }
}

/// Splitting a world coordinate into chunk and local index and mapping
/// back returns the original coordinate, and the converse: mapping a
/// (chunk, local) pair to the world and splitting it again returns the
/// pair — for positive and negative coordinates alike.
pub proof fn lemma_addressing_inverse(w: int, c: int, l: int)
    requires
        0 <= l < 16,
    ensures
        spec_world_of(spec_chunk_of(w), spec_local_of(w)) == w,
        spec_chunk_of(spec_world_of(c, l)) == c,
        spec_local_of(spec_world_of(c, l)) == l,
{
    assert(spec_world_of(spec_chunk_of(w), spec_local_of(w)) == w) by {
        vstd::arithmetic::div_mod::lemma_fundamental_div_mod(w, 16);
    }
    assert(spec_chunk_of(c * 16 + l) == c && spec_local_of(c * 16 + l) == l) by {
        vstd::arithmetic::div_mod::lemma_fundamental_div_mod_converse(c * 16 + l, 16, c, l);
    }
}

} // verus!
