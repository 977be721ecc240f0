//! Exact geometry for ray-voxel work: fixed-point world positions and
//! rational ray parameters.
//!
//! A world position is an integer count of 1/1024 block units, so flooring
//! to a cell is exact. The slab method's entry and exit parameters are
//! ratios of such integers, compared by cross-multiplication in 128-bit
//! arithmetic — no rounding anywhere, so a face test that asks for a
//! fractional offset of exactly zero or one is decidable.

use vstd::prelude::*;

verus! {

/// Fixed-point units per block: world positions count 1/1024 blocks.
pub const FX_ONE: i64 = 1024;

/// Bound on the fixed-point coordinates and direction components the
/// geometry accepts; keeps every product within 128 bits and every
/// intermediate within 64.
pub const FX_LIMIT: i64 = 0x100_0000_0000;

/// Bound on the block-unit cell coordinates the slab accepts.
pub const CELL_LIMIT: i64 = 0x20_0000_0000;

/// A world-space position or direction in fixed-point block units.
#[derive(Clone, Copy, PartialEq, Eq, Structural, Debug)]
pub struct FxVec {
    pub x: i64,
    pub y: i64,
    pub z: i64,
}

/// A cell of the voxel grid, in whole block units.
#[derive(Clone, Copy, PartialEq, Eq, Structural, Debug)]
pub struct CellPos {
    pub x: i64,
    pub y: i64,
    pub z: i64,
}

/// A ray parameter: the exact ratio `num / den` with positive denominator.
#[derive(Clone, Copy, PartialEq, Eq, Structural, Debug)]
pub struct Ratio {
    pub num: i64,
    pub den: i64,
}

impl Ratio {
    /// The mathematical value as a numerator-denominator pair.
    pub open spec fn view_pair(&self) -> (int, int) {
        (self.num as int, self.den as int)
    }

    /// A valid ratio has a positive denominator.
    pub open spec fn wf(&self) -> bool {
        self.den > 0
    }
}

/// Whether a fixed-point scalar is within the accepted range.
pub open spec fn fx_in_range(v: int) -> bool {
    -FX_LIMIT <= v <= FX_LIMIT
}

/// Whether all components of a fixed-point vector are in range.
pub open spec fn fxvec_in_range(v: FxVec) -> bool {
    fx_in_range(v.x as int) && fx_in_range(v.y as int) && fx_in_range(v.z as int)
}

/// Whether a cell coordinate is within the accepted range.
pub open spec fn cell_in_range(c: int) -> bool {
    -CELL_LIMIT <= c <= CELL_LIMIT
}

/// Whether all coordinates of a cell are in range.
pub open spec fn cellpos_in_range(c: CellPos) -> bool {
    cell_in_range(c.x as int) && cell_in_range(c.y as int) && cell_in_range(c.z as int)
}

/// Whether a direction has at least one nonzero component.
pub open spec fn spec_dir_nonzero(d: FxVec) -> bool {
    d.x != 0 || d.y != 0 || d.z != 0
}

/// `a <= b` on ratios with positive denominators.
pub open spec fn spec_rat_le(a: (int, int), b: (int, int)) -> bool {
    a.0 * b.1 <= b.0 * a.1
}

/// The larger of two ratios; on equal values the right one.
pub open spec fn spec_rat_max(a: (int, int), b: (int, int)) -> (int, int) {
    if spec_rat_le(a, b) {
        b
    } else {
        a
    }
}

/// The smaller of two ratios; on equal values the right one.
pub open spec fn spec_rat_min(a: (int, int), b: (int, int)) -> (int, int) {
    if spec_rat_le(b, a) {
        b
    } else {
        a
    }
}

/// Magnitude of an integer.
pub open spec fn spec_abs(v: int) -> int {
    if v < 0 {
        -v
    } else {
        v
    }
}

/// `|a| <= |b|` on ratios with positive denominators: distance-from-origin
/// order of ray parameters.
pub open spec fn spec_rat_abs_le(a: (int, int), b: (int, int)) -> bool {
    spec_abs(a.0) * b.1 <= spec_abs(b.0) * a.1
}

/// Widens two 64-bit factors and multiplies them exactly: the product of
/// two 64-bit values always fits in 128 bits.
fn mul_wide(a: i64, b: i64) -> (r: i128)
    ensures
        r == a as int * b as int,
{
    proof {
        assert(i128::MIN <= a as int * b as int <= i128::MAX) by (nonlinear_arith)
            requires
                -0x8000_0000_0000_0000 <= a as int <= 0x7FFF_FFFF_FFFF_FFFF,
                -0x8000_0000_0000_0000 <= b as int <= 0x7FFF_FFFF_FFFF_FFFF,
        ;
    }
    (a as i128) * (b as i128)
}

/// Compares two ratios with positive denominators.
pub fn rat_le(a: Ratio, b: Ratio) -> (r: bool)
    requires
        a.wf(),
        b.wf(),
    ensures
        r == spec_rat_le(a.view_pair(), b.view_pair()),
{
    mul_wide(a.num, b.den) <= mul_wide(b.num, a.den)
}

/// Compares two ratios with positive denominators by magnitude.
pub fn rat_abs_le(a: Ratio, b: Ratio) -> (r: bool)
    requires
        a.wf(),
        b.wf(),
        a.num > i64::MIN,
        b.num > i64::MIN,
    ensures
        r == spec_rat_abs_le(a.view_pair(), b.view_pair()),
{
    let an = if a.num < 0 {
        -a.num
    } else {
        a.num
    };
    let bn = if b.num < 0 {
        -b.num
    } else {
        b.num
    };
    mul_wide(an, b.den) <= mul_wide(bn, a.den)
}

/// Floors a fixed-point scalar to its block-unit cell coordinate.
pub fn fx_floor(v: i64) -> (r: i64)
    requires
        -0x200_0000_0000 <= v <= 0x200_0000_0000,
    ensures
        r as int == (v as int) / 1024,
        cell_in_range(r as int),
{
    v.checked_div_euclid(FX_ONE).unwrap()
}

/// Floors each component of a fixed-point position to its cell.
pub fn fx_floor_vec(v: FxVec) -> (r: CellPos)
    requires
        fxvec_in_range(v),
    ensures
        r.x as int == (v.x as int) / 1024,
        r.y as int == (v.y as int) / 1024,
        r.z as int == (v.z as int) / 1024,
        cellpos_in_range(r),
{
    CellPos { x: fx_floor(v.x), y: fx_floor(v.y), z: fx_floor(v.z) }
}

/// Entry parameter of one axis slab `[c, c+1)` for origin component `o`
/// and nonzero direction component `d`.
pub open spec fn spec_axis_lo(c: int, o: int, d: int) -> (int, int) {
    if d > 0 {
        (c * 1024 - o, d)
    } else {
        (o - (c + 1) * 1024, -d)
    }
}

/// Exit parameter of one axis slab for a nonzero direction component.
pub open spec fn spec_axis_hi(c: int, o: int, d: int) -> (int, int) {
    if d > 0 {
        ((c + 1) * 1024 - o, d)
    } else {
        (o - c * 1024, -d)
    }
}

/// Whether the origin component lies within an axis slab — the hit test of
/// an axis the ray runs parallel to.
pub open spec fn spec_axis_contains(c: int, o: int) -> bool {
    c * 1024 <= o <= (c + 1) * 1024
}

/// Folds one axis into the running entry parameter: a parallel axis
/// contributes nothing, any other raises the maximum.
pub open spec fn spec_merge_lo(acc: Option<(int, int)>, c: int, o: int, d: int) -> Option<
    (int, int),
> {
    if d == 0 {
        acc
    } else {
        match acc {
            None => Some(spec_axis_lo(c, o, d)),
            Some(p) => Some(spec_rat_max(p, spec_axis_lo(c, o, d))),
        }
    }
}

/// Folds one axis into the running exit parameter.
pub open spec fn spec_merge_hi(acc: Option<(int, int)>, c: int, o: int, d: int) -> Option<
    (int, int),
> {
    if d == 0 {
        acc
    } else {
        match acc {
            None => Some(spec_axis_hi(c, o, d)),
            Some(p) => Some(spec_rat_min(p, spec_axis_hi(c, o, d))),
        }
    }
}

/// The slab entry parameter of a cell: the maximum of the per-axis entry
/// parameters over the axes the ray is not parallel to; `None` for the
/// zero direction.
pub open spec fn spec_cell_lo(cell: CellPos, o: FxVec, d: FxVec) -> Option<(int, int)> {
    spec_merge_lo(
        spec_merge_lo(
            spec_merge_lo(None, cell.x as int, o.x as int, d.x as int),
            cell.y as int,
            o.y as int,
            d.y as int,
        ),
        cell.z as int,
        o.z as int,
        d.z as int,
    )
}

/// The slab exit parameter of a cell: the minimum of the per-axis exit
/// parameters over the axes the ray is not parallel to.
pub open spec fn spec_cell_hi(cell: CellPos, o: FxVec, d: FxVec) -> Option<(int, int)> {
    spec_merge_hi(
        spec_merge_hi(
            spec_merge_hi(None, cell.x as int, o.x as int, d.x as int),
            cell.y as int,
            o.y as int,
            d.y as int,
        ),
        cell.z as int,
        o.z as int,
        d.z as int,
    )
}

/// Whether every axis the ray runs parallel to contains the origin — the
/// degenerate part of the slab test.
pub open spec fn spec_parallel_ok(cell: CellPos, o: FxVec, d: FxVec) -> bool {
    &&& (d.x != 0 || spec_axis_contains(cell.x as int, o.x as int))
    &&& (d.y != 0 || spec_axis_contains(cell.y as int, o.y as int))
    &&& (d.z != 0 || spec_axis_contains(cell.z as int, o.z as int))
}

/// The slab hit test of a cell: the entry parameter does not exceed the
/// exit parameter, the exit parameter is nonnegative, and every parallel
/// axis contains the origin.
pub open spec fn spec_cell_hit(cell: CellPos, o: FxVec, d: FxVec) -> bool {
    &&& spec_parallel_ok(cell, o, d)
    &&& match (spec_cell_lo(cell, o, d), spec_cell_hi(cell, o, d)) {
        (Some(lo), Some(hi)) => spec_rat_le(lo, hi) && hi.0 >= 0,
        _ => false,
    }
}

/// The entry and exit parameters of one axis slab.
fn axis_slab(c: i64, o: i64, d: i64) -> (r: (Ratio, Ratio))
    requires
        d != 0,
        cell_in_range(c as int),
        fx_in_range(o as int),
        fx_in_range(d as int),
    ensures
        r.0.view_pair() == spec_axis_lo(c as int, o as int, d as int),
        r.1.view_pair() == spec_axis_hi(c as int, o as int, d as int),
        r.0.wf(),
        r.1.wf(),
{
    if d > 0 {
        (Ratio { num: c * FX_ONE - o, den: d }, Ratio { num: (c + 1) * FX_ONE - o, den: d })
    } else {
        (Ratio { num: o - (c + 1) * FX_ONE, den: -d }, Ratio { num: o - c * FX_ONE, den: -d })
    }
}

/// The slab parameters of a cell: `Some((lo, hi))` when every parallel
/// axis contains the origin and some axis constrains the ray, else `None`
/// (no hit is possible).
pub fn cell_slab(cell: CellPos, o: FxVec, d: FxVec) -> (r: Option<(Ratio, Ratio)>)
    requires
        cellpos_in_range(cell),
        fxvec_in_range(o),
        fxvec_in_range(d),
        spec_dir_nonzero(d),
    ensures
        match r {
            Some((lo, hi)) => {
                &&& spec_parallel_ok(cell, o, d)
                &&& Some(lo.view_pair()) == spec_cell_lo(cell, o, d)
                &&& Some(hi.view_pair()) == spec_cell_hi(cell, o, d)
                &&& lo.wf()
                &&& hi.wf()
            },
            None => !spec_parallel_ok(cell, o, d),
        },
{
    let mut lo: Option<Ratio> = None;
    let mut hi: Option<Ratio> = None;
    if d.x != 0 {
        let (l, h) = axis_slab(cell.x, o.x, d.x);
        lo = Some(l);
        hi = Some(h);
    } else if !(cell.x * FX_ONE <= o.x && o.x <= (cell.x + 1) * FX_ONE) {
        return None;
    }
    if d.y != 0 {
        let (l, h) = axis_slab(cell.y, o.y, d.y);
        lo = match lo {
            None => Some(l),
            Some(p) => if rat_le(p, l) {
                Some(l)
            } else {
                Some(p)
            },
        };
        hi = match hi {
            None => Some(h),
            Some(p) => if rat_le(h, p) {
                Some(h)
            } else {
                Some(p)
            },
        };
    } else if !(cell.y * FX_ONE <= o.y && o.y <= (cell.y + 1) * FX_ONE) {
        return None;
    }
    if d.z != 0 {
        let (l, h) = axis_slab(cell.z, o.z, d.z);
        lo = match lo {
            None => Some(l),
            Some(p) => if rat_le(p, l) {
                Some(l)
            } else {
                Some(p)
            },
        };
        hi = match hi {
            None => Some(h),
            Some(p) => if rat_le(h, p) {
                Some(h)
            } else {
                Some(p)
            },
        };
    } else if !(cell.z * FX_ONE <= o.z && o.z <= (cell.z + 1) * FX_ONE) {
        return None;
    }
    match (lo, hi) {
        (Some(l), Some(h)) => Some((l, h)),
        _ => None,
    }
}

/// The slab hit test of a cell: entry at or before exit, exit not behind
/// the origin, parallel axes containing the origin.
pub fn cell_hit(cell: CellPos, o: FxVec, d: FxVec) -> (r: bool)
    requires
        cellpos_in_range(cell),
        fxvec_in_range(o),
        fxvec_in_range(d),
        spec_dir_nonzero(d),
    ensures
        r == spec_cell_hit(cell, o, d),
{
    match cell_slab(cell, o, d) {
        Some((lo, hi)) => rat_le(lo, hi) && hi.num >= 0,
        None => false,
    }
}

/// Whether the ray point at parameter `t` lies exactly on the plane
/// `w == plane_fx` of axis component (`o`, `d`): the face-crossing test.
pub open spec fn spec_on_plane(o: int, d: int, t: (int, int), plane_fx: int) -> bool {
    o * t.1 + t.0 * d == plane_fx * t.1
}

/// Tests whether the ray point at parameter `t` lies exactly on the plane
/// `w == plane_fx` along one axis.
pub fn on_plane(o: i64, d: i64, t: Ratio, plane_fx: i64) -> (r: bool)
    requires
        t.wf(),
        fx_in_range(o as int),
        fx_in_range(d as int),
        -0x8_0000_0000_0000 <= plane_fx <= 0x8_0000_0000_0000,
    ensures
        r == spec_on_plane(o as int, d as int, t.view_pair(), plane_fx as int),
{
    let p1 = mul_wide(o, t.den);
    let p2 = mul_wide(t.num, d);
    let p3 = mul_wide(plane_fx, t.den);
    proof {
        assert(spec_abs(p1 as int) <= 0x80_0000_0000_0000_0000_0000_0000) by (nonlinear_arith)
            requires
                p1 == o as int * t.den as int,
                -FX_LIMIT <= o as int <= FX_LIMIT,
                0 < t.den as int <= 0x7FFF_FFFF_FFFF_FFFF,
        ;
        assert(spec_abs(p2 as int) <= 0x80_0000_0000_0000_0000_0000_0000) by (nonlinear_arith)
            requires
                p2 == t.num as int * d as int,
                -FX_LIMIT <= d as int <= FX_LIMIT,
                -0x8000_0000_0000_0000 <= t.num as int <= 0x7FFF_FFFF_FFFF_FFFF,
        ;
    }
    p1 + p2 == p3
}

} // verus!
