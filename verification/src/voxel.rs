//! The packed voxel value and the block catalogue.
//!
//! A voxel is a 64-bit packed value: the low 16 bits carry the material id
//! (any of them set means the cell is solid, all zero means air), the high
//! 48 bits are reserved metadata that must round-trip unchanged through
//! edits.

use vstd::prelude::*;

verus! {

/// Mask of the low 16 bits of a voxel: the material id.
pub const ID_MASK: u64 = 0xFFFF;

/// The material id packed into a voxel: its low 16 bits.
pub open spec fn spec_block_id(v: u64) -> u64 {
    v & ID_MASK
}

/// The reserved metadata of a voxel: its high 48 bits.
pub open spec fn spec_metadata(v: u64) -> u64 {
    v >> 16u64
}

/// A voxel is air exactly when no id bit is set.
pub open spec fn spec_is_air(v: u64) -> bool {
    v & ID_MASK == 0u64
}

/// Kinds of block the catalogue knows.
#[derive(Clone, Copy, PartialEq, Eq, Structural, Debug)]
pub enum BlockType {
    AIR,
    DIRT,
}

/// A catalogue entry: what a material id renders as.
#[derive(Clone, Copy, PartialEq, Eq, Structural, Debug)]
pub struct Block {
    pub name: BlockType,
    pub texutre_offset: usize,
}

impl Block {
    /// The block kind of this catalogue entry.
    pub fn name(&self) -> (r: BlockType)
        ensures
            r == self.name,
    {
        self.name
    }

    /// Vertical offset of the entry's tile in the texture atlas.
    pub fn zoffset_texure(&self) -> (r: usize)
        ensures
            r == self.texutre_offset,
    {
        self.texutre_offset
    }

    /// Whether a packed voxel value is air: true exactly when its low
    /// 16 id bits are all zero, whatever the metadata bits hold.
    pub fn is_air(block: u64) -> (r: bool)
        ensures
            r == spec_is_air(block),
    {
        block & ID_MASK == 0u64
    }

    /// The material id of a packed voxel value: its low 16 bits.
    pub fn get_block_id(block: u64) -> (r: u64)
        ensures
            r == spec_block_id(block),
            r < 0x10000,
    {
        proof {
            assert(block & 0xFFFFu64 < 0x10000) by (bit_vector);
        }
        block & ID_MASK
    }

    /// The catalogue entry of a material id; ids without an entry of
    /// their own render as dirt.
    pub fn from_id(id: u64) -> (r: Block)
        ensures
            r.name == (if id == 0 { BlockType::AIR } else { BlockType::DIRT }),
            r.texutre_offset == 0,
    {
        if id == 0 {
            Block { name: BlockType::AIR, texutre_offset: 0 }
        } else {
            Block { name: BlockType::DIRT, texutre_offset: 0 }
        }
    }
}

/// The all-zero voxel is air.
pub proof fn lemma_zero_is_air()
    ensures
        spec_is_air(0u64),
{
    assert(0u64 & 0xFFFFu64 == 0u64) by (bit_vector);
}

/// A voxel carrying any nonzero material id is solid.
pub proof fn lemma_nonzero_id_is_solid(id: u64)
    requires
        id != 0,
        id < 0x10000,
    ensures
        !spec_is_air(id),
{
    assert(id < 0x10000 && id != 0 ==> id & 0xFFFFu64 != 0u64) by (bit_vector);
}

/// Packing an id below 2^16 into a voxel keeps solidity equal to the id
/// being nonzero, and a voxel's id and metadata together determine it:
/// reading a stored voxel back yields the same id, the same metadata and
/// the same solidity.
pub proof fn lemma_voxel_packing(v: u64)
    ensures
        spec_is_air(v) <==> spec_block_id(v) == 0,
        spec_block_id(v) < 0x10000,
        v == spec_metadata(v) * 0x10000 + spec_block_id(v),
{
    assert((v & 0xFFFFu64 == 0u64) == (v & 0xFFFFu64 == 0u64)) by (bit_vector);
    assert(v & 0xFFFFu64 < 0x10000) by (bit_vector);
    assert(v == (v >> 16u64) * 0x10000 + (v & 0xFFFFu64)) by (bit_vector);
}

} // verus!
