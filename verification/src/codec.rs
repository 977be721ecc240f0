//! The persisted chunk dump format: for each stored chunk, two 8-byte
//! big-endian signed chunk-coordinate integers followed by the voxel grid
//! as 8-byte big-endian values in y-major, x-mid, z-minor order.
//!
//! Encoding and decoding work on byte vectors; reading and writing files
//! is the caller's business.

use crate::addressing::ChunkCoord;
use crate::chunk::{Chunk, CHUNK_VOLUME};
use vstd::prelude::*;

verus! {

/// Bytes of one encoded chunk record.
pub const RECORD_LEN: usize = 442384;

/// Byte `i` of the big-endian encoding of a 64-bit value.
pub open spec fn spec_be_byte(v: u64, i: int) -> u8 {
    (v >> ((56 - 8 * i) as u64)) as u8
}

/// The eight big-endian bytes of a 64-bit value.
pub open spec fn spec_u64_bytes(v: u64) -> Seq<u8> {
    Seq::new(8, |i: int| spec_be_byte(v, i))
}

/// The 64-bit value eight big-endian bytes encode.
pub open spec fn spec_u64_from_bytes(b: Seq<u8>) -> u64 {
    ((b[0] as u64) << 56u64) | ((b[1] as u64) << 48u64) | ((b[2] as u64) << 40u64) | ((b[3]
        as u64) << 32u64) | ((b[4] as u64) << 24u64) | ((b[5] as u64) << 16u64) | ((b[6] as u64)
        << 8u64) | (b[7] as u64)
}

/// Big-endian encoding loses nothing: the bytes of a value decode back to
/// it.
pub proof fn lemma_u64_bytes_roundtrip(v: u64)
    ensures
        spec_u64_from_bytes(spec_u64_bytes(v)) == v,
{
    assert((((v >> 56u64) as u8) as u64) << 56u64 | (((v >> 48u64) as u8) as u64) << 48u64 | (((v
        >> 40u64) as u8) as u64) << 40u64 | (((v >> 32u64) as u8) as u64) << 32u64 | (((v
        >> 24u64) as u8) as u64) << 24u64 | (((v >> 16u64) as u8) as u64) << 16u64 | (((v
        >> 8u64) as u8) as u64) << 8u64 | (((v >> 0u64) as u8) as u64) == v) by (bit_vector);
    assert(spec_u64_bytes(v)[0] == (v >> 56u64) as u8);
    assert(spec_u64_bytes(v)[1] == (v >> 48u64) as u8);
    assert(spec_u64_bytes(v)[2] == (v >> 40u64) as u8);
    assert(spec_u64_bytes(v)[3] == (v >> 32u64) as u8);
    assert(spec_u64_bytes(v)[4] == (v >> 24u64) as u8);
    assert(spec_u64_bytes(v)[5] == (v >> 16u64) as u8);
    assert(spec_u64_bytes(v)[6] == (v >> 8u64) as u8);
    assert(spec_u64_bytes(v)[7] == (v >> 0u64) as u8);
}

/// Byte `i` of one encoded chunk record: the chunk x coordinate, then the
/// z coordinate, then the voxels in storage order.
pub open spec fn spec_record_byte(cc: ChunkCoord, voxels: Seq<u64>, i: int) -> u8 {
    if i < 8 {
        spec_be_byte(cc.x as i64 as u64, i)
    } else if i < 16 {
        spec_be_byte(cc.z as i64 as u64, i - 8)
    } else {
        spec_be_byte(voxels[(i - 16) / 8], (i - 16) % 8)
    }
}

/// Pushes the eight big-endian bytes of a value.
fn push_u64_be(out: &mut Vec<u8>, v: u64)
    ensures
        final(out)@.len() == old(out)@.len() + 8,
        forall|k: int| 0 <= k < old(out)@.len() ==> final(out)@[k] == old(out)@[k],
        forall|k: int| 0 <= k < 8 ==> final(out)@[old(out)@.len() + k] == spec_be_byte(v, k),
{
    out.push((v >> 56u64) as u8);
    out.push((v >> 48u64) as u8);
    out.push((v >> 40u64) as u8);
    out.push((v >> 32u64) as u8);
    out.push((v >> 24u64) as u8);
    out.push((v >> 16u64) as u8);
    out.push((v >> 8u64) as u8);
    out.push(v as u8);
    proof {
        assert(v as u8 == spec_be_byte(v, 7)) by {
            assert(v as u8 == (v >> 0u64) as u8) by (bit_vector);
        }
    }
}

/// Reads the 64-bit value at eight big-endian bytes from `off`.
fn read_u64_be(b: &Vec<u8>, off: usize) -> (r: u64)
    requires
        off + 8 <= b@.len(),
    ensures
        r == spec_u64_from_bytes(b@.subrange(off as int, off as int + 8)),
{
    let n = b.len();
    proof {
        assert(off + 8 <= n);
    }
    let r = ((b[off] as u64) << 56u64) | ((b[off + 1] as u64) << 48u64) | ((b[off + 2] as u64)
        << 40u64) | ((b[off + 3] as u64) << 32u64) | ((b[off + 4] as u64) << 24u64) | ((b[off + 5]
        as u64) << 16u64) | ((b[off + 6] as u64) << 8u64) | (b[off + 7] as u64);
    proof {
        let s = b@.subrange(off as int, off as int + 8);
        assert(s[0] == b@[off as int]);
        assert(s[1] == b@[off as int + 1]);
        assert(s[2] == b@[off as int + 2]);
        assert(s[3] == b@[off as int + 3]);
        assert(s[4] == b@[off as int + 4]);
        assert(s[5] == b@[off as int + 5]);
        assert(s[6] == b@[off as int + 6]);
        assert(s[7] == b@[off as int + 7]);
    }
    r
}

/// Encodes one chunk as a dump record: its coordinate as two 8-byte
/// big-endian signed integers, then every voxel as an 8-byte big-endian
/// value in storage order.
pub fn write_to_bytes(chunk: &Chunk) -> (r: Vec<u8>)
    requires
        chunk.wf(),
    ensures
        r@.len() == RECORD_LEN,
        forall|i: int|
            0 <= i < RECORD_LEN ==> #[trigger] r@[i] == spec_record_byte(
                chunk.coord,
                chunk.voxels@,
                i,
            ),
{
    let mut out: Vec<u8> = Vec::new();
    push_u64_be(&mut out, chunk.coord.x as i64 as u64);
    push_u64_be(&mut out, chunk.coord.z as i64 as u64);
    proof {
        assert(forall|i: int|
            0 <= i < 16 ==> #[trigger] out@[i] == spec_record_byte(chunk.coord, chunk.voxels@, i));
    }
    let mut j: usize = 0;
    while j < CHUNK_VOLUME
        invariant
            chunk.wf(),
            j <= CHUNK_VOLUME,
            out@.len() == 16 + 8 * j,
            forall|i: int|
                0 <= i < out@.len() ==> #[trigger] out@[i] == spec_record_byte(
                    chunk.coord,
                    chunk.voxels@,
                    i,
                ),
        decreases CHUNK_VOLUME - j,
    {
        let ghost pre = out@;
        let v = chunk.voxels[j];
        push_u64_be(&mut out, v);
        proof {
            assert forall|i: int|
                0 <= i < out@.len() implies #[trigger] out@[i] == spec_record_byte(
                chunk.coord,
                chunk.voxels@,
                i,
            ) by {
                if i < pre.len() {
                    assert(out@[i] == pre[i]);
                } else {
                    let k = i - pre.len();
                    assert(out@[i] == spec_be_byte(v, k));
                    assert((i - 16) / 8 == j && (i - 16) % 8 == k) by {
                        vstd::arithmetic::div_mod::lemma_fundamental_div_mod_converse(
                            i - 16,
                            8,
                            j as int,
                            k,
                        );
                    }
                }
            }
        }
        j = j + 1;
    }
    out
}

/// Decodes one dump record at `off`: the chunk coordinate pair and the
/// voxel grid, or `None` when fewer than a record's worth of bytes
/// remain.
pub fn read_from_bytes(b: &Vec<u8>, off: usize) -> (r: Option<(i64, i64, Vec<u64>)>)
    ensures
        match r {
            None => b@.len() < off + RECORD_LEN,
            Some((x, z, voxels)) => {
                &&& off + RECORD_LEN <= b@.len()
                &&& x as u64 == spec_u64_from_bytes(b@.subrange(off as int, off as int + 8))
                &&& z as u64 == spec_u64_from_bytes(
                    b@.subrange(off as int + 8, off as int + 16),
                )
                &&& voxels@.len() == CHUNK_VOLUME
                &&& forall|j: int|
                    0 <= j < CHUNK_VOLUME ==> #[trigger] voxels@[j] == spec_u64_from_bytes(
                        b@.subrange(off as int + 16 + 8 * j, off as int + 24 + 8 * j),
                    )
            },
        },
{
    if b.len() < RECORD_LEN || off > b.len() - RECORD_LEN {
        return None;
    }
    let x = read_u64_be(b, off) as i64;
    let z = read_u64_be(b, off + 8) as i64;
    proof {
        let ux = spec_u64_from_bytes(b@.subrange(off as int, off as int + 8));
        assert((ux as i64) as u64 == ux) by (bit_vector);
        let uz = spec_u64_from_bytes(b@.subrange(off as int + 8, off as int + 16));
        assert((uz as i64) as u64 == uz) by (bit_vector);
    }
    let n = b.len();
    let mut voxels: Vec<u64> = Vec::new();
    let mut j: usize = 0;
    while j < CHUNK_VOLUME
        invariant
            n == b@.len(),
            off + RECORD_LEN <= n,
            j <= CHUNK_VOLUME,
            voxels@.len() == j,
            forall|k: int|
                0 <= k < j ==> #[trigger] voxels@[k] == spec_u64_from_bytes(
                    b@.subrange(off as int + 16 + 8 * k, off as int + 24 + 8 * k),
                ),
        decreases CHUNK_VOLUME - j,
    {
        let v = read_u64_be(b, off + 16 + 8 * j);
        voxels.push(v);
        j = j + 1;
    }
    Some((x, z, voxels))
}

/// A record encoded from a coordinate and grid decodes back to the same
/// coordinate and the same grid — the dump format loses nothing.
pub proof fn lemma_record_roundtrip(cc: ChunkCoord, voxels: Seq<u64>, b: Seq<u8>)
    requires
        voxels.len() == CHUNK_VOLUME,
        b.len() == RECORD_LEN,
        forall|i: int| 0 <= i < RECORD_LEN ==> #[trigger] b[i] == spec_record_byte(cc, voxels, i),
    ensures
        spec_u64_from_bytes(b.subrange(0, 8)) == cc.x as i64 as u64,
        spec_u64_from_bytes(b.subrange(8, 16)) == cc.z as i64 as u64,
        forall|j: int|
            0 <= j < CHUNK_VOLUME ==> #[trigger] spec_u64_from_bytes(
                b.subrange(16 + 8 * j, 24 + 8 * j),
            ) == voxels[j],
{
    assert(b.subrange(0, 8) =~= spec_u64_bytes(cc.x as i64 as u64));
    lemma_u64_bytes_roundtrip(cc.x as i64 as u64);
    assert(b.subrange(8, 16) =~= spec_u64_bytes(cc.z as i64 as u64));
    lemma_u64_bytes_roundtrip(cc.z as i64 as u64);
    assert forall|j: int| 0 <= j < CHUNK_VOLUME implies #[trigger] spec_u64_from_bytes(
        b.subrange(16 + 8 * j, 24 + 8 * j),
    ) == voxels[j] by {
        assert forall|k: int| 0 <= k < 8 implies b.subrange(16 + 8 * j, 24 + 8 * j)[k]
            == spec_u64_bytes(voxels[j])[k] by {
            let i = 16 + 8 * j + k;
            assert(b[i] == spec_record_byte(cc, voxels, i));
            assert((i - 16) / 8 == j && (i - 16) % 8 == k) by {
                vstd::arithmetic::div_mod::lemma_fundamental_div_mod_converse(i - 16, 8, j, k);
            }
        }
        assert(b.subrange(16 + 8 * j, 24 + 8 * j) =~= spec_u64_bytes(voxels[j]));
        lemma_u64_bytes_roundtrip(voxels[j]);
    }
}

} // verus!
