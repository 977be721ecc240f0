//! Keyed storage of chunks and their derived meshes: the single source of
//! truth the scheduler, the editor and the collision resolver share.
//!
//! Chunks are never destroyed once created — voxel data is retained even
//! outside the streaming window — while meshes are disposable and may be
//! removed. A mesh exists only for a coordinate whose chunk exists.

use crate::addressing::{ChunkCoord, HEIGHT, WIDTH};
use crate::chunk::{spec_voxel_index, Chunk};
use crate::mesh::ChunkMesh;
use std::collections::HashMap;
use vstd::prelude::*;

verus! {

broadcast use vstd::std_specs::hash::group_hash_axioms;

/// The storage key of a chunk coordinate: both halves shifted into
/// unsigned range and packed, x high, z low. Injective over all of
/// chunk-grid space.
pub open spec fn spec_key_of(cc: ChunkCoord) -> u64 {
    ((cc.x + 0x8000_0000) * 0x1_0000_0000 + (cc.z + 0x8000_0000)) as u64
}

/// Computes the storage key of a chunk coordinate.
pub fn key_of(cc: ChunkCoord) -> (k: u64)
    ensures
        k == spec_key_of(cc),
{
    let ux = (cc.x as i64 + 0x8000_0000) as u64;
    let uz = (cc.z as i64 + 0x8000_0000) as u64;
    ux * 0x1_0000_0000 + uz
}

/// Distinct chunk coordinates have distinct storage keys.
pub proof fn lemma_key_injective(a: ChunkCoord, b: ChunkCoord)
    requires
        spec_key_of(a) == spec_key_of(b),
    ensures
        a == b,
{
    let ka = (a.x + 0x8000_0000) * 0x1_0000_0000 + (a.z + 0x8000_0000);
    let kb = (b.x + 0x8000_0000) * 0x1_0000_0000 + (b.z + 0x8000_0000);
    assert(0 <= ka < 0x1_0000_0000_0000_0000);
    assert(0 <= kb < 0x1_0000_0000_0000_0000);
    assert(ka == kb);
}

/// Recovers the chunk coordinate a storage key was packed from.
pub fn coord_of_key(k: u64) -> (cc: ChunkCoord)
    ensures
        spec_key_of(cc) == k,
{
    let ux = k / 0x1_0000_0000;
    let uz = k % 0x1_0000_0000;
    let x = (ux as i64 - 0x8000_0000) as i32;
    let z = (uz as i64 - 0x8000_0000) as i32;
    ChunkCoord { x, z }
}

/// Index of a key in a key list, if present.
fn find_key(keys: &Vec<u64>, k: u64) -> (r: Option<usize>)
    ensures
        match r {
            Some(i) => i < keys@.len() && keys@[i as int] == k,
            None => forall|j: int| 0 <= j < keys@.len() ==> keys@[j] != k,
        },
{
    let n = keys.len();
    let mut i: usize = 0;
    while i < n
        invariant
            n == keys@.len(),
            i <= n,
            forall|j: int| 0 <= j < i ==> keys@[j] != k,
        decreases n - i,
    {
        if keys[i] == k {
            return Some(i);
        }
        i = i + 1;
    }
    None
}

/// Thread-safe in spirit, keyed in fact: the coordinate-indexed chunk and
/// mesh maps, with their key lists kept alongside so snapshots need no map
/// iteration.
pub struct Storage {
    pub chunks: HashMap<u64, Chunk>,
    pub meshes: HashMap<u64, ChunkMesh>,
    pub chunk_keys: Vec<u64>,
    pub mesh_keys: Vec<u64>,
}

impl Storage {
    /// The storage invariant: key lists mirror the map domains without
    /// duplicates, every stored chunk has its fixed footprint and sits
    /// under the key of its own coordinate, and a mesh exists only where
    /// its chunk does.
    pub open spec fn wf(&self) -> bool {
        &&& self.chunk_keys@.no_duplicates()
        &&& self.mesh_keys@.no_duplicates()
        &&& forall|k: u64| self.chunk_keys@.contains(k) <==> #[trigger] self.chunks@.contains_key(k)
        &&& forall|k: u64| self.mesh_keys@.contains(k) <==> #[trigger] self.meshes@.contains_key(k)
        &&& forall|k: u64|
            #[trigger] self.chunks@.contains_key(k) ==> self.chunks@[k].wf() && spec_key_of(
                self.chunks@[k].coord,
            ) == k
        &&& forall|k: u64| #[trigger] self.meshes@.contains_key(k) ==> self.chunks@.contains_key(k)
    }

    /// Whether a chunk is resident at a coordinate.
    pub open spec fn spec_has_chunk(&self, cc: ChunkCoord) -> bool {
        self.chunks@.contains_key(spec_key_of(cc))
    }

    /// The resident chunk at a coordinate.
    pub open spec fn spec_chunk(&self, cc: ChunkCoord) -> Chunk {
        self.chunks@[spec_key_of(cc)]
    }

    /// Whether a mesh is resident at a coordinate.
    pub open spec fn spec_has_mesh(&self, cc: ChunkCoord) -> bool {
        self.meshes@.contains_key(spec_key_of(cc))
    }

    /// The resident mesh at a coordinate.
    pub open spec fn spec_mesh(&self, cc: ChunkCoord) -> ChunkMesh {
        self.meshes@[spec_key_of(cc)]
    }

    /// An empty store.
    pub fn init() -> (r: Storage)
        ensures
            r.wf(),
            r.chunks@ == Map::<u64, Chunk>::empty(),
            r.meshes@ == Map::<u64, ChunkMesh>::empty(),
    {
        Storage {
            chunks: HashMap::new(),
            meshes: HashMap::new(),
            chunk_keys: Vec::new(),
            mesh_keys: Vec::new(),
        }
    }

    /// The resident chunk at a coordinate, absent as normal control flow.
    pub fn chunk(&self, cc: ChunkCoord) -> (r: Option<&Chunk>)
        requires
            self.wf(),
        ensures
            match r {
                Some(c) => self.spec_has_chunk(cc) && *c == self.spec_chunk(cc),
                None => !self.spec_has_chunk(cc),
            },
    {
        let k = key_of(cc);
        self.chunks.get(&k)
    }

    /// Stores a chunk under its own coordinate, insert-if-absent: a chunk
    /// already resident there — possibly being edited — is never silently
    /// overwritten. Returns whether the chunk was stored. Meshes are
    /// untouched.
    pub fn store_chunk(&mut self, chunk: Chunk) -> (stored: bool)
        requires
            old(self).wf(),
            chunk.wf(),
        ensures
            final(self).wf(),
            stored == !old(self).spec_has_chunk(chunk.coord),
            stored ==> final(self).chunks@ == old(self).chunks@.insert(
                spec_key_of(chunk.coord),
                chunk,
            ),
            !stored ==> final(self).chunks@ == old(self).chunks@,
            final(self).meshes@ == old(self).meshes@,
    {
        let k = key_of(chunk.coord);
        if self.chunks.contains_key(&k) {
            false
        } else {
            self.chunks.insert(k, chunk);
            self.chunk_keys.push(k);
            proof {
                assert forall|q: u64| self.chunk_keys@.contains(q) implies #[trigger] self.chunks@.contains_key(q) by {
                    if q != k {
                        assert(old(self).chunk_keys@.contains(q));
                    }
                }
                assert forall|q: u64| #[trigger] self.chunks@.contains_key(q) implies self.chunk_keys@.contains(q) by {
                    if q == k {
                        assert(self.chunk_keys@[self.chunk_keys@.len() - 1] == k);
                    } else {
                        assert(old(self).chunk_keys@.contains(q));
                        let i = choose|i: int|
                            0 <= i < old(self).chunk_keys@.len() && old(self).chunk_keys@[i] == q;
                        assert(self.chunk_keys@[i] == q);
                    }
                }
            }
            true
        }
    }

    /// The resident mesh at a coordinate, absent as normal control flow.
    pub fn get_mesh(&self, cc: ChunkCoord) -> (r: Option<&ChunkMesh>)
        requires
            self.wf(),
        ensures
            match r {
                Some(m) => self.spec_has_mesh(cc) && *m == self.spec_mesh(cc),
                None => !self.spec_has_mesh(cc),
            },
    {
        let k = key_of(cc);
        self.meshes.get(&k)
    }

    /// Stores or replaces the mesh at a coordinate whose chunk is
    /// resident. Chunks are untouched.
    pub fn update_mesh(&mut self, cc: ChunkCoord, mesh: ChunkMesh)
        requires
            old(self).wf(),
            old(self).spec_has_chunk(cc),
        ensures
            final(self).wf(),
            final(self).meshes@ == old(self).meshes@.insert(spec_key_of(cc), mesh),
            final(self).chunks@ == old(self).chunks@,
    {
        let k = key_of(cc);
        if !self.meshes.contains_key(&k) {
            self.mesh_keys.push(k);
            self.meshes.insert(k, mesh);
            proof {
                assert forall|q: u64| self.mesh_keys@.contains(q) implies #[trigger] self.meshes@.contains_key(q) by {
                    if q != k {
                        assert(old(self).mesh_keys@.contains(q));
                    }
                }
                assert forall|q: u64| #[trigger] self.meshes@.contains_key(q) implies self.mesh_keys@.contains(q) by {
                    if q == k {
                        assert(self.mesh_keys@[self.mesh_keys@.len() - 1] == k);
                    } else {
                        assert(old(self).mesh_keys@.contains(q));
                        let i = choose|i: int|
                            0 <= i < old(self).mesh_keys@.len() && old(self).mesh_keys@[i] == q;
                        assert(self.mesh_keys@[i] == q);
                    }
                }
            }
        } else {
            self.meshes.insert(k, mesh);
        }
    }

    /// Removes the mesh at a coordinate, if any; the chunk's voxel data is
    /// retained.
    pub fn destroy_mesh(&mut self, cc: ChunkCoord)
        requires
            old(self).wf(),
        ensures
            final(self).wf(),
            final(self).meshes@ == old(self).meshes@.remove(spec_key_of(cc)),
            final(self).chunks@ == old(self).chunks@,
    {
        let k = key_of(cc);
        if self.meshes.contains_key(&k) {
            self.meshes.remove(&k);
            let slot = find_key(&self.mesh_keys, k);
            proof {
                assert(old(self).mesh_keys@.contains(k));
            }
            if let Some(found_at) = slot {
                self.mesh_keys.remove(found_at);
                proof {
                    let removed_at = found_at as int;
                    let pre = old(self).mesh_keys@;
                    assert(self.mesh_keys@ == pre.remove(removed_at));
                    assert forall|q: u64| self.mesh_keys@.contains(q) implies #[trigger] self.meshes@.contains_key(q) by {
                        let j = choose|j: int|
                            0 <= j < self.mesh_keys@.len() && self.mesh_keys@[j] == q;
                        if j < removed_at {
                            assert(pre[j] == q);
                        } else {
                            assert(pre[j + 1] == q);
                        }
                        assert(pre.contains(q));
                        if q == k {
                            let j2: int = if j < removed_at {
                                j
                            } else {
                                j + 1
                            };
                            assert(pre[j2] == k && pre[removed_at] == k && j2 != removed_at);
                            assert(false);
                        }
                    }
                    assert forall|q: u64| #[trigger] self.meshes@.contains_key(q) implies self.mesh_keys@.contains(q) by {
                        assert(q != k);
                        assert(pre.contains(q));
                        let j = choose|j: int| 0 <= j < pre.len() && pre[j] == q;
                        if j < removed_at {
                            assert(self.mesh_keys@[j] == q);
                        } else {
                            assert(j != removed_at);
                            assert(self.mesh_keys@[j - 1] == q);
                        }
                    }
                    assert(self.mesh_keys@.no_duplicates()) by {
                        assert forall|a: int, b: int|
                            0 <= a < self.mesh_keys@.len() && 0 <= b < self.mesh_keys@.len() && a
                                != b implies self.mesh_keys@[a] != self.mesh_keys@[b] by {
                            let a2: int = if a < removed_at {
                                a
                            } else {
                                a + 1
                            };
                            let b2: int = if b < removed_at {
                                b
                            } else {
                                b + 1
                            };
                            assert(pre[a2] == self.mesh_keys@[a]);
                            assert(pre[b2] == self.mesh_keys@[b]);
                        }
                    }
                }
            } else {
                proof {
                    let j = choose|j: int|
                        0 <= j < old(self).mesh_keys@.len() && old(self).mesh_keys@[j] == k;
                    assert(false);
                }
            }
        } else {
            proof {
                assert(self.meshes@ =~= old(self).meshes@.remove(spec_key_of(cc)));
            }
        }
    }

    /// Overwrites one voxel of the resident chunk at a coordinate; every
    /// other voxel, every other chunk and all meshes stay as they were.
    pub fn set_block(&mut self, cc: ChunkCoord, x: usize, z: usize, y: usize, new_block: u64)
        requires
            old(self).wf(),
            old(self).spec_has_chunk(cc),
            x < WIDTH,
            z < WIDTH,
            y < HEIGHT,
        ensures
            final(self).wf(),
            final(self).chunks@ == old(self).chunks@.insert(
                spec_key_of(cc),
                final(self).spec_chunk(cc),
            ),
            final(self).spec_chunk(cc).coord == old(self).spec_chunk(cc).coord,
            final(self).spec_chunk(cc).voxels@ == old(self).spec_chunk(cc).voxels@.update(
                spec_voxel_index(x as int, z as int, y as int),
                new_block,
            ),
            final(self).meshes@ == old(self).meshes@,
    {
        let k = key_of(cc);
        let mut c = self.chunks.remove(&k).unwrap();
        c.set_block_at(x, z, y, new_block);
        let ghost cnew = c;
        self.chunks.insert(k, c);
        proof {
            assert(self.chunks@ =~= old(self).chunks@.insert(k, cnew));
            assert forall|q: u64| self.chunk_keys@.contains(q) implies #[trigger] self.chunks@.contains_key(q) by {
                assert(old(self).chunks@.contains_key(q));
            }
        }
    }

    /// A snapshot of every resident chunk with its coordinate, taken as
    /// copies so iteration never holds the store.
    pub fn all_chunks(&self) -> (r: Vec<(ChunkCoord, Chunk)>)
        requires
            self.wf(),
        ensures
            r@.len() == self.chunk_keys@.len(),
            forall|i: int|
                0 <= i < r@.len() ==> {
                    let (cc, c) = #[trigger] r@[i];
                    &&& self.spec_has_chunk(cc)
                    &&& c.coord == cc
                    &&& c.voxels@ == self.spec_chunk(cc).voxels@
                    &&& spec_key_of(cc) == self.chunk_keys@[i]
                },
    {
        let mut out: Vec<(ChunkCoord, Chunk)> = Vec::new();
        let n = self.chunk_keys.len();
        let mut i: usize = 0;
        while i < n
            invariant
                self.wf(),
                n == self.chunk_keys@.len(),
                i <= n,
                out@.len() == i,
                forall|j: int|
                    0 <= j < i ==> {
                        let (cc, c) = #[trigger] out@[j];
                        &&& self.spec_has_chunk(cc)
                        &&& c.coord == cc
                        &&& c.voxels@ == self.spec_chunk(cc).voxels@
                        &&& spec_key_of(cc) == self.chunk_keys@[j]
                    },
            decreases n - i,
        {
            let k = self.chunk_keys[i];
            assert(self.chunk_keys@.contains(k));
            let c = self.chunks.get(&k).unwrap();
            let copy = c.clone();
            out.push((copy.coord, copy));
            i = i + 1;
        }
        out
    }

    /// A snapshot of every resident mesh with its coordinate, taken as
    /// copies so the render path never holds the store while iterating.
    pub fn all_mesh(&self) -> (r: Vec<(ChunkCoord, ChunkMesh)>)
        requires
            self.wf(),
        ensures
            r@.len() == self.mesh_keys@.len(),
            forall|i: int|
                0 <= i < r@.len() ==> {
                    let (cc, m) = #[trigger] r@[i];
                    &&& self.spec_has_mesh(cc)
                    &&& m.entries@ == self.spec_mesh(cc).entries@
                    &&& spec_key_of(cc) == self.mesh_keys@[i]
                },
    {
        let mut out: Vec<(ChunkCoord, ChunkMesh)> = Vec::new();
        let n = self.mesh_keys.len();
        let mut i: usize = 0;
        while i < n
            invariant
                self.wf(),
                n == self.mesh_keys@.len(),
                i <= n,
                out@.len() == i,
                forall|j: int|
                    0 <= j < i ==> {
                        let (cc, m) = #[trigger] out@[j];
                        &&& self.spec_has_mesh(cc)
                        &&& m.entries@ == self.spec_mesh(cc).entries@
                        &&& spec_key_of(cc) == self.mesh_keys@[j]
                    },
            decreases n - i,
        {
            let k = self.mesh_keys[i];
            assert(self.mesh_keys@.contains(k));
            let cc = coord_of_key(k);
            let m = self.meshes.get(&k).unwrap();
            out.push((cc, m.clone()));
            i = i + 1;
        }
        out
    }
}

} // verus!
