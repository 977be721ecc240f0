//! Ray-voxel search, destroy and place edits, neighbor-mesh invalidation
//! and mesh face culling on concrete worlds.

use voxelcore::addressing::ChunkCoord;
use voxelcore::chunk::Chunk;
use voxelcore::editor::{player_destroy_block_if_possible, player_place_block_if_possible};
use voxelcore::geometry::{CellPos, FxVec, FX_ONE};
use voxelcore::mesh::{BoundaryVoxels, ChunkMesh};
use voxelcore::raycast::find_nearest_block_in_ray;
use voxelcore::remesh::{build_boundary, rebuild_mesh, EdgeSamples};
use voxelcore::storage::Storage;
use voxelcore::voxel::Block;

fn fx(blocks: i64, frac: i64) -> i64 {
    blocks * FX_ONE + frac
}

fn air_boundary() -> BoundaryVoxels {
    BoundaryVoxels {
        west: vec![0; 3456],
        east: vec![0; 3456],
        north: vec![0; 3456],
        south: vec![0; 3456],
    }
}

fn stub_edges() -> EdgeSamples {
    EdgeSamples {
        west: vec![0; 16],
        east: vec![0; 16],
        north: vec![0; 16],
        south: vec![0; 16],
    }
}

/// An air chunk with a handful of solid voxels.
fn sparse_chunk(cc: ChunkCoord, solid: &[(usize, usize, usize)]) -> Chunk {
    let mut c = Chunk::filled(cc, 0);
    for &(x, z, y) in solid {
        c.set_block_at(x, z, y, 1);
    }
    c
}

#[test]
fn ray_hits_nearest_solid_cell() {
    let mut s = Storage::init();
    // Two solid cells along +x; the nearer one wins.
    s.store_chunk(sparse_chunk(ChunkCoord { x: 0, z: 0 }, &[(3, 0, 100), (6, 0, 100)]));
    let origin = FxVec { x: fx(0, 512), y: fx(100, 512), z: fx(0, 512) };
    let dir = FxVec { x: FX_ONE, y: 0, z: 0 };
    let hit = find_nearest_block_in_ray(&s, origin, dir, 10).unwrap();
    assert_eq!(hit.cell, CellPos { x: 3, y: 100, z: 0 });
    assert_eq!((hit.x, hit.z, hit.y), (3, 0, 100));
    assert_eq!(hit.cc, ChunkCoord { x: 0, z: 0 });
    // Entry parameter: (3 * 1024 - 512) / 1024 blocks along the ray.
    assert_eq!(hit.tmin.num * 2, hit.tmin.den * 5);
}

#[test]
fn ray_misses_empty_world() {
    let s = Storage::init();
    let origin = FxVec { x: 512, y: fx(100, 0), z: 512 };
    let dir = FxVec { x: FX_ONE, y: 0, z: 0 };
    assert!(find_nearest_block_in_ray(&s, origin, dir, 8).is_none());
}

#[test]
fn destroy_zeroes_hit_voxel() {
    let mut s = Storage::init();
    s.store_chunk(sparse_chunk(ChunkCoord { x: 0, z: 0 }, &[(3, 0, 100)]));
    let origin = FxVec { x: fx(0, 512), y: fx(100, 512), z: fx(0, 512) };
    let dir = FxVec { x: FX_ONE, y: 0, z: 0 };
    let out = player_destroy_block_if_possible(&mut s, origin, dir, 10).unwrap();
    assert_eq!(out.hit.cell, CellPos { x: 3, y: 100, z: 0 });
    let c = s.chunk(ChunkCoord { x: 0, z: 0 }).unwrap();
    assert!(Block::is_air(c.block_at(3, 0, 100)));
    // An interior edit stales only its own chunk's mesh.
    assert_eq!(out.remesh.len(), 1);
    assert_eq!(out.remesh[0], ChunkCoord { x: 0, z: 0 });
}

#[test]
fn destroy_at_boundary_rebuilds_both_neighbors() {
    // Destroying the solid voxel at local x = 0 of chunk (0, 0), where
    // chunk (-1, 0) has a solid voxel touching that boundary face,
    // triggers a mesh rebuild for both chunks.
    let mut s = Storage::init();
    s.store_chunk(sparse_chunk(ChunkCoord { x: 0, z: 0 }, &[(0, 0, 100)]));
    s.store_chunk(sparse_chunk(ChunkCoord { x: -1, z: 0 }, &[(15, 0, 100)]));
    let origin = FxVec { x: fx(0, 512), y: fx(100, 512), z: fx(0, 512) };
    let dir = FxVec { x: FX_ONE, y: 0, z: 0 };
    let out = player_destroy_block_if_possible(&mut s, origin, dir, 4).unwrap();
    assert_eq!(out.hit.cell, CellPos { x: 0, y: 100, z: 0 });
    assert_eq!(out.remesh.len(), 2);
    assert_eq!(out.remesh[0], ChunkCoord { x: 0, z: 0 });
    assert_eq!(out.remesh[1], ChunkCoord { x: -1, z: 0 });
    // Rebuilding the named meshes lands fresh meshes in the store.
    for cc in out.remesh.iter() {
        let boundary = build_boundary(&s, *cc, &stub_edges());
        rebuild_mesh(&mut s, *cc, &boundary);
        assert!(s.get_mesh(*cc).is_some());
    }
    // The destroyed voxel no longer earns a mesh entry.
    let own = s.get_mesh(ChunkCoord { x: 0, z: 0 }).unwrap();
    assert_eq!(own.entries.len(), 0);
    let west = s.get_mesh(ChunkCoord { x: -1, z: 0 }).unwrap();
    assert_eq!(west.entries.len(), 1);
}

#[test]
fn place_steps_into_entry_cell() {
    let mut s = Storage::init();
    s.store_chunk(sparse_chunk(ChunkCoord { x: 0, z: 0 }, &[(3, 0, 100)]));
    let origin = FxVec { x: fx(0, 512), y: fx(100, 512), z: fx(0, 512) };
    let dir = FxVec { x: FX_ONE, y: 0, z: 0 };
    let hitbox: Vec<FxVec> = Vec::new();
    let out = player_place_block_if_possible(&mut s, 9, origin, dir, 10, &hitbox).unwrap();
    // The ray entered the hit cell through its x = 3 face: the target is
    // the cell before it.
    assert_eq!(out.target, CellPos { x: 2, y: 100, z: 0 });
    let c = s.chunk(ChunkCoord { x: 0, z: 0 }).unwrap();
    assert_eq!(c.block_at(2, 0, 100), 9);
    assert_eq!(c.block_at(3, 0, 100), 1);
}

#[test]
fn place_wraps_into_neighbor_chunk() {
    // A hit at local x = 0 whose entry face is the chunk boundary places
    // into the chunk to the west.
    let mut s = Storage::init();
    s.store_chunk(sparse_chunk(ChunkCoord { x: 0, z: 0 }, &[(0, 0, 100)]));
    s.store_chunk(Chunk::filled(ChunkCoord { x: -1, z: 0 }, 0));
    let origin = FxVec { x: fx(-2, 512), y: fx(100, 512), z: fx(0, 512) };
    let dir = FxVec { x: FX_ONE, y: 0, z: 0 };
    let hitbox: Vec<FxVec> = Vec::new();
    let out = player_place_block_if_possible(&mut s, 5, origin, dir, 10, &hitbox).unwrap();
    assert_eq!(out.target, CellPos { x: -1, y: 100, z: 0 });
    assert_eq!(out.cc, ChunkCoord { x: -1, z: 0 });
    assert_eq!((out.x, out.z, out.y), (15, 0, 100));
    let w = s.chunk(ChunkCoord { x: -1, z: 0 }).unwrap();
    assert_eq!(w.block_at(15, 0, 100), 5);
}

#[test]
fn place_rejected_when_overlapping_own_hitbox() {
    // A place request whose target cell overlaps a vertex of the acting
    // agent's hitbox is rejected with no voxel mutation.
    let mut s = Storage::init();
    s.store_chunk(sparse_chunk(ChunkCoord { x: 0, z: 0 }, &[(3, 0, 100)]));
    let before = s.chunk(ChunkCoord { x: 0, z: 0 }).unwrap().blocks().clone();
    let origin = FxVec { x: fx(0, 512), y: fx(100, 512), z: fx(0, 512) };
    let dir = FxVec { x: FX_ONE, y: 0, z: 0 };
    // This vertex lands in cell (2, 100, 0): exactly the target.
    let hitbox = vec![FxVec { x: 2000, y: 0, z: 0 }];
    let out = player_place_block_if_possible(&mut s, 9, origin, dir, 10, &hitbox);
    assert!(out.is_none());
    assert_eq!(s.chunk(ChunkCoord { x: 0, z: 0 }).unwrap().blocks(), &before);
}

#[test]
fn place_rejected_when_target_not_air() {
    // The origin stands inside solid cell (2, 100, 0), whose entry face
    // steps to (1, 100, 0) — also solid, so the placement is rejected
    // with no voxel mutation.
    let mut s = Storage::init();
    s.store_chunk(sparse_chunk(ChunkCoord { x: 0, z: 0 }, &[(2, 0, 100), (1, 0, 100)]));
    let before = s.chunk(ChunkCoord { x: 0, z: 0 }).unwrap().blocks().clone();
    let origin = FxVec { x: fx(2, 512), y: fx(100, 512), z: fx(0, 512) };
    let dir = FxVec { x: FX_ONE, y: 0, z: 0 };
    let hitbox: Vec<FxVec> = Vec::new();
    let out = player_place_block_if_possible(&mut s, 9, origin, dir, 10, &hitbox);
    assert!(out.is_none());
    assert_eq!(s.chunk(ChunkCoord { x: 0, z: 0 }).unwrap().blocks(), &before);
}

#[test]
fn world_query_falls_back_to_anticipated_terrain() {
    let mut s = Storage::init();
    s.store_chunk(sparse_chunk(ChunkCoord { x: 0, z: 0 }, &[(3, 0, 100)]));
    // A resident chunk answers from its grid.
    assert_eq!(voxelcore::remesh::get_block_at(&s, 3, 0, 100, 0), 1);
    assert_eq!(voxelcore::remesh::get_block_at(&s, 4, 0, 100, 0), 0);
    // An ungenerated column answers from the anticipated terrain of its
    // noise sample: surface 100 for a zero sample.
    assert_eq!(voxelcore::remesh::get_block_at(&s, 100, 0, 99, 0), 1);
    assert_eq!(voxelcore::remesh::get_block_at(&s, 100, 0, 150, 0), 0);
    // Negative world coordinates address the correct chunk.
    assert_eq!(voxelcore::remesh::get_block_at(&s, -1, 0, 99, 0), 1);
}

#[test]
fn mesh_keeps_only_visible_faces() {
    // Surface at 100 everywhere: the top layer shows only its top face in
    // the chunk's interior.
    let samples = vec![0i64; 256];
    let chunk = voxelcore::terrain::chunk_voxels_from_samples(ChunkCoord { x: 0, z: 0 }, &samples);
    // Boundary planes mirror the same terrain: columns of the neighbors
    // are solid below 100 too.
    let mut plane = vec![0u64; 3456];
    for y in 0..216 {
        for i in 0..16 {
            plane[y * 16 + i] = if y < 100 { 1 } else { 0 };
        }
    }
    let boundary = BoundaryVoxels {
        west: plane.clone(),
        east: plane.clone(),
        north: plane.clone(),
        south: plane.clone(),
    };
    let mesh = ChunkMesh::new(&chunk, &boundary);
    // Exactly the 16 x 16 surface voxels at y = 99 are visible.
    assert_eq!(mesh.entries.len(), 256);
    for e in mesh.entries.iter() {
        assert_eq!(e.y, 99);
        assert!(e.faces.top);
        assert!(!e.faces.bottom);
        assert!(!e.faces.west && !e.faces.east && !e.faces.north && !e.faces.south);
    }
}

#[test]
fn mesh_lists_faces_of_lone_voxel() {
    let chunk = sparse_chunk(ChunkCoord { x: 0, z: 0 }, &[(5, 5, 100)]);
    let mesh = ChunkMesh::new(&chunk, &air_boundary());
    assert_eq!(mesh.entries.len(), 1);
    let e = mesh.entries[0];
    assert_eq!((e.x, e.z, e.y), (5, 5, 100));
    assert_eq!(e.block, 1);
    assert!(e.faces.west && e.faces.east && e.faces.north && e.faces.south);
    assert!(e.faces.top && e.faces.bottom);
}
