//! Swept collision resolution on concrete worlds: relaxation passes end
//! with the vertex exactly on the crossed face.

use voxelcore::addressing::ChunkCoord;
use voxelcore::chunk::Chunk;
use voxelcore::collision::{relax_vertex_once, update_player_position};
use voxelcore::geometry::{FxVec, FX_ONE};
use voxelcore::storage::Storage;

fn fx(blocks: i64, frac: i64) -> i64 {
    blocks * FX_ONE + frac
}

/// A world whose chunk (0, 0) is solid below height 100.
fn ground_world() -> Storage {
    let samples = vec![0i64; 256];
    let chunk = voxelcore::terrain::chunk_voxels_from_samples(ChunkCoord { x: 0, z: 0 }, &samples);
    let mut s = Storage::init();
    s.store_chunk(chunk);
    s
}

#[test]
fn falling_vertex_lands_exactly_on_cell_top() {
    // The agent falls: its lower vertex would cross into the solid cell
    // below. The pass ends with that vertex's y exactly on the cell's top
    // face, not interpenetrating.
    let s = ground_world();
    let hitbox = vec![FxVec { x: 0, y: -512, z: 0 }];
    // Proposed center 100.29 blocks up: the vertex at -0.5 blocks sits at
    // 99.79, inside the solid cell at height 99 whose top face is 100.
    let proposed = FxVec { x: fx(0, 512), y: fx(100, 300), z: fx(0, 512) };
    let resolved = update_player_position(&s, &hitbox, proposed).unwrap();
    assert_eq!(resolved.x, proposed.x);
    assert_eq!(resolved.z, proposed.z);
    // Vertex y == resolved.y - 512 == 100 * 1024 exactly.
    assert_eq!(resolved.y, fx(100, 0) + 512);
    assert_eq!(resolved.y - 512, 100 * FX_ONE);
}

#[test]
fn single_pass_pushes_back_along_one_axis() {
    let s = ground_world();
    let pos = FxVec { x: fx(0, 512), y: fx(100, 300), z: fx(0, 512) };
    let offset = FxVec { x: 0, y: -512, z: 0 };
    let pushed = relax_vertex_once(&s, pos, offset).unwrap().unwrap();
    assert_eq!(pushed.x, pos.x);
    assert_eq!(pushed.z, pos.z);
    assert_eq!(pushed.y + offset.y, 100 * FX_ONE);
}

#[test]
fn vertex_in_air_needs_no_push() {
    let s = ground_world();
    let pos = FxVec { x: fx(0, 512), y: fx(105, 0), z: fx(0, 512) };
    let offset = FxVec { x: 0, y: -512, z: 0 };
    assert!(relax_vertex_once(&s, pos, offset).unwrap().is_none());
    // And the whole resolution leaves the position alone.
    let resolved = update_player_position(&s, &vec![offset], pos).unwrap();
    assert_eq!(resolved, pos);
}

#[test]
fn missing_chunk_collides_with_nothing() {
    let s = Storage::init();
    let pos = FxVec { x: fx(0, 512), y: fx(50, 0), z: fx(0, 512) };
    let hitbox = vec![FxVec { x: 0, y: -512, z: 0 }, FxVec { x: 409, y: 409, z: 409 }];
    let resolved = update_player_position(&s, &hitbox, pos).unwrap();
    assert_eq!(resolved, pos);
}

#[test]
fn degenerate_pass_is_a_fatal_defect() {
    // A zero offset inside a solid cell gives the slab no axis whose
    // entry point lies on a face: the broken geometric precondition is
    // surfaced as a defect, not swallowed.
    let s = ground_world();
    let pos = FxVec { x: fx(0, 512), y: fx(50, 512), z: fx(0, 512) };
    let offset = FxVec { x: 0, y: 0, z: 0 };
    assert!(relax_vertex_once(&s, pos, offset).is_err());
    assert!(update_player_position(&s, &vec![offset], pos).is_err());
}

#[test]
fn sideways_push_lands_on_vertical_face() {
    // A single solid block; the agent moves so a vertex pokes into its
    // west face. The push is along x alone.
    let mut s = Storage::init();
    let mut c = Chunk::filled(ChunkCoord { x: 0, z: 0 }, 0);
    c.set_block_at(4, 8, 100, 1);
    s.store_chunk(c);
    let hitbox = vec![FxVec { x: 409, y: 0, z: 0 }];
    // The vertex at +0.4 blocks x sits at 4.09: inside the solid cell.
    let proposed = FxVec { x: fx(3, 700), y: fx(100, 512), z: fx(8, 512) };
    let resolved = update_player_position(&s, &hitbox, proposed).unwrap();
    assert_eq!(resolved.y, proposed.y);
    assert_eq!(resolved.z, proposed.z);
    // Vertex x == 4 * 1024 exactly: on the block's west face.
    assert_eq!(resolved.x + 409, 4 * FX_ONE);
}
