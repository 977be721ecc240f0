//! The streaming scheduler: focus changes, job dedup, mesh eviction and
//! the throttled drain.

use voxelcore::addressing::ChunkCoord;
use voxelcore::chunk::Chunk;
use voxelcore::mesh::{BoundaryVoxels, ChunkMesh};
use voxelcore::geometry::{FxVec, FX_ONE};
use voxelcore::streaming::{JobKind, JobRequest, JobResult, World, MAX_ACCEPTS};

fn air_boundary() -> BoundaryVoxels {
    BoundaryVoxels {
        west: vec![0; 3456],
        east: vec![0; 3456],
        north: vec![0; 3456],
        south: vec![0; 3456],
    }
}

fn cc(x: i32, z: i32) -> ChunkCoord {
    ChunkCoord { x, z }
}

fn mesh_of(w: &World, at: ChunkCoord) -> ChunkMesh {
    let c = w.storage.chunk(at).unwrap();
    ChunkMesh::new(c, &air_boundary())
}

#[test]
fn fresh_world_schedules_its_initial_window() {
    // A fresh world has recorded center (0, 0) but has not scheduled its
    // window yet: the very first focus call schedules it even when the
    // focus equals the center.
    let mut w = World::new(1, 4);
    let reqs = w.update_mesh_if_needed(cc(0, 0));
    assert_eq!(reqs.len(), 9);
    for r in reqs.iter() {
        assert_eq!(r.kind, JobKind::Generate);
        assert!(r.coord.x.abs() <= 1 && r.coord.z.abs() <= 1);
    }
    // Once scheduled, the same focus is a no-op.
    let again = w.update_mesh_if_needed(cc(0, 0));
    assert_eq!(again.len(), 0);
}

#[test]
fn meshes_inside_new_window_survive_a_focus_change() {
    // A focus change evicts only what left the window: a mesh still
    // inside the new window stays resident.
    let mut w = World::new(1, 4);
    w.storage.store_chunk(Chunk::filled(cc(1, 0), 0));
    let m = mesh_of(&w, cc(1, 0));
    w.storage.update_mesh(cc(1, 0), m);
    let _ = w.update_mesh_if_needed(cc(0, 0));
    // (1, 0) lies in the window around (0, 0) with radius 1.
    assert!(w.storage.get_mesh(cc(1, 0)).is_some());
    let _ = w.update_mesh_if_needed(cc(1, 1));
    // Still inside the window around (1, 1).
    assert!(w.storage.get_mesh(cc(1, 0)).is_some());
    let _ = w.update_mesh_if_needed(cc(10, 10));
    assert!(w.storage.get_mesh(cc(1, 0)).is_none());
}

#[test]
fn over_cap_drain_merges_generations_first_in_order() {
    // Seven completions, meshes first in arrival order: the five merged
    // ones are still the generations, and the leftover keeps the
    // remaining generations before the meshes.
    let mut w = World::new(2, 4);
    let _ = w.update_mesh_if_needed(cc(0, 1));
    let mut completions = Vec::new();
    for z in 0..2 {
        let chunk = Chunk::filled(cc(9, z), 0);
        let mesh = ChunkMesh::new(&chunk, &air_boundary());
        completions.push(JobResult::Meshed(cc(9, z), mesh));
    }
    for x in -2..=2 {
        completions.push(JobResult::Generated(Chunk::filled(cc(x, 0), 0)));
    }
    let (leftover, _followups) = w.update_state(completions);
    // All five generations merged; both meshes wait.
    for x in -2..=2 {
        assert!(w.storage.chunk(cc(x, 0)).is_some());
    }
    assert_eq!(leftover.len(), 2);
    for item in leftover.iter() {
        assert!(matches!(item, JobResult::Meshed(_, _)));
    }
}

#[test]
fn focus_change_requests_missing_chunks() {
    let mut w = World::new(1, 4);
    let reqs = w.update_mesh_if_needed(cc(1, 0));
    // The whole 3 x 3 window around (1, 0) is empty: nine generation
    // requests, no meshing requests.
    assert_eq!(reqs.len(), 9);
    for r in reqs.iter() {
        assert_eq!(r.kind, JobKind::Generate);
        assert!((r.coord.x - 1).abs() <= 1 && r.coord.z.abs() <= 1);
    }
    // The same focus again is a no-op.
    let again = w.update_mesh_if_needed(cc(1, 0));
    assert_eq!(again.len(), 0);
    // A new focus never re-requests jobs already in flight.
    let third = w.update_mesh_if_needed(cc(0, 0));
    for r in third.iter() {
        assert!(r.coord.x == -1);
    }
    assert_eq!(third.len(), 3);
}

#[test]
fn resident_mesh_spawns_no_duplicate_job() {
    // Scheduling meshes for a window where one coordinate already has a
    // resident mesh spawns no job for it.
    let mut w = World::new(1, 4);
    for x in 4..=6 {
        for z in -1..=1 {
            w.storage.store_chunk(Chunk::filled(cc(x, z), 0));
        }
    }
    let m = mesh_of(&w, cc(5, 0));
    w.storage.update_mesh(cc(5, 0), m);
    let reqs = w.update_mesh_if_needed(cc(5, 0));
    // Eight meshing requests: every window coordinate except the meshed
    // one.
    assert_eq!(reqs.len(), 8);
    for r in reqs.iter() {
        assert_eq!(r.kind, JobKind::BuildMesh);
        assert!(r.coord != cc(5, 0));
    }
}

#[test]
fn meshes_outside_window_are_evicted() {
    // After a focus change, no mesh is resident outside the new window;
    // the voxel data stays.
    let mut w = World::new(1, 4);
    w.storage.store_chunk(Chunk::filled(cc(0, 0), 0));
    let m = mesh_of(&w, cc(0, 0));
    w.storage.update_mesh(cc(0, 0), m);
    assert!(w.storage.get_mesh(cc(0, 0)).is_some());
    let _ = w.update_mesh_if_needed(cc(10, 10));
    assert!(w.storage.get_mesh(cc(0, 0)).is_none());
    assert!(w.storage.chunk(cc(0, 0)).is_some());
}

#[test]
fn drain_merges_generation_before_meshing() {
    let mut w = World::new(1, 4);
    let reqs = w.update_mesh_if_needed(cc(0, 1));
    assert!(reqs.len() == 9);
    // Complete one generation and one mesh for the same coordinate in the
    // same tick: the chunk lands first, so the mesh finds it.
    let chunk = Chunk::filled(cc(0, 1), 1);
    let mesh = ChunkMesh::new(&chunk, &air_boundary());
    let completions = vec![
        JobResult::Meshed(cc(0, 1), mesh),
        JobResult::Generated(chunk),
    ];
    let (leftover, _followups) = w.update_state(completions);
    assert_eq!(leftover.len(), 0);
    assert!(w.storage.chunk(cc(0, 1)).is_some());
    assert!(w.storage.get_mesh(cc(0, 1)).is_some());
}

#[test]
fn drain_caps_merges_per_tick() {
    let mut w = World::new(2, 4);
    let _ = w.update_mesh_if_needed(cc(0, 1));
    let mut completions = Vec::new();
    for x in -2..=4 {
        completions.push(JobResult::Generated(Chunk::filled(cc(x, 0), 0)));
    }
    assert_eq!(completions.len(), 7);
    let (leftover, _followups) = w.update_state(completions);
    // At most MAX_ACCEPTS completions merge per tick.
    assert_eq!(leftover.len(), 7 - MAX_ACCEPTS);
    let mut resident = 0;
    for x in -2..=4 {
        if w.storage.chunk(cc(x, 0)).is_some() {
            resident += 1;
        }
    }
    assert_eq!(resident, MAX_ACCEPTS);
    // The rest merge on the next tick.
    let (leftover2, _f) = w.update_state(leftover);
    assert_eq!(leftover2.len(), 0);
}

#[test]
fn drain_issues_followup_mesh_requests() {
    let mut w = World::new(1, 4);
    let _ = w.update_mesh_if_needed(cc(0, 1));
    // A generated chunk inside the window, still unmeshed: the drain asks
    // for its mesh.
    let completions = vec![JobResult::Generated(Chunk::filled(cc(0, 1), 0))];
    let (leftover, followups) = w.update_state(completions);
    assert_eq!(leftover.len(), 0);
    assert_eq!(followups.len(), 1);
    assert_eq!(followups[0], JobRequest { coord: cc(0, 1), kind: JobKind::BuildMesh });
}

#[test]
fn world_edits_go_through_the_store() {
    let mut w = World::new(1, 4);
    let mut c = Chunk::filled(cc(0, 0), 0);
    c.set_block_at(3, 0, 100, 1);
    w.storage.store_chunk(c);
    let origin = FxVec { x: 512, y: 100 * FX_ONE + 512, z: 512 };
    let dir = FxVec { x: FX_ONE, y: 0, z: 0 };
    let out = w.player_destroy_block_if_possible(origin, dir).unwrap();
    assert_eq!((out.hit.x, out.hit.z, out.hit.y), (3, 0, 100));
    let c = w.storage.chunk(cc(0, 0)).unwrap();
    assert_eq!(c.block_at(3, 0, 100), 0);

    let hitbox: Vec<FxVec> = Vec::new();
    let placed = w.player_place_block_if_possible(6, origin, dir, &hitbox);
    // Nothing solid remains along the ray.
    assert!(placed.is_none());
}
