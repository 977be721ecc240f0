//! Streaming: keeping chunks and meshes resident within a radius of a
//! moving focus, with throttled background jobs.
//!
//! A focus chunk-coordinate change — detected by comparing the new center
//! against the recorded one, not on every tick — walks the new window and
//! requests a generation job for every absent chunk and a meshing job for
//! every resident but unmeshed chunk, then removes the mesh (never the
//! voxel data) of every coordinate that left the window. At most one job
//! per (coordinate, kind) is ever in flight. Per tick, at most
//! `MAX_ACCEPTS` completed jobs are merged into the store,
//! generation-class before meshing-class, so a mesh never lands before its
//! terrain; the rest wait for later ticks.

use crate::addressing::ChunkCoord;
use crate::chunk::Chunk;
use crate::collision;
use crate::collision::{spec_resolve_from, CollisionDefect};
use crate::editor;
use crate::editor::{
    spec_place_rejected, spec_place_target, spec_remesh_targets, DestroyOutcome, PlaceOutcome,
};
use crate::geometry::{fxvec_in_range, spec_dir_nonzero, CellPos, FxVec};
use crate::mesh::ChunkMesh;
use crate::raycast::{
    fx_floor_center, spec_hit_wf, spec_in_search_region, spec_not_farther, spec_ray_candidate,
};
use crate::storage::{spec_key_of, Storage};
use vstd::prelude::*;

verus! {

broadcast use vstd::seq_lib::group_seq_properties;

/// Completed jobs merged per tick, at most.
pub const MAX_ACCEPTS: usize = 5;

/// Largest streaming radius the scheduler accepts, in chunks.
pub const MAX_RENDER_RADIUS: usize = 64;

/// What kind of background work a job does.
#[derive(Clone, Copy, PartialEq, Eq, Structural, Debug)]
pub enum JobKind {
    /// Generate the chunk's voxel grid.
    Generate,
    /// Build the chunk's mesh.
    BuildMesh,
}

/// A request for one background job, tagged by target coordinate and kind.
#[derive(Clone, Copy, PartialEq, Eq, Structural, Debug)]
pub struct JobRequest {
    pub coord: ChunkCoord,
    pub kind: JobKind,
}

/// A completed background job's result.
pub enum JobResult {
    /// A generated chunk, carrying its own coordinate.
    Generated(Chunk),
    /// A built mesh for the chunk at the coordinate.
    Meshed(ChunkCoord, ChunkMesh),
}

/// Whether a chunk coordinate lies within the window of the given center
/// and radius: Chebyshev distance at most the radius.
pub open spec fn spec_in_window(cc: ChunkCoord, center: ChunkCoord, radius: int) -> bool {
    &&& center.x - radius <= cc.x <= center.x + radius
    &&& center.z - radius <= cc.z <= center.z + radius
}

/// Whether a sequence of job requests holds no duplicate (coordinate,
/// kind) pair: at most one job per pair is in flight.
pub open spec fn spec_pending_no_dup(p: Seq<JobRequest>) -> bool {
    forall|i: int, j: int| #![trigger p[i], p[j]] 0 <= i < j < p.len() ==> p[i] != p[j]
}

/// Whether every generated chunk among the completions has its fixed
/// footprint and an in-range coordinate.
pub open spec fn spec_completions_wf(c: Seq<JobResult>) -> bool {
    forall|i: int|
        0 <= i < c.len() ==> match #[trigger] c[i] {
            JobResult::Generated(chunk) => chunk.wf(),
            JobResult::Meshed(_, _) => true,
        }
}

/// The generation results among a batch of completions, in arrival order.
pub open spec fn spec_gen_results(c: Seq<JobResult>) -> Seq<JobResult>
    decreases c.len(),
{
    if c.len() == 0 {
        Seq::empty()
    } else if c.first() is Generated {
        seq![c.first()] + spec_gen_results(c.drop_first())
    } else {
        spec_gen_results(c.drop_first())
    }
}

/// The meshing results among a batch of completions, in arrival order.
pub open spec fn spec_mesh_results(c: Seq<JobResult>) -> Seq<JobResult>
    decreases c.len(),
{
    if c.len() == 0 {
        Seq::empty()
    } else if c.first() is Meshed {
        seq![c.first()] + spec_mesh_results(c.drop_first())
    } else {
        spec_mesh_results(c.drop_first())
    }
}

/// The streamed world: the store, the recorded streaming window, the jobs
/// in flight, and the reach of the editing ray.
pub struct World {
    /// The single source of truth for chunks and meshes.
    pub storage: Storage,
    /// Center of the window residency is kept for.
    pub render_center: ChunkCoord,
    /// Chebyshev radius of the window, in chunks.
    pub render_radius_in_chunks: usize,
    /// Jobs requested and not yet drained, at most one per (coordinate,
    /// kind).
    pub pending: Vec<JobRequest>,
    /// Whether the window around the recorded center has been scheduled:
    /// a fresh world has not, so the first focus call schedules it even
    /// when the focus equals the center.
    pub window_scheduled: bool,
    /// How many cells the editing ray reaches.
    pub player_distance_to_block: usize,
}

impl World {
    /// The scheduler invariant: a sound store, a bounded radius, a center
    /// far from the coordinate range's ends, and no duplicate job in
    /// flight.
    pub open spec fn wf(&self) -> bool {
        &&& self.storage.wf()
        &&& spec_pending_no_dup(self.pending@)
        &&& 1 <= self.render_radius_in_chunks <= MAX_RENDER_RADIUS
        &&& 1 <= self.player_distance_to_block <= crate::raycast::MAX_RAY_RADIUS
        &&& -0x4000_0000 <= self.render_center.x <= 0x4000_0000
        &&& -0x4000_0000 <= self.render_center.z <= 0x4000_0000
    }

    /// A world with an empty store, centered at the origin.
    pub fn new(render_radius_in_chunks: usize, player_distance_to_block: usize) -> (r: World)
        requires
            1 <= render_radius_in_chunks <= MAX_RENDER_RADIUS,
            1 <= player_distance_to_block <= crate::raycast::MAX_RAY_RADIUS,
        ensures
            r.wf(),
            r.storage.chunks@ == Map::<u64, Chunk>::empty(),
            r.storage.meshes@ == Map::<u64, ChunkMesh>::empty(),
            r.render_center == (ChunkCoord { x: 0, z: 0 }),
            r.render_radius_in_chunks == render_radius_in_chunks,
            r.pending@.len() == 0,
            !r.window_scheduled,
    {
        World {
            storage: Storage::init(),
            render_center: ChunkCoord { x: 0, z: 0 },
            render_radius_in_chunks,
            pending: Vec::new(),
            player_distance_to_block,
            window_scheduled: false,
        }
    }

    /// Whether a job for this (coordinate, kind) is in flight.
    fn pending_has(&self, coord: ChunkCoord, kind: JobKind) -> (r: bool)
        ensures
            r == self.pending@.contains(JobRequest { coord, kind }),
    {
        let req = JobRequest { coord, kind };
        let n = self.pending.len();
        let mut i: usize = 0;
        while i < n
            invariant
                n == self.pending@.len(),
                i <= n,
                req == (JobRequest { coord, kind }),
                forall|j: int| 0 <= j < i ==> self.pending@[j] != req,
            decreases n - i,
        {
            if self.pending[i].coord.x == coord.x && self.pending[i].coord.z == coord.z
                && ((self.pending[i].kind == JobKind::Generate) == (kind == JobKind::Generate)) {
                proof {
                    assert(self.pending@[i as int] == req);
                }
                return true;
            }
            i = i + 1;
        }
        false
    }

    /// Reacts to a focus chunk-coordinate change. Once the initial window
    /// has been scheduled, a focus equal to the recorded center is a
    /// no-op. Otherwise, for every coordinate of the
    /// new window: an absent chunk gets a generation request and a
    /// resident but unmeshed chunk gets a meshing request — never one
    /// already in flight, and never a meshing request where a mesh is
    /// resident. Every coordinate of the old window that left the new one
    /// loses its mesh, voxel data retained; every mesh inside the new
    /// window survives unchanged. The returned requests are recorded as in
    /// flight and the center is updated. If every resident mesh lay within
    /// the old window, every resident mesh now lies within the new one.
    pub fn update_mesh_if_needed(&mut self, focus: ChunkCoord) -> (reqs: Vec<JobRequest>)
        requires
            old(self).wf(),
            -0x4000_0000 <= focus.x <= 0x4000_0000,
            -0x4000_0000 <= focus.z <= 0x4000_0000,
        ensures
            final(self).wf(),
            final(self).storage.chunks@ == old(self).storage.chunks@,
            final(self).render_radius_in_chunks == old(self).render_radius_in_chunks,
            final(self).player_distance_to_block == old(self).player_distance_to_block,
            focus == old(self).render_center && old(self).window_scheduled ==> *final(self)
                == *old(self) && reqs@.len() == 0,
            focus != old(self).render_center || !old(self).window_scheduled ==> {
                let radius = old(self).render_radius_in_chunks as int;
                &&& final(self).render_center == focus
                &&& final(self).pending@ == old(self).pending@ + reqs@
                &&& forall|k: int|
                    0 <= k < reqs@.len() ==> {
                        let rq = #[trigger] reqs@[k];
                        &&& spec_in_window(rq.coord, focus, radius)
                        &&& !old(self).pending@.contains(rq)
                        &&& (rq.kind == JobKind::Generate ==> !old(self).storage.spec_has_chunk(
                            rq.coord,
                        ))
                        &&& (rq.kind == JobKind::BuildMesh ==> old(self).storage.spec_has_chunk(
                            rq.coord,
                        ) && !old(self).storage.spec_has_mesh(rq.coord))
                    }
                &&& forall|cc: ChunkCoord|
                    #![trigger spec_in_window(cc, focus, radius)]
                    spec_in_window(cc, focus, radius) ==> {
                        &&& (!old(self).storage.spec_has_chunk(cc) && !old(self).pending@.contains(
                            JobRequest { coord: cc, kind: JobKind::Generate },
                        ) ==> reqs@.contains(JobRequest { coord: cc, kind: JobKind::Generate }))
                        &&& (old(self).storage.spec_has_chunk(cc)
                            && !old(self).storage.spec_has_mesh(cc)
                            && !old(self).pending@.contains(
                            JobRequest { coord: cc, kind: JobKind::BuildMesh },
                        ) ==> reqs@.contains(JobRequest { coord: cc, kind: JobKind::BuildMesh }))
                    }
                &&& final(self).window_scheduled
                &&& forall|cc: ChunkCoord|
                    #![trigger final(self).storage.spec_has_mesh(cc)]
                    final(self).storage.spec_has_mesh(cc) ==> old(self).storage.spec_has_mesh(cc)
                &&& forall|cc: ChunkCoord|
                    #![trigger old(self).storage.spec_has_mesh(cc), spec_in_window(cc, focus, radius)]
                    old(self).storage.spec_has_mesh(cc) && spec_in_window(cc, focus, radius)
                        ==> final(self).storage.spec_has_mesh(cc)
                        && final(self).storage.spec_mesh(cc) == old(self).storage.spec_mesh(cc)
                &&& forall|cc: ChunkCoord|
                    #![trigger spec_in_window(cc, old(self).render_center, radius)]
                    spec_in_window(cc, old(self).render_center, radius) && !spec_in_window(
                        cc,
                        focus,
                        radius,
                    ) ==> !final(self).storage.spec_has_mesh(cc)
                &&& (forall|cc: ChunkCoord|
                    #[trigger] old(self).storage.spec_has_mesh(cc) ==> spec_in_window(
                        cc,
                        old(self).render_center,
                        radius,
                    )) ==> (forall|cc: ChunkCoord|
                    #[trigger] final(self).storage.spec_has_mesh(cc) ==> spec_in_window(
                        cc,
                        focus,
                        radius,
                    ))
            },
    {
        if self.window_scheduled && focus.x == self.render_center.x && focus.z
            == self.render_center.z {
            return Vec::new();
        }
        let oldc = self.render_center;
        let r = self.render_radius_in_chunks as i32;
        let ghost radius = self.render_radius_in_chunks as int;

        let mut reqs: Vec<JobRequest> = Vec::new();
        let mut cx: i32 = focus.x - r;
        while cx <= focus.x + r
            invariant
                *self == *old(self),
                self.wf(),
                -0x4000_0000 <= focus.x <= 0x4000_0000,
                -0x4000_0000 <= focus.z <= 0x4000_0000,
                radius == self.render_radius_in_chunks as int,
                r as int == radius,
                1 <= r <= 64,
                focus.x - r <= cx <= focus.x + r + 1,
                spec_pending_no_dup(reqs@),
                forall|k: int|
                    0 <= k < reqs@.len() ==> {
                        let rq = #[trigger] reqs@[k];
                        &&& spec_in_window(rq.coord, focus, radius)
                        &&& rq.coord.x < cx
                        &&& !self.pending@.contains(rq)
                        &&& (rq.kind == JobKind::Generate ==> !self.storage.spec_has_chunk(
                            rq.coord,
                        ))
                        &&& (rq.kind == JobKind::BuildMesh ==> self.storage.spec_has_chunk(rq.coord)
                            && !self.storage.spec_has_mesh(rq.coord))
                    },
                forall|cc: ChunkCoord|
                    #![trigger spec_in_window(cc, focus, radius)]
                    spec_in_window(cc, focus, radius) && cc.x < cx ==> {
                        &&& (!self.storage.spec_has_chunk(cc) && !self.pending@.contains(
                            JobRequest { coord: cc, kind: JobKind::Generate },
                        ) ==> reqs@.contains(JobRequest { coord: cc, kind: JobKind::Generate }))
                        &&& (self.storage.spec_has_chunk(cc) && !self.storage.spec_has_mesh(cc)
                            && !self.pending@.contains(
                            JobRequest { coord: cc, kind: JobKind::BuildMesh },
                        ) ==> reqs@.contains(JobRequest { coord: cc, kind: JobKind::BuildMesh }))
                    },
            decreases focus.x + r + 1 - cx,
        {
            let mut cz: i32 = focus.z - r;
            while cz <= focus.z + r
                invariant
                    *self == *old(self),
                    self.wf(),
                    -0x4000_0000 <= focus.x <= 0x4000_0000,
                    -0x4000_0000 <= focus.z <= 0x4000_0000,
                    radius == self.render_radius_in_chunks as int,
                    r as int == radius,
                    1 <= r <= 64,
                    focus.x - r <= cx <= focus.x + r,
                    focus.z - r <= cz <= focus.z + r + 1,
                    spec_pending_no_dup(reqs@),
                    forall|k: int|
                        0 <= k < reqs@.len() ==> {
                            let rq = #[trigger] reqs@[k];
                            &&& spec_in_window(rq.coord, focus, radius)
                            &&& (rq.coord.x < cx || (rq.coord.x == cx && rq.coord.z < cz))
                            &&& !self.pending@.contains(rq)
                            &&& (rq.kind == JobKind::Generate ==> !self.storage.spec_has_chunk(
                                rq.coord,
                            ))
                            &&& (rq.kind == JobKind::BuildMesh ==> self.storage.spec_has_chunk(
                                rq.coord,
                            ) && !self.storage.spec_has_mesh(rq.coord))
                        },
                    forall|cc: ChunkCoord|
                        #![trigger spec_in_window(cc, focus, radius)]
                        spec_in_window(cc, focus, radius) && (cc.x < cx || (cc.x == cx && cc.z
                            < cz)) ==> {
                            &&& (!self.storage.spec_has_chunk(cc) && !self.pending@.contains(
                                JobRequest { coord: cc, kind: JobKind::Generate },
                            ) ==> reqs@.contains(
                                JobRequest { coord: cc, kind: JobKind::Generate },
                            ))
                            &&& (self.storage.spec_has_chunk(cc) && !self.storage.spec_has_mesh(cc)
                                && !self.pending@.contains(
                                JobRequest { coord: cc, kind: JobKind::BuildMesh },
                            ) ==> reqs@.contains(
                                JobRequest { coord: cc, kind: JobKind::BuildMesh },
                            ))
                        },
                decreases focus.z + r + 1 - cz,
            {
                let cc = ChunkCoord { x: cx, z: cz };
                if self.storage.chunk(cc).is_none() {
                    if !self.pending_has(cc, JobKind::Generate) {
                        reqs.push(JobRequest { coord: cc, kind: JobKind::Generate });
                    }
                } else if self.storage.get_mesh(cc).is_none() {
                    if !self.pending_has(cc, JobKind::BuildMesh) {
                        reqs.push(JobRequest { coord: cc, kind: JobKind::BuildMesh });
                    }
                }
                cz = cz + 1;
            }
            cx = cx + 1;
        }

        let mut ex: i32 = oldc.x - r;
        while ex <= oldc.x + r
            invariant
                self.storage.wf(),
                self.render_center == old(self).render_center,
                self.render_radius_in_chunks == old(self).render_radius_in_chunks,
                self.player_distance_to_block == old(self).player_distance_to_block,
                self.pending == old(self).pending,
                self.window_scheduled == old(self).window_scheduled,
                spec_pending_no_dup(self.pending@),
                self.storage.chunks@ == old(self).storage.chunks@,
                oldc == old(self).render_center,
                -0x4000_0000 <= oldc.x <= 0x4000_0000,
                -0x4000_0000 <= oldc.z <= 0x4000_0000,
                -0x4000_0000 <= focus.x <= 0x4000_0000,
                -0x4000_0000 <= focus.z <= 0x4000_0000,
                radius == self.render_radius_in_chunks as int,
                r as int == radius,
                1 <= r <= 64,
                forall|cc: ChunkCoord|
                    #![trigger old(self).storage.spec_has_mesh(cc), spec_in_window(cc, focus, radius)]
                    old(self).storage.spec_has_mesh(cc) && spec_in_window(cc, focus, radius)
                        ==> self.storage.spec_has_mesh(cc),
                oldc.x - r <= ex <= oldc.x + r + 1,
                forall|cc: ChunkCoord|
                    #![trigger self.storage.spec_has_mesh(cc)]
                    self.storage.spec_has_mesh(cc) ==> old(self).storage.spec_has_mesh(cc)
                        && self.storage.spec_mesh(cc) == old(self).storage.spec_mesh(cc),
                forall|cc: ChunkCoord|
                    #![trigger spec_in_window(cc, oldc, radius)]
                    spec_in_window(cc, oldc, radius) && cc.x < ex && !spec_in_window(
                        cc,
                        focus,
                        radius,
                    ) ==> !self.storage.spec_has_mesh(cc),
            decreases oldc.x + r + 1 - ex,
        {
            let mut ez: i32 = oldc.z - r;
            while ez <= oldc.z + r
                invariant
                    self.storage.wf(),
                    self.render_center == old(self).render_center,
                    self.render_radius_in_chunks == old(self).render_radius_in_chunks,
                    self.player_distance_to_block == old(self).player_distance_to_block,
                    self.pending == old(self).pending,
                    self.window_scheduled == old(self).window_scheduled,
                    spec_pending_no_dup(self.pending@),
                    self.storage.chunks@ == old(self).storage.chunks@,
                    oldc == old(self).render_center,
                    -0x4000_0000 <= oldc.x <= 0x4000_0000,
                    -0x4000_0000 <= oldc.z <= 0x4000_0000,
                    -0x4000_0000 <= focus.x <= 0x4000_0000,
                    -0x4000_0000 <= focus.z <= 0x4000_0000,
                    radius == self.render_radius_in_chunks as int,
                    r as int == radius,
                    1 <= r <= 64,
                    forall|cc: ChunkCoord|
                        #![trigger old(self).storage.spec_has_mesh(cc), spec_in_window(cc, focus, radius)]
                        old(self).storage.spec_has_mesh(cc) && spec_in_window(cc, focus, radius)
                            ==> self.storage.spec_has_mesh(cc),
                    oldc.x - r <= ex <= oldc.x + r,
                    oldc.z - r <= ez <= oldc.z + r + 1,
                    forall|cc: ChunkCoord|
                        #![trigger self.storage.spec_has_mesh(cc)]
                        self.storage.spec_has_mesh(cc) ==> old(self).storage.spec_has_mesh(cc)
                            && self.storage.spec_mesh(cc) == old(self).storage.spec_mesh(cc),
                    forall|cc: ChunkCoord|
                        #![trigger spec_in_window(cc, oldc, radius)]
                        spec_in_window(cc, oldc, radius) && (cc.x < ex || (cc.x == ex && cc.z < ez))
                            && !spec_in_window(cc, focus, radius) ==> !self.storage.spec_has_mesh(
                            cc,
                        ),
                decreases oldc.z + r + 1 - ez,
            {
                let dx: i64 = if ex >= focus.x {
                    ex as i64 - focus.x as i64
                } else {
                    focus.x as i64 - ex as i64
                };
                let dz: i64 = if ez >= focus.z {
                    ez as i64 - focus.z as i64
                } else {
                    focus.z as i64 - ez as i64
                };
                if dx > r as i64 || dz > r as i64 {
                    let ghost pre_storage = self.storage;
                    self.storage.destroy_mesh(ChunkCoord { x: ex, z: ez });
                    proof {
                        let gone = ChunkCoord { x: ex, z: ez };
                        assert forall|cc: ChunkCoord|
                            #![trigger self.storage.spec_has_mesh(cc)]
                            self.storage.spec_has_mesh(cc) implies old(
                            self,
                        ).storage.spec_has_mesh(cc) && self.storage.spec_mesh(cc) == old(
                            self,
                        ).storage.spec_mesh(cc) by {
                            if spec_key_of(cc) == spec_key_of(gone) {
                                crate::storage::lemma_key_injective(cc, gone);
                                assert(false);
                            }
                            assert(pre_storage.spec_has_mesh(cc));
                            assert(self.storage.spec_mesh(cc) == pre_storage.spec_mesh(cc));
                        }
                        assert(!spec_in_window(gone, focus, radius));
                        assert forall|cc: ChunkCoord|
                            #![trigger old(self).storage.spec_has_mesh(cc), spec_in_window(cc, focus, radius)]
                            old(self).storage.spec_has_mesh(cc) && spec_in_window(
                            cc,
                            focus,
                            radius,
                        ) implies self.storage.spec_has_mesh(cc) by {
                            assert(pre_storage.spec_has_mesh(cc));
                            if spec_key_of(cc) == spec_key_of(gone) {
                                crate::storage::lemma_key_injective(cc, gone);
                                assert(false);
                            }
                        }
                    }
                }
                ez = ez + 1;
            }
            ex = ex + 1;
        }

        self.render_center = focus;
        self.window_scheduled = true;

        proof {
            if forall|cc: ChunkCoord|
                #[trigger] old(self).storage.spec_has_mesh(cc) ==> spec_in_window(
                    cc,
                    old(self).render_center,
                    radius,
                ) {
                assert forall|cc: ChunkCoord|
                    #[trigger] self.storage.spec_has_mesh(cc) implies spec_in_window(
                    cc,
                    focus,
                    radius,
                ) by {
                    assert(old(self).storage.spec_has_mesh(cc));
                    assert(spec_in_window(cc, oldc, radius));
                }
            }
        }

        let ghost pre_append = *self;
        let mut k: usize = 0;
        while k < reqs.len()
            invariant
                self.storage == pre_append.storage,
                self.render_center == pre_append.render_center,
                self.render_radius_in_chunks == pre_append.render_radius_in_chunks,
                self.player_distance_to_block == pre_append.player_distance_to_block,
                self.window_scheduled == pre_append.window_scheduled,
                k <= reqs@.len(),
                self.pending@ == pre_append.pending@ + reqs@.subrange(0, k as int),
                spec_pending_no_dup(pre_append.pending@),
                spec_pending_no_dup(reqs@),
                forall|k2: int|
                    0 <= k2 < reqs@.len() ==> !pre_append.pending@.contains(#[trigger] reqs@[k2]),
                spec_pending_no_dup(self.pending@),
            decreases reqs@.len() - k,
        {
            let ghost oldp = self.pending@;
            self.pending.push(reqs[k]);
            proof {
                let base = pre_append.pending@;
                let bl = base.len() as int;
                assert(self.pending@ =~= base + reqs@.subrange(0, k as int + 1));
                assert forall|a: int, b: int|
                    #![trigger self.pending@[a], self.pending@[b]]
                    0 <= a < b < self.pending@.len() implies self.pending@[a]
                    != self.pending@[b] by {
                    if b < self.pending@.len() - 1 {
                        assert(self.pending@[a] == oldp[a] && self.pending@[b] == oldp[b]);
                    } else {
                        assert(self.pending@[b] == reqs@[k as int]);
                        if a < bl {
                            assert(self.pending@[a] == base[a]);
                            if base[a] == reqs@[k as int] {
                                assert(base.contains(reqs@[k as int]));
                            }
                        } else {
                            assert(self.pending@[a] == reqs@[a - bl]);
                            assert(a - bl < k);
                        }
                    }
                }
            }
            k = k + 1;
        }
        proof {
            assert(reqs@.subrange(0, reqs@.len() as int) =~= reqs@);
        }
        reqs
    }

    /// Records one job as in flight; the job must not be in flight yet.
    fn pending_add(&mut self, req: JobRequest)
        requires
            spec_pending_no_dup(old(self).pending@),
            !old(self).pending@.contains(req),
        ensures
            final(self).storage == old(self).storage,
            final(self).render_center == old(self).render_center,
            final(self).render_radius_in_chunks == old(self).render_radius_in_chunks,
            final(self).player_distance_to_block == old(self).player_distance_to_block,
            final(self).window_scheduled == old(self).window_scheduled,
            final(self).pending@ == old(self).pending@.push(req),
            spec_pending_no_dup(final(self).pending@),
    {
        self.pending.push(req);
        proof {
            let base = old(self).pending@;
            assert forall|a: int, b: int|
                #![trigger self.pending@[a], self.pending@[b]]
                0 <= a < b < self.pending@.len() implies self.pending@[a]
                != self.pending@[b] by {
                if b < self.pending@.len() - 1 {
                    assert(self.pending@[a] == base[a] && self.pending@[b] == base[b]);
                } else {
                    assert(self.pending@[b] == req);
                    assert(self.pending@[a] == base[a]);
                    if base[a] == req {
                        assert(base.contains(req));
                    }
                }
            }
        }
    }

    /// Drains completed background jobs into the store: at most
    /// `MAX_ACCEPTS` completions are merged per call, generation-class
    /// before meshing-class, so a mesh never lands before its terrain; the
    /// rest are returned to wait for a later tick, remaining generations
    /// first — exactly the generation results past the first `gm` and the
    /// meshing results past the first `mm`, where `gm` generations and
    /// `mm` meshes fill the cap in arrival order. A merged generation
    /// lands insert-if-absent and, when its
    /// coordinate is in the window and unmeshed with no meshing job in
    /// flight, issues a follow-up meshing request; a merged mesh lands
    /// only where its chunk is resident and is discarded otherwise.
    /// Chunks and meshes never leave the store here.
    pub fn update_state(&mut self, completions: Vec<JobResult>) -> (r: (
        Vec<JobResult>,
        Vec<JobRequest>,
    ))
        requires
            old(self).wf(),
            spec_completions_wf(completions@),
        ensures
            final(self).wf(),
            final(self).render_center == old(self).render_center,
            final(self).render_radius_in_chunks == old(self).render_radius_in_chunks,
            final(self).player_distance_to_block == old(self).player_distance_to_block,
            final(self).window_scheduled == old(self).window_scheduled,
            r.0@.len() == if completions@.len() <= MAX_ACCEPTS {
                0int
            } else {
                completions@.len() - MAX_ACCEPTS
            },
            ({
                let gens = spec_gen_results(completions@);
                let meshes = spec_mesh_results(completions@);
                let gm: int = if gens.len() <= MAX_ACCEPTS {
                    gens.len() as int
                } else {
                    MAX_ACCEPTS as int
                };
                let mm: int = if meshes.len() <= MAX_ACCEPTS as int - gm {
                    meshes.len() as int
                } else {
                    MAX_ACCEPTS as int - gm
                };
                &&& r.0@ == gens.skip(gm) + meshes.skip(mm)
                &&& forall|i: int|
                    0 <= i < gm ==> ((#[trigger] gens[i]) matches JobResult::Generated(c)
                        && final(self).storage.spec_has_chunk(c.coord))
                &&& forall|i: int|
                    0 <= i < mm ==> ((#[trigger] meshes[i]) matches JobResult::Meshed(cc, _) && (
                    final(self).storage.spec_has_chunk(cc)
                        ==> final(self).storage.spec_has_mesh(cc)))
            }),
            forall|q: u64|
                #[trigger] old(self).storage.chunks@.contains_key(q)
                    ==> final(self).storage.chunks@.contains_key(q)
                    && final(self).storage.chunks@[q] == old(self).storage.chunks@[q],
            forall|q: u64|
                #[trigger] old(self).storage.meshes@.contains_key(q)
                    ==> final(self).storage.meshes@.contains_key(q),
            forall|k: int|
                0 <= k < r.1@.len() ==> (#[trigger] r.1@[k]).kind == JobKind::BuildMesh,
            forall|req: JobRequest|
                #[trigger] final(self).pending@.contains(req) ==> old(self).pending@.contains(req)
                    || r.1@.contains(req),
            completions@.len() <= MAX_ACCEPTS ==> forall|i: int|
                0 <= i < completions@.len() ==> match #[trigger] completions@[i] {
                    JobResult::Generated(c) => final(self).storage.spec_has_chunk(c.coord),
                    JobResult::Meshed(cc, _) => (final(self).storage.spec_has_chunk(cc)
                        ==> final(self).storage.spec_has_mesh(cc)),
                },
    {
        let ghost orig = completions@;
        let mut completions = completions;
        let mut gens: Vec<JobResult> = Vec::new();
        let mut meshes: Vec<JobResult> = Vec::new();
        proof {
            assert(orig.skip(0) =~= orig);
            assert(gens@ + spec_gen_results(orig) =~= spec_gen_results(orig));
            assert(meshes@ + spec_mesh_results(orig) =~= spec_mesh_results(orig));
        }
        while completions.len() > 0
            invariant
                spec_completions_wf(orig),
                spec_gen_results(orig) == gens@ + spec_gen_results(
                    orig.skip(gens@.len() + meshes@.len() as int),
                ),
                spec_mesh_results(orig) == meshes@ + spec_mesh_results(
                    orig.skip(gens@.len() + meshes@.len() as int),
                ),
                orig.len() == completions@.len() + gens@.len() + meshes@.len(),
                completions@ == orig.subrange(
                    gens@.len() + meshes@.len() as int,
                    orig.len() as int,
                ),
                forall|i: int|
                    0 <= i < gens@.len() ==> ((#[trigger] gens@[i]) matches JobResult::Generated(
                        c,
                    ) && c.wf()),
                forall|i: int|
                    0 <= i < meshes@.len() ==> (#[trigger] meshes@[i]) matches JobResult::Meshed(
                        _,
                        _,
                    ),
                forall|i: int|
                    0 <= i < gens@.len() + meshes@.len() ==> match #[trigger] orig[i] {
                        JobResult::Generated(_) => gens@.contains(orig[i]),
                        JobResult::Meshed(_, _) => meshes@.contains(orig[i]),
                    },
            decreases completions@.len(),
        {
            let ghost done: int = gens@.len() + meshes@.len() as int;
            let ghost gens_pre = gens@;
            let ghost meshes_pre = meshes@;
            let item = completions.remove(0);
            proof {
                assert(item == orig[done as int]);
                assert(completions@ =~= orig.subrange(done + 1, orig.len() as int));
                assert(orig.skip(done).len() > 0);
                assert(orig.skip(done).first() == item);
                assert(orig.skip(done).drop_first() =~= orig.skip(done + 1));
            }
            match item {
                JobResult::Generated(c) => {
                    gens.push(JobResult::Generated(c));
                    proof {
                        let rest = spec_gen_results(orig.skip(done + 1));
                        assert(spec_gen_results(orig.skip(done)) == seq![
                            orig.skip(done).first(),
                        ] + rest);
                        assert(gens@ =~= gens_pre + seq![orig.skip(done).first()]);
                        assert(gens_pre + (seq![orig.skip(done).first()] + rest) =~= gens@
                            + rest);
                        assert(spec_mesh_results(orig.skip(done)) == spec_mesh_results(
                            orig.skip(done + 1),
                        ));
                    }
                },
                JobResult::Meshed(cc, m) => {
                    meshes.push(JobResult::Meshed(cc, m));
                    proof {
                        let rest = spec_mesh_results(orig.skip(done + 1));
                        assert(spec_mesh_results(orig.skip(done)) == seq![
                            orig.skip(done).first(),
                        ] + rest);
                        assert(meshes@ =~= meshes_pre + seq![orig.skip(done).first()]);
                        assert(meshes_pre + (seq![orig.skip(done).first()] + rest) =~= meshes@
                            + rest);
                        assert(spec_gen_results(orig.skip(done)) == spec_gen_results(
                            orig.skip(done + 1),
                        ));
                    }
                },
            }
        }
        proof {
            assert(orig.len() == gens@.len() + meshes@.len());
            assert(orig.skip(orig.len() as int) =~= Seq::<JobResult>::empty());
            assert(spec_gen_results(Seq::<JobResult>::empty()) == Seq::<JobResult>::empty());
            assert(spec_mesh_results(Seq::<JobResult>::empty()) == Seq::<JobResult>::empty());
            assert(gens@ + Seq::<JobResult>::empty() =~= gens@);
            assert(meshes@ + Seq::<JobResult>::empty() =~= meshes@);
            assert(gens@ == spec_gen_results(orig));
            assert(meshes@ == spec_mesh_results(orig));
        }

        let ghost gens_init = gens@;
        let ghost meshes_init = meshes@;
        let ghost pre = *self;
        let mut followups: Vec<JobRequest> = Vec::new();
        let mut g: usize = 0;
        while g < MAX_ACCEPTS && gens.len() > 0
            invariant
                pre == *old(self),
                pre.wf(),
                self.wf(),
                self.render_center == pre.render_center,
                self.render_radius_in_chunks == pre.render_radius_in_chunks,
                self.player_distance_to_block == pre.player_distance_to_block,
                self.window_scheduled == pre.window_scheduled,
                self.storage.meshes@ == pre.storage.meshes@,
                g <= MAX_ACCEPTS,
                g + gens@.len() == gens_init.len(),
                gens@ == gens_init.subrange(g as int, gens_init.len() as int),
                forall|i: int|
                    0 <= i < gens_init.len() ==> ((#[trigger] gens_init[i]) matches JobResult::Generated(
                        c,
                    ) && c.wf()),
                forall|i: int|
                    0 <= i < g ==> ((#[trigger] gens_init[i]) matches JobResult::Generated(c)
                        && self.storage.spec_has_chunk(c.coord)),
                forall|q: u64|
                    #[trigger] pre.storage.chunks@.contains_key(q)
                        ==> self.storage.chunks@.contains_key(q) && self.storage.chunks@[q]
                        == pre.storage.chunks@[q],
                forall|k: int|
                    0 <= k < followups@.len() ==> (#[trigger] followups@[k]).kind
                        == JobKind::BuildMesh,
                forall|req: JobRequest|
                    #[trigger] self.pending@.contains(req) ==> pre.pending@.contains(req)
                        || followups@.contains(req),
            decreases gens@.len(),
        {
            let item = gens.remove(0);
            proof {
                assert(item == gens_init[g as int]);
                assert(gens@ =~= gens_init.subrange(g as int + 1, gens_init.len() as int));
            }
            match item {
                JobResult::Generated(chunk) => {
                    let cc = chunk.coord;
                    let ghost mid = self.storage;
                    self.storage.store_chunk(chunk);
                    proof {
                        assert forall|q: u64|
                            #[trigger] pre.storage.chunks@.contains_key(q)
                                implies self.storage.chunks@.contains_key(q)
                                && self.storage.chunks@[q] == pre.storage.chunks@[q] by {
                            assert(mid.chunks@.contains_key(q));
                        }
                    }
                    self.pending_remove(cc, JobKind::Generate);
                    let dx: i64 = if cc.x >= self.render_center.x {
                        cc.x as i64 - self.render_center.x as i64
                    } else {
                        self.render_center.x as i64 - cc.x as i64
                    };
                    let dz: i64 = if cc.z >= self.render_center.z {
                        cc.z as i64 - self.render_center.z as i64
                    } else {
                        self.render_center.z as i64 - cc.z as i64
                    };
                    let rad = self.render_radius_in_chunks as i64;
                    if dx <= rad && dz <= rad && self.storage.get_mesh(cc).is_none()
                        && !self.pending_has(cc, JobKind::BuildMesh) {
                        let req = JobRequest { coord: cc, kind: JobKind::BuildMesh };
                        self.pending_add(req);
                        followups.push(req);
                    }
                },
                JobResult::Meshed(_, _) => {
                    proof {
                        assert(false);
                    }
                },
            }
            g = g + 1;
        }

        let ghost pre_mesh = *self;
        let mut m: usize = 0;
        while g + m < MAX_ACCEPTS && meshes.len() > 0
            invariant
                pre_mesh.wf(),
                self.wf(),
                self.render_center == pre_mesh.render_center,
                self.render_radius_in_chunks == pre_mesh.render_radius_in_chunks,
                self.player_distance_to_block == pre_mesh.player_distance_to_block,
                self.window_scheduled == pre_mesh.window_scheduled,
                self.storage.chunks@ == pre_mesh.storage.chunks@,
                g <= MAX_ACCEPTS,
                m <= MAX_ACCEPTS,
                g + m <= MAX_ACCEPTS,
                g + gens@.len() == gens_init.len(),
                m <= meshes_init.len(),
                m + meshes@.len() == meshes_init.len(),
                meshes@ == meshes_init.subrange(m as int, meshes_init.len() as int),
                forall|i: int|
                    0 <= i < meshes_init.len() ==> (
                    #[trigger] meshes_init[i]) matches JobResult::Meshed(_, _),
                forall|i: int|
                    0 <= i < m ==> match #[trigger] meshes_init[i] {
                        JobResult::Meshed(cc, _) => (self.storage.spec_has_chunk(cc)
                            ==> self.storage.spec_has_mesh(cc)),
                        JobResult::Generated(_) => true,
                    },
                forall|q: u64|
                    #[trigger] pre_mesh.storage.meshes@.contains_key(q)
                        ==> self.storage.meshes@.contains_key(q),
                forall|req: JobRequest|
                    #[trigger] self.pending@.contains(req) ==> pre_mesh.pending@.contains(req),
            decreases meshes@.len(),
        {
            let item = meshes.remove(0);
            proof {
                assert(item == meshes_init[m as int]);
                assert(meshes@ =~= meshes_init.subrange(m as int + 1, meshes_init.len() as int));
            }
            match item {
                JobResult::Meshed(cc, mesh) => {
                    let ghost mid = self.storage;
                    if self.storage.chunk(cc).is_some() {
                        self.storage.update_mesh(cc, mesh);
                        proof {
                            assert forall|i: int| 0 <= i < m + 1 implies match #[trigger] meshes_init[i] {
                                JobResult::Meshed(cc2, _) => (self.storage.spec_has_chunk(cc2)
                                    ==> self.storage.spec_has_mesh(cc2)),
                                JobResult::Generated(_) => true,
                            } by {
                                if i < m {
                                    match meshes_init[i] {
                                        JobResult::Meshed(cc2, _) => {
                                            assert(mid.spec_has_chunk(cc2)
                                                ==> mid.spec_has_mesh(cc2));
                                        },
                                        JobResult::Generated(_) => {},
                                    }
                                }
                            }
                        }
                    }
                    self.pending_remove(cc, JobKind::BuildMesh);
                },
                JobResult::Generated(_) => {
                    proof {
                        assert(false);
                    }
                },
            }
            m = m + 1;
        }

        proof {
            assert(g + m == if orig.len() <= MAX_ACCEPTS {
                orig.len() as int
            } else {
                MAX_ACCEPTS as int
            });
            if orig.len() <= MAX_ACCEPTS {
                assert forall|i: int| 0 <= i < orig.len() implies match #[trigger] orig[i] {
                    JobResult::Generated(c) => self.storage.spec_has_chunk(c.coord),
                    JobResult::Meshed(cc, _) => (self.storage.spec_has_chunk(cc)
                        ==> self.storage.spec_has_mesh(cc)),
                } by {
                    match orig[i] {
                        JobResult::Generated(c) => {
                            assert(gens_init.contains(orig[i]));
                            let j = choose|j: int|
                                0 <= j < gens_init.len() && gens_init[j] == orig[i];
                            assert(j < g);
                        },
                        JobResult::Meshed(cc, _) => {
                            assert(meshes_init.contains(orig[i]));
                            let j = choose|j: int|
                                0 <= j < meshes_init.len() && meshes_init[j] == orig[i];
                            assert(j < m);
                        },
                    }
                }
            }
            assert(g as int == if gens_init.len() <= MAX_ACCEPTS {
                gens_init.len() as int
            } else {
                MAX_ACCEPTS as int
            });
            assert(m as int == if meshes_init.len() <= MAX_ACCEPTS as int - g {
                meshes_init.len() as int
            } else {
                MAX_ACCEPTS as int - g
            });
        }
        let mut leftover = gens;
        proof {
            assert(leftover@ =~= gens_init.skip(g as int));
            assert(meshes@ =~= meshes_init.skip(m as int));
        }
        while meshes.len() > 0
            invariant
                g <= gens_init.len(),
                m <= meshes_init.len(),
                leftover@.len() + meshes@.len() == (gens_init.len() - g) + (meshes_init.len()
                    - m),
                leftover@ + meshes@ == gens_init.skip(g as int) + meshes_init.skip(m as int),
            decreases meshes@.len(),
        {
            let ghost left_pre = leftover@;
            let ghost meshes_pre = meshes@;
            let item = meshes.remove(0);
            leftover.push(item);
            proof {
                assert(leftover@ + meshes@ =~= left_pre + meshes_pre);
            }
        }
        proof {
            assert(leftover@ + meshes@ =~= leftover@);
            assert(leftover@ == spec_gen_results(orig).skip(g as int) + spec_mesh_results(
                orig,
            ).skip(m as int));
        }
        (leftover, followups)
    }

    /// Removes the job for this (coordinate, kind) from the in-flight
    /// list, if present.
    fn pending_remove(&mut self, coord: ChunkCoord, kind: JobKind)
        requires
            spec_pending_no_dup(old(self).pending@),
        ensures
            final(self).storage == old(self).storage,
            final(self).render_center == old(self).render_center,
            final(self).render_radius_in_chunks == old(self).render_radius_in_chunks,
            final(self).player_distance_to_block == old(self).player_distance_to_block,
            final(self).window_scheduled == old(self).window_scheduled,
            spec_pending_no_dup(final(self).pending@),
            !final(self).pending@.contains(JobRequest { coord, kind }),
            forall|r: JobRequest|
                #[trigger] final(self).pending@.contains(r) ==> old(self).pending@.contains(r),
            forall|r: JobRequest|
                old(self).pending@.contains(r) && r != (JobRequest { coord, kind })
                    ==> #[trigger] final(self).pending@.contains(r),
    {
        let req = JobRequest { coord, kind };
        let n = self.pending.len();
        let mut i: usize = 0;
        while i < n
            invariant
                n == self.pending@.len(),
                *self == *old(self),
                spec_pending_no_dup(old(self).pending@),
                i <= n,
                req == (JobRequest { coord, kind }),
                forall|j: int| 0 <= j < i ==> self.pending@[j] != req,
            decreases n - i,
        {
            if self.pending[i].coord.x == coord.x && self.pending[i].coord.z == coord.z
                && ((self.pending[i].kind == JobKind::Generate) == (kind == JobKind::Generate)) {
                proof {
                    assert(self.pending@[i as int] == req);
                }
                self.pending.remove(i);
                proof {
                    let pre = old(self).pending@;
                    let post = self.pending@;
                    assert(post == pre.remove(i as int));
                    pre.remove_ensures(i as int);
                    assert forall|r: JobRequest| #[trigger] post.contains(r) implies pre.contains(
                        r,
                    ) by {
                        let j = choose|j: int| 0 <= j < post.len() && post[j] == r;
                        if j < i {
                            assert(pre[j] == r);
                        } else {
                            assert(pre[j + 1] == r);
                        }
                    }
                    assert forall|r: JobRequest|
                        pre.contains(r) && r != req implies #[trigger] post.contains(r) by {
                        let j = choose|j: int| 0 <= j < pre.len() && pre[j] == r;
                        if j < i {
                            assert(post[j] == r);
                        } else {
                            assert(j != i);
                            assert(post[j - 1] == r);
                        }
                    }
                    assert(!post.contains(req)) by {
                        if post.contains(req) {
                            let j = choose|j: int| 0 <= j < post.len() && post[j] == req;
                            if j < i {
                                assert(post[j] == pre[j]);
                                assert(pre[j] != pre[i as int]);
                                assert(false);
                            } else {
                                assert(post[j] == pre[j + 1]);
                                assert(pre[i as int] != pre[j + 1]);
                                assert(false);
                            }
                        }
                    }
                    assert(spec_pending_no_dup(post)) by {
                        assert forall|a: int, b: int|
                            0 <= a < b < post.len() implies post[a] != post[b] by {
                            let a2: int = if a < i {
                                a
                            } else {
                                a + 1
                            };
                            let b2: int = if b < i {
                                b
                            } else {
                                b + 1
                            };
                            assert(post[a] == pre[a2]);
                            assert(post[b] == pre[b2]);
                            assert(pre[a2] != pre[b2]);
                        }
                    }
                }
                return;
            }
            i = i + 1;
        }
    }

    /// Destroys the nearest solid voxel along the player's view ray, as
    /// far as the player's reach: the voxel becomes air and the outcome
    /// names the meshes the edit staled. No solid cell in reach is a
    /// no-op. The window, the in-flight jobs and all meshes are untouched.
    pub fn player_destroy_block_if_possible(&mut self, origin: FxVec, view_ray: FxVec) -> (r:
        Option<DestroyOutcome>)
        requires
            old(self).wf(),
            fxvec_in_range(origin),
            fxvec_in_range(view_ray),
            spec_dir_nonzero(view_ray),
        ensures
            final(self).wf(),
            final(self).render_center == old(self).render_center,
            final(self).render_radius_in_chunks == old(self).render_radius_in_chunks,
            final(self).pending@ == old(self).pending@,
            final(self).player_distance_to_block == old(self).player_distance_to_block,
            final(self).window_scheduled == old(self).window_scheduled,
            final(self).storage.meshes@ == old(self).storage.meshes@,
            ({
                let radius = old(self).player_distance_to_block as int;
                let center = fx_floor_center(origin);
                match r {
                    None => {
                        &&& final(self).storage == old(self).storage
                        &&& forall|cell: CellPos|
                            spec_in_search_region(cell, center, radius) ==> !spec_ray_candidate(
                                &old(self).storage,
                                cell,
                                origin,
                                view_ray,
                            )
                    },
                    Some(o) => {
                        &&& spec_hit_wf(&old(self).storage, o.hit, origin, view_ray, center, radius)
                        &&& forall|cell: CellPos|
                            spec_in_search_region(cell, center, radius) && spec_ray_candidate(
                                &old(self).storage,
                                cell,
                                origin,
                                view_ray,
                            ) ==> spec_not_farther(o.hit, cell, origin, view_ray)
                        &&& final(self).storage.spec_chunk(o.hit.cc).voxels@ == old(
                            self,
                        ).storage.spec_chunk(o.hit.cc).voxels@.update(
                            crate::chunk::spec_voxel_index(
                                o.hit.x as int,
                                o.hit.z as int,
                                o.hit.y as int,
                            ),
                            0u64,
                        )
                        &&& final(self).storage.chunks@ == old(self).storage.chunks@.insert(
                            spec_key_of(o.hit.cc),
                            final(self).storage.spec_chunk(o.hit.cc),
                        )
                        &&& o.remesh@ == spec_remesh_targets(
                            final(self).storage,
                            o.hit.cc,
                            o.hit.x as int,
                            o.hit.z as int,
                            o.hit.y as int,
                        )
                    },
                }
            }),
    {
        let radius = self.player_distance_to_block;
        editor::player_destroy_block_if_possible(&mut self.storage, origin, view_ray, radius)
    }

    /// Places a block into the empty cell the view ray entered the nearest
    /// solid voxel from, as far as the player's reach. The placement is
    /// rejected — nothing mutated — when the target leaves the height
    /// range, overlaps a vertex of the acting agent's hitbox, lies in a
    /// chunk that is not resident, or is not air. The window, the
    /// in-flight jobs and all meshes are untouched.
    pub fn player_place_block_if_possible(
        &mut self,
        block: u64,
        origin: FxVec,
        view_ray: FxVec,
        hitbox: &Vec<FxVec>,
    ) -> (r: Option<PlaceOutcome>)
        requires
            old(self).wf(),
            fxvec_in_range(origin),
            fxvec_in_range(view_ray),
            spec_dir_nonzero(view_ray),
            forall|i: int| 0 <= i < hitbox@.len() ==> fxvec_in_range(#[trigger] hitbox@[i]),
        ensures
            final(self).wf(),
            final(self).render_center == old(self).render_center,
            final(self).render_radius_in_chunks == old(self).render_radius_in_chunks,
            final(self).pending@ == old(self).pending@,
            final(self).player_distance_to_block == old(self).player_distance_to_block,
            final(self).window_scheduled == old(self).window_scheduled,
            final(self).storage.meshes@ == old(self).storage.meshes@,
            ({
                let radius = old(self).player_distance_to_block as int;
                let center = fx_floor_center(origin);
                match r {
                    None => {
                        &&& final(self).storage == old(self).storage
                        &&& {
                            ||| forall|cell: CellPos|
                                spec_in_search_region(cell, center, radius)
                                    ==> !spec_ray_candidate(
                                    &old(self).storage,
                                    cell,
                                    origin,
                                    view_ray,
                                )
                            ||| exists|h: crate::raycast::RayHit|
                                {
                                    &&& spec_hit_wf(
                                        &old(self).storage,
                                        h,
                                        origin,
                                        view_ray,
                                        center,
                                        radius,
                                    )
                                    &&& forall|cell: CellPos|
                                        spec_in_search_region(cell, center, radius)
                                            && spec_ray_candidate(
                                            &old(self).storage,
                                            cell,
                                            origin,
                                            view_ray,
                                        ) ==> spec_not_farther(h, cell, origin, view_ray)
                                    &&& #[trigger] spec_place_rejected(
                                        old(self).storage,
                                        h,
                                        origin,
                                        view_ray,
                                        hitbox@,
                                    )
                                }
                        }
                    },
                    Some(p) => {
                        &&& spec_hit_wf(&old(self).storage, p.hit, origin, view_ray, center, radius)
                        &&& p.target == spec_place_target(
                            p.hit.cell,
                            origin,
                            view_ray,
                            p.hit.tmin.view_pair(),
                        )
                        &&& !editor::spec_hitbox_overlap(origin, hitbox@, p.target)
                        &&& p.cc == crate::raycast::spec_cell_cc(p.target)
                        &&& old(self).storage.spec_has_chunk(p.cc)
                        &&& crate::voxel::spec_is_air(
                            old(self).storage.spec_chunk(p.cc).spec_voxel(
                                p.x as int,
                                p.z as int,
                                p.y as int,
                            ),
                        )
                        &&& final(self).storage.spec_chunk(p.cc).voxels@ == old(
                            self,
                        ).storage.spec_chunk(p.cc).voxels@.update(
                            crate::chunk::spec_voxel_index(p.x as int, p.z as int, p.y as int),
                            block,
                        )
                        &&& final(self).storage.chunks@ == old(self).storage.chunks@.insert(
                            spec_key_of(p.cc),
                            final(self).storage.spec_chunk(p.cc),
                        )
                        &&& p.remesh@ == spec_remesh_targets(
                            final(self).storage,
                            p.cc,
                            p.x as int,
                            p.z as int,
                            p.y as int,
                        )
                    },
                }
            }),
    {
        let radius = self.player_distance_to_block;
        editor::player_place_block_if_possible(
            &mut self.storage,
            block,
            origin,
            view_ray,
            radius,
            hitbox,
        )
    }

    /// Resolves a proposed player position against the voxel grid: each
    /// hitbox vertex gets up to three relaxation passes, each pushing the
    /// position back across the face its entry point lies exactly on.
    pub fn update_player_position(
        &self,
        hitbox: &Vec<FxVec>,
        new_position: FxVec,
    ) -> (r: Result<FxVec, CollisionDefect>)
        requires
            self.wf(),
            hitbox@.len() <= collision::MAX_HITBOX_LEN,
            forall|i: int| 0 <= i < hitbox@.len() ==> fxvec_in_range(#[trigger] hitbox@[i]),
            -0x80_0000_0000 <= new_position.x as int <= 0x80_0000_0000,
            -0x80_0000_0000 <= new_position.y as int <= 0x80_0000_0000,
            -0x80_0000_0000 <= new_position.z as int <= 0x80_0000_0000,
        ensures
            r == spec_resolve_from(self.storage, hitbox@, new_position, 0, 0),
    {
        collision::update_player_position(&self.storage, hitbox, new_position)
    }
}

} // verus!
