//! The meshing scheduler: one strictly sequential state machine per chunk
//! (no mesh needed, needs mesh, mesh pending, mesh applied), a repeating
//! dispatch timer, and a per-poll budget on how many completed meshes are
//! applied in one frame.
//!
//! Dispatch hands out jobs holding cloned snapshots; a worker owned by the
//! application runs [`crate::mesher::build_mesh`] on each job and hands the
//! result back through [`MeshScheduler::complete_task`]; polling then
//! applies completed results to the render mesh store, at most `budget` per
//! call, deferring the rest to the next poll.

use vstd::prelude::*;

use crate::chunk::{Chunk, ChunkCoord, ChunkIdx, ChunkType};
use crate::direction::Direction;
use crate::level::Level;
use crate::mesh_data::MeshData;
use crate::mesher::neighbors_wf;

verus! {

/// A repeating timer gating dispatch: meshing work is queued only on ticks
/// where the accumulated time crosses the interval, not every frame.
#[derive(Clone, Copy, PartialEq, Eq, Structural, Debug)]
pub struct MeshTimer {
    /// Time accumulated since the timer last fired, strictly below the
    /// interval.
    pub elapsed: u64,
    /// The repeat interval; the timer fires once each time `elapsed`
    /// crosses it.
    pub interval: u64,
}

impl MeshTimer {
    pub open spec fn wf(self) -> bool {
        self.interval >= 1 && self.elapsed < self.interval
    }

    /// A fresh timer that first fires after `interval` time units.
    pub fn new(interval: u64) -> (r: MeshTimer)
        requires
            interval >= 1,
        ensures
            r.wf(),
            r.interval == interval,
            r.elapsed == 0,
    {
        MeshTimer { elapsed: 0, interval }
    }

    /// Advances the timer by `dt` and reports whether it fired. On firing
    /// the remainder beyond whole intervals is kept.
    pub fn tick(&mut self, dt: u64) -> (fired: bool)
        requires
            old(self).wf(),
            dt <= u64::MAX - old(self).interval,
        ensures
            final(self).wf(),
            final(self).interval == old(self).interval,
            fired == (old(self).elapsed + dt >= old(self).interval),
            final(self).elapsed == (old(self).elapsed + dt) % (old(self).interval as int),
    {
        let total = self.elapsed + dt;
        let fired = total >= self.interval;
        self.elapsed = total % self.interval;
        fired
    }
}

/// The in-flight handle of one chunk's meshing task: spawned and still
/// running, or finished with its result waiting to be applied.
pub enum MeshTask {
    /// The task has been dispatched and its result is not yet available.
    Pending,
    /// The task finished and produced these buffers.
    Completed(MeshData),
}

/// The scheduler's knowledge of one chunk.
pub struct ChunkRecord {
    /// The chunk this record tracks.
    pub coord: ChunkCoord,
    /// The chunk was edited or newly generated and must be (re)meshed.
    pub needs_mesh: bool,
    /// The outstanding meshing task, at most one per chunk.
    pub task: Option<MeshTask>,
    /// Whether a render mesh is currently applied for this chunk.
    pub has_mesh: bool,
}

/// The per-chunk meshing states.
pub enum MeshState {
    /// Nothing to do and no mesh applied.
    NoMeshNeeded,
    /// Waiting for dispatch.
    NeedsMesh,
    /// A meshing task is in flight.
    MeshPending,
    /// A mesh is applied and up to date.
    MeshApplied,
}

impl ChunkRecord {
    /// The state machine position this record encodes. A pending task
    /// dominates: re-marking a chunk while its task runs leaves it pending.
    pub open spec fn state(self) -> MeshState {
        if self.task is Some {
            MeshState::MeshPending
        } else if self.needs_mesh {
            MeshState::NeedsMesh
        } else if self.has_mesh {
            MeshState::MeshApplied
        } else {
            MeshState::NoMeshNeeded
        }
    }
}

/// Whether a record's chunk has a finished task awaiting application.
pub open spec fn is_done(r: ChunkRecord) -> bool {
    r.task matches Some(MeshTask::Completed(_))
}

/// The number of records with a finished task awaiting application.
pub open spec fn done_count(rs: Seq<ChunkRecord>) -> int
    decreases rs.len(),
{
    if rs.len() == 0 {
        0
    } else {
        done_count(rs.drop_last()) + (if is_done(rs.last()) {
            1int
        } else {
            0int
        })
    }
}

/// Counting finished tasks over one more record adds one exactly when that
/// record's task is finished.
pub proof fn lemma_done_count_step(rs: Seq<ChunkRecord>, i: int)
    requires
        0 <= i < rs.len(),
    ensures
        done_count(rs.take(i + 1)) == done_count(rs.take(i)) + (if is_done(rs[i]) {
            1int
        } else {
            0int
        }),
{
    assert(rs.take(i + 1).drop_last() =~= rs.take(i));
    assert(rs.take(i + 1).last() == rs[i]);
}

/// The finished-task count lies between zero and the record count.
pub proof fn lemma_done_count_bounds(rs: Seq<ChunkRecord>)
    ensures
        0 <= done_count(rs) <= rs.len(),
    decreases rs.len(),
{
    if rs.len() > 0 {
        lemma_done_count_bounds(rs.drop_last());
    }
}

/// Whether the scheduler tracks a record for `coord`.
pub open spec fn has_record(rs: Seq<ChunkRecord>, coord: ChunkCoord) -> bool {
    exists|i: int| 0 <= i < rs.len() && (#[trigger] rs[i]).coord == coord
}

/// Whether the scheduler tracks a record for `coord` that is marked as
/// needing meshing.
pub open spec fn marked_needs_mesh(rs: Seq<ChunkRecord>, coord: ChunkCoord) -> bool {
    exists|i: int| 0 <= i < rs.len() && (#[trigger] rs[i]).coord == coord && rs[i].needs_mesh
}

/// The meshing scheduler for one level.
pub struct MeshScheduler {
    /// Gates dispatch: meshing is queued only when this repeating timer
    /// fires.
    pub timer: MeshTimer,
    /// The most completed meshes applied per poll.
    pub budget: usize,
    /// One record per tracked chunk; coordinates are unique.
    pub records: Vec<ChunkRecord>,
}

impl MeshScheduler {
    /// Timer consistency and one record per chunk coordinate.
    pub open spec fn wf(self) -> bool {
        &&& self.timer.wf()
        &&& forall|i: int, j: int|
            0 <= i < j < self.records.len() ==> (#[trigger] self.records@[i]).coord != (
            #[trigger] self.records@[j]).coord
    }

    /// A scheduler with no tracked chunks.
    pub fn new(interval: u64, budget: usize) -> (r: MeshScheduler)
        requires
            interval >= 1,
        ensures
            r.wf(),
            r.timer.interval == interval,
            r.timer.elapsed == 0,
            r.budget == budget,
            r.records@ == Seq::<ChunkRecord>::empty(),
    {
        MeshScheduler { timer: MeshTimer::new(interval), budget, records: Vec::new() }
    }

    /// Marks the chunk at `coord` as needing (re)meshing. An in-flight
    /// task, an applied mesh and every other record are untouched; a chunk
    /// not yet tracked gains a fresh record.
    pub fn mark_needs_mesh(&mut self, coord: ChunkCoord)
        requires
            old(self).wf(),
        ensures
            final(self).wf(),
            final(self).timer == old(self).timer,
            final(self).budget == old(self).budget,
            final(self).records.len() == old(self).records.len() + (if has_record(
                old(self).records@,
                coord,
            ) {
                0int
            } else {
                1int
            }),
            forall|i: int|
                0 <= i < old(self).records.len() ==> {
                    let r0 = #[trigger] old(self).records@[i];
                    let r1 = final(self).records@[i];
                    r1.coord == r0.coord && r1.task == r0.task && r1.has_mesh == r0.has_mesh
                        && r1.needs_mesh == (r0.needs_mesh || r0.coord == coord)
                },
            !has_record(old(self).records@, coord) ==> final(self).records@[old(
                self,
            ).records.len() as int] == (ChunkRecord {
                coord,
                needs_mesh: true,
                task: None,
                has_mesh: false,
            }),
            has_record(final(self).records@, coord),
            marked_needs_mesh(final(self).records@, coord),
            forall|c: ChunkCoord|
                marked_needs_mesh(old(self).records@, c) ==> marked_needs_mesh(
                    final(self).records@,
                    c,
                ),
    {
        let n = self.records.len();
        let mut i: usize = 0;
        while i < n
            invariant
                self == old(self),
                old(self).wf(),
                n == self.records.len(),
                i <= n,
                forall|j: int| 0 <= j < i ==> (#[trigger] self.records@[j]).coord != coord,
            decreases n - i,
        {
            let found = self.records[i].coord == coord;
            if found {
                let needs = self.records[i].needs_mesh;
                let has_mesh = self.records[i].has_mesh;
                let mut tmp = ChunkRecord { coord, needs_mesh: true, task: None, has_mesh };
                self.records.set_and_swap(i, &mut tmp);
                let restored = ChunkRecord {
                    coord,
                    needs_mesh: true,
                    task: tmp.task,
                    has_mesh,
                };
                self.records.set(i, restored);
                proof {
                    assert(self.records@[i as int].coord == coord);
                    assert forall|a: int, b: int|
                        0 <= a < b < self.records.len() implies (
                    #[trigger] self.records@[a]).coord != (#[trigger] self.records@[b]).coord by {
                        assert(old(self).records@[a].coord != old(self).records@[b].coord);
                    }
                    assert(self.records@[i as int].needs_mesh);
                    assert forall|c: ChunkCoord|
                        marked_needs_mesh(old(self).records@, c) implies marked_needs_mesh(
                        self.records@,
                        c,
                    ) by {
                        let k = choose|k: int|
                            0 <= k < old(self).records.len() && (#[trigger] old(
                                self,
                            ).records@[k]).coord == c && old(self).records@[k].needs_mesh;
                        assert(self.records@[k].coord == c && self.records@[k].needs_mesh);
                    }
                }
                return ;
            }
            i += 1;
        }
        self.records.push(ChunkRecord { coord, needs_mesh: true, task: None, has_mesh: false });
        proof {
            assert(self.records@[n as int].coord == coord);
            assert forall|a: int, b: int|
                0 <= a < b < self.records.len() implies (#[trigger] self.records@[a]).coord != (
            #[trigger] self.records@[b]).coord by {
                if b < n {
                    assert(old(self).records@[a].coord != old(self).records@[b].coord);
                } else {
                    assert(self.records@[a].coord != coord);
                }
            }
            if has_record(old(self).records@, coord) {
                let w = choose|k: int|
                    0 <= k < old(self).records.len() && (#[trigger] old(self).records@[k]).coord
                        == coord;
                assert(false);
            }
            assert(self.records@[n as int].needs_mesh);
            assert forall|c: ChunkCoord|
                marked_needs_mesh(old(self).records@, c) implies marked_needs_mesh(
                self.records@,
                c,
            ) by {
                let k = choose|k: int|
                    0 <= k < old(self).records.len() && (#[trigger] old(self).records@[k]).coord
                        == c && old(self).records@[k].needs_mesh;
                assert(self.records@[k].coord == c && self.records@[k].needs_mesh);
            }
        }
    }

    /// Hands a finished task's result back to the scheduler: the pending
    /// task for `coord`, if any, becomes completed with `data`. Returns
    /// whether a pending task was found; a result for an untracked or
    /// non-pending chunk is discarded.
    pub fn complete_task(&mut self, coord: ChunkCoord, data: MeshData) -> (accepted: bool)
        requires
            old(self).wf(),
        ensures
            final(self).wf(),
            final(self).timer == old(self).timer,
            final(self).budget == old(self).budget,
            final(self).records.len() == old(self).records.len(),
            accepted == exists|i: int|
                0 <= i < old(self).records.len() && (#[trigger] old(self).records@[i]).coord
                    == coord && old(self).records@[i].task == Some(MeshTask::Pending),
            forall|i: int|
                0 <= i < old(self).records.len() ==> {
                    let r0 = #[trigger] old(self).records@[i];
                    let r1 = final(self).records@[i];
                    if r0.coord == coord && r0.task == Some(MeshTask::Pending) {
                        r1 == (ChunkRecord {
                            coord: r0.coord,
                            needs_mesh: r0.needs_mesh,
                            task: Some(MeshTask::Completed(data)),
                            has_mesh: r0.has_mesh,
                        })
                    } else {
                        r1 == r0
                    }
                },
    {
        let n = self.records.len();
        let mut i: usize = 0;
        while i < n
            invariant
                self == old(self),
                old(self).wf(),
                n == self.records.len(),
                i <= n,
                forall|j: int| 0 <= j < i ==> (#[trigger] self.records@[j]).coord != coord,
            decreases n - i,
        {
            let found = self.records[i].coord == coord;
            if found {
                let pending = match &self.records[i].task {
                    Some(MeshTask::Pending) => true,
                    _ => false,
                };
                proof {
                    assert forall|k: int|
                        0 <= k < old(self).records.len() && k != i implies (
                    #[trigger] old(self).records@[k]).coord != coord by {
                        if k < i {
                            assert(old(self).records@[k].coord != old(self).records@[i as int].coord);
                        } else {
                            assert(old(self).records@[i as int].coord != old(self).records@[k].coord);
                        }
                    }
                }
                if pending {
                    let needs = self.records[i].needs_mesh;
                    let has_mesh = self.records[i].has_mesh;
                    self.records.set(
                        i,
                        ChunkRecord {
                            coord,
                            needs_mesh: needs,
                            task: Some(MeshTask::Completed(data)),
                            has_mesh,
                        },
                    );
                    proof {
                        assert forall|a: int, b: int|
                            0 <= a < b < self.records.len() implies (
                        #[trigger] self.records@[a]).coord != (
                        #[trigger] self.records@[b]).coord by {
                            assert(old(self).records@[a].coord != old(self).records@[b].coord);
                        }
                    }
                    return true;
                } else {
                    return false;
                }
            }
            i += 1;
        }
        false
    }

    /// Stops tracking the chunk at `coord`, discarding any in-flight task
    /// or completed result for it; used when the chunk is despawned.
    pub fn remove_record(&mut self, coord: ChunkCoord) -> (removed: bool)
        requires
            old(self).wf(),
        ensures
            final(self).wf(),
            final(self).timer == old(self).timer,
            final(self).budget == old(self).budget,
            removed == has_record(old(self).records@, coord),
            !has_record(final(self).records@, coord),
            forall|c: ChunkCoord|
                c != coord ==> (#[trigger] has_record(final(self).records@, c)) == has_record(
                    old(self).records@,
                    c,
                ),
    {
        let n = self.records.len();
        let mut i: usize = 0;
        while i < n
            invariant
                self == old(self),
                old(self).wf(),
                n == self.records.len(),
                i <= n,
                forall|j: int| 0 <= j < i ==> (#[trigger] self.records@[j]).coord != coord,
            decreases n - i,
        {
            let found = self.records[i].coord == coord;
            if found {
                self.records.remove(i);
                proof {
                    assert forall|a: int, b: int|
                        0 <= a < b < self.records.len() implies (
                    #[trigger] self.records@[a]).coord != (#[trigger] self.records@[b]).coord by {
                        let a0: int = if a < i { a } else { a + 1 };
                        let b0: int = if b < i { b } else { b + 1 };
                        assert(self.records@[a] == old(self).records@[a0]);
                        assert(self.records@[b] == old(self).records@[b0]);
                        assert(old(self).records@[a0].coord != old(self).records@[b0].coord);
                    }
                    assert forall|k: int|
                        0 <= k < self.records.len() implies (#[trigger] self.records@[k]).coord
                        != coord by {
                        let k0: int = if k < i { k } else { k + 1 };
                        assert(self.records@[k] == old(self).records@[k0]);
                        if k0 != i {
                            if k0 < i {
                                assert(old(self).records@[k0].coord != old(
                                    self,
                                ).records@[i as int].coord);
                            } else {
                                assert(old(self).records@[i as int].coord != old(
                                    self,
                                ).records@[k0].coord);
                            }
                        }
                    }
                    assert(old(self).records@[i as int].coord == coord);
                    assert forall|c: ChunkCoord| c != coord implies (#[trigger] has_record(
                        self.records@,
                        c,
                    )) == has_record(old(self).records@, c) by {
                        if has_record(old(self).records@, c) {
                            let k0 = choose|k: int|
                                0 <= k < old(self).records.len() && (#[trigger] old(
                                    self,
                                ).records@[k]).coord == c;
                            let k: int = if k0 < i {
                                k0
                            } else {
                                k0 - 1
                            };
                            assert(k0 != i);
                            assert(self.records@[k] == old(self).records@[k0]);
                        }
                        if has_record(self.records@, c) {
                            let k = choose|k: int|
                                0 <= k < self.records.len() && (#[trigger] self.records@[k]).coord
                                    == c;
                            let k0: int = if k < i { k } else { k + 1 };
                            assert(old(self).records@[k0] == self.records@[k]);
                        }
                    }
                }
                return true;
            }
            i += 1;
        }
        proof {
            if has_record(old(self).records@, coord) {
                let w = choose|k: int|
                    0 <= k < old(self).records.len() && (#[trigger] old(self).records@[k]).coord
                        == coord;
                assert(false);
            }
        }
        false
    }
}

/// Field-for-field equality of chunk snapshots.
pub open spec fn chunk_eq(a: Chunk, b: Chunk) -> bool {
    a.position == b.position && a.size == b.size && a.blocks@ == b.blocks@
}

/// All six axis neighbors of `coord` are stored as generated chunks, so a
/// meshing task may be dispatched for it.
pub open spec fn neighbors_ready(level: Level, coord: ChunkCoord) -> bool {
    forall|d: Direction|
        coord.can_offset(d) && level.full_chunk_at(#[trigger] coord.offset_spec(d))
}

/// The job's snapshots agree with what the level stores: the chunk itself
/// and, in every direction, the adjacent generated chunk.
pub open spec fn job_matches_level(job: MeshJob, level: Level) -> bool {
    &&& level.full_chunk_at(job.coord)
    &&& (level.chunk_at(job.coord) matches ChunkType::Full(c) && chunk_eq(job.chunk, c))
    &&& forall|d: Direction|
        {
            &&& job.coord.can_offset(d)
            &&& (#[trigger] job.neighbors@[d.idx()]) matches Some(nb)
            &&& level.full_chunk_at(job.coord.offset_spec(d))
            &&& (level.chunk_at(job.coord.offset_spec(d)) matches ChunkType::Full(c2) && chunk_eq(
                nb,
                c2,
            ))
        }
}

/// A record is dispatched when its chunk needs meshing, has no task in
/// flight, and its chunk and all six neighbors are generated.
pub open spec fn dispatch_eligible(r: ChunkRecord, level: Level) -> bool {
    r.needs_mesh && r.task is None && level.full_chunk_at(r.coord) && neighbors_ready(
        level,
        r.coord,
    )
}

/// The coordinates of the records a dispatch pass queues work for, in
/// record order.
pub open spec fn dispatched_coords(rs: Seq<ChunkRecord>, level: Level) -> Seq<ChunkCoord>
    decreases rs.len(),
{
    if rs.len() == 0 {
        Seq::empty()
    } else {
        dispatched_coords(rs.drop_last(), level) + (if dispatch_eligible(rs.last(), level) {
            seq![rs.last().coord]
        } else {
            Seq::<ChunkCoord>::empty()
        })
    }
}

/// One unit of meshing work: owned snapshots of a chunk and its six
/// neighbors, safe to hand to a worker thread. Built by
/// [`MeshScheduler::queue_meshing`]; consumed by
/// [`crate::mesher::build_mesh`].
pub struct MeshJob {
    /// The chunk to mesh.
    pub coord: ChunkCoord,
    /// A snapshot of the chunk's blocks.
    pub chunk: Chunk,
    /// Snapshots of the six neighbors, indexed by [`Direction::idx`]; all
    /// present when dispatched by the scheduler.
    pub neighbors: [Option<Chunk>; 6],
}

/// Fetches a snapshot of the generated chunk stored under `coord`, or
/// `None` when no generated chunk is stored there.
fn fetch_full_chunk(level: &Level, coord: ChunkCoord) -> (r: Option<Chunk>)
    requires
        level.wf(),
    ensures
        r matches Some(c) ==> level.full_chunk_at(coord) && (level.chunk_at(coord)
            matches ChunkType::Full(s) && chunk_eq(c, s)) && c.wf() && c.size == level.size
            && c.position == coord,
        r is Some <==> level.full_chunk_at(coord),
{
    match level.get_chunk(coord) {
        Some(ct) => match ct {
            ChunkType::Full(c) => Some(c.snapshot()),
            ChunkType::Ungenerated => None,
        },
        None => None,
    }
}

/// Fetches a snapshot of the generated chunk adjacent to `coord` in
/// direction `d`, or `None` when it is absent, ungenerated, or beyond the
/// coordinate range.
fn fetch_neighbor(level: &Level, coord: ChunkCoord, d: Direction) -> (r: Option<Chunk>)
    requires
        level.wf(),
    ensures
        r matches Some(c) ==> coord.can_offset(d) && level.full_chunk_at(coord.offset_spec(d)) && (
        level.chunk_at(coord.offset_spec(d)) matches ChunkType::Full(s) && chunk_eq(c, s))
            && c.wf() && c.size == level.size,
        r is Some <==> (coord.can_offset(d) && level.full_chunk_at(coord.offset_spec(d))),
{
    match coord.try_offset(d) {
        Some(nc) => fetch_full_chunk(level, nc),
        None => None,
    }
}

/// Assembles the snapshots for one meshing task: the chunk under `coord`
/// and its six neighbors. Returns `None` — deferring the chunk — unless the
/// chunk and all six neighbors are generated.
pub fn gather_job(level: &Level, coord: ChunkCoord) -> (r: Option<MeshJob>)
    requires
        level.wf(),
    ensures
        r matches Some(job) ==> job.coord == coord && job_matches_level(job, *level)
            && job.chunk.wf() && job.chunk.size == level.size && job.chunk.position == coord
            && neighbors_wf(job.chunk, job.neighbors),
        r is Some <==> (level.full_chunk_at(coord) && neighbors_ready(*level, coord)),
{
    let chunk = match fetch_full_chunk(level, coord) {
        Some(c) => c,
        None => {
            return None;
        },
    };
    let n_pos_x = match fetch_neighbor(level, coord, Direction::PosX) {
        Some(c) => c,
        None => {
            proof {
                assert(!(coord.can_offset(Direction::PosX) && level.full_chunk_at(
                    coord.offset_spec(Direction::PosX),
                )));
            }
            return None;
        },
    };
    let n_pos_y = match fetch_neighbor(level, coord, Direction::PosY) {
        Some(c) => c,
        None => {
            return None;
        },
    };
    let n_pos_z = match fetch_neighbor(level, coord, Direction::PosZ) {
        Some(c) => c,
        None => {
            return None;
        },
    };
    let n_neg_x = match fetch_neighbor(level, coord, Direction::NegX) {
        Some(c) => c,
        None => {
            return None;
        },
    };
    let n_neg_y = match fetch_neighbor(level, coord, Direction::NegY) {
        Some(c) => c,
        None => {
            return None;
        },
    };
    let n_neg_z = match fetch_neighbor(level, coord, Direction::NegZ) {
        Some(c) => c,
        None => {
            return None;
        },
    };
    let job = MeshJob {
        coord,
        chunk,
        neighbors: [
            Some(n_pos_x),
            Some(n_pos_y),
            Some(n_pos_z),
            Some(n_neg_x),
            Some(n_neg_y),
            Some(n_neg_z),
        ],
    };
    proof {
        assert forall|d: Direction| coord.can_offset(d) && level.full_chunk_at(
            #[trigger] coord.offset_spec(d),
        ) by {
            match d {
                Direction::PosX => {},
                Direction::PosY => {},
                Direction::PosZ => {},
                Direction::NegX => {},
                Direction::NegY => {},
                Direction::NegZ => {},
            }
        }
        assert forall|d: Direction|
            {
                &&& job.coord.can_offset(d)
                &&& (#[trigger] job.neighbors@[d.idx()]) matches Some(nb)
                &&& level.full_chunk_at(job.coord.offset_spec(d))
                &&& (level.chunk_at(job.coord.offset_spec(d)) matches ChunkType::Full(c2)
                    && chunk_eq(nb, c2))
            } by {
            match d {
                Direction::PosX => {
                    assert(job.neighbors@[0] == Some(n_pos_x));
                },
                Direction::PosY => {
                    assert(job.neighbors@[1] == Some(n_pos_y));
                },
                Direction::PosZ => {
                    assert(job.neighbors@[2] == Some(n_pos_z));
                },
                Direction::NegX => {
                    assert(job.neighbors@[3] == Some(n_neg_x));
                },
                Direction::NegY => {
                    assert(job.neighbors@[4] == Some(n_neg_y));
                },
                Direction::NegZ => {
                    assert(job.neighbors@[5] == Some(n_neg_z));
                },
            }
        }
    }
    Some(job)
}

impl MeshScheduler {
    /// One dispatch pass: advances the timer by `dt` and, when it fires,
    /// queues one meshing job for every tracked chunk that needs meshing,
    /// has no task in flight, and whose chunk and six neighbors are all
    /// generated. Queued chunks lose their needs-mesh mark and gain a
    /// pending task; a chunk whose task is still in flight is left exactly
    /// as it is, so no second concurrent task can arise.
    pub fn queue_meshing(&mut self, level: &Level, dt: u64) -> (jobs: Vec<MeshJob>)
        requires
            old(self).wf(),
            level.wf(),
            dt <= u64::MAX - old(self).timer.interval,
        ensures
            final(self).wf(),
            final(self).budget == old(self).budget,
            final(self).timer.interval == old(self).timer.interval,
            final(self).timer.elapsed == (old(self).timer.elapsed + dt) % (
            old(self).timer.interval as int),
            // the timer gates dispatch: between firings nothing is queued
            old(self).timer.elapsed + dt < old(self).timer.interval ==> final(self).records == old(
                self,
            ).records && jobs.len() == 0,
            old(self).timer.elapsed + dt >= old(self).timer.interval ==> final(self).records.len()
                == old(self).records.len(),
            old(self).timer.elapsed + dt >= old(self).timer.interval ==> forall|i: int|
                0 <= i < old(self).records.len() ==> {
                    let r0 = #[trigger] old(self).records@[i];
                    let r1 = final(self).records@[i];
                    &&& r1.coord == r0.coord
                    &&& r1.has_mesh == r0.has_mesh
                    &&& (dispatch_eligible(r0, *level) ==> r1.needs_mesh == false && r1.task
                        == Some(MeshTask::Pending))
                    &&& (!dispatch_eligible(r0, *level) ==> r1 == r0)
                },
            old(self).timer.elapsed + dt >= old(self).timer.interval ==> jobs@.map_values(
                |j: MeshJob| j.coord,
            ) == dispatched_coords(old(self).records@, *level),
            forall|k: int|
                0 <= k < jobs.len() ==> {
                    let job = #[trigger] jobs@[k];
                    &&& job_matches_level(job, *level)
                    &&& job.chunk.wf()
                    &&& job.chunk.size == level.size
                    &&& neighbors_wf(job.chunk, job.neighbors)
                },
    {
        let fired = self.timer.tick(dt);
        let ghost timer_after = self.timer;
        let mut jobs: Vec<MeshJob> = Vec::new();
        if !fired {
            return jobs;
        }
        let n = self.records.len();
        let mut i: usize = 0;
        while i < n
            invariant
                old(self).wf(),
                level.wf(),
                self.budget == old(self).budget,
                self.timer == timer_after,
                timer_after.wf(),
                timer_after.interval == old(self).timer.interval,
                timer_after.elapsed == (old(self).timer.elapsed + dt) % (
                old(self).timer.interval as int),
                old(self).timer.elapsed + dt >= old(self).timer.interval,
                n == self.records.len(),
                n == old(self).records.len(),
                i <= n,
                forall|j: int|
                    i <= j < n ==> #[trigger] self.records@[j] == old(self).records@[j],
                forall|j: int|
                    0 <= j < i ==> {
                        let r0 = #[trigger] old(self).records@[j];
                        let r1 = self.records@[j];
                        &&& r1.coord == r0.coord
                        &&& r1.has_mesh == r0.has_mesh
                        &&& (dispatch_eligible(r0, *level) ==> r1.needs_mesh == false && r1.task
                            == Some(MeshTask::Pending))
                        &&& (!dispatch_eligible(r0, *level) ==> r1 == r0)
                    },
                jobs@.map_values(|j: MeshJob| j.coord) == dispatched_coords(
                    old(self).records@.take(i as int),
                    *level,
                ),
                forall|k: int|
                    0 <= k < jobs.len() ==> {
                        let job = #[trigger] jobs@[k];
                        &&& job_matches_level(job, *level)
                        &&& job.chunk.wf()
                        &&& job.chunk.size == level.size
                        &&& neighbors_wf(job.chunk, job.neighbors)
                    },
            decreases n - i,
        {
            let ghost jobs_pre = jobs@;
            let eligible_marks = self.records[i].needs_mesh && match &self.records[i].task {
                Some(_) => false,
                None => true,
            };
            if eligible_marks {
                let coord = self.records[i].coord;
                let has_mesh = self.records[i].has_mesh;
                match gather_job(level, coord) {
                    Some(job) => {
                        jobs.push(job);
                        self.records.set(
                            i,
                            ChunkRecord {
                                coord,
                                needs_mesh: false,
                                task: Some(MeshTask::Pending),
                                has_mesh,
                            },
                        );
                    },
                    None => {},
                }
            }
            proof {
                let rs = old(self).records@;
                assert(rs.take(i + 1).drop_last() =~= rs.take(i as int));
                assert(rs.take(i + 1).last() == rs[i as int]);
                if dispatch_eligible(rs[i as int], *level) {
                    assert(jobs@ == jobs_pre.push(jobs@.last()));
                    assert(jobs@.map_values(|j: MeshJob| j.coord) =~= jobs_pre.map_values(
                        |j: MeshJob| j.coord,
                    ).push(jobs@.last().coord));
                } else {
                    assert(jobs@ == jobs_pre);
                }
                assert(jobs@.map_values(|j: MeshJob| j.coord) =~= dispatched_coords(
                    rs.take(i + 1),
                    *level,
                ));
            }
            i += 1;
        }
        proof {
            assert(old(self).records@.take(n as int) =~= old(self).records@);
            assert forall|a: int, b: int|
                0 <= a < b < self.records.len() implies (#[trigger] self.records@[a]).coord != (
            #[trigger] self.records@[b]).coord by {
                assert(self.records@[a].coord == old(self).records@[a].coord);
                assert(self.records@[b].coord == old(self).records@[b].coord);
                assert(old(self).records@[a].coord != old(self).records@[b].coord);
            }
        }
        jobs
    }
}

/// One applied result handed to the render mesh sink: new buffers for the
/// chunk, or — when the mesh came back empty — an order to clear whatever
/// mesh the chunk had.
pub struct MeshApplyOutcome {
    /// The chunk whose render mesh changes.
    pub coord: ChunkCoord,
    /// The buffers to apply, or `None` to remove the chunk's mesh.
    pub mesh: Option<MeshData>,
}

/// The number of completed tasks a poll with budget `budget` applies:
/// every completed task, up to the budget.
pub open spec fn poll_applied_count(rs: Seq<ChunkRecord>, budget: int) -> int {
    if done_count(rs) >= budget {
        budget
    } else {
        done_count(rs)
    }
}

impl MeshScheduler {
    /// One polling pass: applies completed meshing tasks, in record order,
    /// up to the per-poll budget. An applied record's task slot is cleared
    /// and its has-mesh flag tracks whether the result held geometry; an
    /// empty result orders removal of the chunk's mesh. Completed tasks
    /// beyond the budget are left untouched for the next poll, and nothing
    /// at all happens while the chunk material is not loaded yet.
    pub fn poll_mesh_queue(&mut self, material_loaded: bool) -> (applied: Vec<MeshApplyOutcome>)
        requires
            old(self).wf(),
        ensures
            final(self).wf(),
            final(self).timer == old(self).timer,
            final(self).budget == old(self).budget,
            !material_loaded ==> *final(self) == *old(self) && applied.len() == 0,
            material_loaded ==> final(self).records.len() == old(self).records.len(),
            material_loaded ==> applied.len() == poll_applied_count(
                old(self).records@,
                old(self).budget as int,
            ),
            material_loaded ==> forall|i: int|
                0 <= i < old(self).records.len() ==> {
                    let r0 = #[trigger] old(self).records@[i];
                    let r1 = final(self).records@[i];
                    if is_done(r0) && done_count(old(self).records@.take(i)) < old(self).budget {
                        &&& r1.coord == r0.coord
                        &&& r1.needs_mesh == r0.needs_mesh
                        &&& r1.task is None
                        &&& (r0.task matches Some(MeshTask::Completed(d)) ==> r1.has_mesh == (
                        d.verts@.len() > 0) && applied@[done_count(old(self).records@.take(i))]
                            == (MeshApplyOutcome {
                            coord: r0.coord,
                            mesh: if d.verts@.len() > 0 {
                                Some(d)
                            } else {
                                None
                            },
                        }))
                    } else {
                        r1 == r0
                    }
                },
    {
        let mut applied: Vec<MeshApplyOutcome> = Vec::new();
        if !material_loaded {
            // the chunk material is not ready: skip the whole poll cycle
            return applied;
        }
        let n = self.records.len();
        let mut i: usize = 0;
        while i < n
            invariant
                old(self).wf(),
                self.timer == old(self).timer,
                self.budget == old(self).budget,
                n == self.records.len(),
                n == old(self).records.len(),
                i <= n,
                forall|j: int|
                    i <= j < n ==> #[trigger] self.records@[j] == old(self).records@[j],
                applied.len() == poll_applied_count(
                    old(self).records@.take(i as int),
                    old(self).budget as int,
                ),
                forall|j: int|
                    0 <= j < i && is_done(#[trigger] old(self).records@[j]) && done_count(
                        old(self).records@.take(j),
                    ) < old(self).budget ==> done_count(old(self).records@.take(j))
                        < applied.len(),
                forall|j: int|
                    0 <= j < i ==> {
                        let r0 = #[trigger] old(self).records@[j];
                        let r1 = self.records@[j];
                        if is_done(r0) && done_count(old(self).records@.take(j)) < old(
                            self,
                        ).budget {
                            &&& r1.coord == r0.coord
                            &&& r1.needs_mesh == r0.needs_mesh
                            &&& r1.task is None
                            &&& (r0.task matches Some(MeshTask::Completed(d)) ==> r1.has_mesh == (
                            d.verts@.len() > 0) && applied@[done_count(
                                old(self).records@.take(j),
                            )] == (MeshApplyOutcome {
                                coord: r0.coord,
                                mesh: if d.verts@.len() > 0 {
                                    Some(d)
                                } else {
                                    None
                                },
                            }))
                        } else {
                            r1 == r0
                        }
                    },
            decreases n - i,
        {
            let ghost applied_pre = applied@;
            let ghost records_pre = self.records@;
            proof {
                lemma_done_count_step(old(self).records@, i as int);
                lemma_done_count_bounds(old(self).records@.take(i as int));
            }
            let can_apply = applied.len() < self.budget;
            let done_here = match &self.records[i].task {
                Some(MeshTask::Completed(_)) => true,
                _ => false,
            };
            if can_apply && done_here {
                let mut tmp = ChunkRecord {
                    coord: ChunkCoord { x: 0, y: 0, z: 0 },
                    needs_mesh: false,
                    task: None,
                    has_mesh: false,
                };
                self.records.set_and_swap(i, &mut tmp);
                let coord = tmp.coord;
                let needs = tmp.needs_mesh;
                match tmp.task {
                    Some(MeshTask::Completed(data)) => {
                        let nonempty = data.verts.len() > 0;
                        self.records.set(
                            i,
                            ChunkRecord { coord, needs_mesh: needs, task: None, has_mesh: nonempty },
                        );
                        applied.push(
                            MeshApplyOutcome {
                                coord,
                                mesh: if nonempty {
                                    Some(data)
                                } else {
                                    None
                                },
                            },
                        );
                    },
                    _ => {
                        // unreachable: this record's task was checked to be
                        // completed just above
                    },
                }
            }
            proof {
                assert forall|jj: int| 0 <= jj < i + 1 implies {
                    let a0 = #[trigger] old(self).records@[jj];
                    let a1 = self.records@[jj];
                    if is_done(a0) && done_count(old(self).records@.take(jj)) < old(self).budget {
                        &&& a1.coord == a0.coord
                        &&& a1.needs_mesh == a0.needs_mesh
                        &&& a1.task is None
                        &&& (a0.task matches Some(MeshTask::Completed(d)) ==> a1.has_mesh == (
                        d.verts@.len() > 0) && applied@[done_count(old(self).records@.take(jj))]
                            == (MeshApplyOutcome {
                            coord: a0.coord,
                            mesh: if d.verts@.len() > 0 {
                                Some(d)
                            } else {
                                None
                            },
                        }))
                    } else {
                        a1 == a0
                    }
                } by {
                    if jj < i {
                        assert(self.records@[jj] == records_pre[jj]);
                        let a0 = old(self).records@[jj];
                        if is_done(a0) && done_count(old(self).records@.take(jj)) < old(
                            self,
                        ).budget {
                            let dcj = done_count(old(self).records@.take(jj));
                            lemma_done_count_bounds(old(self).records@.take(jj));
                            assert(dcj >= 0);
                            assert(dcj < applied_pre.len());
                            if applied@ == applied_pre {
                                assert(applied@[dcj] == applied_pre[dcj]);
                            } else {
                                assert(applied@ == applied_pre.push(applied@.last()));
                                assert(applied_pre.push(applied@.last())[dcj]
                                    == applied_pre[dcj]);
                                assert(applied@[dcj] == applied_pre[dcj]);
                            }
                        }
                    }
                }
            }
            i += 1;
        }
        proof {
            assert(old(self).records@.take(n as int) =~= old(self).records@);
            assert forall|a: int, b: int|
                0 <= a < b < self.records.len() implies (#[trigger] self.records@[a]).coord != (
            #[trigger] self.records@[b]).coord by {
                assert(self.records@[a].coord == old(self).records@[a].coord);
                assert(self.records@[b].coord == old(self).records@[b].coord);
                assert(old(self).records@[a].coord != old(self).records@[b].coord);
            }
        }
        applied
    }
}

/// Whether the cell `idx` lies on the chunk boundary that faces direction
/// `d`.
pub open spec fn on_boundary(idx: ChunkIdx, size: u8, d: Direction) -> bool {
    match d {
        Direction::PosX => idx.x == size - 1,
        Direction::PosY => idx.y == size - 1,
        Direction::PosZ => idx.z == size - 1,
        Direction::NegX => idx.x == 0,
        Direction::NegY => idx.y == 0,
        Direction::NegZ => idx.z == 0,
    }
}

/// The chunks whose meshes an edit of cell `idx` in the chunk at
/// `chunk_coord` invalidates: the chunk itself, and the neighbor behind
/// every boundary the cell touches.
pub open spec fn edit_affects(
    chunk_coord: ChunkCoord,
    idx: ChunkIdx,
    size: u8,
    c: ChunkCoord,
) -> bool {
    c == chunk_coord || exists|d: Direction|
        on_boundary(idx, size, d) && chunk_coord.can_offset(d) && c == #[trigger] chunk_coord.offset_spec(d)
}

/// An element of a prefix one longer is the old prefix's element or the
/// newly included one.
proof fn lemma_contains_take_step<T>(s: Seq<T>, k: int, x: T)
    requires
        0 <= k < s.len(),
    ensures
        s.take(k + 1).contains(x) == (s.take(k).contains(x) || s[k] == x),
{
    if s.take(k).contains(x) {
        let w = choose|w: int| 0 <= w < s.take(k).len() && #[trigger] s.take(k)[w] == x;
        assert(s.take(k + 1)[w] == x);
    }
    if s[k] == x {
        assert(s.take(k + 1)[k] == x);
    }
    if s.take(k + 1).contains(x) {
        let w = choose|w: int| 0 <= w < s.take(k + 1).len() && #[trigger] s.take(k + 1)[w] == x;
        if w < k {
            assert(s.take(k)[w] == x);
        }
    }
}

impl MeshScheduler {
    /// Marks every present coordinate in `coords` as needing meshing, as
    /// [`MeshScheduler::mark_needs_mesh`] does for one.
    fn mark_many(&mut self, coords: &Vec<Option<ChunkCoord>>)
        requires
            old(self).wf(),
        ensures
            final(self).wf(),
            final(self).timer == old(self).timer,
            final(self).budget == old(self).budget,
            final(self).records.len() >= old(self).records.len(),
            forall|i: int|
                0 <= i < old(self).records.len() ==> {
                    let r0 = #[trigger] old(self).records@[i];
                    let r1 = final(self).records@[i];
                    &&& r1.coord == r0.coord
                    &&& r1.task == r0.task
                    &&& r1.has_mesh == r0.has_mesh
                    &&& r1.needs_mesh == (r0.needs_mesh || coords@.contains(Some(r0.coord)))
                },
            forall|i: int|
                old(self).records.len() <= i < final(self).records.len() ==> {
                    let r = #[trigger] final(self).records@[i];
                    &&& coords@.contains(Some(r.coord))
                    &&& r.needs_mesh
                    &&& r.task is None
                    &&& !r.has_mesh
                },
            forall|c: ChunkCoord|
                coords@.contains(Some(c)) ==> marked_needs_mesh(final(self).records@, c),
    {
        let n = coords.len();
        let mut k: usize = 0;
        while k < n
            invariant
                self.wf(),
                self.timer == old(self).timer,
                self.budget == old(self).budget,
                n == coords.len(),
                k <= n,
                self.records.len() >= old(self).records.len(),
                forall|i: int|
                    0 <= i < old(self).records.len() ==> {
                        let r0 = #[trigger] old(self).records@[i];
                        let r1 = self.records@[i];
                        &&& r1.coord == r0.coord
                        &&& r1.task == r0.task
                        &&& r1.has_mesh == r0.has_mesh
                        &&& r1.needs_mesh == (r0.needs_mesh || coords@.take(k as int).contains(
                            Some(r0.coord),
                        ))
                    },
                forall|i: int|
                    old(self).records.len() <= i < self.records.len() ==> {
                        let r = #[trigger] self.records@[i];
                        &&& coords@.take(k as int).contains(Some(r.coord))
                        &&& r.needs_mesh
                        &&& r.task is None
                        &&& !r.has_mesh
                    },
                forall|c: ChunkCoord| #[trigger]
                    coords@.take(k as int).contains(Some(c)) ==> marked_needs_mesh(
                        self.records@,
                        c,
                    ),
            decreases n - k,
        {
            let ghost pre = self.records@;
            match &coords[k] {
                Some(c) => {
                    self.mark_needs_mesh(*c);
                },
                None => {},
            }
            proof {
                lemma_contains_take_step(coords@, k as int, coords@[k as int]);
                assert forall|x: Option<ChunkCoord>| #[trigger]
                    coords@.take(k as int + 1).contains(x) == (coords@.take(k as int).contains(x)
                    || coords@[k as int] == x) by {
                    lemma_contains_take_step(coords@, k as int, x);
                }
                assert forall|i: int|
                    old(self).records.len() <= i < self.records.len() implies {
                    let r = #[trigger] self.records@[i];
                    &&& coords@.take(k as int + 1).contains(Some(r.coord))
                    &&& r.needs_mesh
                    &&& r.task is None
                    &&& !r.has_mesh
                } by {
                    if i < pre.len() {
                        let rp = pre[i];
                        assert(coords@.take(k as int).contains(Some(rp.coord)));
                        lemma_contains_take_step(coords@, k as int, Some(rp.coord));
                        assert(self.records@[i].coord == rp.coord);
                    } else {
                        assert(self.records@[i].coord == coords@[k as int]->Some_0);
                        lemma_contains_take_step(
                            coords@,
                            k as int,
                            Some(self.records@[i].coord),
                        );
                    }
                }
                assert forall|c: ChunkCoord| #[trigger]
                    coords@.take(k as int + 1).contains(Some(c)) implies marked_needs_mesh(
                    self.records@,
                    c,
                ) by {
                    if coords@.take(k as int).contains(Some(c)) {
                        let w = choose|w: int|
                            0 <= w < pre.len() && (#[trigger] pre[w]).coord == c
                                && pre[w].needs_mesh;
                        assert(self.records@[w].coord == c && self.records@[w].needs_mesh);
                    }
                }
            }
            k += 1;
        }
        proof {
            assert(coords@.take(n as int) =~= coords@);
        }
    }

    /// Re-marks chunks after a block edit: the edited chunk always, and,
    /// when the edited cell lies on a chunk boundary, also the neighbor
    /// sharing that boundary, whose visible faces the edit may change.
    /// In-flight tasks and applied meshes are untouched.
    pub fn mark_block_edit(&mut self, chunk_coord: ChunkCoord, idx: ChunkIdx, size: u8)
        requires
            old(self).wf(),
            size >= 1,
            idx.valid(size),
        ensures
            final(self).wf(),
            final(self).timer == old(self).timer,
            final(self).budget == old(self).budget,
            final(self).records.len() >= old(self).records.len(),
            forall|i: int|
                0 <= i < old(self).records.len() ==> {
                    let r0 = #[trigger] old(self).records@[i];
                    let r1 = final(self).records@[i];
                    &&& r1.coord == r0.coord
                    &&& r1.task == r0.task
                    &&& r1.has_mesh == r0.has_mesh
                    &&& r1.needs_mesh == (r0.needs_mesh || edit_affects(
                        chunk_coord,
                        idx,
                        size,
                        r0.coord,
                    ))
                },
            forall|i: int|
                old(self).records.len() <= i < final(self).records.len() ==> {
                    let r = #[trigger] final(self).records@[i];
                    &&& edit_affects(chunk_coord, idx, size, r.coord)
                    &&& r.needs_mesh
                    &&& r.task is None
                    &&& !r.has_mesh
                },
            forall|c: ChunkCoord|
                edit_affects(chunk_coord, idx, size, c) ==> marked_needs_mesh(
                    final(self).records@,
                    c,
                ),
    {
        let m_pos_x: Option<ChunkCoord> = if idx.x == size - 1 {
            chunk_coord.try_offset(Direction::PosX)
        } else {
            None
        };
        let m_pos_y: Option<ChunkCoord> = if idx.y == size - 1 {
            chunk_coord.try_offset(Direction::PosY)
        } else {
            None
        };
        let m_pos_z: Option<ChunkCoord> = if idx.z == size - 1 {
            chunk_coord.try_offset(Direction::PosZ)
        } else {
            None
        };
        let m_neg_x: Option<ChunkCoord> = if idx.x == 0 {
            chunk_coord.try_offset(Direction::NegX)
        } else {
            None
        };
        let m_neg_y: Option<ChunkCoord> = if idx.y == 0 {
            chunk_coord.try_offset(Direction::NegY)
        } else {
            None
        };
        let m_neg_z: Option<ChunkCoord> = if idx.z == 0 {
            chunk_coord.try_offset(Direction::NegZ)
        } else {
            None
        };
        let mut coords: Vec<Option<ChunkCoord>> = Vec::new();
        coords.push(Some(chunk_coord));
        coords.push(m_pos_x);
        coords.push(m_pos_y);
        coords.push(m_pos_z);
        coords.push(m_neg_x);
        coords.push(m_neg_y);
        coords.push(m_neg_z);
        proof {
            assert(coords@ =~= seq![
                Some(chunk_coord),
                m_pos_x,
                m_pos_y,
                m_pos_z,
                m_neg_x,
                m_neg_y,
                m_neg_z,
            ]);
            assert forall|c: ChunkCoord| #[trigger]
                coords@.contains(Some(c)) == edit_affects(chunk_coord, idx, size, c) by {
                if coords@.contains(Some(c)) {
                    let w = choose|w: int| 0 <= w < coords@.len() && #[trigger] coords@[w] == Some(c);
                    if w == 1 {
                        assert(on_boundary(idx, size, Direction::PosX) && chunk_coord.can_offset(
                            Direction::PosX,
                        ) && c == chunk_coord.offset_spec(Direction::PosX));
                    } else if w == 2 {
                        assert(on_boundary(idx, size, Direction::PosY) && chunk_coord.can_offset(
                            Direction::PosY,
                        ) && c == chunk_coord.offset_spec(Direction::PosY));
                    } else if w == 3 {
                        assert(on_boundary(idx, size, Direction::PosZ) && chunk_coord.can_offset(
                            Direction::PosZ,
                        ) && c == chunk_coord.offset_spec(Direction::PosZ));
                    } else if w == 4 {
                        assert(on_boundary(idx, size, Direction::NegX) && chunk_coord.can_offset(
                            Direction::NegX,
                        ) && c == chunk_coord.offset_spec(Direction::NegX));
                    } else if w == 5 {
                        assert(on_boundary(idx, size, Direction::NegY) && chunk_coord.can_offset(
                            Direction::NegY,
                        ) && c == chunk_coord.offset_spec(Direction::NegY));
                    } else if w == 6 {
                        assert(on_boundary(idx, size, Direction::NegZ) && chunk_coord.can_offset(
                            Direction::NegZ,
                        ) && c == chunk_coord.offset_spec(Direction::NegZ));
                    }
                }
                if edit_affects(chunk_coord, idx, size, c) {
                    if c == chunk_coord {
                        assert(coords@[0] == Some(c));
                    } else {
                        let d = choose|d: Direction|
                            on_boundary(idx, size, d) && chunk_coord.can_offset(d) && c
                                == #[trigger] chunk_coord.offset_spec(d);
                        match d {
                            Direction::PosX => {
                                assert(coords@[1] == Some(c));
                            },
                            Direction::PosY => {
                                assert(coords@[2] == Some(c));
                            },
                            Direction::PosZ => {
                                assert(coords@[3] == Some(c));
                            },
                            Direction::NegX => {
                                assert(coords@[4] == Some(c));
                            },
                            Direction::NegY => {
                                assert(coords@[5] == Some(c));
                            },
                            Direction::NegZ => {
                                assert(coords@[6] == Some(c));
                            },
                        }
                    }
                    assert(coords@.contains(Some(c)));
                }
            }
        }
        self.mark_many(&coords);
    }
}

/// At most one meshing task is ever in flight per chunk: a record whose
/// task slot is occupied is never eligible for dispatch, however often its
/// chunk was re-marked as needing meshing in the meantime.
pub proof fn lemma_pending_never_redispatched(r: ChunkRecord, level: Level)
    requires
        r.task is Some,
    ensures
        !dispatch_eligible(r, level),
{
}

/// The per-poll budget is a hard cap: with at least `budget` completed
/// tasks waiting, a poll applies exactly `budget` of them.
pub proof fn lemma_budget_caps_application(rs: Seq<ChunkRecord>, budget: int)
    requires
        done_count(rs) >= budget >= 0,
    ensures
        poll_applied_count(rs, budget) == budget,
{
}

} // verus!