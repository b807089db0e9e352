use voxel_mesher::block::{BlockEntry, BlockMesh, BlockRegistry, BlockType};
use voxel_mesher::chunk::{Chunk, ChunkCoord, ChunkIdx, ChunkType};
use voxel_mesher::direction::Direction;
use voxel_mesher::level::Level;
use voxel_mesher::mesher::build_mesh;
use voxel_mesher::scheduler::{MeshScheduler, MeshTask, MeshTimer};
use voxel_mesher::UNITS_PER_BLOCK;

const SCALE: u64 = UNITS_PER_BLOCK as u64;

fn registry() -> BlockRegistry {
    let mut reg = BlockRegistry::new();
    reg.register(BlockEntry::opaque(BlockMesh::Uniform(0)));
    reg
}

/// A level of edge-length-1 chunks holding `fill`, generated at `coord` and
/// all six of its neighbors.
fn level_with_neighborhood(coord: ChunkCoord, fill: BlockType) -> Level {
    let mut level = Level::new(1);
    level.insert_chunk(coord, ChunkType::Full(Chunk::filled(coord, 1, fill)));
    let dirs = [
        Direction::PosX,
        Direction::PosY,
        Direction::PosZ,
        Direction::NegX,
        Direction::NegY,
        Direction::NegZ,
    ];
    for d in dirs {
        let nc = coord.offset(d);
        level.insert_chunk(nc, ChunkType::Full(Chunk::filled(nc, 1, fill)));
    }
    level
}

fn add_neighborhood(level: &mut Level, coord: ChunkCoord, fill: BlockType) {
    level.insert_chunk(coord, ChunkType::Full(Chunk::filled(coord, 1, fill)));
    let dirs = [
        Direction::PosX,
        Direction::PosY,
        Direction::PosZ,
        Direction::NegX,
        Direction::NegY,
        Direction::NegZ,
    ];
    for d in dirs {
        let nc = coord.offset(d);
        level.insert_chunk(nc, ChunkType::Full(Chunk::filled(nc, 1, fill)));
    }
}

#[test]
fn timer_fires_on_interval_and_keeps_remainder() {
    let mut timer = MeshTimer::new(250);
    assert!(!timer.tick(100));
    assert_eq!(timer.elapsed, 100);
    assert!(timer.tick(150));
    assert_eq!(timer.elapsed, 0);
    assert!(timer.tick(620));
    assert_eq!(timer.elapsed, 620 % 250);
}

#[test]
fn dispatch_waits_for_timer() {
    let level = level_with_neighborhood(ChunkCoord::new(0, 0, 0), BlockType::Empty);
    let mut sched = MeshScheduler::new(250, 100);
    sched.mark_needs_mesh(ChunkCoord::new(0, 0, 0));
    let jobs = sched.queue_meshing(&level, 100);
    assert_eq!(jobs.len(), 0);
    let jobs = sched.queue_meshing(&level, 150);
    assert_eq!(jobs.len(), 1);
    assert_eq!(jobs[0].coord, ChunkCoord::new(0, 0, 0));
}

#[test]
fn dispatch_requires_all_six_neighbors() {
    let coord = ChunkCoord::new(0, 0, 0);
    let mut level = Level::new(1);
    level.insert_chunk(coord, ChunkType::Full(Chunk::filled(coord, 1, BlockType::Empty)));
    // five neighbors only: dispatch is deferred
    let dirs = [
        Direction::PosX,
        Direction::PosY,
        Direction::PosZ,
        Direction::NegX,
        Direction::NegY,
    ];
    for d in dirs {
        let nc = coord.offset(d);
        level.insert_chunk(nc, ChunkType::Full(Chunk::filled(nc, 1, BlockType::Empty)));
    }
    let mut sched = MeshScheduler::new(250, 100);
    sched.mark_needs_mesh(coord);
    let jobs = sched.queue_meshing(&level, 250);
    assert_eq!(jobs.len(), 0);
    // the sixth neighbor arrives, still marked: next tick dispatches
    let nc = coord.offset(Direction::NegZ);
    level.insert_chunk(nc, ChunkType::Full(Chunk::filled(nc, 1, BlockType::Empty)));
    let jobs = sched.queue_meshing(&level, 250);
    assert_eq!(jobs.len(), 1);
}

#[test]
fn ungenerated_neighbor_defers_dispatch() {
    let coord = ChunkCoord::new(0, 0, 0);
    let mut level = level_with_neighborhood(coord, BlockType::Empty);
    level.insert_chunk(coord.offset(Direction::PosX), ChunkType::Ungenerated);
    let mut sched = MeshScheduler::new(250, 100);
    sched.mark_needs_mesh(coord);
    let jobs = sched.queue_meshing(&level, 250);
    assert_eq!(jobs.len(), 0);
}

#[test]
fn remark_while_pending_spawns_no_second_task() {
    // at-most-one-in-flight: a chunk whose task is pending is not
    // dispatched again, however often it is re-marked
    let coord = ChunkCoord::new(0, 0, 0);
    let level = level_with_neighborhood(coord, BlockType::Empty);
    let mut sched = MeshScheduler::new(250, 100);
    sched.mark_needs_mesh(coord);
    let jobs = sched.queue_meshing(&level, 250);
    assert_eq!(jobs.len(), 1);
    // a block edit arrives while the task is still in flight
    sched.mark_needs_mesh(coord);
    let jobs = sched.queue_meshing(&level, 250);
    assert_eq!(jobs.len(), 0);
    // even completion does not re-dispatch before the result is applied
    let reg = registry();
    let mesh = build_mesh(
        &Chunk::filled(coord, 1, BlockType::Empty),
        &[None, None, None, None, None, None],
        &reg,
        SCALE,
    );
    assert!(sched.complete_task(coord, mesh));
    let jobs = sched.queue_meshing(&level, 250);
    assert_eq!(jobs.len(), 0);
    // once polled and applied, the standing mark dispatches again
    let outcomes = sched.poll_mesh_queue(true);
    assert_eq!(outcomes.len(), 1);
    let jobs = sched.queue_meshing(&level, 250);
    assert_eq!(jobs.len(), 1);
}

#[test]
fn budget_caps_applications_per_poll() {
    // three completed tasks, budget two: exactly two applied per poll, the
    // third follows in the next poll with nothing lost
    let coords = [
        ChunkCoord::new(0, 0, 0),
        ChunkCoord::new(10, 0, 0),
        ChunkCoord::new(20, 0, 0),
    ];
    let mut level = Level::new(1);
    for c in coords {
        add_neighborhood(&mut level, c, BlockType::Empty);
    }
    let mut sched = MeshScheduler::new(250, 2);
    for c in coords {
        sched.mark_needs_mesh(c);
    }
    let jobs = sched.queue_meshing(&level, 250);
    assert_eq!(jobs.len(), 3);
    let reg = registry();
    for job in &jobs {
        let mesh = build_mesh(&job.chunk, &job.neighbors, &reg, SCALE);
        assert!(sched.complete_task(job.coord, mesh));
    }
    let first = sched.poll_mesh_queue(true);
    assert_eq!(first.len(), 2);
    let second = sched.poll_mesh_queue(true);
    assert_eq!(second.len(), 1);
    let third = sched.poll_mesh_queue(true);
    assert_eq!(third.len(), 0);
    // every completed task was applied exactly once
    let mut seen: Vec<ChunkCoord> = Vec::new();
    for o in first.iter().chain(second.iter()) {
        assert!(!seen.contains(&o.coord));
        seen.push(o.coord);
    }
    assert_eq!(seen.len(), 3);
}

#[test]
fn poll_skips_until_material_loaded() {
    let coord = ChunkCoord::new(0, 0, 0);
    let level = level_with_neighborhood(coord, BlockType::Empty);
    let mut sched = MeshScheduler::new(250, 100);
    sched.mark_needs_mesh(coord);
    let jobs = sched.queue_meshing(&level, 250);
    assert_eq!(jobs.len(), 1);
    let reg = registry();
    let mesh = build_mesh(&jobs[0].chunk, &jobs[0].neighbors, &reg, SCALE);
    assert!(sched.complete_task(coord, mesh));
    // material not loaded: the poll does nothing and loses nothing
    let outcomes = sched.poll_mesh_queue(false);
    assert_eq!(outcomes.len(), 0);
    let outcomes = sched.poll_mesh_queue(true);
    assert_eq!(outcomes.len(), 1);
}

#[test]
fn empty_result_orders_mesh_removal() {
    // an empty mesh is a signal to clear the chunk's old mesh, not a no-op
    let coord = ChunkCoord::new(0, 0, 0);
    let level = level_with_neighborhood(coord, BlockType::Empty);
    let mut sched = MeshScheduler::new(250, 100);
    sched.mark_needs_mesh(coord);
    let jobs = sched.queue_meshing(&level, 250);
    let reg = registry();
    let mesh = build_mesh(&jobs[0].chunk, &jobs[0].neighbors, &reg, SCALE);
    assert!(mesh.is_empty());
    assert!(sched.complete_task(coord, mesh));
    let outcomes = sched.poll_mesh_queue(true);
    assert_eq!(outcomes.len(), 1);
    assert_eq!(outcomes[0].coord, coord);
    assert!(outcomes[0].mesh.is_none());
}

#[test]
fn nonempty_result_carries_buffers() {
    let coord = ChunkCoord::new(0, 0, 0);
    let level = level_with_neighborhood(coord, BlockType::Basic(0));
    let mut sched = MeshScheduler::new(250, 100);
    sched.mark_needs_mesh(coord);
    let jobs = sched.queue_meshing(&level, 250);
    assert_eq!(jobs.len(), 1);
    let reg = registry();
    // a solid 1-block chunk with solid neighbors culls everything; use
    // empty neighbors instead to get geometry
    let mesh = build_mesh(
        &jobs[0].chunk,
        &[None, None, None, None, None, None],
        &reg,
        SCALE,
    );
    assert!(!mesh.is_empty());
    assert!(sched.complete_task(coord, mesh));
    let outcomes = sched.poll_mesh_queue(true);
    assert_eq!(outcomes.len(), 1);
    let applied = outcomes.into_iter().next().unwrap();
    let data = applied.mesh.expect("geometry expected");
    assert_eq!(data.verts.len(), 24);
}

#[test]
fn stale_result_is_discarded() {
    // a completed task for an untracked chunk is dropped silently
    let mut sched = MeshScheduler::new(250, 100);
    let reg = registry();
    let mesh = build_mesh(
        &Chunk::filled(ChunkCoord::new(5, 5, 5), 1, BlockType::Empty),
        &[None, None, None, None, None, None],
        &reg,
        SCALE,
    );
    assert!(!sched.complete_task(ChunkCoord::new(5, 5, 5), mesh));
    assert_eq!(sched.poll_mesh_queue(true).len(), 0);
}

#[test]
fn despawned_chunk_record_is_removed() {
    let coord = ChunkCoord::new(0, 0, 0);
    let level = level_with_neighborhood(coord, BlockType::Empty);
    let mut sched = MeshScheduler::new(250, 100);
    sched.mark_needs_mesh(coord);
    let jobs = sched.queue_meshing(&level, 250);
    assert_eq!(jobs.len(), 1);
    assert!(sched.remove_record(coord));
    // the in-flight task's eventual result no longer finds a record
    let reg = registry();
    let mesh = build_mesh(&jobs[0].chunk, &jobs[0].neighbors, &reg, SCALE);
    assert!(!sched.complete_task(coord, mesh));
}

#[test]
fn interior_edit_marks_only_own_chunk() {
    let mut sched = MeshScheduler::new(250, 100);
    sched.mark_block_edit(ChunkCoord::new(0, 0, 0), ChunkIdx::new(1, 1, 1), 4);
    assert_eq!(sched.records.len(), 1);
    assert_eq!(sched.records[0].coord, ChunkCoord::new(0, 0, 0));
    assert!(sched.records[0].needs_mesh);
}

#[test]
fn boundary_edit_invalidates_neighbor() {
    // an edit on the +X boundary re-marks the +X neighbor too
    let mut sched = MeshScheduler::new(250, 100);
    sched.mark_block_edit(ChunkCoord::new(0, 0, 0), ChunkIdx::new(3, 1, 1), 4);
    let coords: Vec<ChunkCoord> = sched.records.iter().map(|r| r.coord).collect();
    assert_eq!(coords.len(), 2);
    assert!(coords.contains(&ChunkCoord::new(0, 0, 0)));
    assert!(coords.contains(&ChunkCoord::new(1, 0, 0)));
    for r in &sched.records {
        assert!(r.needs_mesh);
    }
}

#[test]
fn corner_edit_invalidates_three_neighbors() {
    let mut sched = MeshScheduler::new(250, 100);
    sched.mark_block_edit(ChunkCoord::new(0, 0, 0), ChunkIdx::new(0, 0, 3), 4);
    let coords: Vec<ChunkCoord> = sched.records.iter().map(|r| r.coord).collect();
    assert_eq!(coords.len(), 4);
    assert!(coords.contains(&ChunkCoord::new(0, 0, 0)));
    assert!(coords.contains(&ChunkCoord::new(-1, 0, 0)));
    assert!(coords.contains(&ChunkCoord::new(0, -1, 0)));
    assert!(coords.contains(&ChunkCoord::new(0, 0, 1)));
}

#[test]
fn edit_does_not_cancel_pending_task() {
    let coord = ChunkCoord::new(0, 0, 0);
    let level = level_with_neighborhood(coord, BlockType::Empty);
    let mut sched = MeshScheduler::new(250, 100);
    sched.mark_needs_mesh(coord);
    let jobs = sched.queue_meshing(&level, 250);
    assert_eq!(jobs.len(), 1);
    sched.mark_block_edit(coord, ChunkIdx::new(0, 0, 0), 1);
    // the task handle is still there, and the chunk is marked again
    let rec = sched
        .records
        .iter()
        .find(|r| r.coord == coord)
        .expect("record kept");
    assert!(matches!(rec.task, Some(MeshTask::Pending)));
    assert!(rec.needs_mesh);
}
