use swarmframe::components::{MoveTo, Pos};
use swarmframe::math::Vec3Fx;
use swarmframe::render::{
    DrawCommand, InstanceBatchBuilder, RecordingContextPipeline, Render,
};
use swarmframe::sched::{AccessSet, FrameError, ScheduleError, Scheduler};
use swarmframe::store::{Entity, EntityStore};
use swarmframe::systems::{Context, Mover};
use swarmframe::world::spawn_grid;

fn v(x: i64, y: i64, z: i64) -> Vec3Fx {
    Vec3Fx { x, y, z }
}

fn movement_access() -> AccessSet {
    AccessSet { reads_pos: true, writes_pos: true, reads_target: true, writes_target: false }
}

fn presentation_access() -> AccessSet {
    AccessSet { reads_pos: true, writes_pos: false, reads_target: false, writes_target: false }
}

#[test]
fn concurrent_plan_over_conflicting_sets_is_refused() {
    // Presentation reads what movement writes: a concurrent plan is a
    // programming error, caught at construction.
    let r = Scheduler::new(movement_access(), presentation_access(), true);
    assert_eq!(r.err(), Some(ScheduleError::AccessConflict));
}

#[test]
fn sequential_plan_is_accepted() {
    let r = Scheduler::new(movement_access(), presentation_access(), false);
    assert!(r.is_ok());
}

#[test]
fn disjoint_writes_may_run_concurrently() {
    let a = AccessSet { reads_pos: true, writes_pos: true, reads_target: false, writes_target: false };
    let b = AccessSet { reads_pos: false, writes_pos: false, reads_target: true, writes_target: true };
    assert!(Scheduler::new(a, b, true).is_ok());
}

#[test]
fn frame_records_commands_in_order() {
    let mut store = EntityStore::new();
    store.register_pos();
    store.register_move_to();
    store.create(Pos(v(1000, 0, 0)), MoveTo(v(0, 0, 0), 50)).unwrap();
    let sched = Scheduler::sequential();
    let mut mover = Mover;
    let mut render = Render { batcher: InstanceBatchBuilder { capacity: 8 }, proview: 7 };
    let mut pipe = RecordingContextPipeline::new();
    let cmds = sched
        .run_frame(&mut mover, &mut render, &mut store, &mut pipe)
        .expect("a context is available");
    // The batch snapshots the position after this frame's movement pass.
    assert_eq!(
        cmds,
        vec![
            DrawCommand::ClearColor,
            DrawCommand::ClearDepth,
            DrawCommand::UpdateTransform(7),
            DrawCommand::UploadInstances(
                swarmframe::render::InstanceBatchBuilder { capacity: 8 }.build(&store)
            ),
            DrawCommand::DrawInstanced(1),
        ]
    );
    assert_eq!(store.position(Entity { id: 0 }), Pos(v(950, 0, 0)));
}

#[test]
fn starved_pipeline_fails_the_frame() {
    let mut store = EntityStore::new();
    store.register_pos();
    store.register_move_to();
    let sched = Scheduler::sequential();
    let mut mover = Mover;
    let mut render = Render { batcher: InstanceBatchBuilder { capacity: 8 }, proview: 0 };
    let mut pipe = RecordingContextPipeline::new();
    let a = pipe.acquire().unwrap();
    let b = pipe.acquire().unwrap();
    let r = sched.run_frame(&mut mover, &mut render, &mut store, &mut pipe);
    assert_eq!(r, Err(FrameError::PipelineStarved));
    let _ = (a, b);
}

#[test]
fn grid_converges_and_batch_stays_full() {
    // A 2 by 2 grid with step 0.05 units per frame: after enough ticks
    // every entity sits exactly on its target, and every frame draws all
    // four instances.
    let mut store = EntityStore::new();
    store.register_pos();
    store.register_move_to();
    spawn_grid(&mut store, 2, 2, 1000, 50).unwrap();
    let sched = Scheduler::sequential();
    let mut mover = Mover;
    let mut render = Render { batcher: InstanceBatchBuilder { capacity: 16 }, proview: 1 };
    let mut pipe = RecordingContextPipeline::new();
    for _ in 0..40 {
        let cmds = sched
            .run_frame(&mut mover, &mut render, &mut store, &mut pipe)
            .expect("frame completes");
        assert_eq!(cmds.len(), 5);
        assert_eq!(cmds[4], DrawCommand::DrawInstanced(4));
        match &cmds[3] {
            DrawCommand::UploadInstances(batch) => assert_eq!(batch.len(), 4),
            other => panic!("expected an instance upload, found {:?}", other),
        }
    }
    for id in 0..4 {
        let e = Entity { id };
        let MoveTo(target, _) = store.move_target(e);
        assert_eq!(store.position(e), Pos(target));
    }
}

#[test]
fn movement_applies_before_presentation_reads() {
    // The frame's batch holds the moved position, not the stale one.
    let mut store = EntityStore::new();
    store.register_pos();
    store.register_move_to();
    store.create(Pos(v(0, 0, 0)), MoveTo(v(0, 0, 1000), 250)).unwrap();
    let sched = Scheduler::sequential();
    let mut mover = Mover;
    let mut render = Render { batcher: InstanceBatchBuilder { capacity: 4 }, proview: 0 };
    let mut pipe = RecordingContextPipeline::new();
    let cmds = sched
        .run_frame(&mut mover, &mut render, &mut store, &mut pipe)
        .unwrap();
    match &cmds[3] {
        DrawCommand::UploadInstances(batch) => {
            assert_eq!(batch[0].translate, v(0, 0, 250));
        }
        other => panic!("expected an instance upload, found {:?}", other),
    }
}

#[test]
fn run_frame_drives_context_handoff_each_tick() {
    let mut store = EntityStore::new();
    store.register_pos();
    store.register_move_to();
    store.create(Pos(v(100, 0, 0)), MoveTo(v(0, 0, 0), 10)).unwrap();
    let sched = Scheduler::sequential();
    let mut mover = Mover;
    let mut render = Render { batcher: InstanceBatchBuilder { capacity: 4 }, proview: 0 };
    let mut pipe = RecordingContextPipeline::new();
    // Many ticks in a row succeed: each frame returns its context, so the
    // two-context pool never starves the sequential loop.
    for _ in 0..20 {
        assert!(sched.run_frame(&mut mover, &mut render, &mut store, &mut pipe).is_ok());
    }
    let _ = Context;
}
