use swarmframe::render::{
    drain_submitted, DrawCommand, InstanceBatchBuilder, InstanceRecord, PresentError,
    RecordingContextPipeline, Render,
};
use swarmframe::systems::Context;
use swarmframe::components::{MoveTo, Pos};
use swarmframe::math::Vec3Fx;
use swarmframe::store::EntityStore;

fn v(x: i64, y: i64, z: i64) -> Vec3Fx {
    Vec3Fx { x, y, z }
}

#[test]
fn fresh_pipeline_holds_two_contexts() {
    let mut pipe = RecordingContextPipeline::new();
    let a = pipe.acquire().expect("first context");
    let b = pipe.acquire().expect("second context");
    assert_ne!(a.id(), b.id());
    assert!(a.id() <= 1 && b.id() <= 1);
    // Both contexts are out: the next acquire finds none and the caller
    // must wait for a release.
    assert!(pipe.acquire().is_none());
    let _ = (a, b);
}

#[test]
fn acquire_blocks_until_context_returns() {
    let mut pipe = RecordingContextPipeline::new();
    let a = pipe.acquire().unwrap();
    let b = pipe.acquire().unwrap();
    assert!(pipe.acquire().is_none());
    pipe.release(a);
    // A released context sits in the submission queue; only after the
    // driver submits and reclaims it does acquire succeed again.
    assert!(pipe.acquire().is_none());
    let back = pipe.take_submitted().unwrap();
    pipe.reclaim(back);
    let c = pipe.acquire().expect("context returned for recording");
    assert!(pipe.acquire().is_none());
    let _ = (b, c);
}

#[test]
fn contexts_conserved_over_many_cycles() {
    let mut pipe = RecordingContextPipeline::new();
    for _ in 0..25 {
        let mut c = pipe.acquire().expect("a context is queued");
        c.record(DrawCommand::ClearColor);
        pipe.release(c);
        let back = pipe.take_submitted().expect("the recorded context");
        pipe.reclaim(back);
    }
    // After any number of cycles exactly the two contexts exist.
    let a = pipe.acquire().unwrap();
    let b = pipe.acquire().unwrap();
    assert_ne!(a.id(), b.id());
    assert!(pipe.acquire().is_none());
}

#[test]
fn reclaimed_context_comes_back_empty() {
    let mut pipe = RecordingContextPipeline::new();
    let mut c = pipe.acquire().unwrap();
    c.record(DrawCommand::ClearColor);
    c.record(DrawCommand::DrawInstanced(9));
    pipe.release(c);
    let cmds = drain_submitted(&mut pipe).expect("a recorded frame");
    assert_eq!(cmds, vec![DrawCommand::ClearColor, DrawCommand::DrawInstanced(9)]);
    // The same context, reclaimed, records afresh.
    let mut again = pipe.acquire().unwrap();
    again.record(DrawCommand::ClearDepth);
    pipe.release(again);
    let cmds = drain_submitted(&mut pipe).unwrap();
    assert_eq!(cmds, vec![DrawCommand::ClearDepth]);
}

#[test]
fn drain_on_empty_submission_queue_is_none() {
    let mut pipe = RecordingContextPipeline::new();
    assert!(drain_submitted(&mut pipe).is_none());
}

#[test]
fn batch_is_one_record_per_entity_in_order() {
    let mut store = EntityStore::new();
    store.register_pos();
    store.register_move_to();
    for i in 0..3 {
        store
            .create(Pos(v(i * 10, i, -i)), MoveTo(v(0, 0, 0), 1))
            .unwrap();
    }
    let builder = InstanceBatchBuilder { capacity: 10 };
    let batch = builder.build(&store);
    assert_eq!(
        batch,
        vec![
            InstanceRecord { translate: v(0, 0, 0) },
            InstanceRecord { translate: v(10, 1, -1) },
            InstanceRecord { translate: v(20, 2, -2) },
        ]
    );
}

#[test]
fn batch_truncates_to_capacity() {
    let mut store = EntityStore::new();
    store.register_pos();
    store.register_move_to();
    for i in 0..5 {
        store.create(Pos(v(i, 0, 0)), MoveTo(v(0, 0, 0), 1)).unwrap();
    }
    let builder = InstanceBatchBuilder { capacity: 3 };
    let batch = builder.build(&store);
    assert_eq!(batch.len(), 3);
    for (i, rec) in batch.iter().enumerate() {
        assert_eq!(rec.translate, v(i as i64, 0, 0));
    }
    // Capacity zero drops every entity; entity counts at the capacity or
    // under it are kept whole.
    assert_eq!(InstanceBatchBuilder { capacity: 0 }.build(&store).len(), 0);
    assert_eq!(InstanceBatchBuilder { capacity: 5 }.build(&store).len(), 5);
    assert_eq!(InstanceBatchBuilder { capacity: 9 }.build(&store).len(), 5);
}

#[test]
fn presentation_is_starved_without_a_context() {
    let mut store = EntityStore::new();
    store.register_pos();
    store.register_move_to();
    store.create(Pos(v(1, 2, 3)), MoveTo(v(0, 0, 0), 1)).unwrap();
    let mut pipe = RecordingContextPipeline::new();
    let a = pipe.acquire().unwrap();
    let b = pipe.acquire().unwrap();
    let mut render = Render { batcher: InstanceBatchBuilder { capacity: 4 }, proview: 3 };
    let r = render.run(&store, &mut pipe, Context);
    assert_eq!(r, Err(PresentError::PipelineStarved));
    let _ = (a, b);
}

#[test]
fn presentation_records_one_frame() {
    let mut store = EntityStore::new();
    store.register_pos();
    store.register_move_to();
    store.create(Pos(v(5, 6, 7)), MoveTo(v(0, 0, 0), 1)).unwrap();
    let mut pipe = RecordingContextPipeline::new();
    let mut render = Render { batcher: InstanceBatchBuilder { capacity: 4 }, proview: 3 };
    render.run(&store, &mut pipe, Context).unwrap();
    let cmds = drain_submitted(&mut pipe).unwrap();
    assert_eq!(
        cmds,
        vec![
            DrawCommand::ClearColor,
            DrawCommand::ClearDepth,
            DrawCommand::UpdateTransform(3),
            DrawCommand::UploadInstances(vec![InstanceRecord { translate: v(5, 6, 7) }]),
            DrawCommand::DrawInstanced(1),
        ]
    );
}
