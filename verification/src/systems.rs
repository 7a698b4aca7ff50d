//! The simulation systems and the per-dispatch context they receive.

use crate::components::Pos;
use crate::math::{move_once, spec_move_once};
use crate::render::{
    frame_recorded, DrawCommand, PresentError, RecordingContextPipeline, Render,
};
use crate::store::EntityStore;
use vstd::prelude::*;

verus! {

/// Per-dispatch context handed to every system when it runs.
#[derive(Clone, Copy)]
pub struct Context;

/// The movement system: advances every entity's position toward its target.
/// It writes positions and reads movement targets, nothing else.
pub struct Mover;

impl Mover {
    /// One movement pass over the whole store: every position advances one
    /// step toward its target, exactly as `spec_move_once` describes; targets
    /// and registration are untouched.
    pub fn run(&mut self, store: &mut EntityStore, _ctx: Context)
        requires
            old(store).wf(),
        ensures
            final(store).wf(),
            final(store).targets == old(store).targets,
            final(store).pos_registered == old(store).pos_registered,
            final(store).target_registered == old(store).target_registered,
            final(store).positions@.len() == old(store).positions@.len(),
            forall|i: int|
                0 <= i < old(store).positions@.len() ==> (#[trigger] final(store).positions@[i]).0
                    == spec_move_once(
                    old(store).positions@[i].0,
                    old(store).targets@[i].0,
                    old(store).targets@[i].1 as int,
                ),
    {
        let n: usize = store.len();
        let mut i: usize = 0;
        while i < n
            invariant
                store.wf(),
                n == store.spec_len(),
                i <= n,
                store.targets == old(store).targets,
                store.pos_registered == old(store).pos_registered,
                store.target_registered == old(store).target_registered,
                store.positions@.len() == old(store).positions@.len(),
                forall|j: int| i <= j < n ==> store.positions@[j] == old(store).positions@[j],
                forall|j: int|
                    0 <= j < i ==> (#[trigger] store.positions@[j]).0 == spec_move_once(
                        old(store).positions@[j].0,
                        old(store).targets@[j].0,
                        old(store).targets@[j].1 as int,
                    ),
            decreases n - i,
        {
            let p: Pos = store.positions[i];
            let m = store.targets[i];
            let q = move_once(p.0, m.0, m.1);
            store.positions[i] = Pos(q);
            i = i + 1;
        }
    }
}

impl Render {
    /// One presentation pass: snapshots positions into the instance batch,
    /// acquires a recording context (failing as starved when none is queued,
    /// with nothing changed), records the frame's five commands in order, and
    /// releases the context to the submission queue.
    pub fn run(&mut self, store: &EntityStore, pipe: &mut RecordingContextPipeline, _ctx: Context) -> (r: Result<
        (),
        PresentError,
    >)
        requires
            old(pipe).wf(),
        ensures
            *final(self) == *old(self),
            final(pipe).wf(),
            r is Err <==> old(pipe).recording_view().len() == 0,
            r is Err ==> *final(pipe) == *old(pipe) && r == Err::<(), PresentError>(
                PresentError::PipelineStarved,
            ),
            r is Ok ==> final(pipe).recording_view() == old(pipe).recording_view().drop_first(),
            r is Ok ==> final(pipe).outstanding_ids() == old(pipe).outstanding_ids(),
            r is Ok ==> final(pipe).submission_view().len() == old(pipe).submission_view().len()
                + 1,
            r is Ok ==> forall|j: int|
                0 <= j < old(pipe).submission_view().len() ==> (#[trigger] final(pipe)
                    .submission_view()[j]) == old(pipe).submission_view()[j],
            r is Ok ==> final(pipe).submission_view().last().spec_id() == old(pipe)
                .recording_view()[0].spec_id(),
            r is Ok ==> frame_recorded(
                final(pipe).submission_view().last().commands_seq(),
                *store,
                old(self).batcher.capacity as int,
                old(self).proview,
            ),
    {
        let batch = self.batcher.build(store);
        let count: usize = batch.len();
        match pipe.acquire() {
            None => Err(PresentError::PipelineStarved),
            Some(c) => {
                let mut c = c;
                c.record(DrawCommand::ClearColor);
                c.record(DrawCommand::ClearDepth);
                c.record(DrawCommand::UpdateTransform(self.proview));
                c.record(DrawCommand::UploadInstances(batch));
                c.record(DrawCommand::DrawInstanced(count));
                pipe.release(c);
                Ok(())
            },
        }
    }
}

} // verus!
