//! The presentation path: the per-frame instance batch, the recorded GPU
//! command stream, and the two-context recording pipeline that double-buffers
//! command recording against GPU consumption.

use crate::components::Pos;
use crate::math::Vec3Fx;
use crate::store::EntityStore;
use vstd::multiset::Multiset;
use vstd::prelude::*;
use vstd::seq_lib::group_to_multiset_ensures;

verus! {

/// One per-entity instance attribute: the translation applied to the shared
/// geometry for that instance.
#[derive(Clone, Copy, Debug, PartialEq, Eq, Structural)]
pub struct InstanceRecord {
    pub translate: Vec3Fx,
}

/// A GPU command recorded into a context, in submission order.
#[derive(Debug, PartialEq)]
pub enum DrawCommand {
    /// Clear the colour target.
    ClearColor,
    /// Clear the depth target.
    ClearDepth,
    /// Update the per-frame view-projection constant to the given snapshot.
    UpdateTransform(u64),
    /// Replace the instance attribute buffer with the batch contents.
    UploadInstances(Vec<InstanceRecord>),
    /// Issue one instanced draw with the given instance count.
    DrawInstanced(usize),
}

/// Snapshots positions into the per-frame instance batch, truncating to a
/// fixed capacity: entities beyond it are dropped from the frame, not an error.
#[derive(Clone, Copy)]
pub struct InstanceBatchBuilder {
    pub capacity: usize,
}

/// The batch a store yields under a capacity: one record per entity in
/// iteration order, truncated to the capacity.
pub open spec fn spec_batch(store: EntityStore, cap: int) -> Seq<InstanceRecord> {
    store.positions@.take(
        if store.positions@.len() <= cap {
            store.positions@.len() as int
        } else {
            cap
        },
    ).map(|i: int, p: Pos| InstanceRecord { translate: p.0 })
}

impl InstanceBatchBuilder {
    /// Builds this frame's batch: one record per entity, in entity order,
    /// never more than the capacity.
    pub fn build(&self, store: &EntityStore) -> (batch: Vec<InstanceRecord>)
        ensures
            batch@ == spec_batch(*store, self.capacity as int),
            batch@.len() <= self.capacity,
            batch@.len() == if store.spec_len() <= self.capacity {
                store.spec_len()
            } else {
                self.capacity as nat
            },
    {
        let n: usize = store.len();
        let count: usize = if n < self.capacity {
            n
        } else {
            self.capacity
        };
        let mut out: Vec<InstanceRecord> = Vec::new();
        let mut i: usize = 0;
        while i < count
            invariant
                i <= count,
                count <= store.spec_len(),
                out@.len() == i,
                forall|j: int|
                    0 <= j < i ==> (#[trigger] out@[j]) == (InstanceRecord {
                        translate: store.positions@[j].0,
                    }),
            decreases count - i,
        {
            out.push(InstanceRecord { translate: store.positions[i].0 });
            i = i + 1;
        }
        proof {
            assert(out@ =~= spec_batch(*store, self.capacity as int));
        }
        out
    }
}

/// An opaque command-recording handle. Exactly two exist per pipeline; a
/// context is only ever held by one side at a time.
pub struct RecordingContext {
    id: u8,
    commands: Vec<DrawCommand>,
}

impl RecordingContext {
    /// The context's identity within its pipeline.
    pub closed spec fn spec_id(self) -> int {
        self.id as int
    }

    /// The commands recorded so far, oldest first.
    pub closed spec fn commands_seq(self) -> Seq<DrawCommand> {
        self.commands@
    }

    fn new(id: u8) -> (c: Self)
        ensures
            c.spec_id() == id,
            c.commands_seq() == Seq::<DrawCommand>::empty(),
    {
        RecordingContext { id, commands: Vec::new() }
    }

    /// The context's identity, for observation by the driver.
    pub fn id(&self) -> (i: u8)
        ensures
            i as int == self.spec_id(),
    {
        self.id
    }

    /// Appends one command to the context.
    pub fn record(&mut self, cmd: DrawCommand)
        ensures
            final(self).spec_id() == old(self).spec_id(),
            final(self).commands_seq() == old(self).commands_seq().push(cmd),
    {
        self.commands.push(cmd);
    }

    /// Removes and returns everything recorded, leaving the context empty.
    pub fn take_commands(&mut self) -> (cmds: Vec<DrawCommand>)
        ensures
            final(self).spec_id() == old(self).spec_id(),
            final(self).commands_seq() == Seq::<DrawCommand>::empty(),
            cmds@ == old(self).commands_seq(),
    {
        let cmds = self.commands.split_off(0);
        proof {
            assert(cmds@ =~= old(self).commands_seq());
            assert(self.commands@ =~= Seq::<DrawCommand>::empty());
        }
        cmds
    }

    /// Discards everything recorded, readying the context for reuse.
    pub fn reset(&mut self)
        ensures
            final(self).spec_id() == old(self).spec_id(),
            final(self).commands_seq() == Seq::<DrawCommand>::empty(),
    {
        self.commands.clear();
    }
}

/// Identities of a queue of contexts, in queue order.
pub open spec fn ids_of(s: Seq<RecordingContext>) -> Seq<int> {
    s.map(|i: int, c: RecordingContext| c.spec_id())
}

/// The bounded double-buffered handoff of the two recording contexts between
/// the frame-driving side and the presentation side. Contexts queued for
/// recording are empty; contexts queued for submission carry a recorded frame.
pub struct RecordingContextPipeline {
    for_recording: Vec<RecordingContext>,
    for_submission: Vec<RecordingContext>,
    outstanding: Ghost<Multiset<int>>,
}

impl RecordingContextPipeline {
    /// Contexts waiting to be acquired for recording, front first.
    pub closed spec fn recording_view(self) -> Seq<RecordingContext> {
        self.for_recording@
    }

    /// Recorded contexts waiting for submission, front first.
    pub closed spec fn submission_view(self) -> Seq<RecordingContext> {
        self.for_submission@
    }

    /// Identities of the contexts currently checked out by a caller.
    pub closed spec fn outstanding_ids(self) -> Multiset<int> {
        self.outstanding@
    }

    /// Every context identity, wherever the context currently is.
    pub open spec fn all_ids(self) -> Multiset<int> {
        ids_of(self.recording_view()).to_multiset().add(
            ids_of(self.submission_view()).to_multiset(),
        ).add(self.outstanding_ids())
    }

    /// The conservation invariant: the two context identities exist exactly
    /// once each across both queues and the checked-out contexts, and every
    /// context awaiting recording is empty.
    pub open spec fn wf(self) -> bool {
        &&& self.all_ids() =~= Multiset::<int>::empty().insert(0).insert(1)
        &&& forall|i: int|
            0 <= i < self.recording_view().len() ==> (#[trigger] self.recording_view()[i])
                .commands_seq() == Seq::<DrawCommand>::empty()
    }

    /// A fresh pipeline: both contexts created and queued for recording,
    /// nothing checked out.
    pub fn new() -> (p: Self)
        ensures
            p.wf(),
            p.recording_view().len() == 2,
            p.submission_view().len() == 0,
            p.outstanding_ids() == Multiset::<int>::empty(),
            ids_of(p.recording_view()) =~= seq![0int, 1int],
    {
        let mut q: Vec<RecordingContext> = Vec::new();
        q.push(RecordingContext::new(0));
        q.push(RecordingContext::new(1));
        let p = RecordingContextPipeline {
            for_recording: q,
            for_submission: Vec::new(),
            outstanding: Ghost(Multiset::empty()),
        };
        proof {
            broadcast use group_to_multiset_ensures;

            assert(ids_of(p.recording_view()) =~= seq![0int, 1int]);
            assert(seq![0int, 1int] == Seq::<int>::empty().push(0).push(1));
            assert(ids_of(p.submission_view()) =~= Seq::<int>::empty());
            assert(p.all_ids() =~= Multiset::<int>::empty().insert(0).insert(1));
        }
        p
    }

    /// Hands out the front context queued for recording, or nothing when the
    /// queue is empty: the presentation side then has to wait for the driver
    /// to return one.
    pub fn acquire(&mut self) -> (r: Option<RecordingContext>)
        requires
            old(self).wf(),
        ensures
            final(self).wf(),
            old(self).recording_view().len() == 0 ==> r is None && *final(self) == *old(self),
            old(self).recording_view().len() > 0 ==> (r matches Some(c) && c == old(self).recording_view()[0] && c.commands_seq() == Seq::<DrawCommand>::empty() && final(self).recording_view() == old(self).recording_view().drop_first() && final(self)
                .submission_view() == old(self).submission_view() && final(self).outstanding_ids()
                == old(self).outstanding_ids().insert(c.spec_id())),
    {
        if self.for_recording.len() == 0 {
            None
        } else {
            let c = self.for_recording.remove(0);
            self.outstanding = Ghost(self.outstanding@.insert(c.id as int));
            proof {
                broadcast use group_to_multiset_ensures;

                let before = old(self).recording_view();
                assert(ids_of(before.remove(0)) =~= ids_of(before).remove(0));
                assert(before.remove(0) =~= before.drop_first());
                assert(ids_of(before).remove(0).to_multiset() =~= ids_of(
                    before,
                ).to_multiset().remove(ids_of(before)[0]));
                assert(self.all_ids() =~= old(self).all_ids());
            }
            Some(c)
        }
    }

    /// Returns a recorded context to the submission queue. The context must
    /// be one this pipeline handed out.
    pub fn release(&mut self, c: RecordingContext)
        requires
            old(self).wf(),
            old(self).outstanding_ids().count(c.spec_id()) > 0,
        ensures
            final(self).wf(),
            final(self).recording_view() == old(self).recording_view(),
            final(self).submission_view() == old(self).submission_view().push(c),
            final(self).outstanding_ids() == old(self).outstanding_ids().remove(c.spec_id()),
    {
        self.outstanding = Ghost(self.outstanding@.remove(c.id as int));
        let ghost gid: int = c.spec_id();
        self.for_submission.push(c);
        proof {
            broadcast use group_to_multiset_ensures;

            let before = old(self).submission_view();
            assert(ids_of(before.push(c)) =~= ids_of(before).push(gid));
            assert(ids_of(before).push(gid).to_multiset() =~= ids_of(before).to_multiset().insert(
                gid,
            ));
            assert(self.all_ids() =~= old(self).all_ids());
        }
    }

    /// Takes the front recorded context for GPU submission, or nothing when
    /// no frame has been recorded yet.
    pub fn take_submitted(&mut self) -> (r: Option<RecordingContext>)
        requires
            old(self).wf(),
        ensures
            final(self).wf(),
            old(self).submission_view().len() == 0 ==> r is None && *final(self) == *old(self),
            old(self).submission_view().len() > 0 ==> (r matches Some(c) && c == old(self).submission_view()[0] && final(self).submission_view() == old(self).submission_view().drop_first() && final(self).recording_view() == old(self).recording_view() && final(self).outstanding_ids() == old(self).outstanding_ids().insert(c.spec_id())),
    {
        if self.for_submission.len() == 0 {
            None
        } else {
            let c = self.for_submission.remove(0);
            self.outstanding = Ghost(self.outstanding@.insert(c.id as int));
            proof {
                broadcast use group_to_multiset_ensures;

                let before = old(self).submission_view();
                assert(ids_of(before.remove(0)) =~= ids_of(before).remove(0));
                assert(before.remove(0) =~= before.drop_first());
                assert(ids_of(before).remove(0).to_multiset() =~= ids_of(
                    before,
                ).to_multiset().remove(ids_of(before)[0]));
                assert(self.all_ids() =~= old(self).all_ids());
            }
            Some(c)
        }
    }

    /// Returns a submitted context to the recording queue for reuse, cleared.
    /// The context must be one this pipeline handed out.
    pub fn reclaim(&mut self, c: RecordingContext)
        requires
            old(self).wf(),
            old(self).outstanding_ids().count(c.spec_id()) > 0,
        ensures
            final(self).wf(),
            final(self).submission_view() == old(self).submission_view(),
            final(self).outstanding_ids() == old(self).outstanding_ids().remove(c.spec_id()),
            final(self).recording_view().len() == old(self).recording_view().len() + 1,
            forall|j: int|
                0 <= j < old(self).recording_view().len() ==> (#[trigger] final(self).recording_view()[j]) == old(self).recording_view()[j],
            final(self).recording_view().last().spec_id() == c.spec_id(),
            final(self).recording_view().last().commands_seq() == Seq::<DrawCommand>::empty(),
    {
        let mut c = c;
        c.reset();
        self.outstanding = Ghost(self.outstanding@.remove(c.id as int));
        let ghost gid: int = c.spec_id();
        self.for_recording.push(c);
        proof {
            broadcast use group_to_multiset_ensures;

            let before = old(self).recording_view();
            assert(ids_of(before.push(c)) =~= ids_of(before).push(gid));
            assert(ids_of(before).push(gid).to_multiset() =~= ids_of(before).to_multiset().insert(
                gid,
            ));
            assert(self.all_ids() =~= old(self).all_ids());
        }
    }
}

/// Law: a well-formed pipeline conserves its contexts, however many
/// acquire/release and take/reclaim cycles have run: counting both queues and
/// the checked-out contexts there are exactly two, one with each identity —
/// no context leaks and none is duplicated.
pub proof fn lemma_exactly_two_contexts(p: RecordingContextPipeline)
    requires
        p.wf(),
    ensures
        p.recording_view().len() + p.submission_view().len() + p.outstanding_ids().len() == 2,
        p.all_ids().count(0) == 1,
        p.all_ids().count(1) == 1,
{
    broadcast use group_to_multiset_ensures;

    let two = Multiset::<int>::empty().insert(0).insert(1);
    assert(p.all_ids().len() == two.len());
    assert(two.len() == 2);
    assert(ids_of(p.recording_view()).to_multiset().len() == p.recording_view().len());
    assert(ids_of(p.submission_view()).to_multiset().len() == p.submission_view().len());
}

/// Why presentation could not run this frame.
#[derive(Clone, Copy, Debug, PartialEq, Eq, Structural)]
pub enum PresentError {
    /// No recording context is available: the driver has not yet returned
    /// one. For the frame loop this is fatal, not recoverable.
    PipelineStarved,
}

/// The presentation system's configuration: the instance-batch builder and a
/// snapshot of the externally computed view-projection configuration, which
/// this system only applies.
pub struct Render {
    pub batcher: InstanceBatchBuilder,
    pub proview: u64,
}

/// One frame's recorded command stream: clear the colour target, clear the
/// depth target, update the per-frame transform, upload the instance batch,
/// and issue one instanced draw with the batch's length — in that order.
pub open spec fn frame_recorded(
    cmds: Seq<DrawCommand>,
    store: EntityStore,
    cap: int,
    transform: u64,
) -> bool {
    &&& cmds.len() == 5
    &&& cmds[0] == DrawCommand::ClearColor
    &&& cmds[1] == DrawCommand::ClearDepth
    &&& cmds[2] == DrawCommand::UpdateTransform(transform)
    &&& (cmds[3] matches DrawCommand::UploadInstances(v) && v@ == spec_batch(store, cap))
    &&& cmds[4] == DrawCommand::DrawInstanced(spec_batch(store, cap).len() as usize)
}

/// Driver side of one frame: takes the earliest recorded context, hands its
/// commands to the caller for submission to the presentation surface, and
/// returns the cleared context to the recording queue for reuse.
pub fn drain_submitted(pipe: &mut RecordingContextPipeline) -> (r: Option<Vec<DrawCommand>>)
    requires
        old(pipe).wf(),
    ensures
        final(pipe).wf(),
        old(pipe).submission_view().len() == 0 ==> r is None && *final(pipe) == *old(pipe),
        old(pipe).submission_view().len() > 0 ==> (r matches Some(cmds) && cmds@ == old(pipe)
            .submission_view()[0].commands_seq() && final(pipe).submission_view() == old(pipe)
            .submission_view().drop_first() && final(pipe).outstanding_ids() == old(pipe)
            .outstanding_ids() && final(pipe).recording_view().len() == old(pipe)
            .recording_view().len() + 1 && (forall|j: int|
            0 <= j < old(pipe).recording_view().len() ==> (#[trigger] final(pipe)
                .recording_view()[j]) == old(pipe).recording_view()[j]) && final(pipe)
            .recording_view().last().spec_id() == old(pipe).submission_view()[0].spec_id()),
{
    match pipe.take_submitted() {
        None => None,
        Some(c) => {
            let mut c = c;
            let cmds = c.take_commands();
            let ghost gid: int = c.spec_id();
            pipe.reclaim(c);
            proof {
                assert(pipe.outstanding_ids() =~= old(pipe).outstanding_ids());
            }
            Some(cmds)
        },
    }
}

} // verus!
