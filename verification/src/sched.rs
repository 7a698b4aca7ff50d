//! The frame scheduler: two phases per frame, Simulate then Present, in
//! strict order because the presentation phase reads the positions the
//! movement phase writes. Systems declare their component access; a plan
//! that would run conflicting access sets concurrently is refused when the
//! schedule is built, never per frame.

use crate::math::spec_move_once;
use crate::render::{
    drain_submitted, frame_recorded, DrawCommand, RecordingContextPipeline, Render,
};
use crate::store::EntityStore;
use crate::systems::{Context, Mover};
use vstd::prelude::*;

verus! {

/// A system's declared read/write access to the component kinds.
#[derive(Clone, Copy, Debug, PartialEq, Eq, Structural)]
pub struct AccessSet {
    pub reads_pos: bool,
    pub writes_pos: bool,
    pub reads_target: bool,
    pub writes_target: bool,
}

/// Two access sets conflict when one writes a component kind the other
/// reads or writes.
pub open spec fn spec_conflicts(a: AccessSet, b: AccessSet) -> bool {
    ||| (a.writes_pos && (b.writes_pos || b.reads_pos))
    ||| (b.writes_pos && a.reads_pos)
    ||| (a.writes_target && (b.writes_target || b.reads_target))
    ||| (b.writes_target && a.reads_target)
}

/// Decides whether two declared access sets conflict.
pub fn conflicts(a: &AccessSet, b: &AccessSet) -> (c: bool)
    ensures
        c == spec_conflicts(*a, *b),
{
    (a.writes_pos && (b.writes_pos || b.reads_pos)) || (b.writes_pos && a.reads_pos) || (
    a.writes_target && (b.writes_target || b.reads_target)) || (b.writes_target
        && a.reads_target)
}

/// Why a schedule was refused at construction.
#[derive(Clone, Copy, Debug, PartialEq, Eq, Structural)]
pub enum ScheduleError {
    /// The declared access sets are inconsistent with the concurrency plan.
    AccessConflict,
}

/// Why a frame could not complete.
#[derive(Clone, Copy, Debug, PartialEq, Eq, Structural)]
pub enum FrameError {
    /// No recording context became available: the presentation path stalled.
    PipelineStarved,
}

/// The declared access of the movement phase: writes positions, reads
/// positions and movement targets.
pub open spec fn spec_movement_access() -> AccessSet {
    AccessSet { reads_pos: true, writes_pos: true, reads_target: true, writes_target: false }
}

/// The declared access of the presentation phase: reads positions only.
pub open spec fn spec_presentation_access() -> AccessSet {
    AccessSet { reads_pos: true, writes_pos: false, reads_target: false, writes_target: false }
}

/// The frame scheduler: holds the two phases' declared access sets and the
/// concurrency plan they were validated against.
#[derive(Clone, Copy, Debug)]
pub struct Scheduler {
    pub simulate_access: AccessSet,
    pub present_access: AccessSet,
    pub concurrent: bool,
}

impl Scheduler {
    /// A schedule is valid when a concurrent plan only covers
    /// non-conflicting access sets.
    pub open spec fn valid(self) -> bool {
        self.concurrent ==> !spec_conflicts(self.simulate_access, self.present_access)
    }

    /// Builds a schedule from the phases' declared access sets and the
    /// requested concurrency plan. A concurrent plan over conflicting sets
    /// is refused here, at construction — not at runtime per frame.
    pub fn new(simulate: AccessSet, present: AccessSet, concurrent: bool) -> (r: Result<
        Scheduler,
        ScheduleError,
    >)
        ensures
            r is Ok <==> !(concurrent && spec_conflicts(simulate, present)),
            r matches Ok(s) ==> s == (Scheduler {
                simulate_access: simulate,
                present_access: present,
                concurrent,
            }) && s.valid(),
            r is Err ==> r == Err::<Scheduler, ScheduleError>(ScheduleError::AccessConflict),
    {
        if concurrent && conflicts(&simulate, &present) {
            Err(ScheduleError::AccessConflict)
        } else {
            Ok(Scheduler { simulate_access: simulate, present_access: present, concurrent })
        }
    }

    /// The standard schedule: movement then presentation, sequenced because
    /// presentation reads what movement writes.
    pub fn sequential() -> (s: Scheduler)
        ensures
            s.simulate_access == spec_movement_access(),
            s.present_access == spec_presentation_access(),
            !s.concurrent,
            s.valid(),
    {
        Scheduler {
            simulate_access: AccessSet {
                reads_pos: true,
                writes_pos: true,
                reads_target: true,
                writes_target: false,
            },
            present_access: AccessSet {
                reads_pos: true,
                writes_pos: false,
                reads_target: false,
                writes_target: false,
            },
            concurrent: false,
        }
    }

    /// Runs one frame: the movement pass over every entity, then the
    /// presentation pass, then the driver's submission turn. Returns the
    /// frame's submitted command stream; fails as starved — with the
    /// movement already applied and the pipeline untouched — exactly when no
    /// recording context was queued.
    pub fn run_frame(
        &self,
        mover: &mut Mover,
        render: &mut Render,
        store: &mut EntityStore,
        pipe: &mut RecordingContextPipeline,
    ) -> (r: Result<Vec<DrawCommand>, FrameError>)
        requires
            self.valid(),
            old(store).wf(),
            old(pipe).wf(),
            old(pipe).submission_view().len() == 0,
        ensures
            final(store).wf(),
            final(pipe).wf(),
            *final(render) == *old(render),
            final(store).targets == old(store).targets,
            final(store).pos_registered == old(store).pos_registered,
            final(store).target_registered == old(store).target_registered,
            final(store).positions@.len() == old(store).positions@.len(),
            forall|i: int|
                0 <= i < old(store).positions@.len() ==> (#[trigger] final(store).positions@[i]).0
                    == spec_move_once(
                    old(store).positions@[i].0,
                    old(store).targets@[i].0,
                    old(store).targets@[i].1 as int,
                ),
            r is Err <==> old(pipe).recording_view().len() == 0,
            r is Err ==> *final(pipe) == *old(pipe) && r == Err::<Vec<DrawCommand>, FrameError>(
                FrameError::PipelineStarved,
            ),
            r matches Ok(cmds) ==> frame_recorded(
                cmds@,
                *final(store),
                old(render).batcher.capacity as int,
                old(render).proview,
            ),
            r is Ok ==> final(pipe).submission_view().len() == 0 && final(pipe).outstanding_ids()
                == old(pipe).outstanding_ids() && final(pipe).recording_view().len() == old(
                pipe,
            ).recording_view().len(),
    {
        mover.run(store, Context);
        match render.run(store, pipe, Context) {
            Err(_) => Err(FrameError::PipelineStarved),
            Ok(_) => {
                match drain_submitted(pipe) {
                    Some(cmds) => Ok(cmds),
                    None => {
                        proof {
                            assert(false);
                        }
                        Err(FrameError::PipelineStarved)
                    },
                }
            },
        }
    }
}

} // verus!
