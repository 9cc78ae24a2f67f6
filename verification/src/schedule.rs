//! The pass orchestrator as a state machine.
//!
//! A run is two passes, baseline then dilated. A pass seeds its particle
//! store and then produces its frames one after another; a frame is a batch
//! of compute steps, one snapshot of the store, and one presentation of the
//! snapshot. The machine here decides what is done next; the driver that
//! owns the device does it and reports how it went.

use vstd::prelude::*;
use crate::particle::Mode;
use crate::store::RECORD_BYTES;

verus! {

/// Number of passes in a run.
pub const PASSES: u32 = 2;

/// Particles in a standard run.
pub const PARTICLE_COUNT: u32 = 100_000;

/// Kernel invocations per workgroup in a standard run.
pub const WORKGROUP_SIZE: u32 = 256;

/// Frames per pass in a standard run.
pub const FRAMES_PER_PASS: u32 = 150;

/// Compute steps per frame in a standard run.
pub const STEPS_PER_FRAME: u32 = 5;

/// The sizes that stay fixed for a whole run.
#[derive(Clone, Copy, Debug, PartialEq, Eq, Structural)]
pub struct Plan {
    pub particles: u32,
    pub workgroup_size: u32,
    pub frames: u32,
    pub steps: u32,
}

/// Where a frame stands.
#[derive(Clone, Copy, Debug, PartialEq, Eq, Structural)]
pub enum Stage {
    /// The pass has no particle store yet.
    Seeding,
    /// `done` of the frame's steps have been dispatched; one more is due.
    Stepping { done: u32 },
    /// All steps of the frame are dispatched; the snapshot is due.
    Reading,
    /// The snapshot is on the host; the frame is to be rendered and saved.
    Presenting,
    /// Both passes are over.
    Finished,
}

/// Where a run stands.
#[derive(Clone, Copy, Debug, PartialEq, Eq, Structural)]
pub struct Progress {
    pub pass: u32,
    pub frame: u32,
    pub stage: Stage,
}

/// What the driver is to do next.
#[derive(Clone, Copy, Debug, PartialEq, Eq, Structural)]
pub enum Action {
    /// Allocate the buffers of a pass and fill the particle store with
    /// `particles` fresh particles.
    Seed { mode: Mode, particles: u32 },
    /// Dispatch one compute step over `workgroups` workgroups, without
    /// waiting for it.
    Dispatch { workgroups: u32 },
    /// Copy `bytes` bytes of the particle store to the host and wait until
    /// they can be read.
    Snapshot { bytes: u64 },
    /// Render the snapshot as frame `frame` of the pass and save it.
    Present { mode: Mode, frame: u32 },
    /// Nothing is left to do.
    Finish,
}

/// How the action last handed out went.
#[derive(Clone, Copy, Debug, PartialEq, Eq, Structural)]
pub enum Event {
    /// It was carried out.
    Completed,
    /// The snapshot could not be mapped for reading. The frame is dropped.
    SnapshotFailed,
}

/// The mode of a pass: the first is the baseline, any later one is dilated.
pub open spec fn mode_of(pass: u32) -> Mode {
    if pass == 0 {
        Mode::Baseline
    } else {
        Mode::Dilated
    }
}

impl Plan {
    /// A plan can be run if its workgroups are not empty.
    pub open spec fn valid(self) -> bool {
        self.workgroup_size > 0
    }

    /// Workgroups that cover every particle: the particle count over the
    /// workgroup size, rounded up.
    pub open spec fn workgroup_count(self) -> int {
        (self.particles + self.workgroup_size - 1) / (self.workgroup_size as int)
    }

    /// Bytes of the particle store.
    pub open spec fn store_bytes(self) -> int {
        self.particles * RECORD_BYTES
    }

    /// Actions that one frame takes when its snapshot succeeds.
    pub open spec fn frame_span(self) -> int {
        self.steps + 2
    }

    /// Actions that one pass takes when every snapshot succeeds.
    pub open spec fn pass_span(self) -> int {
        1 + self.frames * self.frame_span()
    }

    /// The plan of a standard run.
    pub fn standard() -> (plan: Plan)
        ensures
            plan.valid(),
            plan.particles == PARTICLE_COUNT,
            plan.workgroup_size == WORKGROUP_SIZE,
            plan.frames == FRAMES_PER_PASS,
            plan.steps == STEPS_PER_FRAME,
    {
        Plan {
            particles: PARTICLE_COUNT,
            workgroup_size: WORKGROUP_SIZE,
            frames: FRAMES_PER_PASS,
            steps: STEPS_PER_FRAME,
        }
    }

    /// A plan with the given sizes, or `None` if the workgroup size is zero.
    pub fn new(particles: u32, workgroup_size: u32, frames: u32, steps: u32) -> (plan: Option<Plan>)
        ensures
            plan == if workgroup_size > 0 {
                Some(Plan { particles, workgroup_size, frames, steps })
            } else {
                None
            },
    {
        if workgroup_size > 0 {
            Some(Plan { particles, workgroup_size, frames, steps })
        } else {
            None
        }
    }

    /// Whether the plan can be run.
    pub fn is_valid(&self) -> (valid: bool)
        ensures
            valid == self.valid(),
    {
        self.workgroup_size > 0
    }

    /// Workgroups to dispatch for one step.
    pub fn workgroups(&self) -> (count: u32)
        requires
            self.valid(),
        ensures
            count == self.workgroup_count(),
            count * self.workgroup_size >= self.particles,
            (count - 1) * self.workgroup_size < self.particles || count == 0,
    {
        let n: u64 = self.particles as u64;
        let size: u64 = self.workgroup_size as u64;
        let count: u64 = (n + size - 1) / size;
        proof {
            lemma_rounded_up_quotient(n as int, size as int);
        }
        count as u32
    }

    /// Bytes to copy for one snapshot.
    pub fn snapshot_bytes(&self) -> (bytes: u64)
        ensures
            bytes == self.store_bytes(),
    {
        let n: u64 = self.particles as u64;
        n * RECORD_BYTES
    }
}

/// The quotient rounded up: the least count of groups of `size` that hold
/// `n` items.
proof fn lemma_rounded_up_quotient(n: int, size: int)
    requires
        0 <= n,
        0 < size,
    ensures
        ({
            let count = (n + size - 1) / size;
            &&& 0 <= count <= n
            &&& count * size >= n
            &&& (count - 1) * size < n || count == 0
        }),
{
    let count = (n + size - 1) / size;
    assert(0 <= count <= n && count * size >= n && ((count - 1) * size < n || count == 0))
        by (nonlinear_arith)
        requires
            0 <= n,
            0 < size,
            count == (n + size - 1) / size,
    ;
}

impl Progress {
    /// The state is one a run of `plan` passes through.
    pub open spec fn valid(self, plan: Plan) -> bool {
        match self.stage {
            Stage::Seeding => self.pass < PASSES && self.frame == 0,
            Stage::Stepping { done } => self.pass < PASSES && self.frame < plan.frames && done
                < plan.steps,
            Stage::Reading => self.pass < PASSES && self.frame < plan.frames,
            Stage::Presenting => self.pass < PASSES && self.frame < plan.frames,
            Stage::Finished => self.pass == PASSES && self.frame == 0,
        }
    }

    /// The state a run starts in.
    pub open spec fn start() -> Progress {
        Progress { pass: 0, frame: 0, stage: Stage::Seeding }
    }

    /// The action due in this state.
    pub open spec fn due(self, plan: Plan) -> Action {
        match self.stage {
            Stage::Seeding => Action::Seed { mode: mode_of(self.pass), particles: plan.particles },
            Stage::Stepping { done } => Action::Dispatch {
                workgroups: plan.workgroup_count() as u32,
            },
            Stage::Reading => Action::Snapshot { bytes: plan.store_bytes() as u64 },
            Stage::Presenting => Action::Present { mode: mode_of(self.pass), frame: self.frame },
            Stage::Finished => Action::Finish,
        }
    }

    /// The state in which frame `frame` of pass `pass` begins: stepping, or
    /// reading at once if a frame has no steps.
    pub open spec fn at_frame(plan: Plan, pass: u32, frame: u32) -> Progress {
        Progress {
            pass,
            frame,
            stage: if plan.steps == 0 {
                Stage::Reading
            } else {
                Stage::Stepping { done: 0 }
            },
        }
    }

    /// The state after pass `pass`: the next pass seeds, or the run is over.
    pub open spec fn after_pass(pass: u32) -> Progress {
        if pass + 1 < PASSES {
            Progress { pass: (pass + 1) as u32, frame: 0, stage: Stage::Seeding }
        } else {
            Progress { pass: PASSES, frame: 0, stage: Stage::Finished }
        }
    }

    /// The state after frame `frame` of pass `pass`: the next frame begins,
    /// or the pass is over.
    pub open spec fn after_frame(plan: Plan, pass: u32, frame: u32) -> Progress {
        if frame + 1 < plan.frames {
            Self::at_frame(plan, pass, (frame + 1) as u32)
        } else {
            Self::after_pass(pass)
        }
    }

    /// The state that follows this one on `event`. Only a snapshot can
    /// fail; in every other stage the event is taken as completion.
    pub open spec fn successor(self, plan: Plan, event: Event) -> Progress {
        match self.stage {
            Stage::Seeding => if plan.frames == 0 {
                Self::after_pass(self.pass)
            } else {
                Self::at_frame(plan, self.pass, 0)
            },
            Stage::Stepping { done } => if done + 1 < plan.steps {
                Progress { stage: Stage::Stepping { done: (done + 1) as u32 }, ..self }
            } else {
                Progress { stage: Stage::Reading, ..self }
            },
            Stage::Reading => match event {
                Event::Completed => Progress { stage: Stage::Presenting, ..self },
                Event::SnapshotFailed => Self::after_frame(plan, self.pass, self.frame),
            },
            Stage::Presenting => Self::after_frame(plan, self.pass, self.frame),
            Stage::Finished => self,
        }
    }

    /// How many actions a run without failures has carried out when it is in
    /// this state.
    pub open spec fn ordinal(self, plan: Plan) -> int {
        let pass_start = self.pass * plan.pass_span();
        let frame_start = pass_start + 1 + self.frame * plan.frame_span();
        match self.stage {
            Stage::Seeding => pass_start,
            Stage::Stepping { done } => frame_start + done,
            Stage::Reading => frame_start + plan.steps,
            Stage::Presenting => frame_start + plan.steps + 1,
            Stage::Finished => pass_start,
        }
    }
}

impl Progress {
    /// Whether the state is one a run of `plan` passes through.
    pub fn is_valid(&self, plan: &Plan) -> (valid: bool)
        ensures
            valid == self.valid(*plan),
    {
        match self.stage {
            Stage::Seeding => self.pass < PASSES && self.frame == 0,
            Stage::Stepping { done } => self.pass < PASSES && self.frame < plan.frames && done
                < plan.steps,
            Stage::Reading => self.pass < PASSES && self.frame < plan.frames,
            Stage::Presenting => self.pass < PASSES && self.frame < plan.frames,
            Stage::Finished => self.pass == PASSES && self.frame == 0,
        }
    }
}

/// The mode of a pass.
pub fn pass_mode(pass: u32) -> (mode: Mode)
    ensures
        mode == mode_of(pass),
{
    if pass == 0 {
        Mode::Baseline
    } else {
        Mode::Dilated
    }
}

/// The action due in `progress`.
pub fn action(plan: &Plan, progress: &Progress) -> (due: Action)
    requires
        plan.valid(),
    ensures
        due == progress.due(*plan),
{
    match progress.stage {
        Stage::Seeding => Action::Seed { mode: pass_mode(progress.pass), particles: plan.particles },
        Stage::Stepping { done } => Action::Dispatch { workgroups: plan.workgroups() },
        Stage::Reading => Action::Snapshot { bytes: plan.snapshot_bytes() },
        Stage::Presenting => Action::Present {
            mode: pass_mode(progress.pass),
            frame: progress.frame,
        },
        Stage::Finished => Action::Finish,
    }
}

/// Starts a run: the first state and the action due in it.
pub fn begin(plan: &Plan) -> (first: (Progress, Action))
    requires
        plan.valid(),
    ensures
        first.0 == Progress::start(),
        first.0.valid(*plan),
        first.1 == first.0.due(*plan),
        first.1 == (Action::Seed { mode: Mode::Baseline, particles: plan.particles }),
{
    let progress = Progress { pass: 0, frame: 0, stage: Stage::Seeding };
    (progress, action(plan, &progress))
}

/// Moves a run on: the state that follows `progress` on `event`, and the
/// action due in it.
pub fn advance(plan: &Plan, progress: &Progress, event: Event) -> (next: (Progress, Action))
    requires
        plan.valid(),
        progress.valid(*plan),
    ensures
        next.0 == progress.successor(*plan, event),
        next.0.valid(*plan),
        next.1 == next.0.due(*plan),
{
    let pass: u32 = progress.pass;
    let frame: u32 = progress.frame;
    let after = match progress.stage {
        Stage::Seeding => if plan.frames == 0 {
            after_pass(pass)
        } else {
            at_frame(plan, pass, 0)
        },
        Stage::Stepping { done } => if done + 1 < plan.steps {
            Progress { pass, frame, stage: Stage::Stepping { done: done + 1 } }
        } else {
            Progress { pass, frame, stage: Stage::Reading }
        },
        Stage::Reading => match event {
            Event::Completed => Progress { pass, frame, stage: Stage::Presenting },
            Event::SnapshotFailed => after_frame(plan, pass, frame),
        },
        Stage::Presenting => after_frame(plan, pass, frame),
        Stage::Finished => *progress,
    };
    (after, action(plan, &after))
}

fn at_frame(plan: &Plan, pass: u32, frame: u32) -> (progress: Progress)
    ensures
        progress == Progress::at_frame(*plan, pass, frame),
{
    if plan.steps == 0 {
        Progress { pass, frame, stage: Stage::Reading }
    } else {
        Progress { pass, frame, stage: Stage::Stepping { done: 0 } }
    }
}

fn after_pass(pass: u32) -> (progress: Progress)
    requires
        pass < PASSES,
    ensures
        progress == Progress::after_pass(pass),
{
    if pass + 1 < PASSES {
        Progress { pass: pass + 1, frame: 0, stage: Stage::Seeding }
    } else {
        Progress { pass: PASSES, frame: 0, stage: Stage::Finished }
    }
}

fn after_frame(plan: &Plan, pass: u32, frame: u32) -> (progress: Progress)
    requires
        pass < PASSES,
        frame < plan.frames,
    ensures
        progress == Progress::after_frame(*plan, pass, frame),
{
    if frame + 1 < plan.frames {
        at_frame(plan, pass, frame + 1)
    } else {
        after_pass(pass)
    }
}

/// A run is a fixed list of actions: each completed action moves the run
/// to the next place in the list, and a failed snapshot skips just the
/// presentation of its frame. Every state along the way is valid.
pub proof fn lemma_advance_counts_actions(plan: Plan, progress: Progress, event: Event)
    requires
        plan.valid(),
        progress.valid(plan),
        progress.stage != Stage::Finished,
    ensures
        progress.successor(plan, event).valid(plan),
        progress.successor(plan, event).ordinal(plan) == progress.ordinal(plan) + if progress.stage
            == Stage::Reading && event == Event::SnapshotFailed {
            2int
        } else {
            1int
        },
{
    let span = plan.pass_span();
    let width = plan.frame_span();
    let pass = progress.pass as int;
    let frame = progress.frame as int;
    assert((pass + 1) * span == pass * span + span) by (nonlinear_arith);
    assert((frame + 1) * width == frame * width + width) by (nonlinear_arith);
    assert(0 * width == 0) by (nonlinear_arith);
    if plan.frames == 0 {
        assert(plan.frames * width == 0) by (nonlinear_arith)
            requires
                plan.frames == 0,
        ;
    }
}

/// A run starts at action 0 and is over after two passes' worth of actions;
/// no valid state lies outside that range.
pub proof fn lemma_run_is_bounded(plan: Plan, progress: Progress)
    requires
        plan.valid(),
        progress.valid(plan),
    ensures
        Progress::start().valid(plan),
        Progress::start().ordinal(plan) == 0,
        0 <= progress.ordinal(plan) <= PASSES * plan.pass_span(),
        progress.stage == Stage::Finished <==> progress.ordinal(plan) == PASSES * plan.pass_span(),
{
    let span = plan.pass_span();
    let width = plan.frame_span();
    let pass = progress.pass as int;
    let frame = progress.frame as int;
    let frames = plan.frames as int;
    assert(0 * span == 0) by (nonlinear_arith);
    assert(width >= 2);
    assert(frames * width >= 0) by (nonlinear_arith)
        requires
            frames >= 0,
            width >= 2,
    ;
    assert(span >= 1);
    assert(pass * span >= 0) by (nonlinear_arith)
        requires
            pass >= 0,
            span >= 1,
    ;
    if progress.stage != Stage::Finished {
        assert(pass <= 1);
        assert((pass + 1) * span == pass * span + span) by (nonlinear_arith);
        assert((pass + 1) * span <= PASSES * span) by (nonlinear_arith)
            requires
                pass + 1 <= PASSES,
                span >= 1,
        ;
        if progress.stage != Stage::Seeding {
            assert(frame * width >= 0) by (nonlinear_arith)
                requires
                    frame >= 0,
                    width >= 2,
            ;
            assert((frame + 1) * width <= frames * width) by (nonlinear_arith)
                requires
                    frame + 1 <= frames,
                    width >= 2,
            ;
            assert((frame + 1) * width == frame * width + width) by (nonlinear_arith);
        }
    }
}

/// The population of a run is fixed: in every state the action due is
/// sized for the plan's particle count, whatever pass and frame the run is
/// in, and the mode it names is the mode of the current pass. The store is
/// seeded only at the start of a pass.
pub proof fn lemma_population_is_fixed(plan: Plan, progress: Progress, event: Event)
    requires
        plan.valid(),
        progress.valid(plan),
    ensures
        match progress.due(plan) {
            Action::Seed { mode, particles } => particles == plan.particles && mode == mode_of(
                progress.pass,
            ),
            Action::Dispatch { workgroups } => workgroups * plan.workgroup_size >= plan.particles,
            Action::Snapshot { bytes } => bytes == plan.particles * RECORD_BYTES,
            Action::Present { mode, frame } => mode == mode_of(progress.pass) && frame
                < plan.frames,
            Action::Finish => true,
        },
        progress.successor(plan, event).stage == Stage::Seeding
            ==> progress.successor(plan, event).pass == progress.pass + 1,
        progress.successor(plan, event).stage != Stage::Seeding && progress.stage
            != Stage::Finished && progress.successor(plan, event).stage != Stage::Finished
            ==> progress.successor(plan, event).pass == progress.pass,
{
    lemma_rounded_up_quotient(plan.particles as int, plan.workgroup_size as int);
}

/// With no steps per frame nothing is ever dispatched: seeding is followed
/// at once by the snapshot of frame 0, so the first frame of a pass shows
/// the particles exactly as they were seeded.
pub proof fn lemma_stepless_frame_shows_seed(plan: Plan, progress: Progress, event: Event)
    requires
        plan.valid(),
        progress.valid(plan),
        plan.steps == 0,
    ensures
        !(progress.due(plan) is Dispatch),
        progress.stage == Stage::Seeding && plan.frames > 0 ==> progress.successor(plan, event)
            == (Progress { pass: progress.pass, frame: 0, stage: Stage::Reading }),
{
}

} // verus!
