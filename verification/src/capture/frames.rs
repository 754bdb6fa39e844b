//! Capturing one frame, step by step.
//!
//! A frame is asked for, then waited for. Where the compositor has changed what
//! it wants of the buffers, new constraints are waited for, the pool is made
//! anew, and the frame is asked for once more: the protocol says to do so, and
//! it is no error.

use vstd::prelude::*;

use crate::capture::session::{
    AfterAttempt, Capture, CaptureError, FrameTiming, GeometryChanged, Negotiation, PoolError,
    PoolPlan, RENEGOTIATION_NS,
};

verus! {

/// Where the capture of a frame stands.
#[derive(Debug, Clone, Copy, PartialEq, Eq, Structural)]
pub enum FrameStage {
    Begin,
    /// The frame is being asked for.
    Submitting,
    Waiting,
    Renegotiating,
    /// The pool is being made.
    Allocating,
    Ended,
}

/// Why there is no frame.
#[derive(Debug, Clone, Copy, PartialEq, Eq, Structural)]
pub enum FrameFailure {
    Capture(CaptureError),
    /// The compositor ended the session while it settled its constraints.
    StoppedRenegotiating,
    /// The compositor took too long to settle its constraints.
    TimedOut,
    Pool(PoolError),
    Geometry(GeometryChanged),
}

/// What came of the last action.
#[derive(Debug, Clone, Copy, PartialEq, Eq, Structural)]
pub enum FrameDone {
    Done,
    /// The pool has been made; its buffers have this modifier, if any.
    Allocated(Option<u64>),
}

/// What to do next.
#[derive(Debug, Clone, Copy, PartialEq, Eq, Structural)]
pub enum FrameAction {
    /// Ask for a frame in this buffer.
    Submit(usize),
    /// Wait for events and take them in.
    Dispatch,
    /// Make the pool as planned.
    Allocate,
    Return(FrameTiming),
    Fail(FrameFailure),
}

/// The capture of one frame.
#[derive(Debug)]
pub struct FrameRun {
    pub stage: FrameStage,
    /// The buffer that the frame goes into.
    pub index: usize,
    /// When it was asked for.
    pub started: u64,
    /// It is being asked for a second time.
    pub retried: bool,
    /// When new constraints are no longer waited for.
    pub deadline: u64,
    pub old_width: u32,
    pub old_height: u32,
    /// The pool that is being made.
    pub plan: Option<PoolPlan>,
}

impl FrameRun {
    pub open spec fn wf(self) -> bool {
        &&& self.stage == FrameStage::Allocating ==> self.plan is Some
        &&& self.stage == FrameStage::Renegotiating || self.stage == FrameStage::Allocating
            ==> self.retried
    }

    pub open spec fn expects(self, event: FrameDone) -> bool {
        match self.stage {
            FrameStage::Allocating => event is Allocated,
            FrameStage::Ended => false,
            _ => event is Done,
        }
    }

    pub open spec fn at(self, stage: FrameStage) -> FrameRun {
        FrameRun { stage, ..self }
    }

    pub open spec fn fails(self, why: FrameFailure, after: FrameRun, action: FrameAction) -> bool {
        after == self.at(FrameStage::Ended) && action == FrameAction::Fail(why)
    }

    /// Asking for a frame.
    pub open spec fn begins(
        self,
        c: Capture,
        after: FrameRun,
        d: Capture,
        action: FrameAction,
    ) -> bool {
        &&& c.began(d, c.turn())
        &&& match c.turn() {
            Ok(index) => {
                &&& after == (FrameRun { index, ..self.at(FrameStage::Submitting) })
                &&& action == FrameAction::Submit(index)
            },
            Err(e) => self.fails(FrameFailure::Capture(e), after, action),
        }
    }

    /// Waiting for new constraints, and planning a pool once they are there.
    pub open spec fn renegotiates(
        self,
        c: Capture,
        now: u64,
        after: FrameRun,
        d: Capture,
        action: FrameAction,
    ) -> bool {
        match c.renegotiation(now, self.deadline) {
            Negotiation::Wait => {
                &&& d == c
                &&& after == self.at(FrameStage::Renegotiating)
                &&& action == FrameAction::Dispatch
            },
            Negotiation::Stopped => d == c && self.fails(
                FrameFailure::StoppedRenegotiating,
                after,
                action,
            ),
            Negotiation::TimedOut => d == c && self.fails(FrameFailure::TimedOut, after, action),
            Negotiation::Complete => match action {
                FrameAction::Allocate => {
                    &&& after.plan matches Some(plan) && c.emptied(
                        d,
                        Ok::<PoolPlan, PoolError>(plan),
                    )
                    &&& after == (FrameRun {
                        plan: after.plan,
                        ..self.at(FrameStage::Allocating)
                    })
                },
                FrameAction::Fail(FrameFailure::Pool(e)) => {
                    &&& c.emptied(d, Err::<PoolPlan, PoolError>(e))
                    &&& after == self.at(FrameStage::Ended)
                },
                _ => false,
            },
        }
    }

    /// How long the frame has been waited for.
    pub open spec fn latency(self, now: u64) -> u64 {
        if now >= self.started {
            (now - self.started) as u64
        } else {
            0
        }
    }

    /// Waiting for the frame, and what follows once something has come of it.
    pub open spec fn waits(
        self,
        c: Capture,
        now: u64,
        after: FrameRun,
        d: Capture,
        action: FrameAction,
    ) -> bool {
        if !c.state@.settled() {
            &&& d == c
            &&& after == self.at(FrameStage::Waiting)
            &&& action == FrameAction::Dispatch
        } else {
            match c.frame_result(self.index, self.latency(now), now) {
                Ok(timing) => {
                    &&& d == c
                    &&& after == self.at(FrameStage::Ended)
                    &&& action == FrameAction::Return(timing)
                },
                Err(CaptureError::BufferConstraints) if !self.retried => (FrameRun {
                    retried: true,
                    deadline: (now + RENEGOTIATION_NS) as u64,
                    old_width: c.width,
                    old_height: c.height,
                    ..self
                }).renegotiates(c, now, after, d, action),
                Err(e) => d == c && self.fails(FrameFailure::Capture(e), after, action),
            }
        }
    }

    /// Taking over a new pool, and asking for the frame again where the size is
    /// still the old one.
    pub open spec fn resumes(
        self,
        c: Capture,
        modifier: Option<u64>,
        after: FrameRun,
        d: Capture,
        action: FrameAction,
    ) -> bool {
        let plan = self.plan->0;
        let next = FrameRun { plan: None, ..self };
        exists|full: Capture, held: Capture, r: Result<(), GeometryChanged>|
            #![trigger full.compared(self.old_width, self.old_height, held, r)]
            {
                &&& c.filled(plan@, modifier, full)
                &&& full.compared(self.old_width, self.old_height, held, r)
                &&& match r {
                    Ok(_) => next.begins(held, after, d, action),
                    Err(g) => d == held && next.fails(FrameFailure::Geometry(g), after, action),
                }
            }
    }

    /// What one step changes, and asks for.
    pub open spec fn steps_to(
        self,
        c: Capture,
        event: FrameDone,
        now: u64,
        after: FrameRun,
        d: Capture,
        action: FrameAction,
    ) -> bool {
        match (self.stage, event) {
            (FrameStage::Begin, _) => self.begins(c, after, d, action),
            (FrameStage::Submitting, _) => (FrameRun { started: now, ..self }).waits(
                c,
                now,
                after,
                d,
                action,
            ),
            (FrameStage::Waiting, _) => self.waits(c, now, after, d, action),
            (FrameStage::Renegotiating, _) => self.renegotiates(c, now, after, d, action),
            (_, FrameDone::Allocated(modifier)) => self.resumes(c, modifier, after, d, action),
            _ => false,
        }
    }

    pub fn new() -> (r: Self)
        ensures
            r.wf(),
            r == (FrameRun {
                stage: FrameStage::Begin,
                index: 0,
                started: 0,
                retried: false,
                deadline: 0,
                old_width: 0,
                old_height: 0,
                plan: None,
            }),
    {
        FrameRun {
            stage: FrameStage::Begin,
            index: 0,
            started: 0,
            retried: false,
            deadline: 0,
            old_width: 0,
            old_height: 0,
            plan: None,
        }
    }

    /// The next step, after what came of the last.
    pub fn step(&mut self, capture: &mut Capture, event: FrameDone, now: u64) -> (r: FrameAction)
        requires
            old(self).wf(),
            old(self).expects(event),
            old(capture).wf(),
            now + RENEGOTIATION_NS <= u64::MAX,
        ensures
            final(self).wf(),
            final(capture).wf(),
            old(self).steps_to(*old(capture), event, now, *final(self), *final(capture), r),
    {
        match self.stage {
            FrameStage::Begin => self.begin(capture),
            FrameStage::Submitting => {
                self.started = now;
                self.wait(capture, now)
            },
            FrameStage::Waiting => self.wait(capture, now),
            FrameStage::Renegotiating => self.renegotiate(capture, now),
            FrameStage::Allocating => match event {
                FrameDone::Allocated(modifier) => self.resume(capture, modifier),
                FrameDone::Done => vstd::pervasive::unreached(),
            },
            FrameStage::Ended => vstd::pervasive::unreached(),
        }
    }

    fn fail(&mut self, why: FrameFailure) -> (r: FrameAction)
        ensures
            old(self).fails(why, *final(self), r),
    {
        self.stage = FrameStage::Ended;
        FrameAction::Fail(why)
    }

    fn begin(&mut self, capture: &mut Capture) -> (r: FrameAction)
        requires
            old(capture).wf(),
        ensures
            final(self).wf(),
            final(capture).wf(),
            old(self).begins(*old(capture), *final(self), *final(capture), r),
    {
        match capture.begin_frame() {
            Ok(index) => {
                self.index = index;
                self.stage = FrameStage::Submitting;
                FrameAction::Submit(index)
            },
            Err(e) => self.fail(FrameFailure::Capture(e)),
        }
    }

    fn wait(&mut self, capture: &mut Capture, now: u64) -> (r: FrameAction)
        requires
            old(capture).wf(),
            now + RENEGOTIATION_NS <= u64::MAX,
        ensures
            final(self).wf(),
            final(capture).wf(),
            old(self).waits(*old(capture), now, *final(self), *final(capture), r),
    {
        if !capture.frame_settled() {
            self.stage = FrameStage::Waiting;
            return FrameAction::Dispatch;
        }
        let latency: u64 = now.saturating_sub(self.started);
        let attempt = capture.try_capture_frame(self.index, latency, now);
        match Capture::capture_frame(attempt, self.retried) {
            AfterAttempt::Return(timing) => {
                self.stage = FrameStage::Ended;
                FrameAction::Return(timing)
            },
            AfterAttempt::Fail(e) => self.fail(FrameFailure::Capture(e)),
            AfterAttempt::Renegotiate => {
                self.retried = true;
                self.deadline = now + RENEGOTIATION_NS;
                self.old_width = capture.width;
                self.old_height = capture.height;
                self.renegotiate(capture, now)
            },
        }
    }

    fn renegotiate(&mut self, capture: &mut Capture, now: u64) -> (r: FrameAction)
        requires
            old(self).retried,
            old(capture).wf(),
        ensures
            final(self).wf(),
            final(capture).wf(),
            old(self).renegotiates(*old(capture), now, *final(self), *final(capture), r),
    {
        match capture.renegotiate(now, self.deadline) {
            Negotiation::Wait => {
                self.stage = FrameStage::Renegotiating;
                FrameAction::Dispatch
            },
            Negotiation::Stopped => self.fail(FrameFailure::StoppedRenegotiating),
            Negotiation::TimedOut => self.fail(FrameFailure::TimedOut),
            Negotiation::Complete => match capture.allocate_pool() {
                Ok(plan) => {
                    self.plan = Some(plan);
                    self.stage = FrameStage::Allocating;
                    FrameAction::Allocate
                },
                Err(e) => self.fail(FrameFailure::Pool(e)),
            },
        }
    }

    fn resume(&mut self, capture: &mut Capture, modifier: Option<u64>) -> (r: FrameAction)
        requires
            old(self).plan is Some,
            old(capture).wf(),
        ensures
            final(self).wf(),
            final(capture).wf(),
            old(self).resumes(*old(capture), modifier, *final(self), *final(capture), r),
    {
        let plan = match self.plan.take() {
            Some(plan) => plan,
            None => vstd::pervasive::unreached(),
        };
        capture.pool_allocated(&plan, modifier);
        let ghost full = *capture;
        let compared = capture.renegotiated(self.old_width, self.old_height);
        let ghost held = *capture;
        assert(full.compared(self.old_width, self.old_height, held, compared));
        match compared {
            Ok(_) => self.begin(capture),
            Err(g) => self.fail(FrameFailure::Geometry(g)),
        }
    }
}

// -------------------------------------------------------------------- laws ---

/// A frame is asked for twice at most: once changed constraints have been dealt
/// with, another change is an error.
pub proof fn frames_are_retried_once(
    v: FrameRun,
    c: Capture,
    now: u64,
    after: FrameRun,
    d: Capture,
    action: FrameAction,
)
    requires
        v.stage == FrameStage::Waiting,
        v.retried,
        c.state@.settled(),
        c.frame_result(v.index, v.latency(now), now) == Err::<FrameTiming, CaptureError>(
            CaptureError::BufferConstraints,
        ),
        v.steps_to(c, FrameDone::Done, now, after, d, action),
    ensures
        action == FrameAction::Fail(FrameFailure::Capture(CaptureError::BufferConstraints)),
{
}

/// A pool of another size never goes unnoticed: the frame is not captured, and
/// the session remembers why.
pub proof fn resized_outputs_end_the_session(
    v: FrameRun,
    c: Capture,
    modifier: Option<u64>,
    now: u64,
    after: FrameRun,
    d: Capture,
    action: FrameAction,
    width: u32,
    height: u32,
    fourcc: u32,
    modifiers: Vec<u64>,
    device: u64,
    reuse: bool,
)
    requires
        v.stage == FrameStage::Allocating,
        v.plan == Some(PoolPlan::Dmabuf { width, height, fourcc, modifiers, device, reuse }),
        width != v.old_width || height != v.old_height,
        v.steps_to(c, FrameDone::Allocated(modifier), now, after, d, action),
    ensures
        d.geometry_changed,
        action == FrameAction::Fail(
            FrameFailure::Geometry(
                GeometryChanged { old_width: v.old_width, old_height: v.old_height, width, height },
            ),
        ),
{
}

/// A frame is handed back once it is ready, in the buffer that was asked for, with
/// the time that has passed since; until then it is waited for.
pub proof fn ready_frames_are_returned(
    v: FrameRun,
    c: Capture,
    now: u64,
    after: FrameRun,
    d: Capture,
    action: FrameAction,
)
    requires
        v.stage == FrameStage::Waiting,
        v.steps_to(c, FrameDone::Done, now, after, d, action),
    ensures
        d.width == c.width && d.height == c.height && action is Return ==> d == c,
        c.state.frame_ready && c.state.frame_failed is None && c.state.frame_failed_raw is None <==>
            action is Return,
        action matches FrameAction::Return(t) ==> {
            &&& t.buffer_index == v.index
            &&& t.presentation_ns == c.state.presentation_ns
            &&& now >= v.started ==> t.latency == now - v.started
        },
        !c.state.frame_ready && c.state.frame_failed is None && c.state.frame_failed_raw is None ==>
            action == FrameAction::Dispatch && after.stage == FrameStage::Waiting && after.index
            == v.index && after.started == v.started && after.retried == v.retried,
{
}

/// Asking for a frame names the buffer whose turn it is, and the wait for it is
/// timed from then on.
pub proof fn frames_are_submitted(
    v: FrameRun,
    c: Capture,
    now: u64,
    after: FrameRun,
    d: Capture,
    action: FrameAction,
)
    requires
        v.stage == FrameStage::Begin,
        v.steps_to(c, FrameDone::Done, now, after, d, action),
    ensures
        c.buffers > 0 && !c.state.session_stopped ==> action == FrameAction::Submit(c.next_buffer)
            && after.index == c.next_buffer && after.stage == FrameStage::Submitting
            && after.retried == v.retried,
        c.state.session_stopped ==> action == FrameAction::Fail(
            FrameFailure::Capture(CaptureError::Stopped),
        ),
{
}

/// The first time that the constraints have changed, the pool is made anew: at
/// once where the new constraints are complete, and else for as long as five
/// seconds allow.
pub proof fn changed_constraints_are_followed(
    v: FrameRun,
    c: Capture,
    now: u64,
    after: FrameRun,
    d: Capture,
    action: FrameAction,
)
    requires
        v.stage == FrameStage::Waiting,
        !v.retried,
        c.state.frame_failed == Some(crate::capture::session::FailureReason::BufferConstraints),
        now + 5_000_000_000 <= u64::MAX,
        v.steps_to(c, FrameDone::Done, now, after, d, action),
    ensures
        after.retried,
        after.old_width == c.width && after.old_height == c.height,
        after.deadline == now + 5_000_000_000,
        c.state.session_done ==> action is Allocate || (action matches FrameAction::Fail(
            FrameFailure::Pool(_),
        )),
        action is Allocate ==> c.state.session_done && after.stage == FrameStage::Allocating
            && after.plan is Some && d.buffers == 0,
        !c.state.session_done && !c.state.session_stopped ==> action == FrameAction::Dispatch
            && after.stage == FrameStage::Renegotiating,
{
}

/// While new constraints are awaited, nothing else ends the wait but their being
/// complete, the end of the session or the deadline.
pub proof fn renegotiation_ends(
    v: FrameRun,
    c: Capture,
    now: u64,
    after: FrameRun,
    d: Capture,
    action: FrameAction,
)
    requires
        v.stage == FrameStage::Renegotiating,
        v.steps_to(c, FrameDone::Done, now, after, d, action),
    ensures
        action is Dispatch <==> !c.state.session_done && !c.state.session_stopped && now
            <= v.deadline,
        action == FrameAction::Fail(FrameFailure::TimedOut) <==> !c.state.session_done
            && !c.state.session_stopped && now > v.deadline,
        action == FrameAction::Fail(FrameFailure::StoppedRenegotiating) <==> !c.state.session_done
            && c.state.session_stopped,
        after.retried == v.retried && after.old_width == v.old_width && after.old_height
            == v.old_height && after.deadline == v.deadline,
{
}

/// A new pool of the old size is used at once: the frame is asked for again, into
/// its first buffer.
pub proof fn frames_are_asked_for_again(
    v: FrameRun,
    c: Capture,
    modifier: Option<u64>,
    now: u64,
    after: FrameRun,
    d: Capture,
    action: FrameAction,
    width: u32,
    height: u32,
    fourcc: u32,
    modifiers: Vec<u64>,
    device: u64,
    reuse: bool,
)
    requires
        c.wf(),
        v.stage == FrameStage::Allocating,
        v.plan == Some(PoolPlan::Dmabuf { width, height, fourcc, modifiers, device, reuse }),
        width == v.old_width && height == v.old_height,
        !c.state.session_stopped,
        v.steps_to(c, FrameDone::Allocated(modifier), now, after, d, action),
    ensures
        action == FrameAction::Submit(0),
        after.stage == FrameStage::Submitting && after.index == 0 && after.retried == v.retried,
        d.width == width && d.height == height && d.format == fourcc && d.modifier == modifier,
        d.geometry_changed == c.geometry_changed,
{
}

} // verus!
