//! The watch controller.
//!
//! The continuous case runs a live log stream for the currently resolved
//! filter expression and re-resolves the label filter on a fixed interval.
//! When the freshly resolved expression differs from the active one — by
//! exact byte equality, so a mere reordering of the same instances counts as
//! drift — the active stream must be torn down and a new one started.  The
//! controller tracks the active expression and whether a stream is live, and
//! its contracts force the restart order: stop the old stream first, adopt
//! the new expression second, start the new stream last.  At most one stream
//! is ever live, and the expression a live stream was started with is never
//! mutated while it runs.  An empty expression is a valid state, not an
//! error.

use vstd::prelude::*;

verus! {

/// What a completed resolution poll asks the caller to do.
#[derive(Clone, Copy, Debug, PartialEq, Eq, Structural)]
pub enum PollDecision {
    /// The expression is unchanged: keep the active stream running.
    KeepStream,
    /// The membership drifted: tear the stream down and restart it.
    RestartStream,
}

/// The teardown of one live stream, step by step.  The steps have a fixed
/// order — kill the subprocess, await its exit, cancel the forwarding task,
/// await the task's completion — and each can be recorded only once and only
/// after the one before it, so the cleanup sequence is explicit and checked.
pub struct Teardown {
    killed: bool,
    exited: bool,
    cancelled: bool,
    joined: bool,
}

impl Teardown {
    /// The kill signal was sent to the stream's subprocess.
    pub closed spec fn process_killed(&self) -> bool {
        self.killed
    }

    /// The subprocess was waited on and has exited.
    pub closed spec fn process_exited(&self) -> bool {
        self.exited
    }

    /// The forwarding task was cancelled.
    pub closed spec fn task_cancelled(&self) -> bool {
        self.cancelled
    }

    /// The forwarding task's completion was awaited.
    pub closed spec fn task_joined(&self) -> bool {
        self.joined
    }

    /// Every step of the sequence has been taken.
    pub open spec fn is_complete(&self) -> bool {
        self.process_killed() && self.process_exited() && self.task_cancelled()
            && self.task_joined()
    }

    /// Well-formed progress: a later step is only ever recorded after every
    /// earlier one.
    pub open spec fn wf(&self) -> bool {
        &&& self.process_exited() ==> self.process_killed()
        &&& self.task_cancelled() ==> self.process_exited()
        &&& self.task_joined() ==> self.task_cancelled()
    }

    /// A teardown with no step taken yet.
    pub fn begin() -> (teardown: Teardown)
        ensures
            teardown.wf(),
            !teardown.process_killed(),
            !teardown.process_exited(),
            !teardown.task_cancelled(),
            !teardown.task_joined(),
    {
        Teardown { killed: false, exited: false, cancelled: false, joined: false }
    }

    /// Record that the kill signal was sent: the first step.
    pub fn mark_process_killed(&mut self)
        requires
            old(self).wf(),
            !old(self).process_killed(),
        ensures
            final(self).wf(),
            final(self).process_killed(),
            !final(self).process_exited(),
    {
        self.killed = true;
    }

    /// Record that the subprocess exited, after the kill was sent.
    pub fn mark_process_exited(&mut self)
        requires
            old(self).wf(),
            old(self).process_killed(),
            !old(self).process_exited(),
        ensures
            final(self).wf(),
            final(self).process_exited(),
            !final(self).task_cancelled(),
    {
        self.exited = true;
    }

    /// Record that the forwarding task was cancelled, after the subprocess
    /// exited: no output of the old stream is forwarded past this point.
    pub fn mark_task_cancelled(&mut self)
        requires
            old(self).wf(),
            old(self).process_exited(),
            !old(self).task_cancelled(),
        ensures
            final(self).wf(),
            final(self).task_cancelled(),
            !final(self).task_joined(),
    {
        self.cancelled = true;
    }

    /// Record that the cancelled task was awaited: the last step, after
    /// which the teardown is complete.
    pub fn mark_task_joined(&mut self)
        requires
            old(self).wf(),
            old(self).task_cancelled(),
            !old(self).task_joined(),
        ensures
            final(self).wf(),
            final(self).is_complete(),
    {
        self.joined = true;
    }
}

/// The drift-detection state machine of one continuous run.
pub struct WatchController {
    expression: Vec<u8>,
    streaming: bool,
}

impl WatchController {
    /// The filter expression the controller currently holds.
    pub closed spec fn expression(&self) -> Seq<u8> {
        self.expression@
    }

    /// Whether a stream is live for the held expression.
    pub closed spec fn is_streaming(&self) -> bool {
        self.streaming
    }

    /// A controller holding the initially resolved expression, with no
    /// stream live yet.  Any expression is accepted, the empty one included.
    pub fn new(initial: Vec<u8>) -> (controller: WatchController)
        ensures
            controller.expression() == initial@,
            !controller.is_streaming(),
    {
        WatchController { expression: initial, streaming: false }
    }

    /// Record that a stream was started for the held expression.  Starting
    /// requires that no other stream is live: at most one stream per
    /// controller at any time.
    pub fn mark_stream_started(&mut self)
        requires
            !old(self).is_streaming(),
        ensures
            final(self).is_streaming(),
            final(self).expression() == old(self).expression(),
    {
        self.streaming = true;
    }

    /// Record that the live stream was fully stopped.  Only a completed
    /// teardown — subprocess killed and waited on, forwarding task cancelled
    /// and awaited, in that order — is accepted.
    pub fn mark_stream_stopped(&mut self, teardown: &Teardown)
        requires
            old(self).is_streaming(),
            teardown.is_complete(),
        ensures
            !final(self).is_streaming(),
            final(self).expression() == old(self).expression(),
    {
        self.streaming = false;
    }

    /// Compare a freshly resolved expression with the active one.  The
    /// decision is restart exactly when the two differ byte for byte; the
    /// controller itself is not changed by deciding.
    pub fn decide_poll(&self, fresh: &Vec<u8>) -> (decision: PollDecision)
        ensures
            decision == PollDecision::RestartStream <==> fresh@ != self.expression(),
    {
        if crate::bytes::bytes_eq(fresh, &self.expression) {
            PollDecision::KeepStream
        } else {
            PollDecision::RestartStream
        }
    }

    /// Adopt a freshly resolved expression.  The old stream must already be
    /// stopped: an expression used by an in-flight stream is never mutated.
    pub fn adopt_expression(&mut self, fresh: Vec<u8>)
        requires
            !old(self).is_streaming(),
        ensures
            final(self).expression() == fresh@,
            !final(self).is_streaming(),
    {
        self.expression = fresh;
    }

    /// The held expression, for starting a stream.
    pub fn expression_bytes(&self) -> (expression: &Vec<u8>)
        ensures
            expression@ == self.expression(),
    {
        &self.expression
    }

    /// Whether a stream is currently live.
    pub fn streaming_now(&self) -> (live: bool)
        ensures
            live == self.is_streaming(),
    {
        self.streaming
    }
}

} // verus!
