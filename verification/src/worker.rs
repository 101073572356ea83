//! One worker of the pool, as a state machine.
//!
//! A worker is driven by the thread that owns it. Each turn of that thread's
//! loop is three calls: `acquire` with the outcome of taking the lock on the
//! queue, `receive` on the queue while the lock is held, and, once the lock
//! is released and the task has been run, `finish`.

use vstd::prelude::*;

use crate::operation::Operation;
use crate::queue::{receive_outcome, receive_rest, ReceiveError, WorkQueue};

verus! {

/// Where a worker stands in its loop.
#[derive(Clone, Copy, Debug, PartialEq, Eq, Structural)]
pub enum Phase {
    /// Between turns: it holds nothing and is about to ask for the queue.
    Idle,
    /// It holds exclusive access to the queue and has not received yet.
    Claiming,
    /// It has released the queue and is running the task it received.
    Running,
    /// It has left its loop for good.
    Terminated,
}

/// What the worker's thread does after a receive.
#[derive(Debug, PartialEq, Eq)]
pub enum Step<T> {
    /// Release the queue, run the task carried here, then call `finish`.
    Run(T),
    /// Nothing is queued yet: wait for a message, then start the turn again.
    Wait,
    /// A stop signal came: leave the loop, the thread ends.
    Stop,
    /// The queue is closed, which its owner does not do while the pool
    /// lives: leave the loop, the thread ends.
    Closed,
}

/// The phase that follows an attempt to take the queue's lock: with the lock
/// the worker is claiming; without it (the lock is poisoned) the turn is
/// skipped and the worker is idle again.
pub open spec fn phase_after_acquire(granted: bool) -> Phase {
    if granted {
        Phase::Claiming
    } else {
        Phase::Idle
    }
}

/// The phase that follows a receive with the given outcome: a task sets the
/// worker running; a stop signal or a closed queue ends it; an empty queue
/// sends it back to idle.
pub open spec fn phase_after_receive<T>(outcome: Result<Operation<T>, ReceiveError>) -> Phase {
    match outcome {
        Ok(Operation::Execute(_)) => Phase::Running,
        Ok(Operation::Terminate) => Phase::Terminated,
        Err(ReceiveError::Empty) => Phase::Idle,
        Err(ReceiveError::Closed) => Phase::Terminated,
    }
}

/// The step that a receive with the given outcome asks of the thread.
pub open spec fn step_after_receive<T>(outcome: Result<Operation<T>, ReceiveError>) -> Step<T> {
    match outcome {
        Ok(Operation::Execute(task)) => Step::Run(task),
        Ok(Operation::Terminate) => Step::Stop,
        Err(ReceiveError::Empty) => Step::Wait,
        Err(ReceiveError::Closed) => Step::Closed,
    }
}

/// A worker: its stable id and the phase it is in.
pub struct Worker {
    id: usize,
    phase: Phase,
}

impl Worker {
    /// The worker's id.
    pub closed spec fn spec_id(&self) -> usize {
        self.id
    }

    /// The worker's phase.
    pub closed spec fn spec_phase(&self) -> Phase {
        self.phase
    }

    /// A worker with the given id, idle.
    pub fn new(id: usize) -> (worker: Worker)
        ensures
            worker.id() == id,
            worker.phase() == Phase::Idle,
    {
        Worker { id, phase: Phase::Idle }
    }

    /// Records the outcome of asking for the queue's lock. Granted, the
    /// worker holds the queue until its next `receive`. Refused, which only
    /// a poisoned lock does, the turn is a no-op: the worker stays idle and
    /// its thread starts the next turn.
    pub fn acquire(&mut self, granted: bool)
        requires
            old(self).phase() == Phase::Idle,
        ensures
            final(self).id() == old(self).id(),
            final(self).phase() == phase_after_acquire(granted),
    {
        if granted {
            self.phase = Phase::Claiming;
        }
    }

    /// Takes one message off the queue and decides the turn. The worker
    /// holds the queue only for this call: on return it has let go of it,
    /// whatever it received, so a task never runs under the lock.
    pub fn receive<T>(&mut self, queue: &mut WorkQueue<T>) -> (step: Step<T>)
        requires
            old(self).phase() == Phase::Claiming,
        ensures
            final(self).id() == old(self).id(),
            final(self).phase() == phase_after_receive(
                receive_outcome(old(queue)@, old(queue).has_sender()),
            ),
            step == step_after_receive(receive_outcome(old(queue)@, old(queue).has_sender())),
            final(queue)@ == receive_rest(old(queue)@),
            final(queue).has_sender() == old(queue).has_sender(),
            final(queue).has_receiver() == old(queue).has_receiver(),
    {
        match queue.receive() {
            Ok(Operation::Execute(task)) => {
                self.phase = Phase::Running;
                Step::Run(task)
            },
            Ok(Operation::Terminate) => {
                self.phase = Phase::Terminated;
                Step::Stop
            },
            Err(ReceiveError::Empty) => {
                self.phase = Phase::Idle;
                Step::Wait
            },
            Err(ReceiveError::Closed) => {
                self.phase = Phase::Terminated;
                Step::Closed
            },
        }
    }

    /// Records that the task handed out by the last `receive` has returned.
    /// The worker does not look at how the task fared: it only sees that the
    /// call came back, and is idle again.
    pub fn finish(&mut self)
        requires
            old(self).phase() == Phase::Running,
        ensures
            final(self).id() == old(self).id(),
            final(self).phase() == Phase::Idle,
    {
        self.phase = Phase::Idle;
    }

    /// The worker's id.
    #[verifier::when_used_as_spec(spec_id)]
    pub fn id(&self) -> (id: usize)
        ensures
            id == self.id(),
    {
        self.id
    }

    /// The worker's phase.
    #[verifier::when_used_as_spec(spec_phase)]
    pub fn phase(&self) -> (phase: Phase)
        ensures
            phase == self.phase(),
    {
        self.phase
    }
}

} // verus!
