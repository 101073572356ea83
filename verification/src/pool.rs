//! The pool: the owner's side of a fixed set of workers.
//!
//! The pool builds the queue and the workers, submits work, and shuts down:
//! it sends one stop signal per worker and then waits for each worker in
//! turn. Spawning a thread for a worker and waiting for it to end are the
//! caller's part; the pool says which worker to wait for next and is told
//! when the wait is over.

use vstd::prelude::*;

use crate::operation::Operation;
use crate::queue::{send_rest, WorkQueue};
use crate::worker::{Phase, Worker};

verus! {

/// The stop signals of a shutdown: `count` times `Terminate`.
pub open spec fn stop_signals<T>(count: nat) -> Seq<Operation<T>> {
    Seq::new(count, |i: int| Operation::Terminate)
}

/// What `execute` answers: success while the queue has a receiving side,
/// else the task itself, handed back.
pub open spec fn execute_outcome<T>(task: T, connected: bool) -> Result<(), T> {
    if connected {
        Ok(())
    } else {
        Err(task)
    }
}

/// A pool of a fixed number of workers, seen from its owner.
pub struct ThreadPool {
    size: usize,
    stopping: bool,
    joined: usize,
}

impl ThreadPool {
    /// The number of workers, fixed when the pool was made.
    pub closed spec fn spec_size(&self) -> usize {
        self.size
    }

    /// Whether shutdown has begun: the stop signals have been sent.
    pub closed spec fn spec_is_stopping(&self) -> bool {
        self.stopping
    }

    /// How many workers the owner has finished waiting for.
    pub closed spec fn spec_joined(&self) -> usize {
        self.joined
    }

    /// What every pool satisfies: it has at least one worker, it has joined
    /// no more workers than it has, and it joins only once it is stopping.
    #[verifier::type_invariant]
    spec fn valid(&self) -> bool {
        &&& self.size > 0
        &&& self.joined <= self.size
        &&& self.joined > 0 ==> self.stopping
    }

    /// The worker to wait for next: once the pool is stopping, the workers
    /// are joined in the order of their ids, each once.
    pub open spec fn spec_pending_join(&self) -> Option<usize> {
        if self.is_stopping() && self.joined() < self.size() {
            Some(self.joined())
        } else {
            None
        }
    }

    /// A pool of `size` workers with its queue and its workers, ready to be
    /// spawned: the queue is empty and connected on both sides, and the
    /// workers are idle and carry the ids `0` to `size - 1` in order.
    pub fn new<T>(size: usize) -> (made: (ThreadPool, WorkQueue<T>, Vec<Worker>))
        requires
            size > 0,
        ensures
            made.0.size() == size,
            !made.0.is_stopping(),
            made.0.joined() == 0,
            made.1@ == Seq::<Operation<T>>::empty(),
            made.1.has_sender(),
            made.1.has_receiver(),
            made.2@.len() == size,
            forall|i: int|
                0 <= i < size ==> (#[trigger] made.2@[i]).id() == i && made.2@[i].phase()
                    == Phase::Idle,
    {
        let mut workers: Vec<Worker> = Vec::new();
        let mut id: usize = 0;
        while id < size
            invariant
                id <= size,
                workers@.len() == id,
                forall|i: int|
                    0 <= i < id ==> (#[trigger] workers@[i]).id() == i && workers@[i].phase()
                        == Phase::Idle,
            decreases size - id,
        {
            workers.push(Worker::new(id));
            id += 1;
        }
        (ThreadPool { size, stopping: false, joined: 0 }, WorkQueue::new(), workers)
    }

    /// Submits a task: wraps it in `Execute` and sends it. Never waits. The
    /// send fails exactly when the queue has no receiving side left; the
    /// task is then handed back for the caller to report and drop.
    pub fn execute<T>(&self, queue: &mut WorkQueue<T>, task: T) -> (submitted: Result<(), T>)
        ensures
            submitted == execute_outcome(task, old(queue).has_receiver()),
            final(queue)@ == send_rest(
                old(queue)@,
                Operation::Execute(task),
                old(queue).has_receiver(),
            ),
            final(queue).has_sender() == old(queue).has_sender(),
            final(queue).has_receiver() == old(queue).has_receiver(),
    {
        if queue.has_receiver() {
            let _ = queue.send(Operation::Execute(task));
            Ok(())
        } else {
            Err(task)
        }
    }

    /// Begins shutdown: sends exactly one stop signal per worker, behind
    /// everything that is already queued. Answers whether the signals were
    /// delivered, which they are unless the queue has no receiving side.
    pub fn terminate<T>(&mut self, queue: &mut WorkQueue<T>) -> (delivered: bool)
        requires
            !old(self).is_stopping(),
        ensures
            final(self).size() == old(self).size(),
            final(self).is_stopping(),
            final(self).joined() == 0,
            delivered == old(queue).has_receiver(),
            final(queue)@ == if delivered {
                old(queue)@ + stop_signals::<T>(old(self).size() as nat)
            } else {
                old(queue)@
            },
            final(queue).has_sender() == old(queue).has_sender(),
            final(queue).has_receiver() == old(queue).has_receiver(),
    {
        proof {
            use_type_invariant(&*self);
        }
        self.stopping = true;
        let delivered = queue.has_receiver();
        let mut sent: usize = 0;
        while sent < self.size
            invariant
                sent <= self.size,
                queue.has_sender() == old(queue).has_sender(),
                queue.has_receiver() == old(queue).has_receiver(),
                delivered == old(queue).has_receiver(),
                queue@ == if delivered {
                    old(queue)@ + stop_signals::<T>(sent as nat)
                } else {
                    old(queue)@
                },
            decreases self.size - sent,
        {
            let _ = queue.send(Operation::Terminate);
            sent += 1;
            assert(delivered ==> queue@ =~= old(queue)@ + stop_signals::<T>(sent as nat));
        }
        delivered
    }

    /// Records that the wait for the pending worker is over: its thread has
    /// ended and has been joined.
    pub fn confirm_join(&mut self)
        requires
            old(self).pending_join() is Some,
        ensures
            final(self).size() == old(self).size(),
            final(self).is_stopping(),
            final(self).joined() == old(self).joined() + 1,
    {
        proof {
            use_type_invariant(&*self);
        }
        self.joined += 1;
    }

    /// The worker to wait for next, if there is one: none before shutdown
    /// has begun, then each worker in the order of the ids, then none.
    #[verifier::when_used_as_spec(spec_pending_join)]
    pub fn pending_join(&self) -> (next: Option<usize>)
        ensures
            next == self.pending_join(),
    {
        if self.stopping && self.joined < self.size {
            Some(self.joined)
        } else {
            None
        }
    }

    /// The number of workers.
    #[verifier::when_used_as_spec(spec_size)]
    pub fn size(&self) -> (size: usize)
        ensures
            size == self.size(),
            size > 0,
    {
        proof {
            use_type_invariant(self);
        }
        self.size
    }

    /// Whether shutdown has begun.
    #[verifier::when_used_as_spec(spec_is_stopping)]
    pub fn is_stopping(&self) -> (stopping: bool)
        ensures
            stopping == self.is_stopping(),
    {
        self.stopping
    }

    /// How many workers have been joined.
    #[verifier::when_used_as_spec(spec_joined)]
    pub fn joined(&self) -> (joined: usize)
        ensures
            joined == self.joined(),
            joined <= self.size(),
            joined > 0 ==> self.is_stopping(),
    {
        proof {
            use_type_invariant(self);
        }
        self.joined
    }
}

} // verus!
