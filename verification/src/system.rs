//! The pool, its queue and its workers taken together.
//!
//! A running pool is many threads calling into this library: the owner
//! submits and shuts down, each worker's thread drives its worker. Every
//! such call is atomic with respect to the queue, because the caller holds
//! the queue's lock for as long as the call borrows the queue. So what the
//! whole can do is described by a state and the events that change it, one
//! event per call, in whatever order the threads happen to make them.

use vstd::prelude::*;

use crate::operation::Operation;
use crate::pool::stop_signals;
use crate::queue::{receive_outcome, receive_rest, send_rest, ReceiveError};
use crate::worker::{phase_after_acquire, phase_after_receive, step_after_receive, Phase, Step};

verus! {

/// A worker as the whole sees it: its phase and, while it runs one, its task.
pub enum Slot<T> {
    /// Between turns.
    Idle,
    /// Holding the queue.
    Claiming,
    /// Running the task carried here.
    Running(T),
    /// Out of its loop.
    Terminated,
}

impl<T> Slot<T> {
    /// The phase of the worker in this slot.
    pub open spec fn phase(self) -> Phase {
        match self {
            Slot::Idle => Phase::Idle,
            Slot::Claiming => Phase::Claiming,
            Slot::Running(_) => Phase::Running,
            Slot::Terminated => Phase::Terminated,
        }
    }
}

/// The slot of a worker that has just tried to take the queue's lock.
pub open spec fn slot_after_acquire<T>(granted: bool) -> Slot<T> {
    match phase_after_acquire(granted) {
        Phase::Claiming => Slot::Claiming,
        _ => Slot::Idle,
    }
}

/// The slot of a worker that has just received with the given outcome.
pub open spec fn slot_after_receive<T>(outcome: Result<Operation<T>, ReceiveError>) -> Slot<T> {
    match step_after_receive(outcome) {
        Step::Run(task) => Slot::Running(task),
        Step::Wait => Slot::Idle,
        Step::Stop => Slot::Terminated,
        Step::Closed => Slot::Terminated,
    }
}

/// A worker's slot moves as the worker itself does: the phase of the slot
/// after an attempt to take the lock, and after a receive, is the phase
/// that the worker's own calls arrive at.
pub proof fn lemma_slot_follows_worker<T>(granted: bool, outcome: Result<Operation<T>, ReceiveError>)
    ensures
        slot_after_acquire::<T>(granted).phase() == phase_after_acquire(granted),
        slot_after_receive(outcome).phase() == phase_after_receive(outcome),
{
}

/// The state of the whole.
pub struct System<T> {
    /// The number of workers.
    pub size: nat,
    /// What is queued, oldest first.
    pub queue: Seq<Operation<T>>,
    /// The workers, by id.
    pub workers: Seq<Slot<T>>,
    /// Whether the owner has begun shutdown.
    pub stopping: bool,
    /// How many workers the owner has joined.
    pub joined: nat,
    /// Every task ever submitted, in the order of submission.
    pub submitted: Seq<T>,
    /// How many of them were submitted before shutdown began.
    pub early: nat,
    /// The tasks that workers have taken off the queue, in the order in
    /// which they were taken.
    pub taken: Seq<T>,
    /// The tasks whose run has returned, in the order in which they returned.
    pub completed: Seq<T>,
}

/// One call into the library, as the whole sees it.
pub enum Event<T> {
    /// The owner submits a task.
    Execute(T),
    /// The worker with this id takes the queue's lock.
    Acquire(int),
    /// The worker with this id finds the lock poisoned and skips its turn.
    Skip(int),
    /// The worker with this id receives.
    Receive(int),
    /// The task of the worker with this id returns.
    Finish(int),
    /// The owner begins shutdown.
    Terminate,
    /// The owner's wait for the pending worker ends.
    Join,
}

/// A pool of `size` workers just after it was made.
pub open spec fn initial<T>(size: nat) -> System<T> {
    System {
        size,
        queue: Seq::empty(),
        workers: Seq::new(size, |i: int| Slot::Idle),
        stopping: false,
        joined: 0,
        submitted: Seq::empty(),
        early: 0,
        taken: Seq::empty(),
        completed: Seq::empty(),
    }
}

/// Whether the worker with id `id` exists and is in `phase`.
pub open spec fn worker_in<T>(s: System<T>, id: int, phase: Phase) -> bool {
    0 <= id < s.workers.len() && s.workers[id].phase() == phase
}

/// Whether `event` can happen in state `s`.
///
/// A worker's calls come in the order of its loop. The lock on the queue is
/// granted to one worker at a time. The owner begins shutdown once, and its
/// wait for a worker ends only when that worker's thread has ended.
pub open spec fn enabled<T>(s: System<T>, event: Event<T>) -> bool {
    match event {
        Event::Execute(_) => true,
        Event::Acquire(id) => worker_in(s, id, Phase::Idle) && forall|other: int|
            0 <= other < s.workers.len() ==> !(#[trigger] s.workers[other] is Claiming),
        Event::Skip(id) => worker_in(s, id, Phase::Idle),
        Event::Receive(id) => worker_in(s, id, Phase::Claiming),
        Event::Finish(id) => worker_in(s, id, Phase::Running),
        Event::Terminate => !s.stopping,
        Event::Join => s.stopping && s.joined < s.size && worker_in(
            s,
            s.joined as int,
            Phase::Terminated,
        ),
    }
}

/// The state after `event` has happened in state `s`.
///
/// The owner holds the sending side and the workers the receiving side for
/// as long as the pool lives, so the queue is connected on both sides here.
pub open spec fn next<T>(s: System<T>, event: Event<T>) -> System<T> {
    match event {
        Event::Execute(task) => System {
            queue: send_rest(s.queue, Operation::Execute(task), true),
            submitted: s.submitted.push(task),
            early: if s.stopping {
                s.early
            } else {
                s.early + 1
            },
            ..s
        },
        Event::Acquire(id) => System { workers: s.workers.update(id, slot_after_acquire(true)), ..s },
        Event::Skip(id) => System { workers: s.workers.update(id, slot_after_acquire(false)), ..s },
        Event::Receive(id) => {
            let outcome = receive_outcome(s.queue, true);
            System {
                queue: receive_rest(s.queue),
                workers: s.workers.update(id, slot_after_receive(outcome)),
                taken: match outcome {
                    Ok(Operation::Execute(task)) => s.taken.push(task),
                    _ => s.taken,
                },
                ..s
            }
        },
        Event::Finish(id) => System {
            workers: s.workers.update(id, Slot::Idle),
            completed: match s.workers[id] {
                Slot::Running(task) => s.completed.push(task),
                _ => s.completed,
            },
            ..s
        },
        Event::Terminate => System {
            queue: s.queue + stop_signals::<T>(s.size),
            stopping: true,
            ..s
        },
        Event::Join => System { joined: s.joined + 1, ..s },
    }
}

/// Whether the events can happen one after the other, starting in `start`.
pub open spec fn admissible<T>(start: System<T>, events: Seq<Event<T>>) -> bool
    decreases events.len(),
{
    events.len() == 0 || (admissible(start, events.drop_last()) && enabled(
        run(start, events.drop_last()),
        events.last(),
    ))
}

/// The state after the events have happened one after the other, starting
/// in `start`.
pub open spec fn run<T>(start: System<T>, events: Seq<Event<T>>) -> System<T>
    decreases events.len(),
{
    if events.len() == 0 {
        start
    } else {
        next(run(start, events.drop_last()), events.last())
    }
}

} // verus!
