//! What holds of a pool in every state it can reach, whatever the order in
//! which its threads make their calls.

use vstd::multiset::Multiset;
use vstd::prelude::*;

use crate::census::{
    in_flight, lemma_in_flight_bounds, lemma_in_flight_finish, lemma_in_flight_start,
    lemma_in_flight_unchanged, lemma_queue_len, lemma_queued_tasks_drop_first,
    lemma_queued_tasks_push, lemma_queued_tasks_signals, lemma_stop_count_drop_first,
    lemma_stop_count_none, lemma_stop_count_push, lemma_stop_count_signals,
    lemma_terminated_count_bounds, lemma_terminated_count_update, lemma_total_slack_update,
    queued_tasks, stop_count, terminated_count, total_slack,
};
use crate::operation::Operation;
use crate::queue::receive_outcome;
use crate::system::{admissible, enabled, initial, next, run, Event, Slot, System};

verus! {

/// The bookkeeping that every reachable state keeps.
///
/// The queue holds, in order, exactly the submitted tasks that no worker has
/// taken yet. Every task that was taken is either in flight or completed,
/// once. Before shutdown the queue holds tasks only and no worker has
/// terminated. From shutdown on, every stop signal is either still queued or
/// has terminated one worker. The tasks submitted before shutdown stand in
/// front of every stop signal, so no worker terminates before all of them
/// are taken. Only terminated workers are joined, and at most one worker
/// holds the queue.
pub open spec fn sound<T>(s: System<T>) -> bool {
    &&& s.size > 0
    &&& s.workers.len() == s.size
    &&& s.joined <= s.size
    &&& s.early <= s.submitted.len()
    &&& s.taken.len() <= s.submitted.len()
    &&& s.taken == s.submitted.subrange(0, s.taken.len() as int)
    &&& queued_tasks(s.queue) == s.submitted.subrange(
        s.taken.len() as int,
        s.submitted.len() as int,
    )
    &&& s.completed.to_multiset().add(in_flight(s.workers)) == s.taken.to_multiset()
    &&& !s.stopping ==> {
        &&& s.joined == 0
        &&& s.early == s.submitted.len()
        &&& s.queue.len() + s.taken.len() == s.submitted.len()
        &&& forall|k: int| 0 <= k < s.queue.len() ==> #[trigger] s.queue[k] is Execute
        &&& forall|i: int| 0 <= i < s.workers.len() ==> !(#[trigger] s.workers[i] is Terminated)
    }
    &&& s.stopping ==> terminated_count(s.workers) + stop_count(s.queue) == s.size
    &&& forall|k: int|
        0 <= k < s.early - s.taken.len() ==> k < s.queue.len() && #[trigger] s.queue[k] is Execute
    &&& terminated_count(s.workers) > 0 ==> s.taken.len() >= s.early
    &&& forall|k: int| 0 <= k < s.joined ==> #[trigger] s.workers[k] is Terminated
    &&& forall|i: int, j: int|
        0 <= i < s.workers.len() && 0 <= j < s.workers.len() && #[trigger] s.workers[i] is Claiming
            && #[trigger] s.workers[j] is Claiming ==> i == j
}

/// A pool is sound when it is made.
pub proof fn lemma_sound_initially<T>(size: nat)
    requires
        size > 0,
    ensures
        sound(initial::<T>(size)),
{
    let s = initial::<T>(size);
    lemma_terminated_count_bounds(s.workers);
    lemma_in_flight_bounds(s.workers);
    assert(s.taken =~= s.submitted.subrange(0, 0));
    assert(s.completed.to_multiset().add(in_flight(s.workers)) =~= s.taken.to_multiset());
}

proof fn lemma_sound_after_execute<T>(s: System<T>, task: T)
    requires
        sound(s),
    ensures
        sound(next(s, Event::Execute(task))),
{
    let t = next(s, Event::Execute(task));
    let total = s.submitted.len() as int;
    lemma_queued_tasks_push(s.queue, Operation::Execute(task));
    lemma_stop_count_push(s.queue, Operation::Execute(task));
    lemma_terminated_count_bounds(s.workers);
    let taken = s.taken.len() as int;
    assert(t.submitted.subrange(taken, total + 1) =~= s.submitted.subrange(taken, total).push(
        task,
    ));
    assert(t.submitted.subrange(0, taken) =~= s.submitted.subrange(0, taken));
    assert forall|k: int| 0 <= k < t.early - t.taken.len() implies k < t.queue.len()
        && #[trigger] t.queue[k] is Execute by {
        if k < s.queue.len() {
            assert(t.queue[k] == s.queue[k]);
        } else {
            assert(!s.stopping) by {
                if s.stopping {
                    assert(s.queue[k] is Execute);
                }
            }
        }
    }
    if !s.stopping {
        assert forall|k: int| 0 <= k < t.queue.len() implies #[trigger] t.queue[k] is Execute by {
            if k < s.queue.len() {
                assert(t.queue[k] == s.queue[k]);
            }
        }
    }
}

proof fn lemma_sound_after_acquire<T>(s: System<T>, id: int)
    requires
        sound(s),
        enabled(s, Event::<T>::Acquire(id)),
    ensures
        sound(next(s, Event::<T>::Acquire(id))),
{
    let t = next(s, Event::<T>::Acquire(id));
    lemma_terminated_count_update(s.workers, id, Slot::<T>::Claiming);
    lemma_in_flight_unchanged(s.workers, id, Slot::<T>::Claiming);
    assert forall|i: int| 0 <= i < t.workers.len() implies !(#[trigger] t.workers[i] is Terminated)
        || s.stopping by {
        if i != id {
            assert(t.workers[i] == s.workers[i]);
        }
    }
    assert forall|k: int| 0 <= k < t.joined implies #[trigger] t.workers[k] is Terminated by {
        assert(s.workers[k] is Terminated);
    }
    assert forall|i: int, j: int|
        0 <= i < t.workers.len() && 0 <= j < t.workers.len() && #[trigger] t.workers[i] is Claiming
            && #[trigger] t.workers[j] is Claiming implies i == j by {
        if i != id {
            assert(s.workers[i] is Claiming);
        }
        if j != id {
            assert(s.workers[j] is Claiming);
        }
    }
}

proof fn lemma_sound_after_skip<T>(s: System<T>, id: int)
    requires
        sound(s),
        enabled(s, Event::<T>::Skip(id)),
    ensures
        sound(next(s, Event::<T>::Skip(id))),
{
    assert(next(s, Event::<T>::Skip(id)).workers =~= s.workers);
}

proof fn lemma_sound_after_receive<T>(s: System<T>, id: int)
    requires
        sound(s),
        enabled(s, Event::<T>::Receive(id)),
    ensures
        sound(next(s, Event::<T>::Receive(id))),
{
    broadcast use vstd::multiset::group_multiset_axioms;

    let t = next(s, Event::<T>::Receive(id));
    let total = s.submitted.len() as int;
    lemma_terminated_count_update(s.workers, id, t.workers[id]);
    assert forall|i: int| 0 <= i < t.workers.len() && i != id implies t.workers[i]
        == s.workers[i] by {}
    assert forall|i: int, j: int|
        0 <= i < t.workers.len() && 0 <= j < t.workers.len() && #[trigger] t.workers[i] is Claiming
            && #[trigger] t.workers[j] is Claiming implies i == j by {
        assert(s.workers[i] is Claiming);
        assert(s.workers[j] is Claiming);
    }
    match receive_outcome(s.queue, true) {
        Ok(Operation::Execute(task)) => {
            lemma_queued_tasks_drop_first(s.queue);
            lemma_stop_count_drop_first(s.queue);
            let taken = s.taken.len() as int;
            let waiting = s.submitted.subrange(taken, total);
            assert(waiting.len() > 0);
            assert(waiting[0] == s.submitted[taken]);
            assert(t.submitted.subrange(taken + 1, total) =~= waiting.drop_first());
            assert(t.taken =~= t.submitted.subrange(0, taken + 1));
            vstd::seq_lib::to_multiset_build(s.taken, task);
            lemma_in_flight_start(s.workers, id, task);
            assert(t.completed.to_multiset().add(in_flight(t.workers)) =~= t.taken.to_multiset());
            assert forall|k: int| 0 <= k < t.queue.len() implies t.queue[k] == s.queue[k + 1] by {}
            assert forall|k: int| 0 <= k < t.early - t.taken.len() implies k < t.queue.len()
                && #[trigger] t.queue[k] is Execute by {
                assert(s.queue[k + 1] is Execute);
            }
            if !s.stopping {
                assert forall|k: int| 0 <= k < t.queue.len() implies #[trigger] t.queue[k]
                    is Execute by {
                    assert(s.queue[k + 1] is Execute);
                }
            }
        },
        Ok(Operation::Terminate) => {
            lemma_queued_tasks_drop_first(s.queue);
            lemma_stop_count_drop_first(s.queue);
            assert(s.queue[0] is Terminate);
            assert(s.stopping);
            assert(s.early <= s.taken.len());
            lemma_in_flight_unchanged(s.workers, id, Slot::<T>::Terminated);
        },
        Err(_) => {
            assert(t.queue == s.queue);
            lemma_in_flight_unchanged(s.workers, id, Slot::<T>::Idle);
        },
    }
    assert forall|k: int| 0 <= k < t.joined implies #[trigger] t.workers[k] is Terminated by {
        assert(s.workers[k] is Terminated);
    }
}

proof fn lemma_sound_after_finish<T>(s: System<T>, id: int)
    requires
        sound(s),
        enabled(s, Event::<T>::Finish(id)),
    ensures
        sound(next(s, Event::<T>::Finish(id))),
{
    broadcast use vstd::multiset::group_multiset_axioms;

    let t = next(s, Event::<T>::Finish(id));
    let task = s.workers[id]->Running_0;
    lemma_terminated_count_update(s.workers, id, Slot::<T>::Idle);
    lemma_in_flight_finish(s.workers, id, Slot::<T>::Idle);
    vstd::seq_lib::to_multiset_build(s.completed, task);
    assert(t.completed.to_multiset().add(in_flight(t.workers)) =~= s.completed.to_multiset().add(
        in_flight(s.workers),
    ));
    assert forall|i: int| 0 <= i < t.workers.len() && i != id implies t.workers[i]
        == s.workers[i] by {}
    assert forall|k: int| 0 <= k < t.joined implies #[trigger] t.workers[k] is Terminated by {
        assert(s.workers[k] is Terminated);
    }
    assert forall|i: int, j: int|
        0 <= i < t.workers.len() && 0 <= j < t.workers.len() && #[trigger] t.workers[i] is Claiming
            && #[trigger] t.workers[j] is Claiming implies i == j by {
        assert(s.workers[i] is Claiming);
        assert(s.workers[j] is Claiming);
    }
}

proof fn lemma_sound_after_terminate<T>(s: System<T>)
    requires
        sound(s),
        enabled(s, Event::<T>::Terminate),
    ensures
        sound(next(s, Event::<T>::Terminate)),
{
    let t = next(s, Event::<T>::Terminate);
    lemma_stop_count_none(s.queue);
    lemma_stop_count_signals(s.queue, s.size);
    lemma_queued_tasks_signals(s.queue, s.size);
    lemma_terminated_count_bounds(s.workers);
    assert forall|k: int| 0 <= k < t.early - t.taken.len() implies k < t.queue.len()
        && #[trigger] t.queue[k] is Execute by {
        assert(t.queue[k] == s.queue[k]);
    }
}

/// No event that can happen breaks the bookkeeping.
pub proof fn lemma_sound_is_kept<T>(s: System<T>, event: Event<T>)
    requires
        sound(s),
        enabled(s, event),
    ensures
        sound(next(s, event)),
{
    match event {
        Event::Execute(task) => lemma_sound_after_execute(s, task),
        Event::Acquire(id) => lemma_sound_after_acquire(s, id),
        Event::Skip(id) => lemma_sound_after_skip(s, id),
        Event::Receive(id) => lemma_sound_after_receive(s, id),
        Event::Finish(id) => lemma_sound_after_finish(s, id),
        Event::Terminate => lemma_sound_after_terminate(s),
        Event::Join => {},
    }
}

/// Every state that a pool of `size` workers can reach is sound.
pub proof fn lemma_sound_always<T>(size: nat, events: Seq<Event<T>>)
    requires
        size > 0,
        admissible(initial(size), events),
    ensures
        sound(run(initial(size), events)),
    decreases events.len(),
{
    if events.len() == 0 {
        lemma_sound_initially::<T>(size);
    } else {
        lemma_sound_always(size, events.drop_last());
        lemma_sound_is_kept(run(initial(size), events.drop_last()), events.last());
    }
}

/// What is left of a shutdown: three for every queued message, the slack of
/// every worker, and one for every worker not yet joined.
pub open spec fn remaining<T>(s: System<T>) -> nat {
    (3 * s.queue.len() + total_slack(s.workers) + (s.size - s.joined)) as nat
}

/// Whether `event` can happen in state `s` and moves the pool on: it is
/// neither a new submission, nor a turn skipped on a poisoned lock, nor a
/// receive that finds nothing queued.
pub open spec fn advances<T>(s: System<T>, event: Event<T>) -> bool {
    &&& enabled(s, event)
    &&& match event {
        Event::Execute(_) => false,
        Event::Skip(_) => false,
        Event::Receive(_) => s.queue.len() > 0,
        _ => true,
    }
}

/// Once the owner has joined every worker, the pool is at rest: every
/// worker has terminated, every stop signal has been taken, and no task is
/// in flight. Every task that a worker took has run to completion exactly
/// once, and these include every task submitted before shutdown began. What
/// is still queued was submitted after shutdown began, and is never run.
pub proof fn lemma_joined_pool_is_at_rest<T>(s: System<T>)
    requires
        sound(s),
        s.joined == s.size,
    ensures
        forall|i: int| 0 <= i < s.size ==> #[trigger] s.workers[i] is Terminated,
        stop_count(s.queue) == 0,
        in_flight(s.workers) == Multiset::<T>::empty(),
        s.completed.to_multiset() == s.taken.to_multiset(),
        s.taken.is_prefix_of(s.submitted),
        s.early <= s.taken.len(),
        s.queue.len() == s.submitted.len() - s.taken.len(),
{
    broadcast use vstd::multiset::group_multiset_axioms;

    lemma_terminated_count_bounds(s.workers);
    lemma_in_flight_bounds(s.workers);
    lemma_queue_len(s.queue);
    assert(s.workers[0] is Terminated);
    assert(s.stopping);
    assert forall|i: int| 0 <= i < s.workers.len() implies !(#[trigger] s.workers[i]
        is Running) by {
        assert(s.workers[i] is Terminated);
    }
    assert(s.completed.to_multiset() =~= s.completed.to_multiset().add(in_flight(s.workers)));
}

/// Shutdown loses no work and repeats none. Whatever the order of events,
/// once the owner has joined every worker of a pool, the tasks that have
/// run to completion are exactly the tasks that the workers took, each as
/// often as it was submitted; they are the first of the submitted tasks,
/// and all of those submitted before shutdown began are among them. If
/// nothing was submitted after shutdown began, the completed tasks are
/// exactly the submitted ones, in some order.
pub proof fn lemma_shutdown_completes_submitted_work<T>(size: nat, events: Seq<Event<T>>)
    requires
        size > 0,
        admissible(initial(size), events),
        run(initial(size), events).joined == size,
    ensures
        ({
            let s = run(initial(size), events);
            &&& s.completed.to_multiset() == s.taken.to_multiset()
            &&& s.taken.is_prefix_of(s.submitted)
            &&& s.early <= s.taken.len()
            &&& in_flight(s.workers) == Multiset::<T>::empty()
            &&& s.early == s.submitted.len() ==> s.completed.to_multiset()
                == s.submitted.to_multiset()
        }),
{
    let s = run(initial(size), events);
    lemma_sound_always(size, events);
    lemma_size_is_fixed(size, events);
    lemma_joined_pool_is_at_rest(s);
    if s.early == s.submitted.len() {
        assert(s.taken =~= s.submitted);
    }
}

/// The number of workers never changes.
pub proof fn lemma_size_is_fixed<T>(size: nat, events: Seq<Event<T>>)
    ensures
        run(initial(size), events).size == size,
    decreases events.len(),
{
    if events.len() > 0 {
        lemma_size_is_fixed(size, events.drop_last());
    }
}

/// The owner's wait outlasts the work in flight. Whatever the order of
/// events, as long as some worker is running a task the owner has not
/// joined every worker, and a worker that the owner has joined has
/// terminated.
pub proof fn lemma_join_waits_for_running_tasks<T>(size: nat, events: Seq<Event<T>>)
    requires
        size > 0,
        admissible(initial(size), events),
    ensures
        ({
            let s = run(initial(size), events);
            &&& in_flight(s.workers).len() > 0 ==> s.joined < size
            &&& forall|i: int| 0 <= i < s.joined ==> #[trigger] s.workers[i] is Terminated
        }),
{
    let s = run(initial(size), events);
    lemma_sound_always(size, events);
    lemma_size_is_fixed(size, events);
    if s.joined == size {
        lemma_joined_pool_is_at_rest(s);
    }
}

/// Parallelism is bounded by the size of the pool. Whatever the order of
/// events, there are never more tasks in flight than the pool has workers.
pub proof fn lemma_parallelism_is_bounded<T>(size: nat, events: Seq<Event<T>>)
    requires
        size > 0,
        admissible(initial(size), events),
    ensures
        in_flight(run(initial(size), events).workers).len() <= size,
{
    let s = run(initial(size), events);
    lemma_sound_always(size, events);
    lemma_size_is_fixed(size, events);
    lemma_in_flight_bounds(s.workers);
}

/// A pool that is made and shut down at once, with nothing submitted, comes
/// to rest with all its workers terminated and joined, one stop signal
/// taken by each, and nothing left in the queue.
pub proof fn lemma_idle_pool_shuts_down_clean<T>(size: nat, events: Seq<Event<T>>)
    requires
        size > 0,
        admissible(initial(size), events),
        forall|k: int| 0 <= k < events.len() ==> !(#[trigger] events[k] is Execute),
        run(initial(size), events).joined == size,
    ensures
        ({
            let s = run(initial(size), events);
            &&& s.workers.len() == size
            &&& forall|i: int| 0 <= i < size ==> #[trigger] s.workers[i] is Terminated
            &&& terminated_count(s.workers) == size
            &&& s.queue.len() == 0
            &&& s.completed.len() == 0
            &&& !enabled(s, Event::<T>::Join)
        }),
{
    let s = run(initial(size), events);
    lemma_sound_always(size, events);
    lemma_size_is_fixed(size, events);
    lemma_joined_pool_is_at_rest(s);
    lemma_nothing_submitted(size, events);
    lemma_terminated_count_bounds(s.workers);
    s.completed.to_multiset_ensures();
    s.taken.to_multiset_ensures();
}

/// Where no event is a submission, nothing is submitted.
pub proof fn lemma_nothing_submitted<T>(size: nat, events: Seq<Event<T>>)
    requires
        forall|k: int| 0 <= k < events.len() ==> !(#[trigger] events[k] is Execute),
    ensures
        run(initial(size), events).submitted.len() == 0,
    decreases events.len(),
{
    if events.len() > 0 {
        let front = events.drop_last();
        assert forall|k: int| 0 <= k < front.len() implies !(#[trigger] front[k] is Execute) by {
            assert(front[k] == events[k]);
        }
        lemma_nothing_submitted(size, front);
        assert(!(events[events.len() - 1] is Execute));
    }
}

/// Shutdown cannot get stuck. In every sound state in which some worker is
/// not joined, some call can be made that moves the pool on: the owner can
/// begin shutdown if it has not; else the owner can join the pending
/// worker, or a task can return, or a worker can take the queue or receive
/// from it, and a worker that receives during shutdown finds a message.
pub proof fn lemma_shutdown_can_go_on<T>(s: System<T>)
    requires
        sound(s),
        s.joined < s.size,
    ensures
        exists|event: Event<T>| advances(s, event),
{
    let pending = s.joined as int;
    if !s.stopping {
        assert(advances(s, Event::<T>::Terminate));
    } else {
        lemma_terminated_count_bounds(s.workers);
        match s.workers[pending] {
            Slot::Terminated => {
                assert(advances(s, Event::<T>::Join));
            },
            Slot::Running(_) => {
                assert(advances(s, Event::<T>::Finish(pending)));
            },
            Slot::Claiming => {
                assert(stop_count(s.queue) > 0);
                assert(advances(s, Event::<T>::Receive(pending)));
            },
            Slot::Idle => {
                if exists|holder: int|
                    0 <= holder < s.workers.len() && #[trigger] s.workers[holder] is Claiming {
                    let holder = choose|holder: int|
                        0 <= holder < s.workers.len() && #[trigger] s.workers[holder] is Claiming;
                    assert(stop_count(s.queue) > 0);
                    assert(advances(s, Event::<T>::Receive(holder)));
                } else {
                    assert(advances(s, Event::<T>::Acquire(pending)));
                }
            },
        }
    }
}

/// Shutdown comes to an end. Every call that moves the pool on, but for the
/// one that begins shutdown, makes what remains smaller: so once shutdown
/// has begun and nothing more is submitted, at most `remaining` such calls
/// can follow.
pub proof fn lemma_shutdown_gets_closer<T>(s: System<T>, event: Event<T>)
    requires
        sound(s),
        advances(s, event),
        !(event is Terminate),
    ensures
        remaining(next(s, event)) < remaining(s),
{
    match event {
        Event::Acquire(id) => {
            lemma_total_slack_update(s.workers, id, Slot::<T>::Claiming);
        },
        Event::Receive(id) => {
            lemma_total_slack_update(s.workers, id, next(s, event).workers[id]);
        },
        Event::Finish(id) => {
            lemma_total_slack_update(s.workers, id, Slot::<T>::Idle);
        },
        _ => {},
    }
}

/// A stop signal never interrupts a task. Whatever happens while a worker
/// runs a task, that worker keeps running it until the task itself returns:
/// no other event touches it, and it can only terminate on a later turn,
/// holding the queue.
pub proof fn lemma_running_worker_is_left_alone<T>(s: System<T>, event: Event<T>, id: int)
    requires
        0 <= id < s.workers.len(),
        s.workers[id] is Running,
        enabled(s, event),
    ensures
        next(s, event).workers[id] == if event == Event::<T>::Finish(id) {
            Slot::Idle
        } else {
            s.workers[id]
        },
{
}

} // verus!
