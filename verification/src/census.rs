//! What a queue and a row of workers hold, counted.

use vstd::multiset::Multiset;
use vstd::prelude::*;

use crate::operation::Operation;
use crate::pool::stop_signals;
use crate::system::Slot;

verus! {

/// How many stop signals are queued.
pub open spec fn stop_count<T>(queue: Seq<Operation<T>>) -> nat
    decreases queue.len(),
{
    if queue.len() == 0 {
        0
    } else {
        stop_count(queue.drop_last()) + if queue.last() is Terminate {
            1nat
        } else {
            0nat
        }
    }
}

/// The queued tasks, oldest first: what is queued without the stop signals.
pub open spec fn queued_tasks<T>(queue: Seq<Operation<T>>) -> Seq<T>
    decreases queue.len(),
{
    if queue.len() == 0 {
        Seq::empty()
    } else {
        match queue.last() {
            Operation::Execute(task) => queued_tasks(queue.drop_last()).push(task),
            Operation::Terminate => queued_tasks(queue.drop_last()),
        }
    }
}

/// How many workers have left their loop.
pub open spec fn terminated_count<T>(workers: Seq<Slot<T>>) -> nat
    decreases workers.len(),
{
    if workers.len() == 0 {
        0
    } else {
        terminated_count(workers.drop_last()) + if workers.last() is Terminated {
            1nat
        } else {
            0nat
        }
    }
}

/// The task that a worker is running, as a bag of at most one.
pub open spec fn load<T>(slot: Slot<T>) -> Multiset<T> {
    match slot {
        Slot::Running(task) => Multiset::singleton(task),
        _ => Multiset::empty(),
    }
}

/// The tasks that are running right now, one for each running worker.
pub open spec fn in_flight<T>(workers: Seq<Slot<T>>) -> Multiset<T>
    decreases workers.len(),
{
    if workers.len() == 0 {
        Multiset::empty()
    } else {
        in_flight(workers.drop_last()).add(load(workers.last()))
    }
}

/// How many calls a worker is away from asking for the queue with nothing
/// in hand: two while it runs a task, one while it is idle, none while it
/// holds the queue or once it has terminated.
pub open spec fn slack<T>(slot: Slot<T>) -> nat {
    match slot {
        Slot::Running(_) => 2,
        Slot::Idle => 1,
        Slot::Claiming => 0,
        Slot::Terminated => 0,
    }
}

/// The slack of all workers together.
pub open spec fn total_slack<T>(workers: Seq<Slot<T>>) -> nat
    decreases workers.len(),
{
    if workers.len() == 0 {
        0
    } else {
        total_slack(workers.drop_last()) + slack(workers.last())
    }
}

/// Sending a message adds one to the stop signals if it is one.
pub proof fn lemma_stop_count_push<T>(queue: Seq<Operation<T>>, operation: Operation<T>)
    ensures
        stop_count(queue.push(operation)) == stop_count(queue) + if operation is Terminate {
            1nat
        } else {
            0nat
        },
{
    assert(queue.push(operation).drop_last() =~= queue);
}

/// Taking the head off removes one stop signal if the head is one.
pub proof fn lemma_stop_count_drop_first<T>(queue: Seq<Operation<T>>)
    requires
        queue.len() > 0,
    ensures
        stop_count(queue.drop_first()) + (if queue[0] is Terminate {
            1nat
        } else {
            0nat
        }) == stop_count(queue),
    decreases queue.len(),
{
    if queue.len() == 1 {
        assert(stop_count(queue.drop_last()) == 0);
        assert(stop_count(queue.drop_first()) == 0);
    } else {
        lemma_stop_count_drop_first(queue.drop_last());
        assert(queue.drop_first().drop_last() =~= queue.drop_last().drop_first());
        assert(queue.drop_first().last() == queue.last());
    }
}

/// The stop signals of a shutdown add their number to the stop signals
/// queued.
pub proof fn lemma_stop_count_signals<T>(queue: Seq<Operation<T>>, count: nat)
    ensures
        stop_count(queue + stop_signals::<T>(count)) == stop_count(queue) + count,
    decreases count,
{
    if count == 0 {
        assert(queue + stop_signals::<T>(count) =~= queue);
    } else {
        let shorter = (count - 1) as nat;
        lemma_stop_count_signals(queue, shorter);
        assert((queue + stop_signals::<T>(count)).drop_last() =~= queue + stop_signals::<T>(
            shorter,
        ));
    }
}

/// A queue of tasks alone holds no stop signal.
pub proof fn lemma_stop_count_none<T>(queue: Seq<Operation<T>>)
    requires
        forall|i: int| 0 <= i < queue.len() ==> #[trigger] queue[i] is Execute,
    ensures
        stop_count(queue) == 0,
    decreases queue.len(),
{
    if queue.len() > 0 {
        lemma_stop_count_none(queue.drop_last());
    }
}

/// Every queued message is a stop signal or carries a task.
pub proof fn lemma_queue_len<T>(queue: Seq<Operation<T>>)
    ensures
        queue.len() == stop_count(queue) + queued_tasks(queue).len(),
    decreases queue.len(),
{
    if queue.len() > 0 {
        lemma_queue_len(queue.drop_last());
    }
}

/// Sending a task adds it to the queued tasks; sending a stop signal adds
/// nothing.
pub proof fn lemma_queued_tasks_push<T>(queue: Seq<Operation<T>>, operation: Operation<T>)
    ensures
        queued_tasks(queue.push(operation)) == match operation {
            Operation::Execute(task) => queued_tasks(queue).push(task),
            Operation::Terminate => queued_tasks(queue),
        },
{
    assert(queue.push(operation).drop_last() =~= queue);
}

/// Taking a task off the head takes the oldest queued task; taking a stop
/// signal off the head takes none.
pub proof fn lemma_queued_tasks_drop_first<T>(queue: Seq<Operation<T>>)
    requires
        queue.len() > 0,
    ensures
        match queue[0] {
            Operation::Execute(task) => queued_tasks(queue).len() > 0 && queued_tasks(queue)[0]
                == task && queued_tasks(queue.drop_first()) == queued_tasks(queue).drop_first(),
            Operation::Terminate => queued_tasks(queue.drop_first()) == queued_tasks(queue),
        },
    decreases queue.len(),
{
    if queue.len() == 1 {
        assert(queued_tasks(queue.drop_last()) =~= Seq::<T>::empty());
        assert(queued_tasks(queue.drop_first()) =~= Seq::<T>::empty());
        if queue[0] is Execute {
            assert(queued_tasks(queue.drop_first()) =~= queued_tasks(queue).drop_first());
        }
    } else {
        lemma_queued_tasks_drop_first(queue.drop_last());
        assert(queue.drop_first().drop_last() =~= queue.drop_last().drop_first());
        assert(queue.drop_first().last() == queue.last());
        assert(queue.drop_last()[0] == queue[0]);
        if queue[0] is Execute {
            let rest = queued_tasks(queue.drop_last());
            match queue.last() {
                Operation::Execute(task) => {
                    assert(rest.drop_first().push(task) =~= rest.push(task).drop_first());
                },
                Operation::Terminate => {},
            }
        }
    }
}

/// The stop signals of a shutdown add no task.
pub proof fn lemma_queued_tasks_signals<T>(queue: Seq<Operation<T>>, count: nat)
    ensures
        queued_tasks(queue + stop_signals::<T>(count)) == queued_tasks(queue),
    decreases count,
{
    if count == 0 {
        assert(queue + stop_signals::<T>(count) =~= queue);
    } else {
        let shorter = (count - 1) as nat;
        lemma_queued_tasks_signals(queue, shorter);
        assert((queue + stop_signals::<T>(count)).drop_last() =~= queue + stop_signals::<T>(
            shorter,
        ));
    }
}

/// A change of one worker's slot changes the number of terminated workers
/// by that worker alone.
pub proof fn lemma_terminated_count_update<T>(workers: Seq<Slot<T>>, id: int, slot: Slot<T>)
    requires
        0 <= id < workers.len(),
    ensures
        terminated_count(workers.update(id, slot)) + (if workers[id] is Terminated {
            1nat
        } else {
            0nat
        }) == terminated_count(workers) + if slot is Terminated {
            1nat
        } else {
            0nat
        },
    decreases workers.len(),
{
    if id == workers.len() - 1 {
        assert(workers.update(id, slot).drop_last() =~= workers.drop_last());
    } else {
        lemma_terminated_count_update(workers.drop_last(), id, slot);
        assert(workers.update(id, slot).drop_last() =~= workers.drop_last().update(id, slot));
    }
}

/// No more workers have terminated than there are, and all of them have
/// exactly when each has.
pub proof fn lemma_terminated_count_bounds<T>(workers: Seq<Slot<T>>)
    ensures
        terminated_count(workers) <= workers.len(),
        terminated_count(workers) == workers.len() <==> forall|i: int|
            0 <= i < workers.len() ==> #[trigger] workers[i] is Terminated,
        terminated_count(workers) == 0 <==> forall|i: int|
            0 <= i < workers.len() ==> !(#[trigger] workers[i] is Terminated),
    decreases workers.len(),
{
    if workers.len() > 0 {
        let front = workers.drop_last();
        lemma_terminated_count_bounds(front);
        assert(forall|i: int| 0 <= i < front.len() ==> front[i] == workers[i]);
        if forall|i: int| 0 <= i < workers.len() ==> #[trigger] workers[i] is Terminated {
            assert(forall|i: int| 0 <= i < front.len() ==> #[trigger] front[i] is Terminated);
        }
        if forall|i: int| 0 <= i < workers.len() ==> !(#[trigger] workers[i] is Terminated) {
            assert(forall|i: int| 0 <= i < front.len() ==> !(#[trigger] front[i] is Terminated));
        }
    }
}

/// A change of one worker's slot changes the tasks in flight by that
/// worker's task alone.
pub proof fn lemma_in_flight_update<T>(workers: Seq<Slot<T>>, id: int, slot: Slot<T>)
    requires
        0 <= id < workers.len(),
    ensures
        in_flight(workers.update(id, slot)).add(load(workers[id])) == in_flight(workers).add(
            load(slot),
        ),
    decreases workers.len(),
{
    broadcast use vstd::multiset::group_multiset_axioms;

    let front = workers.drop_last();
    let updated = workers.update(id, slot);
    let before = in_flight(updated).add(load(workers[id]));
    let after = in_flight(workers).add(load(slot));
    assert(updated.len() == workers.len());
    assert(in_flight(workers) == in_flight(front).add(load(workers.last())));
    if id == workers.len() - 1 {
        assert(updated.drop_last() =~= front);
        assert(in_flight(updated) == in_flight(front).add(load(slot)));
        assert(before =~= after);
    } else {
        lemma_in_flight_update(front, id, slot);
        let inner = front.update(id, slot);
        assert(updated.drop_last() =~= inner);
        assert(in_flight(updated) == in_flight(inner).add(load(workers.last())));
        assert forall|task: T| before.count(task) == after.count(task) by {
            assert(in_flight(inner).add(load(front[id])).count(task) == in_flight(front).add(
                load(slot),
            ).count(task));
        }
        assert(before =~= after);
    }
}

/// A change of one worker's slot between two slots that run no task leaves
/// the tasks in flight as they are.
pub proof fn lemma_in_flight_unchanged<T>(workers: Seq<Slot<T>>, id: int, slot: Slot<T>)
    requires
        0 <= id < workers.len(),
        !(workers[id] is Running),
        !(slot is Running),
    ensures
        in_flight(workers.update(id, slot)) == in_flight(workers),
{
    broadcast use vstd::multiset::group_multiset_axioms;

    lemma_in_flight_update(workers, id, slot);
    assert(in_flight(workers.update(id, slot)) =~= in_flight(workers.update(id, slot)).add(
        load(workers[id]),
    ));
    assert(in_flight(workers) =~= in_flight(workers).add(load(slot)));
}

/// A worker that starts to run a task adds that task to the tasks in flight.
pub proof fn lemma_in_flight_start<T>(workers: Seq<Slot<T>>, id: int, task: T)
    requires
        0 <= id < workers.len(),
        !(workers[id] is Running),
    ensures
        in_flight(workers.update(id, Slot::Running(task))) == in_flight(workers).insert(task),
{
    broadcast use vstd::multiset::group_multiset_axioms;

    let started = workers.update(id, Slot::Running(task));
    lemma_in_flight_update(workers, id, Slot::Running(task));
    assert(in_flight(started) =~= in_flight(started).add(load(workers[id])));
    assert(in_flight(workers).insert(task) =~= in_flight(workers).add(
        load(Slot::Running(task)),
    ));
}

/// A worker whose task returns takes that task out of the tasks in flight.
pub proof fn lemma_in_flight_finish<T>(workers: Seq<Slot<T>>, id: int, slot: Slot<T>)
    requires
        0 <= id < workers.len(),
        workers[id] is Running,
        !(slot is Running),
    ensures
        in_flight(workers.update(id, slot)).insert(workers[id]->Running_0) == in_flight(workers),
{
    broadcast use vstd::multiset::group_multiset_axioms;

    let finished = workers.update(id, slot);
    lemma_in_flight_update(workers, id, slot);
    assert(in_flight(finished).insert(workers[id]->Running_0) =~= in_flight(finished).add(
        load(workers[id]),
    ));
    assert(in_flight(workers) =~= in_flight(workers).add(load(slot)));
}

/// There are no more tasks in flight than workers, and none where no worker
/// is running.
pub proof fn lemma_in_flight_bounds<T>(workers: Seq<Slot<T>>)
    ensures
        in_flight(workers).len() <= workers.len(),
        (forall|i: int| 0 <= i < workers.len() ==> !(#[trigger] workers[i] is Running))
            ==> in_flight(workers) == Multiset::<T>::empty(),
    decreases workers.len(),
{
    if workers.len() > 0 {
        let front = workers.drop_last();
        lemma_in_flight_bounds(front);
        assert(forall|i: int| 0 <= i < front.len() ==> front[i] == workers[i]);
        if forall|i: int| 0 <= i < workers.len() ==> !(#[trigger] workers[i] is Running) {
            assert(forall|i: int| 0 <= i < front.len() ==> !(#[trigger] front[i] is Running));
            assert(in_flight(workers) =~= Multiset::<T>::empty());
        }
    }
}

/// A change of one worker's slot changes the total slack by that worker's
/// slack alone.
pub proof fn lemma_total_slack_update<T>(workers: Seq<Slot<T>>, id: int, slot: Slot<T>)
    requires
        0 <= id < workers.len(),
    ensures
        total_slack(workers.update(id, slot)) + slack(workers[id]) == total_slack(workers)
            + slack(slot),
    decreases workers.len(),
{
    if id == workers.len() - 1 {
        assert(workers.update(id, slot).drop_last() =~= workers.drop_last());
    } else {
        lemma_total_slack_update(workers.drop_last(), id, slot);
        assert(workers.update(id, slot).drop_last() =~= workers.drop_last().update(id, slot));
    }
}

} // verus!
