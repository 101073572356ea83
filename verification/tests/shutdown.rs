use std::sync::{Arc, Mutex};

use thread_pool::pool::ThreadPool;
use thread_pool::queue::WorkQueue;
use thread_pool::worker::{Phase, Step, Worker};

type Task = Box<dyn FnOnce() + Send + 'static>;

/// A pool driven by hand on one thread: the test decides which worker moves
/// next, so every interleaving it cares about can be written down.
struct Rig {
    pool: ThreadPool,
    queue: WorkQueue<Task>,
    workers: Vec<Worker>,
    holding: Vec<Option<Task>>,
    most_running: usize,
}

impl Rig {
    fn new(size: usize) -> Rig {
        let (pool, queue, workers) = ThreadPool::new::<Task>(size);
        let holding = workers.iter().map(|_| None).collect();
        Rig { pool, queue, workers, holding, most_running: 0 }
    }

    fn submit(&mut self, task: Task) {
        assert!(self.pool.execute(&mut self.queue, task).is_ok());
    }

    fn running(&self) -> usize {
        self.workers.iter().filter(|w| w.phase() == Phase::Running).count()
    }

    fn terminated(&self) -> usize {
        self.workers.iter().filter(|w| w.phase() == Phase::Terminated).count()
    }

    /// One turn of worker `id` under the lock: take the lock, receive.
    /// Says whether the worker got something out of the queue.
    fn turn(&mut self, id: usize) -> bool {
        assert_eq!(self.workers[id].phase(), Phase::Idle);
        self.workers[id].acquire(true);
        let got = match self.workers[id].receive(&mut self.queue) {
            Step::Run(task) => {
                self.holding[id] = Some(task);
                true
            }
            Step::Wait => false,
            Step::Stop => true,
            Step::Closed => panic!("the queue is never closed while the pool lives"),
        };
        let running = self.running();
        assert_eq!(running, self.holding.iter().filter(|t| t.is_some()).count());
        assert!(running <= self.pool.size());
        self.most_running = self.most_running.max(running);
        got
    }

    /// The task of worker `id` runs and returns.
    fn finish(&mut self, id: usize) {
        assert_eq!(self.workers[id].phase(), Phase::Running);
        let task = self.holding[id].take().expect("a running worker holds its task");
        task();
        self.workers[id].finish();
    }

    /// Lets worker `id` make the next call of its loop, whatever that is.
    fn step(&mut self, id: usize) {
        match self.workers[id].phase() {
            Phase::Idle => {
                self.turn(id);
            }
            Phase::Running => self.finish(id),
            Phase::Claiming => panic!("a turn never ends with the lock held"),
            Phase::Terminated => {}
        }
    }

    fn shut_down(&mut self) {
        assert!(self.pool.terminate(&mut self.queue));
    }

    /// Moves the workers in the order that `pick` chooses until each has
    /// terminated, then joins them. Returns how many joins were made.
    fn drain_and_join(&mut self, mut pick: impl FnMut(usize) -> usize) -> usize {
        let size = self.pool.size();
        let mut round = 0;
        while self.terminated() < size {
            let id = pick(round) % size;
            self.step(id);
            round += 1;
            assert!(round < 100_000, "shutdown does not end");
        }
        let mut joins = 0;
        while let Some(id) = self.pool.pending_join() {
            assert_eq!(id, joins);
            assert_eq!(self.workers[id].phase(), Phase::Terminated);
            self.pool.confirm_join();
            joins += 1;
        }
        joins
    }
}

fn recorder(log: &Arc<Mutex<Vec<usize>>>, index: usize) -> Task {
    let log = Arc::clone(log);
    Box::new(move || log.lock().unwrap().push(index))
}

/// A fixed pseudo-random order of workers, different for each seed.
fn shuffled(seed: u64) -> impl FnMut(usize) -> usize {
    let mut state = seed.wrapping_mul(6364136223846793005).wrapping_add(1442695040888963407);
    move |_| {
        state = state.wrapping_mul(6364136223846793005).wrapping_add(1442695040888963407);
        (state >> 33) as usize
    }
}

#[test]
fn a_pool_made_and_shut_down_at_once_joins_every_worker() {
    for size in 1..=16 {
        let mut rig = Rig::new(size);
        rig.shut_down();
        assert_eq!(rig.queue.len(), size);
        let joins = rig.drain_and_join(|round| round);
        assert_eq!(joins, size);
        assert_eq!(rig.pool.joined(), size);
        assert_eq!(rig.pool.pending_join(), None);
        assert_eq!(rig.terminated(), size);
        assert_eq!(rig.queue.len(), 0);
        assert_eq!(rig.most_running, 0);
    }
}

#[test]
fn every_submitted_task_runs_exactly_once_in_any_order() {
    for (size, tasks) in [(1, 1), (1, 7), (2, 3), (3, 3), (4, 13), (8, 100)] {
        for seed in 0..20 {
            let log = Arc::new(Mutex::new(Vec::new()));
            let mut rig = Rig::new(size);
            for index in 0..tasks {
                rig.submit(recorder(&log, index));
            }
            rig.shut_down();
            let joins = rig.drain_and_join(shuffled(seed));
            assert_eq!(joins, size);
            let mut seen = log.lock().unwrap().clone();
            assert_eq!(seen.len(), tasks);
            seen.sort();
            assert_eq!(seen, (0..tasks).collect::<Vec<usize>>());
            assert_eq!(rig.queue.len(), 0);
        }
    }
}

#[test]
fn work_submitted_while_workers_are_busy_is_not_lost() {
    let log = Arc::new(Mutex::new(Vec::new()));
    let mut rig = Rig::new(2);
    rig.submit(recorder(&log, 0));
    assert!(rig.turn(0));
    rig.submit(recorder(&log, 1));
    rig.submit(recorder(&log, 2));
    assert!(rig.turn(1));
    rig.finish(1);
    rig.submit(recorder(&log, 3));
    rig.shut_down();
    assert_eq!(rig.drain_and_join(|round| round), 2);
    let mut seen = log.lock().unwrap().clone();
    seen.sort();
    assert_eq!(seen, vec![0, 1, 2, 3]);
}

#[test]
fn shutdown_waits_for_the_tasks_in_flight() {
    for size in 1..=6 {
        let log = Arc::new(Mutex::new(Vec::new()));
        let mut rig = Rig::new(size);
        for index in 0..size {
            rig.submit(recorder(&log, index));
        }
        // Every worker takes a task and is held inside it, as if on a latch.
        for id in 0..size {
            assert!(rig.turn(id));
        }
        assert_eq!(rig.running(), size);
        rig.shut_down();
        // The stop signals are queued, but no worker sees one while it runs.
        assert_eq!(rig.queue.len(), size);
        assert_eq!(rig.terminated(), 0);
        assert_eq!(rig.pool.pending_join(), Some(0));
        assert_eq!(rig.workers[0].phase(), Phase::Running);
        assert!(log.lock().unwrap().is_empty());
        // The latch opens: the tasks return in reverse order, then the
        // workers stop, and only then is anyone joined.
        let mut last = size;
        let joins = rig.drain_and_join(|_| {
            last = if last == 0 { size - 1 } else { last - 1 };
            last
        });
        assert_eq!(joins, size);
        let mut seen = log.lock().unwrap().clone();
        seen.sort();
        assert_eq!(seen, (0..size).collect::<Vec<usize>>());
    }
}

#[test]
fn no_more_tasks_run_at_once_than_there_are_workers() {
    for size in 1..=5 {
        let log = Arc::new(Mutex::new(Vec::new()));
        let mut rig = Rig::new(size);
        for index in 0..3 * size {
            rig.submit(recorder(&log, index));
        }
        // Every worker asks for work again and again before any task returns.
        for _ in 0..3 {
            for id in 0..size {
                if rig.workers[id].phase() == Phase::Idle {
                    rig.turn(id);
                }
            }
        }
        assert_eq!(rig.running(), size);
        assert_eq!(rig.queue.len(), 2 * size);
        rig.shut_down();
        assert_eq!(rig.drain_and_join(shuffled(size as u64)), size);
        assert_eq!(rig.most_running, size);
        assert_eq!(log.lock().unwrap().len(), 3 * size);
    }
}

#[test]
fn two_workers_run_three_tasks_in_two_waves() {
    let record = Arc::new(Mutex::new(Vec::new()));
    let label = |name: &'static str| -> Task {
        let record = Arc::clone(&record);
        Box::new(move || record.lock().unwrap().push(name))
    };
    let mut rig = Rig::new(2);
    rig.submit(label("A"));
    rig.submit(label("B"));
    rig.submit(label("C"));
    // First wave: both workers are busy, the third task has to wait.
    assert!(rig.turn(0));
    assert!(rig.turn(1));
    assert_eq!(rig.running(), 2);
    assert_eq!(rig.queue.len(), 1);
    assert!(record.lock().unwrap().is_empty());
    // Second wave: the first worker to come back takes the third task.
    rig.finish(1);
    assert!(rig.turn(1));
    assert_eq!(rig.queue.len(), 0);
    rig.finish(1);
    assert_eq!(*record.lock().unwrap(), vec!["B", "C"]);
    rig.shut_down();
    assert_eq!(rig.drain_and_join(|round| round), 2);
    let mut seen = record.lock().unwrap().clone();
    seen.sort();
    assert_eq!(seen, vec!["A", "B", "C"]);
    assert_eq!(rig.most_running, 2);
}

#[test]
fn work_submitted_after_shutdown_began_may_never_run() {
    let log = Arc::new(Mutex::new(Vec::new()));
    let mut rig = Rig::new(2);
    rig.submit(recorder(&log, 0));
    rig.shut_down();
    rig.submit(recorder(&log, 1));
    assert_eq!(rig.drain_and_join(|round| round), 2);
    assert_eq!(*log.lock().unwrap(), vec![0]);
    assert_eq!(rig.queue.len(), 1);
}

#[test]
fn a_worker_on_a_poisoned_lock_keeps_trying_and_still_stops() {
    let log = Arc::new(Mutex::new(Vec::new()));
    let mut rig = Rig::new(1);
    rig.submit(recorder(&log, 0));
    for _ in 0..5 {
        rig.workers[0].acquire(false);
        assert_eq!(rig.workers[0].phase(), Phase::Idle);
    }
    assert_eq!(rig.queue.len(), 1);
    rig.shut_down();
    assert_eq!(rig.drain_and_join(|round| round), 1);
    assert_eq!(*log.lock().unwrap(), vec![0]);
}
