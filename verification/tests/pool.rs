use thread_pool::operation::Operation;
use thread_pool::pool::ThreadPool;
use thread_pool::queue::ReceiveError;
use thread_pool::worker::Phase;

#[test]
fn a_new_pool_has_its_queue_and_one_idle_worker_per_id() {
    let (pool, queue, workers) = ThreadPool::new::<u32>(4);
    assert_eq!(pool.size(), 4);
    assert!(!pool.is_stopping());
    assert_eq!(pool.joined(), 0);
    assert_eq!(pool.pending_join(), None);
    assert_eq!(queue.len(), 0);
    assert!(queue.has_sender());
    assert!(queue.has_receiver());
    assert_eq!(workers.len(), 4);
    for (id, worker) in workers.iter().enumerate() {
        assert_eq!(worker.id(), id);
        assert_eq!(worker.phase(), Phase::Idle);
    }
}

#[test]
fn a_pool_of_one_has_the_single_worker_zero() {
    let (pool, _queue, workers) = ThreadPool::new::<u32>(1);
    assert_eq!(pool.size(), 1);
    assert_eq!(workers.len(), 1);
    assert_eq!(workers[0].id(), 0);
}

#[test]
fn execute_wraps_the_task_and_queues_it_at_the_tail() {
    let (pool, mut queue, _workers) = ThreadPool::new::<&str>(2);
    assert_eq!(pool.execute(&mut queue, "first"), Ok(()));
    assert_eq!(pool.execute(&mut queue, "second"), Ok(()));
    assert_eq!(queue.len(), 2);
    assert_eq!(queue.receive(), Ok(Operation::Execute("first")));
    assert_eq!(queue.receive(), Ok(Operation::Execute("second")));
    assert_eq!(queue.receive(), Err(ReceiveError::Empty));
}

#[test]
fn execute_hands_the_task_back_when_nobody_receives() {
    let (pool, mut queue, _workers) = ThreadPool::new::<&str>(2);
    queue.close_receiver();
    assert_eq!(pool.execute(&mut queue, "lost"), Err("lost"));
    assert_eq!(queue.len(), 0);
}

#[test]
fn terminate_sends_one_stop_signal_per_worker_behind_the_queued_work() {
    let (mut pool, mut queue, _workers) = ThreadPool::new::<u32>(3);
    assert_eq!(pool.execute(&mut queue, 10), Ok(()));
    assert_eq!(pool.execute(&mut queue, 11), Ok(()));
    assert!(pool.terminate(&mut queue));
    assert!(pool.is_stopping());
    assert_eq!(pool.size(), 3);
    assert_eq!(pool.joined(), 0);
    assert_eq!(queue.len(), 5);
    assert_eq!(queue.receive(), Ok(Operation::Execute(10)));
    assert_eq!(queue.receive(), Ok(Operation::Execute(11)));
    assert_eq!(queue.receive(), Ok(Operation::Terminate));
    assert_eq!(queue.receive(), Ok(Operation::Terminate));
    assert_eq!(queue.receive(), Ok(Operation::Terminate));
    assert_eq!(queue.receive(), Err(ReceiveError::Empty));
}

#[test]
fn terminate_reports_when_nobody_receives() {
    let (mut pool, mut queue, _workers) = ThreadPool::new::<u32>(3);
    queue.close_receiver();
    assert!(!pool.terminate(&mut queue));
    assert!(pool.is_stopping());
    assert_eq!(queue.len(), 0);
}

#[test]
fn workers_are_joined_in_the_order_of_their_ids_each_once() {
    let (mut pool, mut queue, _workers) = ThreadPool::new::<u32>(3);
    assert_eq!(pool.pending_join(), None);
    assert!(pool.terminate(&mut queue));
    let mut order = Vec::new();
    while let Some(id) = pool.pending_join() {
        order.push(id);
        pool.confirm_join();
    }
    assert_eq!(order, vec![0, 1, 2]);
    assert_eq!(pool.joined(), 3);
    assert_eq!(pool.pending_join(), None);
}
