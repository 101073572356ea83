use thread_pool::operation::Operation;
use thread_pool::queue::{ReceiveError, WorkQueue};

#[test]
fn new_queue_is_empty_and_connected() {
    let queue: WorkQueue<u32> = WorkQueue::new();
    assert_eq!(queue.len(), 0);
    assert!(queue.has_sender());
    assert!(queue.has_receiver());
}

#[test]
fn messages_come_out_in_the_order_they_went_in() {
    let mut queue: WorkQueue<u32> = WorkQueue::new();
    assert_eq!(queue.send(Operation::Execute(7)), Ok(()));
    assert_eq!(queue.send(Operation::Terminate), Ok(()));
    assert_eq!(queue.send(Operation::Execute(9)), Ok(()));
    assert_eq!(queue.len(), 3);
    assert_eq!(queue.receive(), Ok(Operation::Execute(7)));
    assert_eq!(queue.receive(), Ok(Operation::Terminate));
    assert_eq!(queue.receive(), Ok(Operation::Execute(9)));
    assert_eq!(queue.len(), 0);
}

#[test]
fn receive_on_an_empty_connected_queue_would_wait() {
    let mut queue: WorkQueue<u32> = WorkQueue::new();
    assert_eq!(queue.receive(), Err(ReceiveError::Empty));
    assert_eq!(queue.receive(), Err(ReceiveError::Empty));
    assert_eq!(queue.len(), 0);
    assert!(queue.has_sender());
}

#[test]
fn receive_drains_what_is_queued_before_it_reports_closed() {
    let mut queue: WorkQueue<u32> = WorkQueue::new();
    assert_eq!(queue.send(Operation::Execute(1)), Ok(()));
    queue.close_sender();
    assert!(!queue.has_sender());
    assert!(queue.has_receiver());
    assert_eq!(queue.receive(), Ok(Operation::Execute(1)));
    assert_eq!(queue.receive(), Err(ReceiveError::Closed));
    assert_eq!(queue.receive(), Err(ReceiveError::Closed));
}

#[test]
fn send_fails_only_without_a_receiver_and_hands_the_message_back() {
    let mut queue: WorkQueue<u32> = WorkQueue::new();
    assert_eq!(queue.send(Operation::Execute(1)), Ok(()));
    assert_eq!(queue.send(Operation::Execute(2)), Ok(()));
    queue.close_receiver();
    assert!(!queue.has_receiver());
    assert!(queue.has_sender());
    assert_eq!(queue.len(), 0);
    assert_eq!(queue.send(Operation::Execute(3)), Err(Operation::Execute(3)));
    assert_eq!(queue.send(Operation::Terminate), Err(Operation::Terminate));
    assert_eq!(queue.len(), 0);
}

#[test]
fn the_queue_accepts_work_without_bound() {
    let mut queue: WorkQueue<usize> = WorkQueue::new();
    for i in 0..10_000 {
        assert_eq!(queue.send(Operation::Execute(i)), Ok(()));
    }
    assert_eq!(queue.len(), 10_000);
    for i in 0..10_000 {
        assert_eq!(queue.receive(), Ok(Operation::Execute(i)));
    }
    assert_eq!(queue.receive(), Err(ReceiveError::Empty));
}
