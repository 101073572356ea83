//! The work queue: an unbounded first-in, first-out channel of operations.
//!
//! The queue is a plain value. Whoever shares it between threads guards it
//! with a lock; every method here is one step taken under that lock. Nothing
//! blocks: where a blocking receive would wait, `receive` says so and the
//! caller waits and asks again.

use std::collections::VecDeque;
use vstd::prelude::*;

use crate::operation::Operation;

verus! {

/// Why a receive handed out no message.
#[derive(Clone, Copy, Debug, PartialEq, Eq, Structural)]
pub enum ReceiveError {
    /// Nothing is queued, but a sender is still connected: wait and ask again.
    Empty,
    /// Nothing is queued and every sender is gone: no message will ever come.
    Closed,
}

/// What a send answers: success while a receiving side is `connected`, else
/// the operation itself, handed back.
pub open spec fn send_outcome<T>(operation: Operation<T>, connected: bool) -> Result<
    (),
    Operation<T>,
> {
    if connected {
        Ok(())
    } else {
        Err(operation)
    }
}

/// What a send leaves queued: the operation joins the tail while a receiving
/// side is `connected`, else nothing changes.
pub open spec fn send_rest<T>(
    items: Seq<Operation<T>>,
    operation: Operation<T>,
    connected: bool,
) -> Seq<Operation<T>> {
    if connected {
        items.push(operation)
    } else {
        items
    }
}

/// What a receive hands out on a queue that holds `items`, with `connected`
/// telling whether a sender is still there: the oldest message if there is
/// one, else the reason why there is none.
pub open spec fn receive_outcome<T>(items: Seq<Operation<T>>, connected: bool) -> Result<
    Operation<T>,
    ReceiveError,
> {
    if items.len() > 0 {
        Ok(items[0])
    } else if connected {
        Err(ReceiveError::Empty)
    } else {
        Err(ReceiveError::Closed)
    }
}

/// What a receive leaves queued: everything but the oldest message.
pub open spec fn receive_rest<T>(items: Seq<Operation<T>>) -> Seq<Operation<T>> {
    if items.len() > 0 {
        items.drop_first()
    } else {
        items
    }
}

/// An unbounded FIFO of operations with a sending and a receiving side.
///
/// Its view is the sequence of queued operations, oldest first.
pub struct WorkQueue<T> {
    items: VecDeque<Operation<T>>,
    sender: bool,
    receiver: bool,
}

impl<T> View for WorkQueue<T> {
    type V = Seq<Operation<T>>;

    closed spec fn view(&self) -> Seq<Operation<T>> {
        self.items@
    }
}

impl<T> WorkQueue<T> {
    /// Whether a sending side is still connected.
    pub closed spec fn spec_has_sender(&self) -> bool {
        self.sender
    }

    /// Whether a receiving side is still connected.
    pub closed spec fn spec_has_receiver(&self) -> bool {
        self.receiver
    }

    /// An empty queue with both sides connected.
    pub fn new() -> (queue: Self)
        ensures
            queue@ == Seq::<Operation<T>>::empty(),
            queue.has_sender(),
            queue.has_receiver(),
    {
        WorkQueue { items: VecDeque::new(), sender: true, receiver: true }
    }

    /// Puts `operation` at the tail. Never waits, and the queue has no
    /// capacity to exhaust: the send fails exactly when no receiving side is
    /// left, and then hands the operation back.
    pub fn send(&mut self, operation: Operation<T>) -> (sent: Result<(), Operation<T>>)
        ensures
            final(self).has_sender() == old(self).has_sender(),
            final(self).has_receiver() == old(self).has_receiver(),
            sent == send_outcome(operation, old(self).has_receiver()),
            final(self)@ == send_rest(old(self)@, operation, old(self).has_receiver()),
    {
        if self.receiver {
            self.items.push_back(operation);
            Ok(())
        } else {
            Err(operation)
        }
    }

    /// Takes the oldest operation off the head, if there is one. Where a
    /// blocking receive would wait (nothing queued, a sender connected) the
    /// answer is `Empty`; where it would give up (nothing queued, no sender)
    /// the answer is `Closed`.
    pub fn receive(&mut self) -> (received: Result<Operation<T>, ReceiveError>)
        ensures
            final(self).has_sender() == old(self).has_sender(),
            final(self).has_receiver() == old(self).has_receiver(),
            received == receive_outcome(old(self)@, old(self).has_sender()),
            final(self)@ == receive_rest(old(self)@),
    {
        match self.items.pop_front() {
            Some(operation) => {
                assert(self@ =~= old(self)@.drop_first());
                Ok(operation)
            },
            None => {
                if self.sender {
                    Err(ReceiveError::Empty)
                } else {
                    Err(ReceiveError::Closed)
                }
            },
        }
    }

    /// Disconnects the sending side: what is queued can still be received,
    /// and after it every receive answers `Closed`.
    pub fn close_sender(&mut self)
        ensures
            !final(self).has_sender(),
            final(self).has_receiver() == old(self).has_receiver(),
            final(self)@ == old(self)@,
    {
        self.sender = false;
    }

    /// Disconnects the receiving side: what was queued is discarded
    /// unclaimed, and every later send fails.
    pub fn close_receiver(&mut self)
        ensures
            !final(self).has_receiver(),
            final(self).has_sender() == old(self).has_sender(),
            final(self)@ == Seq::<Operation<T>>::empty(),
    {
        self.receiver = false;
        self.items.clear();
    }

    /// Whether a sending side is still connected.
    #[verifier::when_used_as_spec(spec_has_sender)]
    pub fn has_sender(&self) -> (connected: bool)
        ensures
            connected == self.has_sender(),
    {
        self.sender
    }

    /// Whether a receiving side is still connected.
    #[verifier::when_used_as_spec(spec_has_receiver)]
    pub fn has_receiver(&self) -> (connected: bool)
        ensures
            connected == self.has_receiver(),
    {
        self.receiver
    }

    /// How many operations are queued.
    pub fn len(&self) -> (n: usize)
        ensures
            n == self@.len(),
    {
        self.items.len()
    }
}

} // verus!
