//! The echo task's loop, as far as it decides anything.
//!
//! One round of the task reads what the peer has sent and writes it back.
//! The round's outcome is the number of bytes read, or the error that the
//! read or the write met.

use vstd::prelude::*;

verus! {

/// What the task does after a round.
#[derive(Clone, Copy, Debug, PartialEq, Eq, Structural)]
pub enum Round {
    /// Bytes were echoed: go for another round.
    Again,
    /// Nothing was left to read: the peer is done, and so is the task.
    Finished,
    /// Reading or writing failed: the task gives up on the connection.
    Failed,
}

/// What follows a round with the given outcome.
pub open spec fn round_after<E>(outcome: Result<usize, E>) -> Round {
    match outcome {
        Ok(read) => if read == 0 {
            Round::Finished
        } else {
            Round::Again
        },
        Err(_) => Round::Failed,
    }
}

/// Decides what follows a round: the task goes on for as long as rounds
/// echo at least one byte, and stops at the first that reads nothing or
/// fails.
pub fn after_round<E>(outcome: &Result<usize, E>) -> (round: Round)
    ensures
        round == round_after(*outcome),
{
    match outcome {
        Ok(read) => {
            if *read == 0 {
                Round::Finished
            } else {
                Round::Again
            }
        },
        Err(_) => Round::Failed,
    }
}

} // verus!
