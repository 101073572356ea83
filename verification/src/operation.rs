//! The envelope that travels through the work queue.

use vstd::prelude::*;

verus! {

/// One message of the work queue: a unit of work to run, or the signal that
/// tells the worker that takes it to stop.
#[derive(Debug, PartialEq, Eq)]
pub enum Operation<T> {
    /// Run the task carried here.
    Execute(T),
    /// Stop: the worker that takes this message leaves its loop.
    Terminate,
}

} // verus!
