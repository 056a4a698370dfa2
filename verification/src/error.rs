use vstd::prelude::*;

verus! {

/// Why a queue operation did not go through.
#[derive(Debug, PartialEq, Eq, Structural)]
pub enum QueueErr {
    /// A push found no free slot. The queue was left as it was.
    QueueFull,
    /// A peek or a pop found no element. The queue was left as it was.
    Empty,
    /// A slot inside the occupied range was vacant. The queue's invariant
    /// rules this out, and no operation of the queue returns it.
    UnknownError,
}

} // verus!
