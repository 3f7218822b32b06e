//! The error of a queue that was shut down.
use vstd::prelude::*;

use crate::text::owned;

verus! {

/// A queue was shut down: nothing more can be put in or taken out.
#[derive(Clone, Copy, Debug, PartialEq, Eq, Structural)]
pub struct QueueShutDown;

impl QueueShutDown {
    /// The text of the error.
    pub fn to_message(&self) -> (r: String)
        ensures
            r@ == "queue is shut down"@,
    {
        owned("queue is shut down")
    }
}

} // verus!
