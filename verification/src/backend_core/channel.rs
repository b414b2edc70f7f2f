//! Sizes and failures of the channels between the runtime and its frontends.
use vstd::prelude::*;

verus! {

/// Errors returned by backend channel operations.
#[derive(Debug, Clone, Copy, PartialEq, Eq, Structural)]
pub enum BackendChannelError {
    /// The command receiver side is closed.
    CommandChannelClosed,
}

impl BackendChannelError {
    /// Human-readable description.
    pub fn to_text(&self) -> (text: String)
        ensures
            text@ == "command channel is closed"@,
    {
        "command channel is closed".to_owned()
    }
}

/// Number of messages that a channel holds: at least one.
pub fn channel_capacity(buffer: usize) -> (capacity: usize)
    ensures
        capacity == if buffer == 0 { 1 } else { buffer },
{
    if buffer == 0 {
        1
    } else {
        buffer
    }
}

} // verus!
