//! Per-tenant loop policy.

use vstd::prelude::*;

verus! {

/// What happens to the current track when it finishes playing.
/// Changed only by explicit user command; read once at the start of each
/// track-end event's handling.
#[derive(Debug, Clone, Copy, PartialEq, Eq, Structural)]
pub enum LoopMode {
    /// Drop the finished track; the queue advances or empties.
    Off,
    /// Re-source the finished track and play it again immediately.
    Track,
    /// Re-source the finished track and append it at the back.
    Queue,
}

impl Default for LoopMode {
    /// A tenant starts with looping off.
    fn default() -> (r: Self)
        ensures
            r == LoopMode::Off,
    {
        LoopMode::Off
    }
}

} // verus!
