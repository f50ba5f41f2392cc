//! Events shared by the supervising layer: the broadcast message that tells
//! every stage to shut down.

use vstd::prelude::*;

verus! {

/// Message broadcast to all stages when the program is asked to stop.
#[derive(Clone, PartialEq, Eq, Structural, Debug)]
pub enum MainEvent {
    Exit,
}

impl MainEvent {
    /// True while the event does not request termination; the web layer keeps
    /// serving exactly as long as this holds.
    pub fn is_not_exit(&self) -> (r: bool)
        ensures
            r == !(*self matches MainEvent::Exit),
    {
        *self != MainEvent::Exit
    }
}

} // verus!
