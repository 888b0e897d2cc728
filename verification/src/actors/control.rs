//! The messages between a manager and its agents.

use vstd::prelude::*;

verus! {

/// Control messages a manager can send to agents.
#[derive(Clone, Copy, Debug, PartialEq, Eq, Structural)]
pub enum Control {
    Update,
    Terminate,
}

/// Status messages an agent can send to a manager.
#[derive(Clone, Copy, Debug, PartialEq, Eq, Structural)]
pub enum Status {
    Updated,
    Terminated,
}

} // verus!
