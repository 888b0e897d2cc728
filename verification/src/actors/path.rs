//! Where an actor is to be found.

use vstd::prelude::*;

verus! {

/// The address of a node: a socket address, as text.
#[derive(Debug, Clone, PartialEq)]
pub struct RemoteAddr(pub String);

/// The place of an actor: on this node, or on the node at an address.
#[derive(Debug, Clone, PartialEq)]
pub enum ActorPath {
    Local { id: usize },
    Remote { addr: RemoteAddr, id: usize },
}

impl ActorPath {
    /// The id of the actor on its node.
    pub open spec fn ident(&self) -> usize {
        match self {
            ActorPath::Local { id } => *id,
            ActorPath::Remote { addr, id } => *id,
        }
    }

    /// The id of the actor on its node.
    pub fn id(&self) -> (id: usize)
        ensures
            id == self.ident(),
    {
        match self {
            ActorPath::Local { id } => *id,
            ActorPath::Remote { addr, id } => *id,
        }
    }
}

} // verus!
