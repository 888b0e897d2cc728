//! A node: its actors behind a router.

use super::actor::Actor;
use super::router::{seats_of, Router};
use vstd::prelude::*;

verus! {

/// Sets up the node at `addr`: seats `population` behind a router.
pub fn start_node<A: Actor>(addr: String, population: Vec<A>) -> (router: Router<A>)
    ensures
        router.address() == addr@,
        seats_of(router.seats(), population@),
{
    Router::new(addr, population)
}

} // verus!
