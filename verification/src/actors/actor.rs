//! The actor: something with an id that answers messages.

use super::message::Message;
use vstd::prelude::*;

verus! {

/// An actor is known by its id, and answers each message with a message.
pub trait Actor: Send + Sync {
    type M: Message;

    fn id(&self) -> usize;

    fn handle_msg(&self, message: Self::M) -> Self::M;
}

/// Whether `id` is what the actor can give as its id.
pub open spec fn named<A: Actor>(actor: A, id: usize) -> bool {
    call_ensures(A::id, (&actor,), id)
}

/// Whether `reply` is what the actor can answer to `message`.
pub open spec fn answers_with<A: Actor>(actor: A, message: A::M, reply: A::M) -> bool {
    call_ensures(A::handle_msg, (&actor, message), reply)
}

} // verus!
