//! The router of a node: it seats the node's actors, delivers what is told
//! and asked on the node, and says what has to go to other nodes.

use super::actor::{answers_with, named, Actor};
use super::path::{ActorPath, RemoteAddr};
use crate::text::{decimal, push_decimal};
use std::collections::HashMap;
use vstd::prelude::*;
use vstd::std_specs::iter::IteratorSpec;
use vstd::string::*;

verus! {

/// The most messages that an actor handles in one activation.
pub const THROUGHPUT: usize = 100;

/// What routers say to each other.
#[derive(Debug, PartialEq)]
pub enum RoutingMessage<T> {
    /// All is well.
    Okay,
    /// Something went wrong, and this says what.
    Failed(String),
    Tell { sender: ActorPath, recipient: usize, message: T },
    Ask { sender: ActorPath, recipient: usize, message: T },
    Response { sender: ActorPath, recipient: usize, message: T },
}

/// What came of telling or asking an actor.
#[derive(Debug, PartialEq)]
pub enum Delivery<T> {
    /// The actor is on this node: this is the answer.
    Done(RoutingMessage<T>),
    /// The actor is on another node: `message` has to be sent to the router
    /// at `addr`, whose reply is the answer.
    Forward { addr: RemoteAddr, message: RoutingMessage<T> },
}

/// An actor and the messages that wait for it.
pub struct Seat<A: Actor> {
    pub actor: A,
    pub inbox: Vec<A::M>,
}

/// The seats after each of `actors` was seated under its id of `ids`, with
/// nothing waiting, in the order of `actors`: of two actors with one id the
/// later stays.
pub open spec fn seated<A: Actor>(actors: Seq<A>, ids: Seq<usize>) -> Map<usize, (A, Seq<A::M>)>
    decreases actors.len(),
{
    if actors.len() == 0 || ids.len() != actors.len() {
        Map::empty()
    } else {
        seated(actors.drop_last(), ids.drop_last()).insert(
            ids.last(),
            (actors.last(), Seq::<A::M>::empty()),
        )
    }
}

/// Whether the seats are those of `actors`, each under the id that it has
/// given.
pub open spec fn seats_of<A: Actor>(seats: Map<usize, (A, Seq<A::M>)>, actors: Seq<A>) -> bool {
    exists|ids: Seq<usize>|
        ids.len() == actors.len() && (forall|i: int|
            0 <= i < actors.len() ==> named(actors[i], #[trigger] ids[i])) && seats == seated(
            actors,
            ids,
        )
}

/// Whether `replies` are the answers of the actor to `messages`, one for
/// each and in their order.
pub open spec fn answers<A: Actor>(actor: A, messages: Seq<A::M>, replies: Seq<A::M>) -> bool {
    &&& replies.len() == messages.len()
    &&& forall|i: int|
        0 <= i < messages.len() ==> answers_with(actor, messages[i], #[trigger] replies[i])
}

/// The router of a node.
pub struct Router<A: Actor> {
    addr: String,
    actors: HashMap<usize, Seat<A>>,
}

impl<A: Actor> Router<A> {
    /// The address of the node.
    pub closed spec fn address(&self) -> Seq<char> {
        self.addr@
    }

    /// The actors of the node and what waits for each, by their ids.
    pub closed spec fn seats(&self) -> Map<usize, (A, Seq<A::M>)> {
        Map::new(
            |id: usize| self.actors@.contains_key(id),
            |id: usize| (self.actors@[id].actor, self.actors@[id].inbox@),
        )
    }

    /// The seats after `message` was put in the inbox of the actor `id`.
    pub open spec fn delivered(&self, id: usize, message: A::M) -> Map<usize, (A, Seq<A::M>)> {
        self.seats().insert(id, (self.seats()[id].0, self.seats()[id].1.push(message)))
    }

    pub fn new(addr: String, actors: Vec<A>) -> (router: Router<A>)
        ensures
            router.address() == addr@,
            seats_of(router.seats(), actors@),
    {
        let mut lookup: HashMap<usize, Seat<A>> = HashMap::new();
        let ghost given = actors@;
        let ghost mut ids: Seq<usize> = Seq::empty();
        for actor in it: actors
            invariant
                it.seq() == given,
                ids.len() == it.index(),
                forall|i: int| 0 <= i < it.index() ==> named(given[i], #[trigger] ids[i]),
                forall|id: usize|
                    lookup@.contains_key(id) <==> seated(
                        given.take(it.index()),
                        ids,
                    ).contains_key(id),
                forall|id: usize| #[trigger]
                    lookup@.contains_key(id) ==> seated(given.take(it.index()), ids)[id] == (
                        lookup@[id].actor,
                        lookup@[id].inbox@,
                    ),
        {
            let id = actor.id();
            proof {
                let next = given.take(it.index() + 1);
                assert(next.drop_last() =~= given.take(it.index()));
                assert(ids.push(id).drop_last() =~= ids);
                ids = ids.push(id);
            }
            lookup.insert(id, Seat { actor, inbox: Vec::new() });
        }
        assert(given.take(given.len() as int) =~= given);
        let router = Router { addr, actors: lookup };
        assert(router.seats() =~= seated(given, ids));
        router
    }

    /// The address of the node.
    pub fn addr(&self) -> (addr: &String)
        ensures
            addr@ == self.address(),
    {
        &self.addr
    }

    /// The ids of the node's actors, each once, in no order in particular.
    pub fn ids(&self) -> (ids: Vec<usize>)
        ensures
            ids@.no_duplicates(),
            forall|id: usize| ids@.contains(id) <==> self.seats().contains_key(id),
    {
        let mut ids: Vec<usize> = Vec::new();
        let ghost walked = IteratorSpec::remaining(&self.actors.keys());
        for id in it: self.actors.keys()
            invariant
                walked == it.seq(),
                it.seq().no_duplicates(),
                it.seq().unref().to_set() == self.actors@.dom(),
                ids@.len() == it.index(),
                forall|i: int| 0 <= i < it.index() ==> ids@[i] == *(#[trigger] it.seq()[i]),
        {
            ids.push(*id);
        }
        proof {
            assert(ids@ =~= walked.unref());
        }
        ids
    }

    /// The number of messages that wait for the actor `id`, if there is
    /// such an actor.
    pub fn waiting(&self, id: usize) -> (waiting: Option<usize>)
        ensures
            match waiting {
                Some(n) => self.seats().contains_key(id) && n == self.seats()[id].1.len(),
                None => !self.seats().contains_key(id),
            },
    {
        match self.actors.get(&id) {
            Some(seat) => Some(seat.inbox.len()),
            None => None,
        }
    }

    fn deliver(&mut self, id: usize, message: A::M) -> (found: bool)
        ensures
            found == old(self).seats().contains_key(id),
            found ==> final(self).seats() == old(self).delivered(id, message),
            !found ==> final(self).seats() == old(self).seats(),
            final(self).address() == old(self).address(),
    {
        match self.actors.remove(&id) {
            Some(seat) => {
                let mut seat = seat;
                seat.inbox.push(message);
                self.actors.insert(id, seat);
                true
            },
            None => {
                false
            },
        }
    }

    /// Tells `recipient` a message. An actor on this node finds it in its
    /// inbox; for an actor on another node the message is made ready to be
    /// sent there.
    pub fn tell(&mut self, message: A::M, sender: ActorPath, recipient: ActorPath) -> (delivery:
        Delivery<A::M>)
        ensures
            final(self).address() == old(self).address(),
            match recipient {
                ActorPath::Local { id } => if old(self).seats().contains_key(id) {
                    &&& delivery == Delivery::<A::M>::Done(RoutingMessage::Okay)
                    &&& final(self).seats() == old(self).delivered(id, message)
                } else {
                    &&& delivery matches Delivery::Done(RoutingMessage::Failed(text))
                    &&& text@ == "No actor with id"@
                    &&& final(self).seats() == old(self).seats()
                },
                ActorPath::Remote { addr, id } => {
                    &&& delivery == (Delivery::Forward {
                        addr,
                        message: RoutingMessage::Tell { sender, recipient: id, message },
                    })
                    &&& final(self).seats() == old(self).seats()
                },
            },
    {
        match recipient {
            ActorPath::Local { id } => {
                if self.deliver(id, message) {
                    Delivery::Done(RoutingMessage::Okay)
                } else {
                    Delivery::Done(RoutingMessage::Failed(String::from_str("No actor with id")))
                }
            },
            ActorPath::Remote { addr, id } => {
                let msg = RoutingMessage::Tell { sender, recipient: id, message };
                Delivery::Forward { addr, message: msg }
            },
        }
    }

    /// Asks `recipient` a message. An actor on this node answers at once;
    /// for an actor on another node the question is made ready to be sent
    /// there.
    pub fn ask(&self, message: A::M, sender: ActorPath, recipient: ActorPath) -> (delivery:
        Delivery<A::M>)
        ensures
            match recipient {
                ActorPath::Local { id } => if self.seats().contains_key(id) {
                    &&& delivery matches Delivery::Done(
                        RoutingMessage::Response { sender: from, recipient: to, message: answer },
                    )
                    &&& from == (ActorPath::Local { id })
                    &&& to == sender.ident()
                    &&& answers_with(self.seats()[id].0, message, answer)
                } else {
                    &&& delivery matches Delivery::Done(RoutingMessage::Failed(text))
                    &&& text@ == "No actor with id"@
                },
                ActorPath::Remote { addr, id } => delivery == (Delivery::Forward {
                    addr,
                    message: RoutingMessage::Ask { sender, recipient: id, message },
                }),
            },
    {
        match recipient {
            ActorPath::Local { id } => {
                match self.actors.get(&id) {
                    Some(seat) => {
                        let resp = seat.actor.handle_msg(message);
                        let sender_id = sender.id();
                        Delivery::Done(
                            RoutingMessage::Response {
                                recipient: sender_id,
                                sender: ActorPath::Local { id },
                                message: resp,
                            },
                        )
                    },
                    None => Delivery::Done(
                        RoutingMessage::Failed(String::from_str("No actor with id")),
                    ),
                }
            },
            ActorPath::Remote { addr, id } => {
                let msg = RoutingMessage::Ask { sender, recipient: id, message };
                Delivery::Forward { addr, message: msg }
            },
        }
    }

    /// Answers what another router has sent. What is told goes to the inbox
    /// of its recipient, and is an error where there is no such actor. What
    /// is asked is answered by its recipient, as an actor at this node's
    /// address. Everything else is acknowledged.
    pub fn receive(&mut self, request: RoutingMessage<A::M>) -> (reply: RoutingMessage<A::M>)
        ensures
            final(self).address() == old(self).address(),
            match request {
                RoutingMessage::Tell { sender, recipient, message } => if old(
                    self,
                ).seats().contains_key(recipient) {
                    &&& reply == RoutingMessage::<A::M>::Okay
                    &&& final(self).seats() == old(self).delivered(recipient, message)
                } else {
                    &&& reply matches RoutingMessage::Failed(text)
                    &&& text@ == "No actor with id "@ + decimal(recipient as nat)
                    &&& final(self).seats() == old(self).seats()
                },
                RoutingMessage::Ask { sender, recipient, message } => {
                    &&& final(self).seats() == old(self).seats()
                    &&& if old(self).seats().contains_key(recipient) {
                        &&& reply matches RoutingMessage::Response {
                            sender: from,
                            recipient: to,
                            message: answer,
                        }
                        &&& from matches ActorPath::Remote { addr, id }
                        &&& addr.0@ == old(self).address()
                        &&& id == recipient
                        &&& to == sender.ident()
                        &&& answers_with(old(self).seats()[recipient].0, message, answer)
                    } else {
                        reply == RoutingMessage::<A::M>::Okay
                    }
                },
                _ => reply == RoutingMessage::<A::M>::Okay && final(self).seats() == old(
                    self,
                ).seats(),
            },
    {
        match request {
            RoutingMessage::Tell { sender, recipient, message } => {
                if self.deliver(recipient, message) {
                    RoutingMessage::Okay
                } else {
                    let mut text = String::from_str("No actor with id ");
                    push_decimal(&mut text, recipient as u64);
                    RoutingMessage::Failed(text)
                }
            },
            RoutingMessage::Ask { sender, recipient, message } => {
                match self.actors.get(&recipient) {
                    Some(seat) => {
                        let resp = seat.actor.handle_msg(message);
                        let id = sender.id();
                        RoutingMessage::Response {
                            recipient: id,
                            sender: ActorPath::Remote {
                                addr: RemoteAddr(self.addr.clone()),
                                id: recipient,
                            },
                            message: resp,
                        }
                    },
                    None => RoutingMessage::Okay,
                }
            },
            _ => RoutingMessage::Okay,
        }
    }

    /// Activates the actor `id`: it handles the messages that wait for it,
    /// the oldest first, up to `THROUGHPUT` of them. Hands back its answers,
    /// in that order; there are none where there is no such actor.
    pub fn activate(&mut self, id: usize) -> (replies: Vec<A::M>)
        ensures
            final(self).address() == old(self).address(),
            if old(self).seats().contains_key(id) {
                let (actor, inbox) = old(self).seats()[id];
                let n = if inbox.len() <= THROUGHPUT {
                    inbox.len() as int
                } else {
                    THROUGHPUT as int
                };
                &&& answers(actor, inbox.take(n), replies@)
                &&& final(self).seats() == old(self).seats().insert(id, (actor, inbox.skip(n)))
            } else {
                &&& replies@ == Seq::<A::M>::empty()
                &&& final(self).seats() == old(self).seats()
            },
    {
        let mut replies: Vec<A::M> = Vec::new();
        match self.actors.remove(&id) {
            Some(seat) => {
                let mut seat = seat;
                let n_queued = seat.inbox.len();
                let n_messages = if n_queued <= THROUGHPUT {
                    n_queued
                } else {
                    THROUGHPUT
                };
                let rest = seat.inbox.split_off(n_messages);
                let mut chunk: Vec<A::M> = rest;
                core::mem::swap(&mut seat.inbox, &mut chunk);
                let ghost given = chunk@;
                for msg in it: chunk
                    invariant
                        it.seq() == given,
                        answers(seat.actor, given.take(it.index()), replies@),
                {
                    let reply = seat.actor.handle_msg(msg);
                    replies.push(reply);
                }
                self.actors.insert(id, seat);
            },
            None => {},
        }
        replies
    }
}

} // verus!
