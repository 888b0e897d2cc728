//! Actors that tell and ask each other by messages, on one node or across
//! nodes.

pub mod actor;
pub mod control;
pub mod message;
pub mod node;
pub mod path;
pub mod protocol;
pub mod router;

pub use self::actor::Actor;
pub use self::message::Message;
