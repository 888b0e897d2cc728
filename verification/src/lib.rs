//! The coordination core of a distributed agent-based simulation engine.
//!
//! A population of agents advances in synchronized steps. In every step each
//! agent first decides (it reads its surroundings and proposes updates) and
//! then updates (its owner applies what was proposed). The population is
//! split over workers by a hash of the agent id, and all parties meet in a
//! shared key/value store with sets, lists and a command channel.
//!
//! This crate holds the rules of that protocol: nothing in it touches the
//! store. Each operation returns a plan that says exactly what has to be
//! written, and takes what was read as plain values. The module `cluster`
//! puts the parts together: it follows the store and the workers through a
//! whole run and states what holds of every run.

pub mod actors;
pub mod cluster;
pub mod ext;
pub mod hash;
pub mod ids;
pub mod keys;
pub mod lists;
pub mod manager;
pub mod population;
pub mod signal;
pub mod sim;
pub mod store;
pub mod table;
pub mod text;
pub mod updates;
pub mod worker;

pub use hash::WHasher;
pub use manager::Manager;
pub use population::Population;
pub use sim::{Agent, Simulation, State, Update};
pub use store::Redis;
pub use updates::{PopulationUpdate, Updates};
pub use worker::Worker;
