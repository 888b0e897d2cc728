//! What the engine asks of the coordinator store.

use vstd::prelude::*;

verus! {

/// A handle on the coordinator store: strings, sets and lists under keys,
/// and channels. Any store that offers these operations will do. A failure
/// of the store is fatal to the run: no operation reports one.
///
/// The engine itself never calls the store. It hands the handle on to the
/// hooks of a simulation and to what runs around it.
pub trait Redis: Send + Sync + Clone {
    /// The value under `key`, if there is one.
    fn get(&self, key: &str) -> Option<Vec<u8>>;

    /// The values under `keys`, in the order of the keys.
    fn get_multiple(&self, keys: &Vec<String>) -> Vec<Option<Vec<u8>>>;

    /// Puts `value` under `key`.
    fn set(&self, key: &str, value: Vec<u8>);

    /// Puts each value under its key, all at once.
    fn set_multiple(&self, entries: Vec<(String, Vec<u8>)>);

    /// Removes `keys` and what is under them.
    fn del(&self, keys: &Vec<String>);

    /// The keys that match `pattern`.
    fn keys(&self, pattern: &str) -> Vec<String>;

    /// Adds `members` to the set under `key`.
    fn sadd(&self, key: &str, members: Vec<Vec<u8>>);

    /// Removes `members` from the set under `key`.
    fn srem(&self, key: &str, members: Vec<Vec<u8>>);

    /// The members of the set under `key`.
    fn smembers(&self, key: &str) -> Vec<Vec<u8>>;

    /// The number of members of the set under `key`.
    fn scard(&self, key: &str) -> usize;

    /// Takes a member out of the set under `key`.
    fn spop(&self, key: &str) -> Option<Vec<u8>>;

    /// Up to `count` distinct members of the set under `key`, drawn at random.
    fn srandmember(&self, key: &str, count: usize) -> Vec<Vec<u8>>;

    /// Puts `items`, one after the other, at the head of the list under `key`.
    fn lpush(&self, key: &str, items: Vec<Vec<u8>>);

    /// The whole list under `key`, from its head.
    fn lrange(&self, key: &str) -> Vec<Vec<u8>>;

    /// Takes the head off the list under `key`.
    fn lpop(&self, key: &str) -> Option<Vec<u8>>;

    /// Publishes `message` on `channel`.
    fn publish(&self, channel: &str, message: &str);
}

} // verus!
