//! The names under which the engine keeps its data in the coordinator store.

use crate::text::{decimal, is_digit, lemma_decimal_digits, lemma_decimal_injective, push_decimal};
use vstd::prelude::*;
use vstd::string::*;

verus! {

/// The channel on which the manager publishes its commands.
pub const COMMAND_CHANNEL: &'static str = "command";

/// The pattern that matches the keys of all index sets.
pub const INDEX_PATTERN: &'static str = "idx:*";

/// A place in the coordinator store.
#[derive(Debug, Clone, PartialEq, Eq)]
pub enum Key {
    /// The encoded world.
    World,
    /// The set of live agent ids.
    Population,
    /// The set of spawns and kills that wait for the next sync.
    PopulationUpdates,
    /// The set of world updates that wait for the manager.
    WorldUpdates,
    /// The list of per-agent updates addressed to one worker.
    Updates(usize),
    /// The list of new agents that one worker has to adopt.
    Spawn(usize),
    /// The list of agent ids that one worker has to drop.
    Kill(usize),
    /// A named index: a set of agent ids.
    Index(String),
    /// The set of registered workers.
    Workers,
    /// The list of worker indices that wait to be claimed.
    WorkerIds,
    /// The set of workers that have finished the current phase.
    Finished,
    /// The phase that the manager is in.
    CurrentPhase,
    /// The encoded state of one agent.
    Agent(u64),
}

impl Key {
    /// The name of the key, as the store sees it.
    pub open spec fn spec_name(&self) -> Seq<char> {
        match self {
            Key::World => "world"@,
            Key::Population => "population"@,
            Key::PopulationUpdates => "updates:population"@,
            Key::WorldUpdates => "updates:world"@,
            Key::Updates(w) => "updates:"@ + decimal(*w as nat),
            Key::Spawn(w) => "spawn:"@ + decimal(*w as nat),
            Key::Kill(w) => "kill:"@ + decimal(*w as nat),
            Key::Index(name) => "idx:"@ + name@,
            Key::Workers => "workers"@,
            Key::WorkerIds => "worker_ids"@,
            Key::Finished => "finished"@,
            Key::CurrentPhase => "current_phase"@,
            Key::Agent(id) => decimal(*id as nat),
        }
    }

    /// Whether this is the key of the index called `index`.
    pub open spec fn is_index(&self, index: Seq<char>) -> bool {
        self matches Key::Index(name) && name@ == index
    }

    /// Whether two keys name the same place.
    pub open spec fn same(&self, other: &Key) -> bool {
        match (self, other) {
            (Key::World, Key::World) => true,
            (Key::Population, Key::Population) => true,
            (Key::PopulationUpdates, Key::PopulationUpdates) => true,
            (Key::WorldUpdates, Key::WorldUpdates) => true,
            (Key::Updates(a), Key::Updates(b)) => a == b,
            (Key::Spawn(a), Key::Spawn(b)) => a == b,
            (Key::Kill(a), Key::Kill(b)) => a == b,
            (Key::Index(a), Key::Index(b)) => a@ == b@,
            (Key::Workers, Key::Workers) => true,
            (Key::WorkerIds, Key::WorkerIds) => true,
            (Key::Finished, Key::Finished) => true,
            (Key::CurrentPhase, Key::CurrentPhase) => true,
            (Key::Agent(a), Key::Agent(b)) => a == b,
            _ => false,
        }
    }

    fn numbered(prefix: &str, n: u64) -> (name: String)
        ensures
            name@ == prefix@ + decimal(n as nat),
    {
        let mut name = String::from_str(prefix);
        push_decimal(&mut name, n);
        name
    }

    /// The name of the key, as the store sees it.
    pub fn name(&self) -> (name: String)
        ensures
            name@ == self.spec_name(),
    {
        match self {
            Key::World => String::from_str("world"),
            Key::Population => String::from_str("population"),
            Key::PopulationUpdates => String::from_str("updates:population"),
            Key::WorldUpdates => String::from_str("updates:world"),
            Key::Updates(w) => Key::numbered("updates:", *w as u64),
            Key::Spawn(w) => Key::numbered("spawn:", *w as u64),
            Key::Kill(w) => Key::numbered("kill:", *w as u64),
            Key::Index(index) => {
                let mut name = String::from_str("idx:");
                name.append(index.as_str());
                name
            },
            Key::Workers => String::from_str("workers"),
            Key::WorkerIds => String::from_str("worker_ids"),
            Key::Finished => String::from_str("finished"),
            Key::CurrentPhase => String::from_str("current_phase"),
            Key::Agent(id) => {
                let mut name = String::new();
                push_decimal(&mut name, *id);
                name
            },
        }
    }
}

/// What the start of a key's name tells of its kind.
proof fn lemma_name_shape(key: Key)
    ensures
        match key {
            Key::World => key.spec_name().len() == 5 && key.spec_name()[0] == 'w',
            Key::Population => key.spec_name()[0] == 'p',
            Key::PopulationUpdates => key.spec_name()[0] == 'u' && key.spec_name()[8] == 'p',
            Key::WorldUpdates => key.spec_name()[0] == 'u' && key.spec_name()[8] == 'w',
            Key::Updates(w) => key.spec_name()[0] == 'u' && is_digit(key.spec_name()[8])
                && key.spec_name().subrange(8, key.spec_name().len() as int) == decimal(w as nat),
            Key::Spawn(w) => key.spec_name()[0] == 's' && key.spec_name().subrange(
                6,
                key.spec_name().len() as int,
            ) == decimal(w as nat),
            Key::Kill(w) => key.spec_name()[0] == 'k' && key.spec_name().subrange(
                5,
                key.spec_name().len() as int,
            ) == decimal(w as nat),
            Key::Index(name) => key.spec_name()[0] == 'i' && key.spec_name().subrange(
                4,
                key.spec_name().len() as int,
            ) == name@,
            Key::Workers => key.spec_name().len() == 7 && key.spec_name()[0] == 'w',
            Key::WorkerIds => key.spec_name().len() == 10 && key.spec_name()[0] == 'w',
            Key::Finished => key.spec_name()[0] == 'f',
            Key::CurrentPhase => key.spec_name()[0] == 'c',
            Key::Agent(id) => is_digit(key.spec_name()[0]),
        },
        key.spec_name().len() >= 1,
{
    reveal_strlit("world");
    reveal_strlit("population");
    reveal_strlit("updates:population");
    reveal_strlit("updates:world");
    reveal_strlit("updates:");
    reveal_strlit("spawn:");
    reveal_strlit("kill:");
    reveal_strlit("idx:");
    reveal_strlit("workers");
    reveal_strlit("worker_ids");
    reveal_strlit("finished");
    reveal_strlit("current_phase");
    match key {
        Key::Updates(w) => {
            lemma_decimal_digits(w as nat);
        },
        Key::Agent(id) => {
            lemma_decimal_digits(id as nat);
        },
        _ => {},
    }
}

/// No two places share a name: keys with the same name are the same key.
/// In particular the lists of two workers never meet, and no worker's list
/// is taken for one of the shared sets.
pub proof fn lemma_names_distinct(a: Key, b: Key)
    requires
        a.spec_name() == b.spec_name(),
    ensures
        a.same(&b),
{
    lemma_name_shape(a);
    lemma_name_shape(b);
    match (a, b) {
        (Key::Updates(x), Key::Updates(y)) => {
            lemma_decimal_injective(x as nat, y as nat);
        },
        (Key::Spawn(x), Key::Spawn(y)) => {
            lemma_decimal_injective(x as nat, y as nat);
        },
        (Key::Kill(x), Key::Kill(y)) => {
            lemma_decimal_injective(x as nat, y as nat);
        },
        (Key::Agent(x), Key::Agent(y)) => {
            lemma_decimal_injective(x as nat, y as nat);
        },
        _ => {},
    }
}

} // verus!
