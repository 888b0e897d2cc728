//! The population view: what the store holds of the agents, and the plans
//! by which spawns and kills reach it.

use crate::hash::{shard_of, WHasher};
use crate::keys::Key;
use crate::lists::{batch_at, batches_proper, Batch, Lists};
use crate::sim::{Agent, Simulation, State};
use crate::store::Redis;
use crate::updates::PopulationUpdate;
use vstd::prelude::*;
use vstd::std_specs::hash::group_hash_axioms;

verus! {

/// The positions in `ids`, in rising order, of the ids that `worker` owns
/// among `workers` workers.
pub open spec fn owned_positions(ids: Seq<u64>, worker: nat, workers: nat) -> Seq<usize>
    decreases ids.len(),
{
    if ids.len() == 0 {
        Seq::empty()
    } else if shard_of(ids.last(), workers) == worker {
        owned_positions(ids.drop_last(), worker, workers).push((ids.len() - 1) as usize)
    } else {
        owned_positions(ids.drop_last(), worker, workers)
    }
}

/// The agents that a pending list asks to spawn, in its order.
pub open spec fn spawned<S: State>(pending: Seq<PopulationUpdate<S>>) -> Seq<(u64, S)>
    decreases pending.len(),
{
    if pending.len() == 0 {
        Seq::empty()
    } else {
        match pending.last() {
            PopulationUpdate::Spawn(id, state) => spawned(pending.drop_last()).push((id, state)),
            PopulationUpdate::Kill(_, _) => spawned(pending.drop_last()),
        }
    }
}

/// The agents that a pending list asks to kill, in its order.
pub open spec fn killed<S: State>(pending: Seq<PopulationUpdate<S>>) -> Seq<(u64, S)>
    decreases pending.len(),
{
    if pending.len() == 0 {
        Seq::empty()
    } else {
        match pending.last() {
            PopulationUpdate::Kill(id, state) => killed(pending.drop_last()).push((id, state)),
            PopulationUpdate::Spawn(_, _) => killed(pending.drop_last()),
        }
    }
}

/// The ids of a list of agents given as pairs.
pub open spec fn ids_of<S>(pairs: Seq<(u64, S)>) -> Seq<u64> {
    Seq::new(pairs.len(), |i: int| pairs[i].0)
}

/// Whether `agents` are the agents `pairs`, and `targets` holds, for each
/// worker that owns any of them among `workers` workers, the positions of
/// its agents, in rising order.
pub open spec fn routes<S: State>(
    agents: Seq<Agent<S>>,
    targets: Seq<Batch<usize, usize>>,
    pairs: Seq<(u64, S)>,
    workers: nat,
) -> bool {
    &&& agents.len() == pairs.len()
    &&& forall|i: int|
        0 <= i < pairs.len() ==> (#[trigger] agents[i]).id == pairs[i].0 && agents[i].state
            == pairs[i].1
    &&& batches_proper(targets)
    &&& forall|worker: usize| #[trigger]
        batch_at(targets, worker) == owned_positions(ids_of(pairs), worker as nat, workers)
}

/// The plan by which agents join the population: their ids are added to the
/// set of live ids, their states are stored all at once, each worker's new
/// agents are put on its spawn list, and at last `on_spawns` is told of all
/// of them.
pub struct Spawning<S: State> {
    /// The new agents, in the order in which they were given.
    pub agents: Vec<Agent<S>>,
    /// For each worker that owns any of them, the positions in `agents` of
    /// the agents to put on its spawn list.
    pub spawn_lists: Vec<Batch<usize, usize>>,
}

/// The plan by which agents leave the population: their states are deleted,
/// their ids are removed from the set of live ids, each worker's dead are
/// put on its kill list by their ids, and at last `on_deaths` is told of all
/// of them.
pub struct Killing<S: State> {
    /// The dead agents, in the order in which they were given.
    pub agents: Vec<Agent<S>>,
    /// For each worker that owns any of them, the positions in `agents` of
    /// the agents whose ids to put on its kill list.
    pub kill_lists: Vec<Batch<usize, usize>>,
}

/// What a batch of spawns comes to: nothing where there are none, and the
/// routed batch otherwise.
pub open spec fn spawning_of<S: State>(
    plan: Option<Spawning<S>>,
    pairs: Seq<(u64, S)>,
    workers: nat,
) -> bool {
    match plan {
        Some(plan) => pairs.len() > 0 && routes(plan.agents@, plan.spawn_lists@, pairs, workers),
        None => pairs.len() == 0,
    }
}

/// What a batch of kills comes to: nothing where there are none, and the
/// routed batch otherwise.
pub open spec fn killing_of<S: State>(
    plan: Option<Killing<S>>,
    pairs: Seq<(u64, S)>,
    workers: nat,
) -> bool {
    match plan {
        Some(plan) => pairs.len() > 0 && routes(plan.agents@, plan.kill_lists@, pairs, workers),
        None => pairs.len() == 0,
    }
}

/// What the pending changes to the population come to. The kills are
/// carried out first, then the spawns.
pub struct Mutation<S: State> {
    pub kills: Option<Killing<S>>,
    pub spawns: Option<Spawning<S>>,
}

/// How many requests a number of items takes.
#[derive(Clone, Copy, Debug, PartialEq, Eq, Structural)]
pub enum Batching {
    /// There is nothing to ask for.
    Nothing,
    /// One plain request.
    Single,
    /// One request for all items together.
    Multiple,
}

/// A change to who is in one of the store's sets of ids.
#[derive(Debug)]
pub struct Membership {
    pub key: Key,
    pub ids: Vec<u64>,
    /// Whether the ids join the set: they leave it otherwise.
    pub add: bool,
}

/// An interface to the agent population that the store holds.
pub struct Population<S: Simulation, C: Redis> {
    pub conn: C,
    simulation: S,
    hasher: Option<WHasher>,
}

impl<S: Simulation, C: Redis> Population<S, C> {
    /// The number of workers that the population is spread over, once that
    /// is known.
    pub closed spec fn workers(&self) -> Option<nat> {
        match self.hasher {
            Some(hasher) => Some(hasher.workers()),
            None => None,
        }
    }

    /// Whether it is known over how many workers the population is spread,
    /// and there is at least one.
    pub open spec fn routable(&self) -> bool {
        self.workers() matches Some(workers) && workers > 0
    }

    /// The handle on the store.
    pub closed spec fn handle(&self) -> C {
        self.conn
    }

    /// The simulation whose hooks are told of spawns and deaths.
    pub closed spec fn hooks(&self) -> S {
        self.simulation
    }

    pub fn new(simulation: S, conn: C) -> (population: Population<S, C>)
        ensures
            population.workers() is None,
            population.handle() == conn,
            population.hooks() == simulation,
    {
        Population { conn, simulation, hasher: None }
    }

    /// Spreads the population over `hasher`'s workers from now on.
    pub fn set_hasher(&mut self, hasher: WHasher)
        ensures
            final(self).workers() == Some(hasher.workers()),
            final(self).handle() == old(self).handle(),
            final(self).hooks() == old(self).hooks(),
    {
        self.hasher = Some(hasher);
    }

    /// The number of workers that the population is spread over, once that
    /// is known.
    pub fn n_workers(&self) -> (n: Option<usize>)
        ensures
            match n {
                Some(n) => self.workers() == Some(n as nat),
                None => self.workers() is None,
            },
    {
        match &self.hasher {
            Some(hasher) => Some(hasher.n_workers()),
            None => None,
        }
    }

    /// A copy of the view, on a copy of the handle, spread over `hasher`'s
    /// workers.
    pub fn spread(&self, hasher: WHasher) -> (population: Population<S, C>)
        ensures
            population.workers() == Some(hasher.workers()),
            cloned(self.handle(), population.handle()),
            cloned(self.hooks(), population.hooks()),
    {
        Population {
            conn: self.conn.clone(),
            simulation: self.simulation.clone(),
            hasher: Some(hasher),
        }
    }

    /// The simulation whose hooks the population calls.
    pub fn simulation(&self) -> (simulation: &S)
        ensures
            *simulation == self.hooks(),
    {
        &self.simulation
    }

    /// How to ask the store for, or hand it, the states of `count` agents:
    /// not at all for none, plainly for one, and all at once for more.
    pub fn batching(count: usize) -> (batching: Batching)
        ensures
            batching == (if count == 0 {
                Batching::Nothing
            } else if count == 1 {
                Batching::Single
            } else {
                Batching::Multiple
            }),
    {
        if count == 1 {
            Batching::Single
        } else if count != 0 {
            Batching::Multiple
        } else {
            Batching::Nothing
        }
    }

    /// The agent `id`, given what the store holds under its key: none where
    /// it holds nothing.
    pub fn get_agent(&self, id: u64, state: Option<S::State>) -> (agent: Option<Agent<S::State>>)
        ensures
            agent == match state {
                Some(state) => Some(Agent { id, state }),
                None => None,
            },
    {
        match state {
            Some(state) => Some(Agent { id, state }),
            None => None,
        }
    }

    /// The agents `ids`, given their states in the same order. The order is
    /// kept; ids beyond the last state are left out.
    pub fn get_agents(&self, ids: Vec<u64>, states: Vec<S::State>) -> (agents: Vec<
        Agent<S::State>,
    >)
        ensures
            agents@.len() == if ids@.len() <= states@.len() {
                ids@.len()
            } else {
                states@.len()
            },
            forall|i: int|
                0 <= i < agents@.len() ==> #[trigger] agents@[i] == (Agent {
                    id: ids@[i],
                    state: states@[i],
                }),
    {
        let mut agents: Vec<Agent<S::State>> = Vec::new();
        let ghost given = states@;
        for state in it: states
            invariant
                it.seq() == given,
                agents@.len() == if it.index() <= ids@.len() {
                    it.index()
                } else {
                    ids@.len() as int
                },
                forall|i: int|
                    0 <= i < agents@.len() ==> #[trigger] agents@[i] == (Agent {
                        id: ids@[i],
                        state: given[i],
                    }),
        {
            let at = agents.len();
            if at < ids.len() {
                agents.push(Agent { id: ids[at], state });
            }
        }
        agents
    }

    /// Plans the spawning of the agents `to_spawn`.
    pub fn spawns(&self, to_spawn: Vec<(u64, S::State)>) -> (plan: Option<Spawning<S::State>>)
        requires
            to_spawn@.len() > 0 ==> self.routable(),
        ensures
            spawning_of(plan, to_spawn@, self.workers().unwrap_or(0)),
    {
        if to_spawn.len() == 0 {
            return None;
        }
        let hasher = self.hasher.unwrap();
        let (agents, spawn_lists) = route(&hasher, to_spawn);
        Some(Spawning { agents, spawn_lists })
    }

    /// Plans the killing of the agents `to_kill`.
    pub fn kills(&self, to_kill: Vec<(u64, S::State)>) -> (plan: Option<Killing<S::State>>)
        requires
            to_kill@.len() > 0 ==> self.routable(),
        ensures
            killing_of(plan, to_kill@, self.workers().unwrap_or(0)),
    {
        if to_kill.len() == 0 {
            return None;
        }
        let hasher = self.hasher.unwrap();
        let (agents, kill_lists) = route(&hasher, to_kill);
        Some(Killing { agents, kill_lists })
    }

    /// Processes queued updates: sorts the pending changes `pending`, as
    /// they were taken out of the store, into kills and spawns, and plans
    /// both.
    pub fn update(&self, pending: Vec<PopulationUpdate<S::State>>) -> (mutation: Mutation<
        S::State,
    >)
        requires
            pending@.len() > 0 ==> self.routable(),
        ensures
            killing_of(mutation.kills, killed(pending@), self.workers().unwrap_or(0)),
            spawning_of(mutation.spawns, spawned(pending@), self.workers().unwrap_or(0)),
    {
        let mut to_kill: Vec<(u64, S::State)> = Vec::new();
        let mut to_spawn: Vec<(u64, S::State)> = Vec::new();
        let ghost given = pending@;
        for update in it: pending
            invariant
                it.seq() == given,
                to_kill@ == killed(given.take(it.index())),
                to_spawn@ == spawned(given.take(it.index())),
        {
            proof {
                let next = given.take(it.index() + 1);
                assert(next.drop_last() =~= given.take(it.index()));
            }
            match update {
                PopulationUpdate::Kill(id, state) => {
                    to_kill.push((id, state));
                },
                PopulationUpdate::Spawn(id, state) => {
                    to_spawn.push((id, state));
                },
            }
        }
        proof {
            assert(given.take(given.len() as int) =~= given);
        }
        let kills = self.kills(to_kill);
        let spawns = self.spawns(to_spawn);
        Mutation { kills, spawns }
    }

    /// The key of an index.
    pub fn index_key(index: &str) -> (key: Key)
        ensures
            key.is_index(index@),
    {
        Key::Index(String::from_str(index))
    }

    /// Adds an agent (id) to an index.
    pub fn index(&self, index: &str, id: u64) -> (change: Membership)
        ensures
            change.add,
            change.key.is_index(index@),
            change.ids@ == seq![id],
    {
        let mut ids: Vec<u64> = Vec::new();
        ids.push(id);
        Membership { key: Self::index_key(index), ids, add: true }
    }

    /// Adds agents (ids) to an index. There is nothing to do for no ids.
    pub fn indexes(&self, index: &str, ids: Vec<u64>) -> (change: Option<Membership>)
        ensures
            match change {
                Some(change) => ids@.len() > 0 && change.add && change.ids == ids
                    && change.key.is_index(index@),
                None => ids@.len() == 0,
            },
    {
        if ids.len() > 0 {
            Some(Membership { key: Self::index_key(index), ids, add: true })
        } else {
            None
        }
    }

    /// Removes an agent (id) from an index.
    pub fn unindex(&self, index: &str, id: u64) -> (change: Membership)
        ensures
            !change.add,
            change.key.is_index(index@),
            change.ids@ == seq![id],
    {
        let mut ids: Vec<u64> = Vec::new();
        ids.push(id);
        Membership { key: Self::index_key(index), ids, add: false }
    }

    /// Removes agents (ids) from an index. There is nothing to do for no ids.
    pub fn unindexes(&self, index: &str, ids: Vec<u64>) -> (change: Option<Membership>)
        ensures
            match change {
                Some(change) => ids@.len() > 0 && !change.add && change.ids == ids
                    && change.key.is_index(index@),
                None => ids@.len() == 0,
            },
    {
        if ids.len() > 0 {
            Some(Membership { key: Self::index_key(index), ids, add: false })
        } else {
            None
        }
    }

    /// Resets the indices: given the keys of all index sets, the keys to
    /// delete, if there are any.
    pub fn reset_indices(&self, keys: Vec<String>) -> (doomed: Option<Vec<String>>)
        ensures
            match doomed {
                Some(doomed) => keys@.len() > 0 && doomed == keys,
                None => keys@.len() == 0,
            },
    {
        if keys.len() > 0 {
            Some(keys)
        } else {
            None
        }
    }

    /// Resets the population: the keys to delete, before the indices are
    /// reset.
    pub fn reset(&self) -> (doomed: Vec<Key>)
        ensures
            doomed@ == seq![Key::Population, Key::PopulationUpdates],
    {
        let mut doomed: Vec<Key> = Vec::new();
        doomed.push(Key::Population);
        doomed.push(Key::PopulationUpdates);
        doomed
    }
}

/// Turns pairs into agents and files their positions under their owners.
fn route<S: State>(hasher: &WHasher, pairs: Vec<(u64, S)>) -> (routed: (
    Vec<Agent<S>>,
    Vec<Batch<usize, usize>>,
))
    requires
        hasher.workers() > 0,
    ensures
        routes(routed.0@, routed.1@, pairs@, hasher.workers()),
{
    broadcast use group_hash_axioms;

    let mut agents: Vec<Agent<S>> = Vec::new();
    let mut lists: Lists<usize, usize> = Lists::new();
    let ghost given = pairs@;
    let ghost ids = ids_of(given);
    for pair in it: pairs
        invariant
            it.seq() == given,
            ids == ids_of(given),
            hasher.workers() > 0,
            agents@.len() == it.index(),
            forall|i: int|
                0 <= i < it.index() ==> (#[trigger] agents@[i]).id == given[i].0
                    && agents@[i].state == given[i].1,
            forall|worker: usize| #[trigger]
                lists.at(worker) == owned_positions(
                    ids.take(it.index()),
                    worker as nat,
                    hasher.workers(),
                ),
    {
        let (id, state) = pair;
        let position = agents.len();
        let owner = hasher.hash(id);
        let ghost before = lists;
        lists.add(owner, position);
        agents.push(Agent { id, state });
        proof {
            let next = ids.take(it.index() + 1);
            assert(next.drop_last() =~= ids.take(it.index()));
            assert forall|worker: usize| #[trigger]
                lists.at(worker) == owned_positions(next, worker as nat, hasher.workers()) by {
                assert(before.at(worker) == owned_positions(
                    ids.take(it.index()),
                    worker as nat,
                    hasher.workers(),
                ));
            }
        }
    }
    proof {
        assert(ids.take(given.len() as int) =~= ids);
    }
    let ghost filed = lists;
    let targets = lists.drain();
    proof {
        assert forall|worker: usize| #[trigger]
            batch_at(targets@, worker) == owned_positions(ids, worker as nat, hasher.workers()) by {
            assert(filed.at(worker) == owned_positions(ids, worker as nat, hasher.workers()));
        }
    }
    (agents, targets)
}

/// A pending list with no kill in it asks for no kill, and one with no spawn
/// for no spawn; either way the lists are no longer than the pending list.
pub proof fn lemma_sorted_mutations<S: State>(pending: Seq<PopulationUpdate<S>>)
    ensures
        killed(pending).len() + spawned(pending).len() == pending.len(),
    decreases pending.len(),
{
    if pending.len() > 0 {
        lemma_sorted_mutations(pending.drop_last());
    }
}

/// The items at `positions`, in the order of `positions`.
pub open spec fn picked<T>(items: Seq<T>, positions: Seq<usize>) -> Seq<T> {
    Seq::new(positions.len(), |i: int| items[positions[i] as int])
}

/// Picks the items at `positions`, in the order of `positions`.
pub fn pick<'a, T>(items: &'a Vec<T>, positions: &Vec<usize>) -> (chosen: Vec<&'a T>)
    requires
        forall|i: int| 0 <= i < positions@.len() ==> (#[trigger] positions@[i]) < items@.len(),
    ensures
        chosen@.len() == positions@.len(),
        forall|i: int| 0 <= i < chosen@.len() ==> *(#[trigger] chosen@[i])
            == items@[positions@[i] as int],
{
    let mut chosen: Vec<&'a T> = Vec::new();
    let mut i: usize = 0;
    while i < positions.len()
        invariant
            0 <= i <= positions.len(),
            forall|i: int| 0 <= i < positions@.len() ==> (#[trigger] positions@[i]) < items@.len(),
            chosen@.len() == i,
            forall|j: int| 0 <= j < i ==> *(#[trigger] chosen@[j]) == items@[positions@[j] as int],
        decreases positions.len() - i,
    {
        chosen.push(&items[positions[i]]);
        i = i + 1;
    }
    chosen
}

/// What the positions that a worker owns are: each is a position of an id
/// that the worker owns, every such position is among them, and they rise.
pub proof fn lemma_owned_positions(ids: Seq<u64>, worker: nat, workers: nat)
    requires
        ids.len() <= usize::MAX,
    ensures
        forall|k: int|
            0 <= k < owned_positions(ids, worker, workers).len() ==> (#[trigger] owned_positions(
                ids,
                worker,
                workers,
            )[k]) < ids.len() && shard_of(
                ids[owned_positions(ids, worker, workers)[k] as int],
                workers,
            ) == worker,
        forall|i: int|
            0 <= i < ids.len() && shard_of(#[trigger] ids[i], workers) == worker
                ==> owned_positions(ids, worker, workers).contains(i as usize),
        forall|j: int, k: int|
            0 <= j < k < owned_positions(ids, worker, workers).len() ==> owned_positions(
                ids,
                worker,
                workers,
            )[j] < owned_positions(ids, worker, workers)[k],
    decreases ids.len(),
{
    if ids.len() > 0 {
        let rest = ids.drop_last();
        lemma_owned_positions(rest, worker, workers);
        let before = owned_positions(rest, worker, workers);
        let now = owned_positions(ids, worker, workers);
        let last = (ids.len() - 1) as usize;
        if shard_of(ids.last(), workers) == worker {
            assert forall|i: int|
                0 <= i < ids.len() && shard_of(#[trigger] ids[i], workers) == worker
                    implies now.contains(
                i as usize,
            ) by {
                if i < rest.len() {
                    assert(rest[i] == ids[i]);
                    let k = choose|k: int| 0 <= k < before.len() && before[k] == i as usize;
                    assert(now[k] == i as usize);
                } else {
                    assert(now[before.len() as int] == last);
                }
            }
        } else {
            assert forall|i: int|
                0 <= i < ids.len() && shard_of(#[trigger] ids[i], workers) == worker
                    implies now.contains(
                i as usize,
            ) by {
                assert(rest[i] == ids[i]);
            }
        }
    }
}

/// Every agent has one owner. Of the agents that a plan routes, each is
/// listed for exactly one worker: the one that the hasher gives for its id.
pub proof fn lemma_one_owner<S: State>(
    agents: Seq<Agent<S>>,
    targets: Seq<Batch<usize, usize>>,
    pairs: Seq<(u64, S)>,
    workers: nat,
    position: usize,
    worker: usize,
)
    requires
        routes(agents, targets, pairs, workers),
        pairs.len() <= usize::MAX,
        position < agents.len(),
    ensures
        batch_at(targets, worker).contains(position) <==> shard_of(
            agents[position as int].id,
            workers,
        ) == worker,
{
    let ids = ids_of(pairs);
    lemma_owned_positions(ids, worker as nat, workers);
    assert(ids[position as int] == agents[position as int].id);
}

/// Every change that waits is planned: a spawn that is pending is among the
/// agents that `update` plans to spawn, with its id and state, and a kill
/// that is pending is among those that it plans to kill.
pub proof fn lemma_update_plans_all<S: State>(pending: Seq<PopulationUpdate<S>>, i: int)
    requires
        0 <= i < pending.len(),
    ensures
        match pending[i] {
            PopulationUpdate::Spawn(id, state) => spawned(pending).contains((id, state)),
            PopulationUpdate::Kill(id, state) => killed(pending).contains((id, state)),
        },
    decreases pending.len(),
{
    let rest = pending.drop_last();
    if i < pending.len() - 1 {
        lemma_update_plans_all(rest, i);
        match pending[i] {
            PopulationUpdate::Spawn(id, state) => {
                let k = choose|k: int| 0 <= k < spawned(rest).len() && spawned(rest)[k]
                    == (id, state);
                match pending.last() {
                    PopulationUpdate::Spawn(_, _) => {
                        assert(spawned(pending)[k] == (id, state));
                    },
                    PopulationUpdate::Kill(_, _) => {},
                }
            },
            PopulationUpdate::Kill(id, state) => {
                let k = choose|k: int| 0 <= k < killed(rest).len() && killed(rest)[k]
                    == (id, state);
                match pending.last() {
                    PopulationUpdate::Kill(_, _) => {
                        assert(killed(pending)[k] == (id, state));
                    },
                    PopulationUpdate::Spawn(_, _) => {},
                }
            },
        }
    } else {
        match pending[i] {
            PopulationUpdate::Spawn(id, state) => {
                assert(spawned(pending)[spawned(rest).len() as int] == (id, state));
            },
            PopulationUpdate::Kill(id, state) => {
                assert(killed(pending)[killed(rest).len() as int] == (id, state));
            },
        }
    }
}

impl Membership {
    /// The set of ids after the change.
    pub open spec fn apply(&self, members: Set<u64>) -> Set<u64> {
        if self.add {
            members.union(self.ids@.to_set())
        } else {
            members.difference(self.ids@.to_set())
        }
    }
}

/// Making the same change to a set of ids twice leaves it as making the
/// change once does: an id that is added twice is a member once, and one
/// that is removed twice is no member.
pub proof fn lemma_membership_idempotent(change: Membership, members: Set<u64>)
    ensures
        change.apply(change.apply(members)) == change.apply(members),
        forall|id: u64|
            change.ids@.contains(id) ==> (#[trigger] change.apply(members).contains(id)
                == change.add),
{
}

/// Whether a pending list asks to spawn an agent with the id `id`.
pub open spec fn spawns_id<S: State>(pending: Seq<PopulationUpdate<S>>, id: u64) -> bool {
    exists|i: int| 0 <= i < pending.len() && (#[trigger] pending[i]) is Spawn
        && pending[i]->Spawn_0 == id
}

/// Whether a pending list asks to kill the agent with the id `id`.
pub open spec fn kills_id<S: State>(pending: Seq<PopulationUpdate<S>>, id: u64) -> bool {
    exists|i: int| 0 <= i < pending.len() && (#[trigger] pending[i]) is Kill
        && pending[i]->Kill_0 == id
}

/// The ids of agents, in their order.
pub open spec fn agent_ids<S: State>(agents: Seq<Agent<S>>) -> Seq<u64> {
    Seq::new(agents.len(), |i: int| agents[i].id)
}

impl<S: State> Mutation<S> {
    /// The set of live ids after the mutation was carried out on the set
    /// `members`: the ids of the killed leave it, then the ids of the spawned
    /// join it.
    pub open spec fn population_after(&self, members: Set<u64>) -> Set<u64> {
        let thinned = match self.kills {
            Some(plan) => members.difference(agent_ids(plan.agents@).to_set()),
            None => members,
        };
        match self.spawns {
            Some(plan) => thinned.union(agent_ids(plan.agents@).to_set()),
            None => thinned,
        }
    }
}

/// The agents that a pending list asks to spawn are those of its spawns,
/// and the agents that it asks to kill are those of its kills: none is
/// left out and none is made up.
pub proof fn lemma_sorted_exact<S: State>(pending: Seq<PopulationUpdate<S>>, id: u64)
    ensures
        ids_of(spawned(pending)).contains(id) <==> spawns_id(pending, id),
        ids_of(killed(pending)).contains(id) <==> kills_id(pending, id),
    decreases pending.len(),
{
    if pending.len() > 0 {
        let rest = pending.drop_last();
        lemma_sorted_exact(rest, id);
        let last = pending.last();
        if spawns_id(pending, id) {
            let i = choose|i: int| 0 <= i < pending.len() && (#[trigger] pending[i]) is Spawn
                && pending[i]->Spawn_0 == id;
            if i < rest.len() {
                assert(rest[i] is Spawn && rest[i]->Spawn_0 == id);
            }
        }
        if kills_id(pending, id) {
            let i = choose|i: int| 0 <= i < pending.len() && (#[trigger] pending[i]) is Kill
                && pending[i]->Kill_0 == id;
            if i < rest.len() {
                assert(rest[i] is Kill && rest[i]->Kill_0 == id);
            }
        }
        let s_rest = ids_of(spawned(rest));
        let s_all = ids_of(spawned(pending));
        let k_rest = ids_of(killed(rest));
        let k_all = ids_of(killed(pending));
        match last {
            PopulationUpdate::Spawn(new, _) => {
                assert(s_all =~= s_rest.push(new));
                assert(s_all.contains(id) <==> s_rest.contains(id) || new == id) by {
                    if s_rest.contains(id) {
                        let j = choose|j: int| 0 <= j < s_rest.len() && s_rest[j] == id;
                        assert(s_all[j] == id);
                    }
                    if new == id {
                        assert(s_all[s_rest.len() as int] == id);
                    }
                }
            },
            PopulationUpdate::Kill(gone, _) => {
                assert(k_all =~= k_rest.push(gone));
                assert(k_all.contains(id) <==> k_rest.contains(id) || gone == id) by {
                    if k_rest.contains(id) {
                        let j = choose|j: int| 0 <= j < k_rest.len() && k_rest[j] == id;
                        assert(k_all[j] == id);
                    }
                    if gone == id {
                        assert(k_all[k_rest.len() as int] == id);
                    }
                }
            },
        }
    }
}

/// Who is alive after the pending changes were applied. An agent is in the
/// population then if the pending list spawns it, or if it was there before
/// and the pending list does not kill it. So a change that is pending when
/// the manager applies the pending changes shows in the count of the
/// population from then on.
pub proof fn lemma_population_after<S: State>(
    pending: Seq<PopulationUpdate<S>>,
    mutation: Mutation<S>,
    workers: nat,
    members: Set<u64>,
    id: u64,
)
    requires
        killing_of(mutation.kills, killed(pending), workers),
        spawning_of(mutation.spawns, spawned(pending), workers),
    ensures
        mutation.population_after(members).contains(id) <==> spawns_id(pending, id) || (
        members.contains(id) && !kills_id(pending, id)),
{
    lemma_sorted_exact(pending, id);
    match mutation.kills {
        Some(plan) => {
            assert(agent_ids(plan.agents@) =~= ids_of(killed(pending)));
        },
        None => {},
    }
    match mutation.spawns {
        Some(plan) => {
            assert(agent_ids(plan.agents@) =~= ids_of(spawned(pending)));
        },
        None => {},
    }
}

} // verus!
