//! The updates buffer: what a decider has proposed and not yet sent.

use crate::hash::{shard_of, WHasher};
use crate::ids::fresh_id;
use crate::lists::{batch_at, batch_total, batches_proper, lemma_batch_at_proper, Batch, Lists};
use crate::sim::{Agent, Simulation, State};
use vstd::prelude::*;

verus! {

/// A change to the population: an agent to add, or one to remove.
#[derive(Debug, PartialEq, Clone)]
pub enum PopulationUpdate<S: State> {
    Spawn(u64, S),
    Kill(u64, S),
}

/// Everything that a buffer held when it was pushed, ready to be written to
/// the store. A plan never asks for an empty write.
pub struct Staged<S: Simulation> {
    /// For each worker that has any, the updates to put on its list, in the
    /// order in which they were queued.
    pub updates: Vec<Batch<usize, (u64, S::Update)>>,
    /// The spawns and kills to add to the pending population updates.
    pub population: Option<Vec<PopulationUpdate<S::State>>>,
    /// The updates to add to the pending world updates.
    pub world: Option<Vec<S::Update>>,
}

/// What a list is when it is handed on only if it holds something.
pub open spec fn unless_empty<T>(items: Seq<T>, handed: Option<Vec<T>>) -> bool {
    match handed {
        Some(list) => items.len() > 0 && list@ == items,
        None => items.len() == 0,
    }
}

/// A staging area for the updates that deciders propose: updates to agents,
/// filed by the worker that owns the agent, updates to the world, and
/// changes to the population.
pub struct Updates<S: Simulation> {
    /// The updates to agents, by the worker that owns the agent.
    pub updates: Lists<usize, (u64, S::Update)>,
    /// The updates to the world.
    pub world_updates: Vec<S::Update>,
    /// The changes to the population.
    pub pop_updates: Vec<PopulationUpdate<S::State>>,
    /// The hasher that says which worker owns an agent.
    pub hasher: WHasher,
}

impl<S: Simulation> Updates<S> {
    /// The queued updates to agents, by the worker they are bound for.
    pub closed spec fn shards(&self) -> Map<usize, Seq<(u64, S::Update)>> {
        self.updates@
    }

    /// The updates queued for the agents of `worker`, in the order in which
    /// they were queued.
    pub open spec fn queued(&self, worker: usize) -> Seq<(u64, S::Update)> {
        if self.shards().contains_key(worker) {
            self.shards()[worker]
        } else {
            Seq::empty()
        }
    }

    /// The queued updates to the world.
    pub closed spec fn world(&self) -> Seq<S::Update> {
        self.world_updates@
    }

    /// The queued changes to the population.
    pub closed spec fn population(&self) -> Seq<PopulationUpdate<S::State>> {
        self.pop_updates@
    }

    /// The number of workers that updates are filed for.
    pub open spec fn workers(&self) -> nat {
        self.hasher.workers()
    }

    /// Whether nothing is queued.
    pub open spec fn is_empty(&self) -> bool {
        &&& self.shards() == Map::<usize, Seq<(u64, S::Update)>>::empty()
        &&& self.world() == Seq::<S::Update>::empty()
        &&& self.population() == Seq::<PopulationUpdate<S::State>>::empty()
    }

    pub fn new(hasher: WHasher) -> (updates: Updates<S>)
        ensures
            updates.is_empty(),
            updates.workers() == hasher.workers(),
    {
        Updates {
            updates: Lists::new(),
            world_updates: Vec::new(),
            pop_updates: Vec::new(),
            hasher,
        }
    }

    /// The number of workers that updates are filed for.
    pub fn n_workers(&self) -> (workers: usize)
        ensures
            workers == self.workers(),
    {
        self.hasher.n_workers()
    }

    /// Files updates for `hasher`'s workers from now on.
    pub fn set_hasher(&mut self, hasher: WHasher)
        ensures
            final(self).workers() == hasher.workers(),
            final(self).shards() == old(self).shards(),
            final(self).world() == old(self).world(),
            final(self).population() == old(self).population(),
    {
        self.hasher = hasher;
    }

    /// Queues an update for the agent `id`, under the worker that owns it.
    pub fn queue(&mut self, id: u64, update: S::Update)
        requires
            old(self).workers() > 0,
        ensures
            final(self).shards() == old(self).shards().insert(
                shard_of(id, old(self).workers()) as usize,
                old(self).queued(shard_of(id, old(self).workers()) as usize).push((id, update)),
            ),
            final(self).shards() == queued_after(
                old(self).shards(),
                seq![(id, update)],
                old(self).workers(),
            ),
            final(self).world() == old(self).world(),
            final(self).population() == old(self).population(),
            final(self).workers() == old(self).workers(),
    {
        let worker_id = self.hasher.hash(id);
        self.updates.add(worker_id, (id, update));
        proof {
            let log = seq![(id, update)];
            assert(queued_after(old(self).shards(), log.drop_last(), old(self).workers()) == old(
                self,
            ).shards());
        }
    }

    /// Queues an update for the world.
    pub fn queue_world(&mut self, update: S::Update)
        ensures
            final(self).world() == old(self).world().push(update),
            final(self).shards() == old(self).shards(),
            final(self).population() == old(self).population(),
            final(self).workers() == old(self).workers(),
    {
        self.world_updates.push(update);
    }

    /// Creates a new agent with the specified state, returning the new
    /// agent's id. This does not actually spawn the agent, it just queues it.
    pub fn spawn(&mut self, state: S::State) -> (id: u64)
        ensures
            final(self).population() == old(self).population().push(
                PopulationUpdate::Spawn(id, state),
            ),
            final(self).shards() == old(self).shards(),
            final(self).world() == old(self).world(),
            final(self).workers() == old(self).workers(),
    {
        let id = fresh_id();
        self.pop_updates.push(PopulationUpdate::Spawn(id, state));
        id
    }

    /// Deletes an agent. This does not actually execute the kill, it just
    /// queues it, with a copy of the agent's state.
    pub fn kill(&mut self, agent: &Agent<S::State>)
        ensures
            final(self).population().len() == old(self).population().len() + 1,
            final(self).population().drop_last() == old(self).population(),
            final(self).population().last() matches PopulationUpdate::Kill(id, state) && id
                == agent.id && cloned(agent.state, state),
            final(self).shards() == old(self).shards(),
            final(self).world() == old(self).world(),
            final(self).workers() == old(self).workers(),
    {
        let state = agent.state.clone();
        self.pop_updates.push(PopulationUpdate::Kill(agent.id, state));
    }

    /// Takes out the updates that are queued for the agents of `worker`.
    pub fn take(&mut self, worker: usize) -> (taken: Option<Vec<(u64, S::Update)>>)
        ensures
            final(self).shards() == old(self).shards().remove(worker),
            match taken {
                Some(list) => old(self).shards().contains_key(worker) && list@ == old(self).queued(
                    worker,
                ),
                None => !old(self).shards().contains_key(worker),
            },
            final(self).world() == old(self).world(),
            final(self).population() == old(self).population(),
            final(self).workers() == old(self).workers(),
    {
        self.updates.take(worker)
    }

    /// Forgets everything that is queued.
    pub fn clear(&mut self)
        ensures
            final(self).is_empty(),
            final(self).workers() == old(self).workers(),
    {
        self.world_updates.clear();
        self.updates.clear();
        self.pop_updates.clear();
    }

    /// Empties the buffer into a plan of what to write to the store: each
    /// worker's updates for its list, the changes to the population and the
    /// updates to the world for their pending sets.
    pub fn push(&mut self) -> (staged: Staged<S>)
        ensures
            batches_proper(staged.updates@),
            forall|worker: usize|
                #[trigger] batch_at(staged.updates@, worker) == old(self).queued(worker),
            unless_empty(old(self).population(), staged.population),
            unless_empty(old(self).world(), staged.world),
            final(self).is_empty(),
            final(self).workers() == old(self).workers(),
    {
        let updates = self.updates.drain();
        proof {
            assert forall|worker: usize|
                #[trigger] batch_at(updates@, worker) == old(self).queued(worker) by {
                assert(old(self).updates.at(worker) == old(self).queued(worker));
            }
        }
        let mut population: Vec<PopulationUpdate<S::State>> = Vec::new();
        let mut world: Vec<S::Update> = Vec::new();
        core::mem::swap(&mut self.pop_updates, &mut population);
        core::mem::swap(&mut self.world_updates, &mut world);
        let population = if population.len() > 0 {
            Some(population)
        } else {
            None
        };
        let world = if world.len() > 0 {
            Some(world)
        } else {
            None
        };
        self.clear();
        Staged { updates, population, world }
    }
}

/// The updates of `log`, in its order, that are for agents of `worker`
/// among `workers` workers.
pub open spec fn owned_pairs<U>(log: Seq<(u64, U)>, worker: nat, workers: nat) -> Seq<(u64, U)>
    decreases log.len(),
{
    if log.len() == 0 {
        Seq::empty()
    } else if shard_of(log.last().0, workers) == worker {
        owned_pairs(log.drop_last(), worker, workers).push(log.last())
    } else {
        owned_pairs(log.drop_last(), worker, workers)
    }
}

/// What is queued after each update of `log` was queued, in the order of
/// `log`, on top of `shards`.
pub open spec fn queued_after<U>(
    shards: Map<usize, Seq<(u64, U)>>,
    log: Seq<(u64, U)>,
    workers: nat,
) -> Map<usize, Seq<(u64, U)>>
    decreases log.len(),
{
    if log.len() == 0 {
        shards
    } else {
        let before = queued_after(shards, log.drop_last(), workers);
        let worker = shard_of(log.last().0, workers) as usize;
        before.insert(
            worker,
            (if before.contains_key(worker) {
                before[worker]
            } else {
                Seq::empty()
            }).push(log.last()),
        )
    }
}

/// Queueing one run of updates and then another is queueing both in one
/// go.
pub proof fn lemma_queued_after_concat<U>(
    shards: Map<usize, Seq<(u64, U)>>,
    first: Seq<(u64, U)>,
    then: Seq<(u64, U)>,
    workers: nat,
)
    ensures
        queued_after(shards, first + then, workers) == queued_after(
            queued_after(shards, first, workers),
            then,
            workers,
        ),
    decreases then.len(),
{
    if then.len() > 0 {
        lemma_queued_after_concat(shards, first, then.drop_last(), workers);
        assert((first + then).drop_last() =~= first + then.drop_last());
    }
}

/// Updates are filed by owner and kept in order: after the updates of `log`
/// were queued, what is queued for a worker is what was queued for it
/// before, and behind that the updates of `log` for its agents.
pub proof fn lemma_queued_by_owner<U>(
    shards: Map<usize, Seq<(u64, U)>>,
    log: Seq<(u64, U)>,
    workers: nat,
    worker: usize,
)
    requires
        0 < workers <= usize::MAX,
    ensures
        (if queued_after(shards, log, workers).contains_key(worker) {
            queued_after(shards, log, workers)[worker]
        } else {
            Seq::empty()
        }) == (if shards.contains_key(worker) {
            shards[worker]
        } else {
            Seq::empty()
        }) + owned_pairs(log, worker as nat, workers),
    decreases log.len(),
{
    if log.len() > 0 {
        lemma_queued_by_owner(shards, log.drop_last(), workers, worker);
    }
}

/// The number of updates of `log` that are for agents of one of `owners`.
pub open spec fn count_for<U>(log: Seq<(u64, U)>, owners: Seq<usize>, workers: nat) -> nat
    decreases log.len(),
{
    if log.len() == 0 {
        0
    } else if owners.contains(shard_of(log.last().0, workers) as usize) {
        count_for(log.drop_last(), owners, workers) + 1
    } else {
        count_for(log.drop_last(), owners, workers)
    }
}

/// The number of updates of `log` for the agents of each of `owners`, added
/// up.
pub open spec fn owned_total<U>(log: Seq<(u64, U)>, owners: Seq<usize>, workers: nat) -> nat
    decreases owners.len(),
{
    if owners.len() == 0 {
        0
    } else {
        owned_total(log, owners.drop_last(), workers) + owned_pairs(
            log,
            owners.last() as nat,
            workers,
        ).len()
    }
}

proof fn lemma_owned_total_grows<U>(log: Seq<(u64, U)>, owners: Seq<usize>, workers: nat)
    requires
        log.len() > 0,
        owners.no_duplicates(),
        0 < workers <= usize::MAX,
    ensures
        owned_total(log, owners, workers) == owned_total(log.drop_last(), owners, workers) + (
        if owners.contains(shard_of(log.last().0, workers) as usize) {
            1nat
        } else {
            0nat
        }),
    decreases owners.len(),
{
    let owner = shard_of(log.last().0, workers) as usize;
    if owners.len() > 0 {
        let rest = owners.drop_last();
        lemma_owned_total_grows(log, rest, workers);
        if owners.last() != owner && owners.contains(owner) {
            let i = choose|i: int| 0 <= i < owners.len() && owners[i] == owner;
            assert(rest[i] == owner);
        }
    }
}

proof fn lemma_owned_total_counts<U>(log: Seq<(u64, U)>, owners: Seq<usize>, workers: nat)
    requires
        owners.no_duplicates(),
        0 < workers <= usize::MAX,
    ensures
        owned_total(log, owners, workers) == count_for(log, owners, workers),
    decreases log.len(),
{
    if log.len() == 0 {
        lemma_owned_total_none::<U>(log, owners, workers);
    } else {
        lemma_owned_total_counts(log.drop_last(), owners, workers);
        lemma_owned_total_grows(log, owners, workers);
    }
}

proof fn lemma_owned_total_none<U>(log: Seq<(u64, U)>, owners: Seq<usize>, workers: nat)
    requires
        log.len() == 0,
    ensures
        owned_total(log, owners, workers) == 0,
    decreases owners.len(),
{
    if owners.len() > 0 {
        lemma_owned_total_none(log, owners.drop_last(), workers);
    }
}

/// The keys of batches, in their order.
pub open spec fn batch_keys<T>(batches: Seq<Batch<usize, T>>) -> Seq<usize> {
    Seq::new(batches.len(), |i: int| batches[i].key)
}

proof fn lemma_batches_total<U>(
    batches: Seq<Batch<usize, (u64, U)>>,
    log: Seq<(u64, U)>,
    workers: nat,
)
    requires
        forall|i: int|
            0 <= i < batches.len() ==> (#[trigger] batches[i]).items@ == owned_pairs(
                log,
                batches[i].key as nat,
                workers,
            ),
    ensures
        batch_total(batches) == owned_total(log, batch_keys(batches), workers),
    decreases batches.len(),
{
    if batches.len() > 0 {
        let rest = batches.drop_last();
        lemma_batches_total(rest, log, workers);
        assert(batch_keys(batches).drop_last() =~= batch_keys(rest));
    }
}

proof fn lemma_count_covers<U>(
    log: Seq<(u64, U)>,
    owners: Seq<usize>,
    own: Option<usize>,
    workers: nat,
)
    requires
        0 < workers <= usize::MAX,
        forall|i: int|
            0 <= i < log.len() ==> (Some(shard_of((#[trigger] log[i]).0, workers) as usize) == own)
                != owners.contains(shard_of(log[i].0, workers) as usize),
    ensures
        count_for(log, owners, workers) + (match own {
            Some(worker) => owned_pairs(log, worker as nat, workers).len(),
            None => 0,
        }) == log.len(),
    decreases log.len(),
{
    if log.len() > 0 {
        let rest = log.drop_last();
        lemma_count_covers(rest, owners, own, workers);
    }
}

proof fn lemma_owned_pairs_hold<U>(log: Seq<(u64, U)>, worker: nat, workers: nat, i: int)
    requires
        0 <= i < log.len(),
        shard_of(log[i].0, workers) == worker,
    ensures
        owned_pairs(log, worker, workers).len() > 0,
    decreases log.len(),
{
    if i < log.len() - 1 {
        lemma_owned_pairs_hold(log.drop_last(), worker, workers, i);
    }
}

/// No update is lost and none is made up. When the updates of `log` were
/// queued on an empty buffer and the buffer is then sent out, every update
/// is accounted for:
/// the batches that go to the workers' lists hold as many updates as were
/// queued. Where a worker keeps the updates for its own agents, its batches
/// and what it keeps hold as many together.
pub proof fn lemma_update_conservation<U>(
    log: Seq<(u64, U)>,
    workers: nat,
    own: Option<usize>,
    batches: Seq<Batch<usize, (u64, U)>>,
)
    requires
        0 < workers <= usize::MAX,
        batches_proper(batches),
        forall|worker: usize| #[trigger]
            batch_at(batches, worker) == (if own == Some(worker) {
                Seq::empty()
            } else {
                owned_pairs(log, worker as nat, workers)
            }),
    ensures
        batch_total(batches) + (match own {
            Some(worker) => owned_pairs(log, worker as nat, workers).len(),
            None => 0,
        }) == log.len(),
{
    let owners = batch_keys(batches);
    lemma_batch_at_proper(batches);
    lemma_batches_total(batches, log, workers);
    lemma_owned_total_counts(log, owners, workers);
    assert forall|i: int| 0 <= i < log.len() implies (Some(
        shard_of((#[trigger] log[i]).0, workers) as usize,
    ) == own) != owners.contains(shard_of(log[i].0, workers) as usize) by {
        let owner = shard_of(log[i].0, workers) as usize;
        if own != Some(owner) {
            lemma_owned_pairs_hold(log, owner as nat, workers, i);
            assert(batch_at(batches, owner).len() > 0);
            if !owners.contains(owner) {
                assert forall|j: int| 0 <= j < batches.len() implies (#[trigger] batches[j]).key
                    != owner by {
                    if batches[j].key == owner {
                        assert(owners[j] == owner);
                    }
                }
            }
        }
    }
    lemma_count_covers(log, owners, own, workers);
}

} // verus!
