//! The run as a whole: what the store and the workers hold while the
//! manager's requests are carried out, and the laws of a run that follow
//! from what the manager, the population and the workers each do.
//!
//! Nothing here runs. A cluster is a picture of the store and of the
//! workers' memory, and each request of the manager changes it as the
//! functions of this crate say: the plans of `Population::update`, and
//! what `Worker::sync_population`, `Worker::decide`, `Run::world_decide` and
//! `Worker::update` make of what they are given. Of the store it takes
//! what its commands do: a push puts the items at the head of a list, one
//! after the other, and a set holds each member once and hands its members
//! out in no particular order.

use crate::hash::shard_of;
use crate::lists::{batch_at, Batch};
use crate::manager::{advance, course, Progress, Reply, Request, Stage};
use crate::population::{
    ids_of, killed, killing_of, kills_id, lemma_owned_positions, lemma_population_after,
    lemma_sorted_exact, lemma_sorted_mutations, picked, routes, spawned, spawning_of, spawns_id,
    Mutation,
};
use crate::signal::Signal;
use crate::sim::{updates_to, Agent, Simulation, State};
use crate::updates::{owned_pairs, PopulationUpdate};
use crate::worker::{
    adopted, filed, lemma_filed_by_agent, lemma_filed_concat, lemma_sync_adopts, picked_ids, pushed,
    settled, updates_for,
};
use vstd::prelude::*;

verus! {

/// What the store and the workers hold of a run, between two requests of
/// the manager.
pub struct Cluster<S: Simulation> {
    /// The ids of the live agents: the store's set of the population.
    pub members: Set<u64>,
    /// The changes to the population that wait in the store.
    pub waiting: Set<PopulationUpdate<S::State>>,
    /// The spawn list of each worker, as the store holds it.
    pub spawn_lists: spec_fn(usize) -> Seq<Agent<S::State>>,
    /// The kill list of each worker, as the store holds it.
    pub kill_lists: spec_fn(usize) -> Seq<u64>,
    /// The list of updates of each worker, as the store holds it: the
    /// latest first.
    pub update_lists: spec_fn(usize) -> Seq<(u64, S::Update)>,
    /// The local agents of each worker.
    pub locals: spec_fn(usize) -> Map<u64, Agent<S::State>>,
    /// The updates that each worker has kept for its own agents.
    pub pendings: spec_fn(usize) -> Map<u64, Seq<S::Update>>,
}

impl<S: Simulation> Cluster<S> {
    /// The spawn list of a worker.
    pub open spec fn spawn_list(&self, worker: usize) -> Seq<Agent<S::State>> {
        (self.spawn_lists)(worker)
    }

    /// The kill list of a worker.
    pub open spec fn kill_list(&self, worker: usize) -> Seq<u64> {
        (self.kill_lists)(worker)
    }

    /// The list of updates of a worker.
    pub open spec fn update_list(&self, worker: usize) -> Seq<(u64, S::Update)> {
        (self.update_lists)(worker)
    }

    /// The local agents of a worker.
    pub open spec fn local(&self, worker: usize) -> Map<u64, Agent<S::State>> {
        (self.locals)(worker)
    }

    /// The updates that a worker has kept for its own agents.
    pub open spec fn pending(&self, worker: usize) -> Map<u64, Seq<S::Update>> {
        (self.pendings)(worker)
    }

    /// Whether nothing of the population has changed between `self` and
    /// `after`: the same live ids, the same spawn and kill lists, and every
    /// worker with agents of the same ids.
    pub open spec fn same_population(&self, after: Self) -> bool {
        &&& after.members == self.members
        &&& forall|worker: usize| #[trigger] after.spawn_list(worker) == self.spawn_list(worker)
        &&& forall|worker: usize| #[trigger] after.kill_list(worker) == self.kill_list(worker)
        &&& forall|worker: usize| #[trigger]
            after.local(worker).dom() == self.local(worker).dom()
    }

    /// Whether `after` has the spawn lists and the kill lists of `self`.
    pub open spec fn keeps_lists(&self, after: Self) -> bool {
        &&& forall|worker: usize| #[trigger] after.spawn_list(worker) == self.spawn_list(worker)
        &&& forall|worker: usize| #[trigger] after.kill_list(worker) == self.kill_list(worker)
    }

    /// Whether `after` has the updates of `self`, in the store and with the
    /// workers.
    pub open spec fn keeps_updates(&self, after: Self) -> bool {
        &&& forall|worker: usize| #[trigger]
            after.update_list(worker) == self.update_list(worker)
        &&& forall|worker: usize| #[trigger] after.pending(worker) == self.pending(worker)
    }

    /// Whether the workers of `after` hold the agents of `self`, as they
    /// are.
    pub open spec fn keeps_locals(&self, after: Self) -> bool {
        forall|worker: usize| #[trigger] after.local(worker) == self.local(worker)
    }

    /// Whether no updates are under way: the lists of updates are empty, and
    /// no worker has kept any.
    pub open spec fn no_updates(&self) -> bool {
        &&& forall|worker: usize| #[trigger] self.update_list(worker).len() == 0
        &&& forall|worker: usize| #[trigger]
            self.pending(worker) == Map::<u64, Seq<S::Update>>::empty()
    }

    /// Whether the spawn lists and the kill lists are empty.
    pub open spec fn no_lists(&self) -> bool {
        &&& forall|worker: usize| #[trigger] self.spawn_list(worker).len() == 0
        &&& forall|worker: usize| #[trigger] self.kill_list(worker).len() == 0
    }
}

/// Whether a cluster is as before a run: nobody lives, nothing waits, and
/// no worker holds anything.
pub open spec fn untouched<S: Simulation>(cluster: Cluster<S>) -> bool {
    &&& cluster.members == Set::<u64>::empty()
    &&& cluster.waiting == Set::<PopulationUpdate<S::State>>::empty()
    &&& cluster.no_lists()
    &&& cluster.no_updates()
    &&& forall|worker: usize| #[trigger]
        cluster.local(worker) == Map::<u64, Agent<S::State>>::empty()
}

/// The agents that a mutation puts on the spawn list of `worker`.
pub open spec fn spawned_for<S: Simulation>(mutation: Mutation<S::State>, worker: usize) -> Seq<
    Agent<S::State>,
> {
    match mutation.spawns {
        Some(plan) => picked(plan.agents@, batch_at(plan.spawn_lists@, worker)),
        None => Seq::empty(),
    }
}

/// The ids that a mutation puts on the kill list of `worker`.
pub open spec fn killed_for<S: Simulation>(mutation: Mutation<S::State>, worker: usize) -> Seq<
    u64,
> {
    match mutation.kills {
        Some(plan) => picked_ids(plan.agents@, batch_at(plan.kill_lists@, worker)),
        None => Seq::empty(),
    }
}

/// Whether `after` is the cluster once the waiting changes to the
/// population were applied: they were taken out of the store as `read`, in
/// whatever order the store gave them, `mutation` is what
/// `Population::update` made of them, and it was carried out: the set of
/// live ids is changed, and every worker's spawns and kills are put on its
/// lists. No worker has seen anything of it yet.
pub open spec fn applied<S: Simulation>(
    before: Cluster<S>,
    read: Seq<PopulationUpdate<S::State>>,
    mutation: Mutation<S::State>,
    after: Cluster<S>,
    workers: nat,
) -> bool {
    &&& read.len() <= usize::MAX
    &&& read.to_set() == before.waiting
    &&& killing_of(mutation.kills, killed(read), workers)
    &&& spawning_of(mutation.spawns, spawned(read), workers)
    &&& after.members == mutation.population_after(before.members)
    &&& after.waiting == Set::<PopulationUpdate<S::State>>::empty()
    &&& forall|worker: usize| #[trigger]
        after.spawn_list(worker) == pushed(
            before.spawn_list(worker),
            spawned_for::<S>(mutation, worker),
        )
    &&& forall|worker: usize| #[trigger]
        after.kill_list(worker) == pushed(
            before.kill_list(worker),
            killed_for::<S>(mutation, worker),
        )
    &&& before.keeps_locals(after)
    &&& before.keeps_updates(after)
}

/// Whether `after` is the cluster once every worker has synced: each has
/// taken its spawn list and its kill list out of the store and handed them
/// to `Worker::sync_population`.
pub open spec fn synced<S: Simulation>(before: Cluster<S>, after: Cluster<S>) -> bool {
    &&& forall|worker: usize| #[trigger]
        after.local(worker) == adopted(
            before.local(worker),
            before.spawn_list(worker),
        ).remove_keys(before.kill_list(worker).to_set())
    &&& after.no_lists()
    &&& after.members == before.members
    &&& after.waiting == before.waiting
    &&& before.keeps_updates(after)
}

/// The updates for agents of `worker` among those that the deciders
/// `order` have queued, one decider after the other.
pub open spec fn gathered<U>(
    queued: Seq<Seq<(u64, U)>>,
    order: Seq<usize>,
    worker: usize,
    workers: nat,
) -> Seq<(u64, U)>
    decreases order.len(),
{
    if order.len() == 0 {
        Seq::empty()
    } else {
        gathered(queued, order.drop_last(), worker, workers) + owned_pairs(
            queued[order.last() as int],
            worker as nat,
            workers,
        )
    }
}

/// Whether `order` walks the workers other than `worker`, each once.
pub open spec fn walks_others(order: Seq<usize>, worker: usize, workers: nat) -> bool {
    &&& order.no_duplicates()
    &&& forall|other: usize| order.contains(other) <==> other < workers && other != worker
}

/// Whether the changes `changes` wait in `after` beside those of `before`.
pub open spec fn joined<T>(before: Set<T>, changes: Seq<Seq<T>>, after: Set<T>) -> bool {
    forall|change: T|
        after.contains(change) <==> before.contains(change) || exists|d: int|
            0 <= d < changes.len() && (#[trigger] changes[d]).contains(change)
}

/// Whether `after` is the cluster once every worker has decided. `queued`
/// holds for each worker the updates that its agents have queued, in the
/// order in which they queued them, and `changes` the changes to the
/// population that they asked for. Each worker has kept the updates for
/// its own agents; those for the others are on their lists in the store,
/// where `landed` gives for each list the order in which the other workers'
/// batches came in. No agent has changed.
pub open spec fn decided<S: Simulation>(
    before: Cluster<S>,
    queued: Seq<Seq<(u64, S::Update)>>,
    changes: Seq<Seq<PopulationUpdate<S::State>>>,
    landed: Seq<Seq<usize>>,
    after: Cluster<S>,
    workers: nat,
) -> bool {
    &&& queued.len() == workers
    &&& landed.len() == workers
    &&& forall|worker: usize|
        worker < workers ==> walks_others(#[trigger] landed[worker as int], worker, workers)
    &&& forall|worker: usize|
        worker < workers ==> #[trigger] after.pending(worker) == filed(
            before.pending(worker),
            owned_pairs(queued[worker as int], worker as nat, workers),
        )
    &&& forall|worker: usize|
        worker < workers ==> #[trigger] after.update_list(worker) == pushed(
            before.update_list(worker),
            gathered(queued, landed[worker as int], worker, workers),
        )
    &&& forall|worker: usize|
        worker >= workers ==> #[trigger] after.pending(worker) == before.pending(worker)
    &&& forall|worker: usize|
        worker >= workers ==> #[trigger] after.update_list(worker) == before.update_list(worker)
    &&& joined(before.waiting, changes, after.waiting)
    &&& after.members == before.members
    &&& before.keeps_lists(after)
    &&& before.keeps_locals(after)
}

/// Whether `after` is the cluster once the world has decided: the updates
/// `queued` that it has queued are on the lists of the workers that own
/// their agents, and the changes `changes` to the population wait with the
/// others.
pub open spec fn world_decided<S: Simulation>(
    before: Cluster<S>,
    queued: Seq<(u64, S::Update)>,
    changes: Seq<PopulationUpdate<S::State>>,
    after: Cluster<S>,
    workers: nat,
) -> bool {
    &&& forall|worker: usize| #[trigger]
        after.update_list(worker) == pushed(
            before.update_list(worker),
            owned_pairs(queued, worker as nat, workers),
        )
    &&& joined(before.waiting, seq![changes], after.waiting)
    &&& forall|worker: usize| #[trigger] after.pending(worker) == before.pending(worker)
    &&& after.members == before.members
    &&& before.keeps_lists(after)
    &&& before.keeps_locals(after)
}

/// Whether `after` is the cluster once every worker has updated: each has
/// taken its list of updates out of the store and handed it to
/// `Worker::update`, which leaves no update behind.
pub open spec fn updated<S: Simulation>(before: Cluster<S>, rules: S, after: Cluster<S>) -> bool {
    &&& forall|worker: usize| #[trigger]
        after.local(worker).dom() == before.local(worker).dom()
    &&& forall|worker: usize, id: u64| #[trigger]
        before.local(worker).contains_key(id) ==> exists|changed: bool|
            settled(
                rules,
                before.local(worker)[id],
                filed(before.pending(worker), before.update_list(worker).reverse()),
                after.local(worker)[id],
                changed,
            )
    &&& after.no_updates()
    &&& after.members == before.members
    &&& after.waiting == before.waiting
    &&& before.keeps_lists(after)
}

/// Whether `after` is the cluster once the run was set up: the initial
/// population waits with the changes to the population.
pub open spec fn set_up<S: Simulation>(before: Cluster<S>, after: Cluster<S>) -> bool {
    &&& forall|change: PopulationUpdate<S::State>|
        before.waiting.contains(change) ==> after.waiting.contains(change)
    &&& after.members == before.members
    &&& before.keeps_lists(after)
    &&& before.keeps_updates(after)
    &&& before.keeps_locals(after)
}

/// Whether `after` is what carrying out a request of the manager can make
/// of the cluster `before`, among `workers` workers. What the workers do on
/// a command counts with the command: the manager asks for nothing but the
/// count of the finished until all of them are done.
pub open spec fn follows<S: Simulation>(
    before: Cluster<S>,
    rules: S,
    request: Request,
    after: Cluster<S>,
    workers: nat,
) -> bool {
    match request {
        Request::Start => set_up(before, after),
        Request::ApplyPopulation => exists|
            read: Seq<PopulationUpdate<S::State>>,
            mutation: Mutation<S::State>,
        | applied(before, read, mutation, after, workers),
        Request::Publish(Signal::Sync) => synced(before, after),
        Request::Publish(Signal::Decide) => exists|
            queued: Seq<Seq<(u64, S::Update)>>,
            changes: Seq<Seq<PopulationUpdate<S::State>>>,
            landed: Seq<Seq<usize>>,
        | decided(before, queued, changes, landed, after, workers),
        Request::WorldDecide => exists|
            queued: Seq<(u64, S::Update)>,
            changes: Seq<PopulationUpdate<S::State>>,
        | world_decided(before, queued, changes, after, workers),
        Request::Publish(Signal::Update) => updated(before, rules, after),
        _ => after == before,
    }
}

/// Whether a run that begins at `begin` with the cluster `from` can have
/// come to the cluster `to` when the manager was given the replies
/// `replies` and each of its requests was carried out.
pub open spec fn reached<S: Simulation>(
    begin: Progress,
    rules: S,
    from: Cluster<S>,
    replies: Seq<Reply>,
    to: Cluster<S>,
) -> bool
    decreases replies.len(),
{
    if replies.len() == 0 {
        to == from
    } else {
        let at = course(begin, replies.drop_last()).0;
        let (next, request) = advance(at, replies.last());
        exists|mid: Cluster<S>|
            reached(begin, rules, from, replies.drop_last(), mid) && #[trigger] follows(
                mid,
                rules,
                request,
                to,
                next.n_workers as nat,
            )
    }
}

/// Whether a stage lies between the workers' deciding and their updating,
/// when updates are under way.
pub open spec fn deciding(stage: Stage) -> bool {
    stage == Stage::Publishing(Signal::Decide) || stage == Stage::Barrier(Signal::Decide) || stage
        == Stage::Clearing(Signal::Decide) || stage == Stage::WorldDeciding
}

/// Whether a cluster is in order at a point of a run. No worker holds an
/// agent before the run is set up. Every worker holds only agents that are
/// its own by the hasher, each under its own id, and its spawn list names
/// only such agents. The spawn and kill lists hold something only while the
/// changes to the population are applied and the workers have not synced
/// yet; updates are under way only between deciding and updating.
pub open spec fn tidy<S: Simulation>(at: Progress, cluster: Cluster<S>) -> bool {
    &&& at.stage != Stage::Waiting ==> at.n_workers > 0
    &&& at.stage == Stage::Waiting ==> forall|worker: usize| #[trigger]
        cluster.local(worker) == Map::<u64, Agent<S::State>>::empty()
    &&& forall|worker: usize, id: u64| #[trigger]
        cluster.local(worker).contains_key(id) ==> shard_of(id, at.n_workers as nat) == worker
            && cluster.local(worker)[id].id == id
    &&& forall|worker: usize, k: int|
        0 <= k < cluster.spawn_list(worker).len() ==> shard_of(
            (#[trigger] cluster.spawn_list(worker)[k]).id,
            at.n_workers as nat,
        ) == worker
    &&& at.stage != Stage::Applying ==> cluster.no_lists()
    &&& !deciding(at.stage) ==> cluster.no_updates()
}

/// What is on a worker's spawn list belongs to the worker: the agents that
/// a mutation puts there are its own by the hasher.
pub proof fn lemma_spawned_for_owner<S: Simulation>(
    read: Seq<PopulationUpdate<S::State>>,
    mutation: Mutation<S::State>,
    workers: nat,
    worker: usize,
)
    requires
        read.len() <= usize::MAX,
        spawning_of(mutation.spawns, spawned(read), workers),
    ensures
        forall|k: int|
            0 <= k < spawned_for::<S>(mutation, worker).len() ==> shard_of(
                (#[trigger] spawned_for::<S>(mutation, worker)[k]).id,
                workers,
            ) == worker,
{
    match mutation.spawns {
        Some(plan) => {
            let pairs = spawned(read);
            lemma_sorted_mutations(read);
            lemma_owned_positions(ids_of(pairs), worker as nat, workers);
        },
        None => {},
    }
}

/// Agents that are kept under their own ids stay so when a spawn list is
/// adopted: each of its agents is put under its own id.
pub proof fn lemma_adopted_under_own_id<S: State>(
    local: Map<u64, Agent<S>>,
    spawned: Seq<Agent<S>>,
    id: u64,
)
    requires
        local.contains_key(id) ==> local[id].id == id,
        adopted(local, spawned).contains_key(id),
    ensures
        adopted(local, spawned)[id].id == id,
    decreases spawned.len(),
{
    if spawned.len() > 0 {
        if spawned.last().id != id {
            lemma_adopted_under_own_id(local, spawned.drop_last(), id);
        }
    }
}

/// Carrying out a request keeps the cluster in order.
pub proof fn lemma_request_keeps_tidy<S: Simulation>(
    at: Progress,
    reply: Reply,
    rules: S,
    before: Cluster<S>,
    after: Cluster<S>,
)
    requires
        tidy(at, before),
        follows(
            before,
            rules,
            advance(at, reply).1,
            after,
            advance(at, reply).0.n_workers as nat,
        ),
    ensures
        tidy(advance(at, reply).0, after),
{
    let (next, request) = advance(at, reply);
    let workers = next.n_workers as nat;
    match request {
        Request::ApplyPopulation => {
            let (read, mutation) = choose|
                read: Seq<PopulationUpdate<S::State>>,
                mutation: Mutation<S::State>,
            | applied(before, read, mutation, after, workers);
            assert forall|worker: usize, k: int|
                0 <= k < after.spawn_list(worker).len() implies shard_of(
                (#[trigger] after.spawn_list(worker)[k]).id,
                workers,
            ) == worker by {
                lemma_spawned_for_owner::<S>(read, mutation, workers, worker);
            }
        },
        Request::Publish(Signal::Sync) => {
            assert forall|worker: usize, id: u64| #[trigger]
                after.local(worker).contains_key(id) implies shard_of(id, workers) == worker
                && after.local(worker)[id].id == id by {
                lemma_sync_adopts(
                    before.local(worker),
                    before.spawn_list(worker),
                    before.kill_list(worker),
                    id,
                );
                lemma_adopted_under_own_id(before.local(worker), before.spawn_list(worker), id);
            }
        },
        _ => {},
    }
}

/// A run stays in order: whatever replies the manager is given, and
/// however its requests are carried out, every worker holds only agents of
/// its own, the spawn and kill lists are empty but between the applying of
/// the changes and the sync, and no update outlives its step.
pub proof fn lemma_run_stays_tidy<S: Simulation>(
    begin: Progress,
    rules: S,
    from: Cluster<S>,
    replies: Seq<Reply>,
    to: Cluster<S>,
)
    requires
        begin.stage == Stage::Waiting,
        untouched(from),
        reached(begin, rules, from, replies, to),
    ensures
        tidy(course(begin, replies).0, to),
    decreases replies.len(),
{
    if replies.len() > 0 {
        let at = course(begin, replies.drop_last()).0;
        let (next, request) = advance(at, replies.last());
        let mid = choose|mid: Cluster<S>|
            reached(begin, rules, from, replies.drop_last(), mid) && #[trigger] follows(
                mid,
                rules,
                request,
                to,
                next.n_workers as nat,
            );
        lemma_run_stays_tidy(begin, rules, from, replies.drop_last(), mid);
        lemma_request_keeps_tidy(at, replies.last(), rules, mid, to);
    }
}

/// Whether a change that asks to spawn an agent with the id `id` waits.
pub open spec fn awaits_spawn<S: State>(waiting: Set<PopulationUpdate<S>>, id: u64) -> bool {
    exists|state: S| waiting.contains(PopulationUpdate::Spawn(id, state))
}

/// Whether a change that asks to kill the agent with the id `id` waits.
pub open spec fn awaits_kill<S: State>(waiting: Set<PopulationUpdate<S>>, id: u64) -> bool {
    exists|state: S| waiting.contains(PopulationUpdate::Kill(id, state))
}

/// In whatever order the store hands out the changes that wait, they ask
/// for the same spawns and the same kills.
pub proof fn lemma_read_in_any_order<S: State>(read: Seq<PopulationUpdate<S>>, id: u64)
    ensures
        awaits_spawn(read.to_set(), id) <==> spawns_id(read, id),
        awaits_kill(read.to_set(), id) <==> kills_id(read, id),
{
    if spawns_id(read, id) {
        let i = choose|i: int|
            0 <= i < read.len() && (#[trigger] read[i]) is Spawn && read[i]->Spawn_0 == id;
        assert(read.to_set().contains(PopulationUpdate::Spawn(id, read[i]->Spawn_1)));
    }
    if kills_id(read, id) {
        let i = choose|i: int|
            0 <= i < read.len() && (#[trigger] read[i]) is Kill && read[i]->Kill_0 == id;
        assert(read.to_set().contains(PopulationUpdate::Kill(id, read[i]->Kill_1)));
    }
}

/// What a routed plan lists for a worker: the ids of the agents at the
/// worker's positions are the ids among the plan's agents that the worker
/// owns.
pub proof fn lemma_routed_ids<S: State>(
    agents: Seq<Agent<S>>,
    targets: Seq<Batch<usize, usize>>,
    pairs: Seq<(u64, S)>,
    workers: nat,
    worker: usize,
    id: u64,
)
    requires
        routes(agents, targets, pairs, workers),
        pairs.len() <= usize::MAX,
    ensures
        picked_ids(agents, batch_at(targets, worker)).contains(id) <==> ids_of(pairs).contains(id)
            && shard_of(id, workers) == worker,
{
    let ids = ids_of(pairs);
    let positions = batch_at(targets, worker);
    let listed = picked_ids(agents, positions);
    lemma_owned_positions(ids, worker as nat, workers);
    if ids.contains(id) && shard_of(id, workers) == worker {
        let j = choose|j: int| 0 <= j < ids.len() && ids[j] == id;
        let k = choose|k: int| 0 <= k < positions.len() && positions[k] == j as usize;
        assert(listed[k] == id);
    }
}

/// Who is on the lists once the waiting changes are applied: an id is
/// among the agents of a worker's spawn list just when a spawn of it has
/// waited and the worker owns it, and on a worker's kill list just when a
/// kill of it has waited and the worker owns it.
pub proof fn lemma_applied_lists<S: Simulation>(
    before: Cluster<S>,
    read: Seq<PopulationUpdate<S::State>>,
    mutation: Mutation<S::State>,
    after: Cluster<S>,
    workers: nat,
    worker: usize,
    id: u64,
)
    requires
        before.no_lists(),
        applied(before, read, mutation, after, workers),
    ensures
        (exists|k: int|
            0 <= k < after.spawn_list(worker).len() && (#[trigger] after.spawn_list(worker)[k]).id
                == id) <==> awaits_spawn(before.waiting, id) && shard_of(id, workers) == worker,
        after.kill_list(worker).contains(id) <==> awaits_kill(before.waiting, id) && shard_of(
            id,
            workers,
        ) == worker,
{
    lemma_read_in_any_order(read, id);
    lemma_sorted_exact(read, id);
    lemma_sorted_mutations(read);
    let put = spawned_for::<S>(mutation, worker);
    let list = after.spawn_list(worker);
    let doomed = killed_for::<S>(mutation, worker);
    let kills = after.kill_list(worker);
    match mutation.spawns {
        Some(plan) => {
            let positions = batch_at(plan.spawn_lists@, worker);
            lemma_routed_ids(plan.agents@, plan.spawn_lists@, spawned(read), workers, worker, id);
            let listed = picked_ids(plan.agents@, positions);
            if exists|k: int| 0 <= k < list.len() && (#[trigger] list[k]).id == id {
                let k = choose|k: int| 0 <= k < list.len() && (#[trigger] list[k]).id == id;
                assert(listed[put.len() - 1 - k] == id);
            }
            if listed.contains(id) {
                let k = choose|k: int| 0 <= k < listed.len() && listed[k] == id;
                assert(list[put.len() - 1 - k].id == id);
            }
        },
        None => {},
    }
    match mutation.kills {
        Some(plan) => {
            lemma_routed_ids(plan.agents@, plan.kill_lists@, killed(read), workers, worker, id);
            if doomed.contains(id) {
                let k = choose|k: int| 0 <= k < doomed.len() && doomed[k] == id;
                assert(kills[doomed.len() - 1 - k] == id);
            }
        },
        None => {},
    }
}

/// A change to the population takes effect at the sync of the next step,
/// in full. When the manager has the waiting changes applied, at any point
/// of any run, and the workers then sync, then at the end of that sync:
/// an agent of which a spawn has waited, and no kill, is alive and local to
/// its owner, and to no other worker; an agent of which a kill has waited,
/// and no spawn, is not alive and local to no worker; for an agent of which
/// nothing has waited, nothing has changed; and nothing waits any more, in
/// the store or on the lists. Where both a spawn and a kill of one id have
/// waited, the store has killed first and the owner last: the id is alive
/// and local to no worker.
pub proof fn lemma_mutation_causality<S: Simulation>(
    begin: Progress,
    rules: S,
    from: Cluster<S>,
    replies: Seq<Reply>,
    reply: Reply,
    before: Cluster<S>,
    mid: Cluster<S>,
    after: Cluster<S>,
    id: u64,
)
    requires
        begin.stage == Stage::Waiting,
        untouched(from),
        reached(begin, rules, from, replies, before),
        advance(course(begin, replies).0, reply).1 == Request::ApplyPopulation,
        follows(
            before,
            rules,
            Request::ApplyPopulation,
            mid,
            course(begin, replies).0.n_workers as nat,
        ),
        follows(
            mid,
            rules,
            Request::Publish(Signal::Sync),
            after,
            course(begin, replies).0.n_workers as nat,
        ),
    ensures
        ({
            let workers = course(begin, replies).0.n_workers as nat;
            let spawn = awaits_spawn(before.waiting, id);
            let kill = awaits_kill(before.waiting, id);
            &&& spawn && !kill ==> after.members.contains(id) && forall|worker: usize|
                #[trigger] after.local(worker).contains_key(id) <==> shard_of(id, workers)
                    == worker
            &&& kill && !spawn ==> !after.members.contains(id) && forall|worker: usize|
                !#[trigger] after.local(worker).contains_key(id)
            &&& !kill && !spawn ==> (after.members.contains(id) <==> before.members.contains(id))
                && forall|worker: usize|
                #[trigger] after.local(worker).contains_key(id) <==> before.local(
                    worker,
                ).contains_key(id)
            &&& kill && spawn ==> after.members.contains(id) && forall|worker: usize|
                !#[trigger] after.local(worker).contains_key(id)
            &&& after.waiting == Set::<PopulationUpdate<S::State>>::empty()
            &&& after.no_lists()
        }),
{
    let at = course(begin, replies).0;
    let workers = at.n_workers as nat;
    lemma_run_stays_tidy(begin, rules, from, replies, before);
    let (read, mutation) = choose|
        read: Seq<PopulationUpdate<S::State>>,
        mutation: Mutation<S::State>,
    | applied(before, read, mutation, mid, workers);
    lemma_read_in_any_order(read, id);
    lemma_population_after(read, mutation, workers, before.members, id);
    assert forall|worker: usize|
        (#[trigger] after.local(worker).contains_key(id) <==> !(awaits_kill(before.waiting, id)
            && shard_of(id, workers) == worker) && (before.local(worker).contains_key(id) || (
        awaits_spawn(before.waiting, id) && shard_of(id, workers) == worker))) by {
        lemma_applied_lists(before, read, mutation, mid, workers, worker, id);
        lemma_sync_adopts(mid.local(worker), mid.spawn_list(worker), mid.kill_list(worker), id);
    }
}

/// A change to the population shows nowhere before it is applied. Carrying
/// out any request but the applying of the changes and the `sync` leaves
/// the population as it is: the same live ids, the same spawn and kill
/// lists, and every worker with agents of the same ids. And no change that
/// waits is lost.
pub proof fn lemma_population_waits<S: Simulation>(
    before: Cluster<S>,
    rules: S,
    request: Request,
    after: Cluster<S>,
    workers: nat,
)
    requires
        follows(before, rules, request, after, workers),
        request != Request::ApplyPopulation,
        request != Request::Publish(Signal::Sync),
    ensures
        before.same_population(after),
        forall|change: PopulationUpdate<S::State>|
            before.waiting.contains(change) ==> after.waiting.contains(change),
{
}

/// From the deciding of one step to the sync of the next the population
/// stays as it is. As long as the manager asks neither to apply the changes
/// nor for a `sync`, whatever else it asks for and however that is carried
/// out, the live ids, the spawn and kill lists and the ids of every
/// worker's agents stay the same, and every change that waits goes on
/// waiting.
pub proof fn lemma_population_waits_on<S: Simulation>(
    at: Progress,
    rules: S,
    from: Cluster<S>,
    replies: Seq<Reply>,
    to: Cluster<S>,
)
    requires
        reached(at, rules, from, replies, to),
        forall|i: int|
            0 <= i < replies.len() ==> (#[trigger] course(at, replies).1[i])
                != Request::ApplyPopulation && course(at, replies).1[i] != Request::Publish(
                Signal::Sync,
            ),
    ensures
        from.same_population(to),
        forall|change: PopulationUpdate<S::State>|
            from.waiting.contains(change) ==> to.waiting.contains(change),
    decreases replies.len(),
{
    if replies.len() > 0 {
        let earlier = replies.drop_last();
        let (next, request) = advance(course(at, earlier).0, replies.last());
        let mid = choose|mid: Cluster<S>|
            reached(at, rules, from, earlier, mid) && #[trigger] follows(
                mid,
                rules,
                request,
                to,
                next.n_workers as nat,
            );
        lemma_course_length(at, replies);
        assert forall|i: int| 0 <= i < earlier.len() implies (#[trigger] course(at, earlier).1[i])
            != Request::ApplyPopulation && course(at, earlier).1[i] != Request::Publish(
            Signal::Sync,
        ) by {
            assert(course(at, replies).1[i] == course(at, earlier).1[i]);
        }
        assert(course(at, replies).1[replies.len() - 1] == request);
        lemma_population_waits_on(at, rules, from, earlier, mid);
    }
}

/// The manager makes one request for every reply.
pub proof fn lemma_course_length(at: Progress, replies: Seq<Reply>)
    ensures
        course(at, replies).1.len() == replies.len(),
    decreases replies.len(),
{
    if replies.len() > 0 {
        lemma_course_length(at, replies.drop_last());
    }
}

/// The updates that the deciders `order` have queued for the agent `id`,
/// one decider after the other, each in the order of its queueing.
pub open spec fn queued_for<U>(queued: Seq<Seq<(u64, U)>>, order: Seq<usize>, id: u64) -> Seq<U>
    decreases order.len(),
{
    if order.len() == 0 {
        Seq::empty()
    } else {
        queued_for(queued, order.drop_last(), id) + updates_for(queued[order.last() as int], id)
    }
}

/// All the updates of a step for the agent `id` of the worker `owner`:
/// those that the agents of its own worker have queued, then those of the
/// other workers, in the order `order` in which their batches came in, then
/// those of the world.
pub open spec fn step_updates<U>(
    queued: Seq<Seq<(u64, U)>>,
    order: Seq<usize>,
    world_queued: Seq<(u64, U)>,
    owner: usize,
    id: u64,
) -> Seq<U> {
    updates_for(queued[owner as int], id) + queued_for(queued, order, id) + updates_for(
        world_queued,
        id,
    )
}

/// The updates for an agent among one run of updates and then another are
/// those among the first and then those among the second.
pub proof fn lemma_updates_for_concat<U>(first: Seq<(u64, U)>, then: Seq<(u64, U)>, id: u64)
    ensures
        updates_for(first + then, id) == updates_for(first, id) + updates_for(then, id),
    decreases then.len(),
{
    if then.len() > 0 {
        lemma_updates_for_concat(first, then.drop_last(), id);
        assert((first + then).drop_last() =~= first + then.drop_last());
    }
}

/// Sorting updates by owner loses none of an agent's updates: among the
/// updates for the agents of its owner are all that were queued for it, in
/// their order.
pub proof fn lemma_updates_for_owned<U>(log: Seq<(u64, U)>, worker: nat, workers: nat, id: u64)
    requires
        shard_of(id, workers) == worker,
    ensures
        updates_for(owned_pairs(log, worker, workers), id) == updates_for(log, id),
    decreases log.len(),
{
    if log.len() > 0 {
        lemma_updates_for_owned(log.drop_last(), worker, workers, id);
        if shard_of(log.last().0, workers) == worker {
            assert(owned_pairs(log, worker, workers).drop_last() =~= owned_pairs(
                log.drop_last(),
                worker,
                workers,
            ));
        }
    }
}

/// What has come in on the list of an agent's owner holds, for the agent,
/// what each of the deciders has queued for it.
pub proof fn lemma_gathered_for<U>(
    queued: Seq<Seq<(u64, U)>>,
    order: Seq<usize>,
    worker: usize,
    workers: nat,
    id: u64,
)
    requires
        shard_of(id, workers) == worker,
    ensures
        updates_for(gathered(queued, order, worker, workers), id) == queued_for(queued, order, id),
    decreases order.len(),
{
    if order.len() > 0 {
        lemma_gathered_for(queued, order.drop_last(), worker, workers, id);
        lemma_updates_for_concat(
            gathered(queued, order.drop_last(), worker, workers),
            owned_pairs(queued[order.last() as int], worker as nat, workers),
            id,
        );
        lemma_updates_for_owned(queued[order.last() as int], worker as nat, workers, id);
    }
}

/// Updates wait for an agent just when some were filed for it.
pub proof fn lemma_filed_keys<U>(pairs: Seq<(u64, U)>, id: u64)
    ensures
        filed(Map::<u64, Seq<U>>::empty(), pairs).contains_key(id) <==> updates_for(pairs, id).len()
            > 0,
    decreases pairs.len(),
{
    if pairs.len() > 0 {
        lemma_filed_keys(pairs.drop_last(), id);
    }
}

/// Every step applies the updates of its own deciding, all of them, once.
/// At any point of any run at which the manager publishes `decide`: when
/// the workers have decided, the world has decided and the workers have
/// updated, every agent that updates were queued for in this step was
/// handed to the simulation's `update` once, with all of them: those that
/// the agents of its own worker queued, those of every other worker, and
/// those of the world. An agent that none were queued for is as it was. No
/// update is left for another step. Between these three the manager only
/// counts the finished and clears them, which changes nothing.
pub proof fn lemma_step_applies_updates_once<S: Simulation>(
    begin: Progress,
    rules: S,
    from: Cluster<S>,
    replies: Seq<Reply>,
    reply: Reply,
    before: Cluster<S>,
    queued: Seq<Seq<(u64, S::Update)>>,
    changes: Seq<Seq<PopulationUpdate<S::State>>>,
    landed: Seq<Seq<usize>>,
    decided_on: Cluster<S>,
    world_queued: Seq<(u64, S::Update)>,
    world_changes: Seq<PopulationUpdate<S::State>>,
    world_decided_on: Cluster<S>,
    after: Cluster<S>,
    worker: usize,
    id: u64,
)
    requires
        begin.stage == Stage::Waiting,
        untouched(from),
        reached(begin, rules, from, replies, before),
        advance(course(begin, replies).0, reply).1 == Request::Publish(Signal::Decide),
        decided(
            before,
            queued,
            changes,
            landed,
            decided_on,
            course(begin, replies).0.n_workers as nat,
        ),
        world_decided(
            decided_on,
            world_queued,
            world_changes,
            world_decided_on,
            course(begin, replies).0.n_workers as nat,
        ),
        updated(world_decided_on, rules, after),
        before.local(worker).contains_key(id),
    ensures
        worker == shard_of(id, course(begin, replies).0.n_workers as nat),
        walks_others(landed[worker as int], worker, course(begin, replies).0.n_workers as nat),
        after.local(worker).contains_key(id),
        ({
            let all = step_updates(queued, landed[worker as int], world_queued, worker, id);
            let was = before.local(worker)[id];
            let is = after.local(worker)[id];
            if all.len() > 0 {
                is.id == was.id && exists|changed: bool|
                    updates_to(rules, was.state, all, is.state, changed)
            } else {
                is == was
            }
        }),
        after.no_updates(),
{
    let at = course(begin, replies).0;
    let workers = at.n_workers as nat;
    lemma_run_stays_tidy(begin, rules, from, replies, before);
    let order = landed[worker as int];
    let own = owned_pairs(queued[worker as int], worker as nat, workers);
    let others = gathered(queued, order, worker, workers);
    let world = owned_pairs(world_queued, worker as nat, workers);
    let none = Map::<u64, Seq<S::Update>>::empty();
    assert(world_decided_on.update_list(worker).reverse() =~= others + world);
    lemma_filed_concat(none, own, others + world);
    let sent = own + (others + world);
    lemma_filed_by_agent(none, sent, id);
    lemma_filed_keys(sent, id);
    lemma_updates_for_concat(own, others + world, id);
    lemma_updates_for_concat(others, world, id);
    lemma_updates_for_owned(queued[worker as int], worker as nat, workers, id);
    lemma_updates_for_owned(world_queued, worker as nat, workers, id);
    lemma_gathered_for(queued, order, worker, workers, id);
    let all = step_updates(queued, order, world_queued, worker, id);
    assert(updates_for(sent, id) =~= all);
}

} // verus!
