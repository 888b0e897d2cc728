//! The worker: the owner of one shard of the population.

use crate::hash::{shard_of, WHasher};
use crate::ids::random_uuid;
use crate::keys::Key;
use crate::lists::{batch_at, batches_proper, Batch, Lists};
use crate::population::{
    ids_of, killed, lemma_one_owner, lemma_owned_positions, lemma_sorted_mutations,
    lemma_update_plans_all, picked, routes, spawned, Population,
};
use crate::signal::Signal;
use crate::sim::{apply_updates, decide_for, decides_to, updates_to, Agent, Simulation, State};
use crate::store::Redis;
use crate::table::{table_get, table_insert, table_keys, table_len, table_remove};
use crate::updates::{unless_empty, PopulationUpdate, Staged, Updates};
use fnv::FnvHashMap;
use vstd::prelude::*;
use vstd::std_specs::hash::group_hash_axioms;

verus! {

/// What a worker has to do next. When a phase is done the worker reports
/// to the manager as finished, by its index, and listens again.
#[derive(Clone, Copy, Debug, PartialEq, Eq, Structural)]
pub enum Task {
    /// Join the set of workers, subscribe to the command channel, and listen.
    Register,
    /// Wait for the next command.
    Listen,
    /// Claim a worker index from the list of free ones, and ask how many
    /// workers there are.
    Claim,
    /// Read and drain the own spawn and kill lists, and bring the local
    /// agents up to date.
    Sync,
    /// Let every local agent decide, and send what they queued.
    Decide,
    /// Read and delete the own list of updates, apply the updates, and store
    /// the states that changed.
    Update,
    /// Leave the set of workers, and stop.
    Leave,
    /// The command is not known: report it, and listen again.
    Unknown,
}

impl Task {
    /// Whether the task is a phase of a step, at the end of which the worker
    /// reports to the manager as finished.
    pub open spec fn is_phase(&self) -> bool {
        *self == Task::Sync || *self == Task::Decide || *self == Task::Update
    }

    /// Whether the worker reports to the manager as finished when the task
    /// is done.
    pub fn reports(&self) -> (reports: bool)
        ensures
            reports == self.is_phase(),
    {
        match self {
            Task::Sync => true,
            Task::Decide => true,
            Task::Update => true,
            _ => false,
        }
    }

    /// Whether the worker stops when the task is done.
    pub fn is_last(&self) -> (last: bool)
        ensures
            last == (*self == Task::Leave),
    {
        match self {
            Task::Leave => true,
            _ => false,
        }
    }
}

/// The list that a map of lists holds for `id`: empty where it holds none.
pub open spec fn list_at<U>(lists: Map<u64, Seq<U>>, id: u64) -> Seq<U> {
    if lists.contains_key(id) {
        lists[id]
    } else {
        Seq::empty()
    }
}

/// The lists after each update of `pairs` was put, in the order of `pairs`,
/// at the end of the list of its agent.
pub open spec fn filed<U>(lists: Map<u64, Seq<U>>, pairs: Seq<(u64, U)>) -> Map<u64, Seq<U>>
    decreases pairs.len(),
{
    if pairs.len() == 0 {
        lists
    } else {
        let before = filed(lists, pairs.drop_last());
        before.insert(pairs.last().0, list_at(before, pairs.last().0).push(pairs.last().1))
    }
}

/// The agents after each of `spawned` was adopted under its id, in the order
/// of `spawned`: of two agents with one id the later stays.
pub open spec fn adopted<S: State>(agents: Map<u64, Agent<S>>, spawned: Seq<Agent<S>>) -> Map<
    u64,
    Agent<S>,
>
    decreases spawned.len(),
{
    if spawned.len() == 0 {
        agents
    } else {
        adopted(agents, spawned.drop_last()).insert(spawned.last().id, spawned.last())
    }
}

/// Whether `after` is what became of the agent `before` in an update phase
/// with the updates `waiting`. An agent that updates wait for is handed to
/// the simulation's `update` once, with all of them in their order, and
/// `changed` says whether the simulation calls its state changed. An agent
/// that no updates wait for stays as it is, and is not called changed.
pub open spec fn settled<S: Simulation>(
    rules: S,
    before: Agent<S::State>,
    waiting: Map<u64, Seq<S::Update>>,
    after: Agent<S::State>,
    changed: bool,
) -> bool {
    if waiting.contains_key(before.id) {
        after.id == before.id && updates_to(
            rules,
            before.state,
            waiting[before.id],
            after.state,
            changed,
        )
    } else {
        after == before && !changed
    }
}

/// Whether the agents of `local` have decided in the order `order`, each of
/// them once, and `buffers` is what they made of the buffer one after the
/// other: each agent was handed the buffer as the one before had left it.
pub open spec fn consulted<S: Simulation, C: Redis>(
    rules: S,
    local: Map<u64, Agent<S::State>>,
    world: S::World,
    population: Population<S, C>,
    order: Seq<u64>,
    buffers: Seq<Updates<S>>,
) -> bool {
    &&& order.no_duplicates()
    &&& order.to_set() == local.dom()
    &&& buffers.len() == order.len() + 1
    &&& forall|j: int|
        0 <= j < order.len() ==> decides_to(
            rules,
            local[#[trigger] order[j]],
            world,
            population,
            buffers[j],
            buffers[j + 1],
        )
}

/// Whether a worker `index` that sends out `buffer` leaves `pending` to
/// wait where `waited` did, and `staged` for the store: the updates for its
/// own agents are put behind those that wait for them, and all the rest
/// goes to the store.
pub open spec fn sent_out<S: Simulation>(
    buffer: Updates<S>,
    index: usize,
    waited: Map<u64, Seq<S::Update>>,
    pending: Map<u64, Seq<S::Update>>,
    staged: Staged<S>,
) -> bool {
    &&& pending == filed(waited, buffer.queued(index))
    &&& forall|worker: usize| #[trigger]
        batch_at(staged.updates@, worker) == (if worker == index {
            Seq::empty()
        } else {
            buffer.queued(worker)
        })
    &&& unless_empty(buffer.population(), staged.population)
    &&& unless_empty(buffer.world(), staged.world)
}

/// A worker holds the agents of one shard, lets them decide, and applies the
/// updates that are addressed to them.
pub struct Worker<S: Simulation, C: Redis> {
    id: usize,
    uid: String,
    population: Population<S, C>,
    local: FnvHashMap<u64, Agent<S::State>>,
    updates: Lists<u64, S::Update>,
    simulation: S,
    queued_updates: Updates<S>,
    started: bool,
}

impl<S: Simulation, C: Redis> Worker<S, C> {
    /// The index of the worker among the workers.
    pub closed spec fn index(&self) -> usize {
        self.id
    }

    /// The name under which the worker registers.
    pub closed spec fn name(&self) -> Seq<char> {
        self.uid@
    }

    /// The local agents, by their ids.
    pub closed spec fn local(&self) -> Map<u64, Agent<S::State>> {
        self.local@
    }

    /// The updates that wait to be applied, by the ids of their agents.
    pub closed spec fn pending(&self) -> Map<u64, Seq<S::Update>> {
        self.updates@
    }

    /// The buffer that the local agents queue their updates in.
    pub closed spec fn buffer(&self) -> Updates<S> {
        self.queued_updates
    }

    /// The view of the population that the local agents decide on.
    pub closed spec fn view(&self) -> Population<S, C> {
        self.population
    }

    /// The simulation that the worker runs.
    pub closed spec fn rules(&self) -> S {
        self.simulation
    }

    /// Whether the manager has started a run.
    pub closed spec fn started(&self) -> bool {
        self.started
    }

    /// Whether every local agent is kept under its own id.
    pub open spec fn wf(&self) -> bool {
        &&& self.local().dom().finite()
        &&& forall|id: u64| #[trigger] self.local().contains_key(id) ==> self.local()[id].id == id
    }

    pub fn new(conn: C, simulation: S) -> (worker: Worker<S, C>)
        ensures
            worker.wf(),
            worker.index() == 0,
            worker.local() == Map::<u64, Agent<S::State>>::empty(),
            worker.pending() == Map::<u64, Seq<S::Update>>::empty(),
            worker.buffer().is_empty(),
            worker.buffer().workers() == 0,
            worker.view().workers() is None,
            worker.rules() == simulation,
            !worker.started(),
    {
        let hasher = WHasher::new(0);
        Worker {
            id: 0,
            uid: random_uuid(),
            population: Population::new(simulation.clone(), conn),
            simulation,
            local: FnvHashMap::default(),
            updates: Lists::new(),
            queued_updates: Updates::new(hasher),
            started: false,
        }
    }

    /// The name under which the worker registers with the manager.
    pub fn uid(&self) -> (uid: &String)
        ensures
            uid@ == self.name(),
    {
        &self.uid
    }

    /// The index of the worker among the workers.
    pub fn id(&self) -> (id: usize)
        ensures
            id == self.index(),
    {
        self.id
    }

    /// The view of the population that the local agents decide on.
    pub fn population(&self) -> (population: &Population<S, C>)
        ensures
            *population == self.view(),
    {
        &self.population
    }

    /// The number of local agents.
    pub fn population_size(&self) -> (size: usize)
        ensures
            size == self.local().len(),
    {
        broadcast use group_hash_axioms;

        table_len(&self.local)
    }

    /// The local agent `id`, if there is one.
    pub fn agent(&self, id: u64) -> (agent: Option<&Agent<S::State>>)
        ensures
            agent == (if self.local().contains_key(id) {
                Some(&self.local()[id])
            } else {
                None
            }),
    {
        broadcast use group_hash_axioms;

        table_get(&self.local, &id)
    }

    /// Begins: forgets the local agents and the waiting updates, and asks to
    /// be registered with the manager.
    pub fn start(&mut self) -> (task: Task)
        ensures
            task == Task::Register,
            final(self).wf(),
            final(self).local() == Map::<u64, Agent<S::State>>::empty(),
            final(self).pending() == Map::<u64, Seq<S::Update>>::empty(),
            !final(self).started(),
            final(self).index() == old(self).index(),
            final(self).name() == old(self).name(),
            final(self).buffer() == old(self).buffer(),
            final(self).view() == old(self).view(),
            final(self).rules() == old(self).rules(),
    {
        self.local.clear();
        self.updates.clear();
        self.started = false;
        Task::Register
    }

    /// What a command asks of a worker that takes part in a run.
    pub fn process_cmd(&self, cmd: &str) -> (task: Task)
        ensures
            task == match Signal::spec_parse(cmd@) {
                Some(Signal::Terminate) => Task::Leave,
                Some(Signal::Decide) => Task::Decide,
                Some(Signal::Update) => Task::Update,
                Some(Signal::Sync) => Task::Sync,
                Some(Signal::Start) => Task::Unknown,
                None => Task::Unknown,
            },
    {
        match Signal::parse(cmd) {
            Some(Signal::Terminate) => Task::Leave,
            Some(Signal::Decide) => Task::Decide,
            Some(Signal::Update) => Task::Update,
            Some(Signal::Sync) => Task::Sync,
            _ => Task::Unknown,
        }
    }

    /// Takes a message from the command channel. Until the manager starts a
    /// run, everything but `start` is passed over; after that each message
    /// is a command.
    pub fn on_message(&mut self, payload: &str) -> (task: Task)
        ensures
            !old(self).started() ==> task == (if Signal::spec_parse(payload@) == Some(
                Signal::Start,
            ) {
                Task::Claim
            } else {
                Task::Listen
            }),
            !old(self).started() ==> final(self).started() == (Signal::spec_parse(payload@)
                == Some(Signal::Start)),
            old(self).started() ==> final(self).started() && task == match Signal::spec_parse(
                payload@,
            ) {
                Some(Signal::Terminate) => Task::Leave,
                Some(Signal::Decide) => Task::Decide,
                Some(Signal::Update) => Task::Update,
                Some(Signal::Sync) => Task::Sync,
                Some(Signal::Start) => Task::Unknown,
                None => Task::Unknown,
            },
            final(self).wf() == old(self).wf(),
            final(self).local() == old(self).local(),
            final(self).pending() == old(self).pending(),
            final(self).index() == old(self).index(),
            final(self).name() == old(self).name(),
            final(self).buffer() == old(self).buffer(),
            final(self).view() == old(self).view(),
            final(self).rules() == old(self).rules(),
    {
        if self.started {
            self.process_cmd(payload)
        } else {
            match Signal::parse(payload) {
                Some(Signal::Start) => {
                    self.started = true;
                    Task::Claim
                },
                _ => Task::Listen,
            }
        }
    }

    /// Takes the index `id` among `n_workers` workers: from now on updates
    /// are filed, and the population is spread, over that many workers.
    pub fn claim(&mut self, id: usize, n_workers: usize)
        ensures
            final(self).index() == id,
            final(self).buffer().workers() == n_workers,
            final(self).buffer().shards() == old(self).buffer().shards(),
            final(self).buffer().world() == old(self).buffer().world(),
            final(self).buffer().population() == old(self).buffer().population(),
            final(self).view().workers() == Some(n_workers as nat),
            final(self).wf() == old(self).wf(),
            final(self).local() == old(self).local(),
            final(self).pending() == old(self).pending(),
            final(self).name() == old(self).name(),
            final(self).started() == old(self).started(),
            final(self).rules() == old(self).rules(),
    {
        self.id = id;
        let hasher = WHasher::new(n_workers);
        self.queued_updates.set_hasher(hasher);
        self.population.set_hasher(hasher);
    }

    /// Fetches the new agents assigned to this worker and drops those that
    /// were killed: given the worker's spawn list and kill list as they were
    /// read, adopts every spawned agent under its id and then drops every
    /// killed id. Hands back the keys of the lists that held something, to
    /// be deleted.
    pub fn sync_population(&mut self, spawned: Vec<Agent<S::State>>, killed: Vec<u64>) -> (doomed:
        Vec<Key>)
        requires
            old(self).wf(),
        ensures
            final(self).wf(),
            final(self).local() == adopted(old(self).local(), spawned@).remove_keys(
                killed@.to_set(),
            ),
            doomed@ == (if spawned@.len() > 0 {
                seq![Key::Spawn(old(self).index())]
            } else {
                Seq::empty()
            }) + (if killed@.len() > 0 {
                seq![Key::Kill(old(self).index())]
            } else {
                Seq::empty()
            }),
            final(self).pending() == old(self).pending(),
            final(self).index() == old(self).index(),
            final(self).name() == old(self).name(),
            final(self).buffer() == old(self).buffer(),
            final(self).view() == old(self).view(),
            final(self).rules() == old(self).rules(),
            final(self).started() == old(self).started(),
    {
        broadcast use group_hash_axioms;

        let mut doomed: Vec<Key> = Vec::new();
        if spawned.len() > 0 {
            doomed.push(Key::Spawn(self.id));
        }
        let ghost given = spawned@;
        for agent in it: spawned
            invariant
                it.seq() == given,
                self.local@.dom().finite(),
                forall|id: u64| #[trigger]
                    self.local@.contains_key(id) ==> self.local@[id].id == id,
                self.local@ == adopted(old(self).local@, given.take(it.index())),
                self.updates == old(self).updates,
                self.id == old(self).id,
                self.uid == old(self).uid,
                self.queued_updates == old(self).queued_updates,
                self.population == old(self).population,
                self.simulation == old(self).simulation,
                self.started == old(self).started,
        {
            proof {
                let next = given.take(it.index() + 1);
                assert(next.drop_last() =~= given.take(it.index()));
            }
            table_insert(&mut self.local, agent.id, agent);
        }
        assert(given.take(given.len() as int) =~= given);
        if killed.len() > 0 {
            doomed.push(Key::Kill(self.id));
        }
        let ghost grown = self.local@;
        let mut i: usize = 0;
        while i < killed.len()
            invariant
                0 <= i <= killed.len(),
                self.local@.dom().finite(),
                forall|id: u64| #[trigger]
                    self.local@.contains_key(id) ==> self.local@[id].id == id,
                self.local@ == grown.remove_keys(killed@.take(i as int).to_set()),
                self.updates == old(self).updates,
                self.id == old(self).id,
                self.uid == old(self).uid,
                self.queued_updates == old(self).queued_updates,
                self.population == old(self).population,
                self.simulation == old(self).simulation,
                self.started == old(self).started,
            decreases killed.len() - i,
        {
            let id = killed[i];
            proof {
                let next = killed@.take(i + 1);
                assert(next =~= killed@.take(i as int).push(id));
                killed@.take(i as int).lemma_push_to_set_commute(id);
            }
            table_remove(&mut self.local, &id);
            i = i + 1;
        }
        assert(killed@.take(killed.len() as int) =~= killed@);
        doomed
    }

    /// Sends out what the local agents have queued. The updates for agents
    /// of this worker never leave it: they are put straight behind the
    /// updates that wait for those agents. The rest is emptied into a plan
    /// for the store.
    pub fn collect(&mut self) -> (staged: Staged<S>)
        ensures
            final(self).pending() == filed(
                old(self).pending(),
                old(self).buffer().queued(old(self).index()),
            ),
            batches_proper(staged.updates@),
            forall|worker: usize| #[trigger]
                batch_at(staged.updates@, worker) == (if worker == old(self).index() {
                    Seq::empty()
                } else {
                    old(self).buffer().queued(worker)
                }),
            unless_empty(old(self).buffer().population(), staged.population),
            unless_empty(old(self).buffer().world(), staged.world),
            final(self).buffer().is_empty(),
            final(self).buffer().workers() == old(self).buffer().workers(),
            final(self).wf() == old(self).wf(),
            final(self).local() == old(self).local(),
            final(self).index() == old(self).index(),
            final(self).name() == old(self).name(),
            final(self).view() == old(self).view(),
            final(self).rules() == old(self).rules(),
            final(self).started() == old(self).started(),
    {
        broadcast use group_hash_axioms;

        match self.queued_updates.take(self.id) {
            Some(updates) => {
                let ghost given = updates@;
                for pair in it: updates
                    invariant
                        it.seq() == given,
                        self.updates@ == filed(old(self).updates@, given.take(it.index())),
                        self.local == old(self).local,
                        self.id == old(self).id,
                        self.uid == old(self).uid,
                        self.population == old(self).population,
                        self.simulation == old(self).simulation,
                        self.started == old(self).started,
                        self.queued_updates.shards() == old(self).queued_updates.shards().remove(
                            self.id,
                        ),
                        self.queued_updates.world() == old(self).queued_updates.world(),
                        self.queued_updates.population() == old(self).queued_updates.population(),
                        self.queued_updates.workers() == old(self).queued_updates.workers(),
                {
                    proof {
                        let next = given.take(it.index() + 1);
                        assert(next.drop_last() =~= given.take(it.index()));
                    }
                    let (id, update) = pair;
                    self.updates.add(id, update);
                }
                assert(given.take(given.len() as int) =~= given);
            },
            None => {},
        }
        self.queued_updates.push()
    }

    /// The number of workers that the worker's buffer files updates for.
    pub fn n_workers(&self) -> (workers: usize)
        ensures
            workers == self.buffer().workers(),
    {
        self.queued_updates.n_workers()
    }

    /// Lets every local agent decide on `world`, and sends out what they
    /// have queued. The agents are walked in some order, each of them once;
    /// each is handed the buffer as the one before has left it, the first
    /// the buffer as it was. What the last one leaves is sent out: the
    /// updates for agents of this worker are put behind those that wait
    /// for them, the rest is emptied into a plan for the store. No local
    /// agent changes.
    pub fn decide(&mut self, world: &S::World) -> (staged: Staged<S>)
        requires
            old(self).wf(),
            old(self).buffer().workers() > 0,
        ensures
            exists|order: Seq<u64>, buffers: Seq<Updates<S>>|
                {
                    &&& #[trigger] consulted(
                        old(self).rules(),
                        old(self).local(),
                        *world,
                        old(self).view(),
                        order,
                        buffers,
                    )
                    &&& buffers.first() == old(self).buffer()
                    &&& sent_out(
                        buffers.last(),
                        old(self).index(),
                        old(self).pending(),
                        final(self).pending(),
                        staged,
                    )
                },
            forall|id: u64|
                list_at(old(self).pending(), id).is_prefix_of(
                    #[trigger] list_at(final(self).pending(), id),
                ),
            batches_proper(staged.updates@),
            final(self).buffer().is_empty(),
            final(self).buffer().workers() == old(self).buffer().workers(),
            final(self).wf(),
            final(self).local() == old(self).local(),
            final(self).index() == old(self).index(),
            final(self).name() == old(self).name(),
            final(self).view() == old(self).view(),
            final(self).rules() == old(self).rules(),
            final(self).started() == old(self).started(),
    {
        broadcast use group_hash_axioms;

        let keys = table_keys(&self.local);
        let mut buffer = Updates::new(WHasher::new(0));
        core::mem::swap(&mut self.queued_updates, &mut buffer);
        let ghost mut buffers = seq![buffer];
        let mut i: usize = 0;
        while i < keys.len()
            invariant
                0 <= i <= keys.len(),
                keys@.to_set() == self.local@.dom(),
                self.local == old(self).local,
                self.updates == old(self).updates,
                self.id == old(self).id,
                self.uid == old(self).uid,
                self.population == old(self).population,
                self.simulation == old(self).simulation,
                self.started == old(self).started,
                buffers.len() == i + 1,
                buffers.first() == old(self).queued_updates,
                buffers.last() == buffer,
                buffer.workers() == old(self).queued_updates.workers(),
                buffer.workers() > 0,
                forall|j: int|
                    0 <= j < i ==> decides_to(
                        self.simulation,
                        self.local@[#[trigger] keys@[j]],
                        *world,
                        self.population,
                        buffers[j],
                        buffers[j + 1],
                    ),
            decreases keys.len() - i,
        {
            assert(keys@.to_set().contains(keys@[i as int]));
            match table_get(&self.local, &keys[i]) {
                Some(agent) => {
                    buffer = decide_for(&self.simulation, agent, world, &self.population, buffer);
                },
                None => {},
            }
            proof {
                buffers = buffers.push(buffer);
            }
            i = i + 1;
        }
        core::mem::swap(&mut self.queued_updates, &mut buffer);
        let ghost queued = self.queued_updates.queued(self.id);
        let staged = self.collect();
        proof {
            lemma_filed_extends(old(self).pending(), queued);
            assert(consulted(
                old(self).rules(),
                old(self).local(),
                *world,
                old(self).view(),
                keys@,
                buffers,
            ));
        }
        staged
    }

    /// Applies the updates that wait for the local agents. `fetched` is the
    /// worker's list of updates as the store hands it out: the latest first.
    /// They are put, the earliest first, behind the updates that wait
    /// already. Then every local agent that updates wait for is updated
    /// once, with all of them, in that order. No update outlives the step:
    /// what is addressed to an agent that is not here is dropped. Hands back
    /// the ids of the agents whose state the simulation calls changed, to be
    /// stored.
    pub fn update(&mut self, fetched: Vec<(u64, S::Update)>) -> (changed: Vec<u64>)
        requires
            old(self).wf(),
        ensures
            final(self).wf(),
            final(self).local().dom() == old(self).local().dom(),
            forall|id: u64| #[trigger]
                old(self).local().contains_key(id) ==> settled(
                    old(self).rules(),
                    old(self).local()[id],
                    filed(old(self).pending(), fetched@.reverse()),
                    final(self).local()[id],
                    changed@.contains(id),
                ),
            final(self).pending() == Map::<u64, Seq<S::Update>>::empty(),
            changed@.no_duplicates(),
            forall|id: u64| changed@.contains(id) ==> old(self).local().contains_key(id),
            final(self).index() == old(self).index(),
            final(self).name() == old(self).name(),
            final(self).buffer() == old(self).buffer(),
            final(self).view() == old(self).view(),
            final(self).rules() == old(self).rules(),
            final(self).started() == old(self).started(),
    {
        broadcast use group_hash_axioms;

        let ghost given = fetched@;
        let ghost earliest_first = given.reverse();
        let mut fetched = fetched;
        while fetched.len() > 0
            invariant
                fetched@.len() <= given.len(),
                earliest_first == given.reverse(),
                fetched@ == given.take(fetched@.len() as int),
                self.updates@ == filed(
                    old(self).updates@,
                    earliest_first.take(given.len() - fetched@.len()),
                ),
                self.local == old(self).local,
                self.id == old(self).id,
                self.uid == old(self).uid,
                self.population == old(self).population,
                self.simulation == old(self).simulation,
                self.queued_updates == old(self).queued_updates,
                self.started == old(self).started,
            decreases fetched.len(),
        {
            let ghost done = given.len() - fetched@.len();
            let pair = fetched.pop().unwrap();
            proof {
                let next = earliest_first.take(done + 1);
                assert(next.drop_last() =~= earliest_first.take(done));
            }
            let (id, update) = pair;
            self.updates.add(id, update);
        }
        assert(earliest_first.take(given.len() as int) =~= earliest_first);
        let ghost waiting = self.updates@;
        let ghost before = old(self).local@;
        let ghost rules = old(self).simulation;

        let keys = table_keys(&self.local);
        let mut changed: Vec<u64> = Vec::new();
        let mut i: usize = 0;
        while i < keys.len()
            invariant
                0 <= i <= keys.len(),
                keys@.no_duplicates(),
                keys@.to_set() == before.dom(),
                before == old(self).local@,
                rules == old(self).simulation,
                before.dom().finite(),
                forall|id: u64| #[trigger] before.contains_key(id) ==> before[id].id == id,
                self.local@.dom() == before.dom(),
                forall|id: u64| #[trigger]
                    before.contains_key(id) ==> (if keys@.take(i as int).contains(id) {
                        settled(rules, before[id], waiting, self.local@[id], changed@.contains(id))
                    } else {
                        self.local@[id] == before[id]
                    }),
                self.updates@ == waiting.remove_keys(keys@.take(i as int).to_set()),
                changed@.no_duplicates(),
                forall|id: u64| changed@.contains(id) ==> keys@.take(i as int).contains(id),
                self.id == old(self).id,
                self.uid == old(self).uid,
                self.population == old(self).population,
                self.simulation == old(self).simulation,
                self.queued_updates == old(self).queued_updates,
                self.started == old(self).started,
            decreases keys.len() - i,
        {
            let id = keys[i];
            let ghost done = keys@.take(i as int);
            let ghost now = keys@.take(i + 1);
            let ghost marked = changed@;
            proof {
                assert forall|k: u64| now.contains(k) <==> (done.contains(k) || k == id) by {
                    if k == id {
                        assert(now[done.len() as int] == k);
                    }
                }
            }
            match self.updates.take(id) {
                Some(updates) => {
                    let agent = table_remove(&mut self.local, &id).unwrap();
                    let Agent { id: agent_id, state } = agent;
                    let (state, has_changed) = apply_updates(&self.simulation, state, updates);
                    if has_changed {
                        changed.push(agent_id);
                    }
                    table_insert(&mut self.local, id, Agent { id: agent_id, state });
                    proof {
                        if has_changed {
                            assert(changed@[marked.len() as int] == id);
                        }
                        assert forall|k: u64| changed@.contains(k) <==> (marked.contains(k)
                            || (has_changed && k == id)) by {
                            if marked.contains(k) {
                                let j = choose|j: int| 0 <= j < marked.len() && marked[j] == k;
                                assert(changed@[j] == k);
                            }
                        }
                        assert(!marked.contains(id));
                    }
                },
                None => {},
            }
            proof {
                assert forall|k: u64| changed@.contains(k) implies now.contains(k) by {
                    assert(marked.contains(k) ==> done.contains(k));
                }
            }
            i = i + 1;
        }
        self.updates.clear();
        proof {
            assert(keys@.take(keys@.len() as int) =~= keys@);
        }
        changed
    }
}

/// Filing more updates never shortens or reorders a list that waits: every
/// list stays the beginning of what it becomes.
pub proof fn lemma_filed_extends<U>(lists: Map<u64, Seq<U>>, pairs: Seq<(u64, U)>)
    ensures
        forall|id: u64|
            list_at(lists, id).is_prefix_of(#[trigger] list_at(filed(lists, pairs), id)),
    decreases pairs.len(),
{
    if pairs.len() > 0 {
        lemma_filed_extends(lists, pairs.drop_last());
        let before = filed(lists, pairs.drop_last());
        let after = filed(lists, pairs);
        assert forall|id: u64|
            list_at(lists, id).is_prefix_of(#[trigger] list_at(after, id)) by {
            assert(list_at(lists, id).is_prefix_of(list_at(before, id)));
        }
    }
}

/// Filing one run of updates and then another is filing both in one go.
pub proof fn lemma_filed_concat<U>(
    lists: Map<u64, Seq<U>>,
    first: Seq<(u64, U)>,
    then: Seq<(u64, U)>,
)
    ensures
        filed(lists, first + then) == filed(filed(lists, first), then),
    decreases then.len(),
{
    if then.len() > 0 {
        lemma_filed_concat(lists, first, then.drop_last());
        assert((first + then).drop_last() =~= first + then.drop_last());
    }
}

/// A list of the store after `items` were pushed on it: each item in turn
/// goes to the head, so the latest comes first.
pub open spec fn pushed<T>(list: Seq<T>, items: Seq<T>) -> Seq<T> {
    items.reverse() + list
}

/// Updates are applied in the order in which they were sent. When one
/// batch and then another is pushed on a worker's empty list of updates,
/// and the worker then takes the list as the store holds it, the updates
/// are filed as if the first batch and then the second had been filed
/// directly, each in its own order.
pub proof fn lemma_sent_order_kept<U>(
    lists: Map<u64, Seq<U>>,
    first: Seq<(u64, U)>,
    then: Seq<(u64, U)>,
)
    ensures
        filed(lists, pushed(pushed(Seq::empty(), first), then).reverse()) == filed(
            filed(lists, first),
            then,
        ),
{
    let fetched = pushed(pushed(Seq::<(u64, U)>::empty(), first), then);
    assert(fetched.reverse() =~= first + then);
    lemma_filed_concat(lists, first, then);
}

/// The updates of `pairs` that are for the agent `id`, in the order of
/// `pairs`.
pub open spec fn updates_for<U>(pairs: Seq<(u64, U)>, id: u64) -> Seq<U>
    decreases pairs.len(),
{
    if pairs.len() == 0 {
        Seq::empty()
    } else if pairs.last().0 == id {
        updates_for(pairs.drop_last(), id).push(pairs.last().1)
    } else {
        updates_for(pairs.drop_last(), id)
    }
}

/// Filing sorts by agent and keeps the order: each agent's list grows by
/// exactly the updates that are addressed to it.
pub proof fn lemma_filed_by_agent<U>(lists: Map<u64, Seq<U>>, pairs: Seq<(u64, U)>, id: u64)
    ensures
        list_at(filed(lists, pairs), id) == list_at(lists, id) + updates_for(pairs, id),
    decreases pairs.len(),
{
    if pairs.len() > 0 {
        lemma_filed_by_agent(lists, pairs.drop_last(), id);
    }
}

/// Whether every agent of `agents` belongs to `worker` among `workers`
/// workers.
pub open spec fn all_owned<S: State>(
    agents: Map<u64, Agent<S>>,
    worker: usize,
    workers: nat,
) -> bool {
    forall|id: u64| #[trigger] agents.contains_key(id) ==> shard_of(id, workers) == worker
}

/// No agent has two owners: two workers that each hold only agents of their
/// own, among the same number of workers, hold no agent in common.
pub proof fn lemma_shards_disjoint<S: State>(
    one: Map<u64, Agent<S>>,
    other: Map<u64, Agent<S>>,
    worker: usize,
    another: usize,
    workers: nat,
)
    requires
        worker != another,
        all_owned(one, worker, workers),
        all_owned(other, another, workers),
    ensures
        forall|id: u64| !(one.contains_key(id) && other.contains_key(id)),
{
}

/// What a sync adopts: every agent of the spawn list is local afterwards,
/// unless it was killed, and those that were local stay, unless they were
/// killed. The ids of the kill list are gone.
pub proof fn lemma_sync_adopts<S: State>(
    local: Map<u64, Agent<S>>,
    spawned: Seq<Agent<S>>,
    killed: Seq<u64>,
    id: u64,
)
    ensures
        adopted(local, spawned).remove_keys(killed.to_set()).contains_key(id) <==> !killed.contains(
            id,
        ) && (local.contains_key(id) || exists|i: int|
            0 <= i < spawned.len() && (#[trigger] spawned[i]).id == id),
    decreases spawned.len(),
{
    if spawned.len() > 0 {
        let rest = spawned.drop_last();
        lemma_sync_adopts(local, rest, killed, id);
        if exists|i: int| 0 <= i < spawned.len() && (#[trigger] spawned[i]).id == id {
            let i = choose|i: int| 0 <= i < spawned.len() && (#[trigger] spawned[i]).id == id;
            if i < rest.len() {
                assert(rest[i].id == id);
            }
        }
    }
}

/// A worker that holds only agents of its own, and adopts only agents of its
/// own, holds only agents of its own after the sync.
pub proof fn lemma_sync_keeps_shard<S: State>(
    local: Map<u64, Agent<S>>,
    spawned: Seq<Agent<S>>,
    killed: Seq<u64>,
    worker: usize,
    workers: nat,
)
    requires
        all_owned(local, worker, workers),
        forall|i: int|
            0 <= i < spawned.len() ==> shard_of((#[trigger] spawned[i]).id, workers) == worker,
    ensures
        all_owned(adopted(local, spawned).remove_keys(killed.to_set()), worker, workers),
{
    assert forall|id: u64| #[trigger]
        adopted(local, spawned).remove_keys(killed.to_set()).contains_key(id) implies shard_of(
        id,
        workers,
    ) == worker by {
        lemma_sync_adopts(local, spawned, killed, id);
    }
}

/// A spawn takes effect at the next sync. A spawn that is pending when the
/// manager applies the pending changes is put on the spawn list of its
/// owner, and on no other; and when the owner then syncs with its spawn
/// list, the agent is local to it, unless it is killed in the same sync.
pub proof fn lemma_spawn_reaches_owner<S: State>(
    pending: Seq<PopulationUpdate<S>>,
    agents: Seq<Agent<S>>,
    spawn_lists: Seq<Batch<usize, usize>>,
    workers: nat,
    i: int,
    local: Map<u64, Agent<S>>,
    killed: Seq<u64>,
)
    requires
        0 < workers <= usize::MAX,
        pending.len() <= usize::MAX,
        0 <= i < pending.len(),
        pending[i] is Spawn,
        routes(agents, spawn_lists, spawned(pending), workers),
    ensures
        ({
            let id = pending[i]->Spawn_0;
            let owner = shard_of(id, workers) as usize;
            let list = picked(agents, batch_at(spawn_lists, owner));
            &&& exists|k: int|
                0 <= k < list.len() && (#[trigger] list[k]).id == id && list[k].state
                    == pending[i]->Spawn_1
            &&& forall|other: usize, k: int|
                other != owner && 0 <= k < batch_at(spawn_lists, other).len() ==> agents[(
                #[trigger] batch_at(spawn_lists, other)[k]) as int].id != id
            &&& !killed.contains(id) ==> adopted(local, list).remove_keys(
                killed.to_set(),
            ).contains_key(id)
        }),
{
    let id = pending[i]->Spawn_0;
    let state = pending[i]->Spawn_1;
    let owner = shard_of(id, workers) as usize;
    lemma_update_plans_all(pending, i);
    lemma_sorted_mutations(pending);
    let pairs = spawned(pending);
    let j = choose|j: int| 0 <= j < pairs.len() && pairs[j] == (id, state);
    lemma_one_owner(agents, spawn_lists, pairs, workers, j as usize, owner);
    let positions = batch_at(spawn_lists, owner);
    let k = choose|k: int| 0 <= k < positions.len() && positions[k] == j as usize;
    let list = picked(agents, positions);
    assert(list[k] == agents[j]);
    lemma_sync_adopts(local, list, killed, id);
    assert forall|other: usize, k: int|
        other != owner && 0 <= k < batch_at(spawn_lists, other).len() implies agents[(
    #[trigger] batch_at(spawn_lists, other)[k]) as int].id != id by {
        lemma_owned_positions(ids_of(pairs), other as nat, workers);
    }
}

/// The ids of the agents at `positions`, in the order of `positions`.
pub open spec fn picked_ids<S: State>(agents: Seq<Agent<S>>, positions: Seq<usize>) -> Seq<u64> {
    Seq::new(positions.len(), |i: int| agents[positions[i] as int].id)
}

/// A kill takes effect at the next sync. A kill that is pending when the
/// manager applies the pending changes is put on the kill list of the owner
/// of the agent; and when the owner then syncs with its kill list, the agent
/// is no longer local to it.
pub proof fn lemma_kill_reaches_owner<S: State>(
    pending: Seq<PopulationUpdate<S>>,
    agents: Seq<Agent<S>>,
    kill_lists: Seq<Batch<usize, usize>>,
    workers: nat,
    i: int,
    local: Map<u64, Agent<S>>,
    spawned: Seq<Agent<S>>,
)
    requires
        0 < workers <= usize::MAX,
        pending.len() <= usize::MAX,
        0 <= i < pending.len(),
        pending[i] is Kill,
        routes(agents, kill_lists, killed(pending), workers),
    ensures
        ({
            let id = pending[i]->Kill_0;
            let owner = shard_of(id, workers) as usize;
            let list = picked_ids(agents, batch_at(kill_lists, owner));
            &&& list.contains(id)
            &&& !adopted(local, spawned).remove_keys(list.to_set()).contains_key(id)
        }),
{
    let id = pending[i]->Kill_0;
    let state = pending[i]->Kill_1;
    let owner = shard_of(id, workers) as usize;
    lemma_update_plans_all(pending, i);
    lemma_sorted_mutations(pending);
    let pairs = killed(pending);
    let j = choose|j: int| 0 <= j < pairs.len() && pairs[j] == (id, state);
    lemma_one_owner(agents, kill_lists, pairs, workers, j as usize, owner);
    let positions = batch_at(kill_lists, owner);
    let k = choose|k: int| 0 <= k < positions.len() && positions[k] == j as usize;
    let list = picked_ids(agents, positions);
    assert(list[k] == id);
}

} // verus!
