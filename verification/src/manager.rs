//! The manager: it holds the initial population and the reporters, and
//! drives a run step by step.

use crate::hash::WHasher;
use crate::ids::fresh_id;
use crate::keys::Key;
use crate::lists::{batch_at, batches_proper, Lists};
use crate::population::Population;
use crate::signal::Signal;
use crate::sim::{decide_for_world, world_decides_to, world_updates_to, Simulation};
use crate::store::Redis;
use crate::updates::{unless_empty, PopulationUpdate, Staged, Updates};
use vstd::prelude::*;
use vstd::std_specs::hash::{group_hash_axioms, obeys_key_model};

verus! {

/// Where a run stands: what the manager has asked for last.
#[derive(Clone, Copy, Debug, PartialEq, Eq, Structural)]
pub enum Stage {
    /// It waits for workers to register.
    Waiting,
    /// The run is being set up.
    Starting,
    /// The pending changes to the population are being applied.
    Applying,
    /// A command is being published.
    Publishing(Signal),
    /// It waits for all workers to finish the phase of a command.
    Barrier(Signal),
    /// The set of finished workers is being cleared, after the phase of a
    /// command.
    Clearing(Signal),
    /// The reporters run.
    Reporting,
    /// The world decides.
    WorldDeciding,
    /// The world is updated.
    WorldUpdating,
    /// The run is over.
    Done,
}

/// How far a run has come.
#[derive(Clone, Copy, Debug, PartialEq, Eq, Structural)]
pub struct Progress {
    pub stage: Stage,
    /// The number of steps that are complete.
    pub steps: usize,
    /// The number of steps to run.
    pub n_steps: usize,
    /// The number of workers that the run was started with.
    pub n_workers: usize,
}

/// What came of the last directive.
#[derive(Clone, Copy, Debug, PartialEq, Eq, Structural)]
pub enum Reply {
    /// It was carried out.
    Done,
    /// The number of registered workers.
    Workers(usize),
    /// The number of workers that have finished the phase, and the number of
    /// registered workers.
    Finished { finished: usize, workers: usize },
}

/// What the manager asks for next.
#[derive(Clone, Copy, Debug, PartialEq, Eq, Structural)]
pub enum Request {
    /// Wait a second, count the registered workers, and reply with
    /// `Workers`.
    CountWorkers,
    /// Set up the run: replace the list of free worker indices by those of
    /// `Run::worker_ids`, store the world of `Run::take_world`, and add the
    /// initial population to the pending changes.
    Start,
    /// Take the pending changes to the population out of the store, and
    /// carry out what `Population::update` makes of them.
    ApplyPopulation,
    /// Publish the command on the command channel.
    Publish(Signal),
    /// Count the workers that have finished and the registered workers, and
    /// reply with `Finished`.
    CountFinished,
    /// Clear the set of finished workers.
    ClearFinished,
    /// Run the reporters that are due at this step.
    Report { step: usize },
    /// Read the world, let it decide with `Run::world_decide`, and write
    /// what it has queued.
    WorldDecide,
    /// Take the pending world updates out of the store, and store the world
    /// that `Run::world_update` makes of them.
    WorldUpdate,
    /// There is nothing left to do.
    Halt,
}

/// The stage in which a step begins, or the run ends, after `steps` steps.
pub open spec fn turn(steps: usize, n_steps: usize) -> (Stage, Request) {
    if steps < n_steps {
        (Stage::Applying, Request::ApplyPopulation)
    } else {
        (Stage::Publishing(Signal::Terminate), Request::Publish(Signal::Terminate))
    }
}

/// The course of a run: where it stands after a reply, and what is asked
/// next. Once a worker is there the run is set up and `start` is published.
/// Then come the steps. A step is: the pending changes to the population are
/// applied; `sync` is published and awaited; the reporters run; `decide` is
/// published and awaited; the world decides; `update` is published and
/// awaited; the world is updated. After the last step `terminate` is
/// published.
pub open spec fn advance(at: Progress, reply: Reply) -> (Progress, Request) {
    match at.stage {
        Stage::Waiting => match reply {
            Reply::Workers(n) => if n > 0 {
                (Progress { stage: Stage::Starting, n_workers: n, ..at }, Request::Start)
            } else {
                (at, Request::CountWorkers)
            },
            _ => (at, Request::CountWorkers),
        },
        Stage::Starting => (
            Progress { stage: Stage::Publishing(Signal::Start), ..at },
            Request::Publish(Signal::Start),
        ),
        Stage::Applying => (
            Progress { stage: Stage::Publishing(Signal::Sync), ..at },
            Request::Publish(Signal::Sync),
        ),
        Stage::Publishing(signal) => match signal {
            Signal::Start => (
                Progress { stage: turn(at.steps, at.n_steps).0, ..at },
                turn(at.steps, at.n_steps).1,
            ),
            Signal::Terminate => (Progress { stage: Stage::Done, ..at }, Request::Halt),
            _ => (Progress { stage: Stage::Barrier(signal), ..at }, Request::CountFinished),
        },
        Stage::Barrier(signal) => match reply {
            Reply::Finished { finished, workers } => if finished == workers {
                (Progress { stage: Stage::Clearing(signal), ..at }, Request::ClearFinished)
            } else {
                (at, Request::CountFinished)
            },
            _ => (at, Request::CountFinished),
        },
        Stage::Clearing(signal) => match signal {
            Signal::Sync => (
                Progress { stage: Stage::Reporting, ..at },
                Request::Report { step: at.steps },
            ),
            Signal::Decide => (
                Progress { stage: Stage::WorldDeciding, ..at },
                Request::WorldDecide,
            ),
            Signal::Update => (
                Progress { stage: Stage::WorldUpdating, ..at },
                Request::WorldUpdate,
            ),
            _ => (Progress { stage: Stage::Done, ..at }, Request::Halt),
        },
        Stage::Reporting => (
            Progress { stage: Stage::Publishing(Signal::Decide), ..at },
            Request::Publish(Signal::Decide),
        ),
        Stage::WorldDeciding => (
            Progress { stage: Stage::Publishing(Signal::Update), ..at },
            Request::Publish(Signal::Update),
        ),
        Stage::WorldUpdating => if at.steps < at.n_steps {
            (
                Progress {
                    stage: turn((at.steps + 1) as usize, at.n_steps).0,
                    steps: (at.steps + 1) as usize,
                    ..at
                },
                turn((at.steps + 1) as usize, at.n_steps).1,
            )
        } else {
            (Progress { stage: Stage::Done, ..at }, Request::Halt)
        },
        Stage::Done => (at, Request::Halt),
    }
}

/// Whether a reporter that runs every `interval` steps is due at `step`.
pub open spec fn due(step: usize, interval: usize) -> bool {
    interval > 0 && step % interval == 0
}

/// The reporters that are due at `step` when the numbers of steps for
/// which any are registered are walked in the order `walk`: for each number
/// that divides `step`, its reporters in the order in which they were
/// registered.
pub open spec fn due_along<R>(registered: Map<usize, Seq<R>>, walk: Seq<usize>, step: usize) -> Seq<
    R,
>
    decreases walk.len(),
{
    if walk.len() == 0 {
        Seq::empty()
    } else if due(step, walk.last()) {
        due_along(registered, walk.drop_last(), step) + registered[walk.last()]
    } else {
        due_along(registered, walk.drop_last(), step)
    }
}

/// The reporters that are registered for every `interval` steps, in the
/// order in which they were registered.
pub open spec fn registered_for<R>(registered: Map<usize, Seq<R>>, interval: usize) -> Seq<R> {
    if registered.contains_key(interval) {
        registered[interval]
    } else {
        Seq::empty()
    }
}

/// A reporter, once registered, stays: registering another one, for the
/// same number of steps or for another, takes none away and puts none
/// before the others.
pub proof fn lemma_reporters_stay<R>(
    registered: Map<usize, Seq<R>>,
    interval: usize,
    reporter: R,
    other: usize,
)
    ensures
        ({
            let after = registered.insert(
                interval,
                registered_for(registered, interval).push(reporter),
            );
            &&& registered_for(registered, other).is_prefix_of(registered_for(after, other))
            &&& other != interval ==> registered_for(after, other) == registered_for(
                registered,
                other,
            )
            &&& registered_for(after, interval).last() == reporter
        }),
{
}

/// Every registered reporter that is due at a step is among those that are
/// given as due, in whatever order the numbers of steps are walked, also
/// where several were registered for the same number of steps.
pub proof fn lemma_due_reporters_all<R>(
    registered: Map<usize, Seq<R>>,
    walk: Seq<usize>,
    step: usize,
    interval: usize,
    k: int,
)
    requires
        walk.contains(interval),
        registered.contains_key(interval),
        due(step, interval),
        0 <= k < registered[interval].len(),
    ensures
        due_along(registered, walk, step).contains(registered[interval][k]),
    decreases walk.len(),
{
    let before = due_along(registered, walk.drop_last(), step);
    if walk.last() == interval {
        assert((before + registered[interval])[before.len() + k] == registered[interval][k]);
    } else {
        let at = choose|at: int| 0 <= at < walk.len() && walk[at] == interval;
        assert(walk.drop_last()[at] == interval);
        lemma_due_reporters_all(registered, walk.drop_last(), step, interval, k);
        let found = choose|found: int|
            0 <= found < before.len() && before[found] == registered[interval][k];
        if due(step, walk.last()) {
            assert((before + registered[walk.last()])[found] == registered[interval][k]);
        }
    }
}

/// One run of a simulation, as the manager drives it.
pub struct Run<S: Simulation, C: Redis> {
    progress: Progress,
    simulation: S,
    population: Population<S, C>,
    world: Option<S::World>,
    queued_updates: Updates<S>,
}

impl<S: Simulation, C: Redis> Run<S, C> {
    /// How far the run has come.
    pub closed spec fn at(&self) -> Progress {
        self.progress
    }

    /// The world that the run holds: the one to start with, or the one that
    /// decided last.
    pub closed spec fn held(&self) -> Option<S::World> {
        self.world
    }

    /// The simulation that is run.
    pub closed spec fn rules(&self) -> S {
        self.simulation
    }

    /// The view of the population that the manager works on.
    pub closed spec fn view(&self) -> Population<S, C> {
        self.population
    }

    /// The buffer that the world queues its updates in.
    pub closed spec fn buffer(&self) -> Updates<S> {
        self.queued_updates
    }

    /// How far the run has come.
    pub fn progress(&self) -> (progress: Progress)
        ensures
            progress == self.at(),
    {
        self.progress
    }

    /// The view of the population that the manager works on.
    pub fn population(&self) -> (population: &Population<S, C>)
        ensures
            *population == self.view(),
    {
        &self.population
    }

    /// Takes the reply to the last request, and says what to do next.
    pub fn next(&mut self, reply: Reply) -> (request: Request)
        ensures
            (final(self).at(), request) == advance(old(self).at(), reply),
            final(self).held() == old(self).held(),
            final(self).rules() == old(self).rules(),
            request == Request::Start ==> final(self).view().workers() == Some(
                final(self).at().n_workers as nat,
            ) && final(self).buffer().workers() == final(self).at().n_workers
                && final(self).buffer().shards() == old(self).buffer().shards()
                && final(self).buffer().world() == old(self).buffer().world()
                && final(self).buffer().population() == old(self).buffer().population(),
            request != Request::Start ==> final(self).view() == old(self).view(),
            request != Request::Start ==> final(self).buffer() == old(self).buffer(),
    {
        let at = self.progress;
        let (progress, request) = match at.stage {
            Stage::Waiting => match reply {
                Reply::Workers(n) => if n > 0 {
                    (Progress { stage: Stage::Starting, n_workers: n, ..at }, Request::Start)
                } else {
                    (at, Request::CountWorkers)
                },
                _ => (at, Request::CountWorkers),
            },
            Stage::Starting => (
                Progress { stage: Stage::Publishing(Signal::Start), ..at },
                Request::Publish(Signal::Start),
            ),
            Stage::Applying => (
                Progress { stage: Stage::Publishing(Signal::Sync), ..at },
                Request::Publish(Signal::Sync),
            ),
            Stage::Publishing(signal) => match signal {
                Signal::Start => Self::turn(at, at.steps),
                Signal::Terminate => (Progress { stage: Stage::Done, ..at }, Request::Halt),
                _ => (Progress { stage: Stage::Barrier(signal), ..at }, Request::CountFinished),
            },
            Stage::Barrier(signal) => match reply {
                Reply::Finished { finished, workers } => if finished == workers {
                    (Progress { stage: Stage::Clearing(signal), ..at }, Request::ClearFinished)
                } else {
                    (at, Request::CountFinished)
                },
                _ => (at, Request::CountFinished),
            },
            Stage::Clearing(signal) => match signal {
                Signal::Sync => (
                    Progress { stage: Stage::Reporting, ..at },
                    Request::Report { step: at.steps },
                ),
                Signal::Decide => (
                    Progress { stage: Stage::WorldDeciding, ..at },
                    Request::WorldDecide,
                ),
                Signal::Update => (
                    Progress { stage: Stage::WorldUpdating, ..at },
                    Request::WorldUpdate,
                ),
                _ => (Progress { stage: Stage::Done, ..at }, Request::Halt),
            },
            Stage::Reporting => (
                Progress { stage: Stage::Publishing(Signal::Decide), ..at },
                Request::Publish(Signal::Decide),
            ),
            Stage::WorldDeciding => (
                Progress { stage: Stage::Publishing(Signal::Update), ..at },
                Request::Publish(Signal::Update),
            ),
            Stage::WorldUpdating => if at.steps < at.n_steps {
                Self::turn(at, at.steps + 1)
            } else {
                (Progress { stage: Stage::Done, ..at }, Request::Halt)
            },
            Stage::Done => (at, Request::Halt),
        };
        self.progress = progress;
        match request {
            Request::Start => {
                let hasher = WHasher::new(progress.n_workers);
                self.population.set_hasher(hasher);
                self.queued_updates.set_hasher(hasher);
            },
            _ => {},
        }
        request
    }

    fn turn(at: Progress, steps: usize) -> (next: (Progress, Request))
        ensures
            next == (Progress { stage: turn(steps, at.n_steps).0, steps, ..at }, turn(
                steps,
                at.n_steps,
            ).1),
    {
        if steps < at.n_steps {
            (Progress { stage: Stage::Applying, steps, ..at }, Request::ApplyPopulation)
        } else {
            (
                Progress { stage: Stage::Publishing(Signal::Terminate), steps, ..at },
                Request::Publish(Signal::Terminate),
            )
        }
    }

    /// The indices for the workers to claim: one for each worker that the
    /// run was started with, from zero up.
    pub fn worker_ids(&self) -> (ids: Vec<usize>)
        ensures
            ids@ == Seq::new(self.at().n_workers as nat, |i: int| i as usize),
    {
        let n = self.progress.n_workers;
        let mut ids: Vec<usize> = Vec::new();
        let mut i: usize = 0;
        while i < n
            invariant
                0 <= i <= n,
                ids@ == Seq::new(i as nat, |i: int| i as usize),
            decreases n - i,
        {
            ids.push(i);
            i = i + 1;
        }
        ids
    }

    /// Hands over the world that the run holds, to be stored.
    pub fn take_world(&mut self) -> (world: Option<S::World>)
        ensures
            world == old(self).held(),
            final(self).held() is None,
            final(self).at() == old(self).at(),
            final(self).rules() == old(self).rules(),
            final(self).view() == old(self).view(),
            final(self).buffer() == old(self).buffer(),
    {
        self.world.take()
    }

    /// The number of workers that the run's buffer files updates for.
    pub fn n_workers(&self) -> (workers: usize)
        ensures
            workers == self.buffer().workers(),
    {
        self.queued_updates.n_workers()
    }

    /// Lets the world, as it was read from the store, decide, and empties
    /// what it has queued into a plan for the store: the buffer as one call
    /// of the simulation's `world_decide` has left it, the updates by the
    /// workers they are for. The world is held for its update.
    pub fn world_decide(&mut self, world: S::World) -> (staged: Staged<S>)
        requires
            old(self).buffer().workers() > 0,
        ensures
            exists|after: Updates<S>|
                {
                    &&& #[trigger] world_decides_to(
                        old(self).rules(),
                        world,
                        old(self).view(),
                        old(self).buffer(),
                        after,
                    )
                    &&& forall|worker: usize| #[trigger]
                        batch_at(staged.updates@, worker) == after.queued(worker)
                    &&& unless_empty(after.population(), staged.population)
                    &&& unless_empty(after.world(), staged.world)
                },
            batches_proper(staged.updates@),
            final(self).held() == Some(world),
            final(self).buffer().is_empty(),
            final(self).buffer().workers() == old(self).buffer().workers(),
            final(self).at() == old(self).at(),
            final(self).rules() == old(self).rules(),
            final(self).view() == old(self).view(),
    {
        let mut buffer = Updates::new(WHasher::new(0));
        core::mem::swap(&mut self.queued_updates, &mut buffer);
        buffer = decide_for_world(&self.simulation, &world, &self.population, buffer);
        core::mem::swap(&mut self.queued_updates, &mut buffer);
        let ghost after = self.queued_updates;
        self.world = Some(world);
        let staged = self.queued_updates.push();
        proof {
            assert(world_decides_to(
                old(self).rules(),
                world,
                old(self).view(),
                old(self).buffer(),
                after,
            ));
        }
        staged
    }

    /// Hands the world that decided last, and the world updates that were
    /// taken out of the store, to the simulation's `world_update`. The world
    /// that comes back is to be stored. Without a world that has decided
    /// there is none to update.
    pub fn world_update(&mut self, updates: Vec<S::Update>) -> (world: Option<S::World>)
        ensures
            match world {
                Some(world) => old(self).held() is Some && world_updates_to(
                    old(self).rules(),
                    old(self).held().unwrap(),
                    updates@,
                    world,
                ),
                None => old(self).held() is None,
            },
            final(self).held() is None,
            final(self).at() == old(self).at(),
            final(self).rules() == old(self).rules(),
            final(self).view() == old(self).view(),
            final(self).buffer() == old(self).buffer(),
    {
        match self.world.take() {
            Some(world) => Some(self.simulation.world_update(world, updates)),
            None => None,
        }
    }
}

/// The manager of a simulation: it registers reporters, holds the initial
/// population until the run begins, and starts runs.
pub struct Manager<S: Simulation, C: Redis, R> {
    pub population: Population<S, C>,
    reporters: Lists<usize, R>,
    initial_pop: Vec<PopulationUpdate<S::State>>,
}

impl<S: Simulation, C: Redis, R> Manager<S, C, R> {
    /// The reporters, by the number of steps after which they run again:
    /// under each number those that were registered for it, in the order in
    /// which they were registered.
    pub closed spec fn reporters(&self) -> Map<usize, Seq<R>> {
        self.reporters@
    }

    /// The initial population: the spawns that wait for the run to begin.
    pub closed spec fn initial(&self) -> Seq<PopulationUpdate<S::State>> {
        self.initial_pop@
    }

    /// The view of the population that the manager was made with.
    pub closed spec fn view(&self) -> Population<S, C> {
        self.population
    }

    /// Whether no reporter is registered for every zero steps.
    pub open spec fn wf(&self) -> bool {
        !self.reporters().contains_key(0)
    }

    pub fn new(conn: C, simulation: S) -> (manager: Manager<S, C, R>)
        ensures
            manager.wf(),
            manager.reporters() == Map::<usize, Seq<R>>::empty(),
            manager.initial() == Seq::<PopulationUpdate<S::State>>::empty(),
            manager.view().workers() is None,
            manager.view().handle() == conn,
            manager.view().hooks() == simulation,
    {
        Manager {
            population: Population::new(simulation, conn),
            reporters: Lists::new(),
            initial_pop: Vec::new(),
        }
    }

    /// Resets the manager: the keys to delete, which unregisters all workers
    /// and clears the barrier.
    pub fn reset(&self) -> (doomed: Vec<Key>)
        ensures
            doomed@ == seq![Key::Workers, Key::Finished],
    {
        let mut doomed: Vec<Key> = Vec::new();
        doomed.push(Key::Workers);
        doomed.push(Key::Finished);
        doomed
    }

    /// Begins a run of `n_steps` steps of `simulation`, from `world`. The
    /// run first waits for workers: its first request is `CountWorkers`.
    pub fn run(&self, simulation: S, world: S::World, n_steps: usize) -> (run: Run<S, C>)
        ensures
            run.at() == (Progress { stage: Stage::Waiting, steps: 0, n_steps, n_workers: 0 }),
            run.held() == Some(world),
            run.rules() == simulation,
            run.buffer().is_empty(),
            run.buffer().workers() == 0,
            run.view().workers() == Some(0nat),
    {
        let hasher = WHasher::new(0);
        Run {
            progress: Progress { stage: Stage::Waiting, steps: 0, n_steps, n_workers: 0 },
            population: self.population.spread(hasher),
            simulation,
            world: Some(world),
            queued_updates: Updates::new(hasher),
        }
    }

    /// Registers a reporter to be called every `n_steps` steps. The
    /// reporters that were registered before stay, also those that run every
    /// `n_steps` steps: the new one comes behind them.
    pub fn register_reporter(&mut self, n_steps: usize, func: R)
        requires
            n_steps > 0,
            old(self).wf(),
        ensures
            final(self).wf(),
            final(self).reporters() == old(self).reporters().insert(
                n_steps,
                registered_for(old(self).reporters(), n_steps).push(func),
            ),
            final(self).initial() == old(self).initial(),
            final(self).view() == old(self).view(),
    {
        broadcast use group_hash_axioms;

        self.reporters.add(n_steps, func);
    }

    /// The reporters that are due at `step`: every registered reporter whose
    /// number of steps divides `step`. Those of one number of steps come
    /// together, in the order in which they were registered; the numbers
    /// come in the order `walk` in which the table is walked.
    pub fn due_reporters(&self, step: usize) -> (reporters: Vec<&R>)
        requires
            self.wf(),
        ensures
            exists|walk: Seq<usize>|
                {
                    &&& walk.no_duplicates()
                    &&& walk.to_set() == self.reporters().dom()
                    &&& reporters@.len() == (#[trigger] due_along(
                        self.reporters(),
                        walk,
                        step,
                    )).len()
                    &&& forall|i: int|
                        0 <= i < reporters@.len() ==> *reporters@[i] == due_along(
                            self.reporters(),
                            walk,
                            step,
                        )[i]
                },
    {
        broadcast use group_hash_axioms;

        let keys = self.reporters.keys();
        let mut reporters: Vec<&R> = Vec::new();
        let mut i: usize = 0;
        assert(keys@.take(0) =~= Seq::<usize>::empty());
        while i < keys.len()
            invariant
                0 <= i <= keys.len(),
                self.wf(),
                obeys_key_model::<usize>(),
                keys@.to_set() == self.reporters().dom(),
                reporters@.len() == due_along(self.reporters(), keys@.take(i as int), step).len(),
                forall|j: int|
                    0 <= j < reporters@.len() ==> *(#[trigger] reporters@[j]) == due_along(
                        self.reporters(),
                        keys@.take(i as int),
                        step,
                    )[j],
            decreases keys.len() - i,
        {
            let interval = keys[i];
            let ghost before = reporters@;
            proof {
                let next = keys@.take(i + 1);
                assert(next.drop_last() =~= keys@.take(i as int));
                assert(next.last() == interval);
                assert(keys@.to_set().contains(keys@[i as int]));
                assert(self.reporters().contains_key(interval));
            }
            if step % interval == 0 {
                match self.reporters.get(interval) {
                    Some(list) => {
                        let mut j: usize = 0;
                        while j < list.len()
                            invariant
                                0 <= j <= list.len(),
                                reporters@.len() == before.len() + j,
                                forall|k: int|
                                    0 <= k < before.len() ==> #[trigger] reporters@[k] == before[k],
                                forall|k: int|
                                    before.len() <= k < reporters@.len() ==> *(
                                    #[trigger] reporters@[k]) == list@[k - before.len()],
                            decreases list.len() - j,
                        {
                            reporters.push(&list[j]);
                            j = j + 1;
                        }
                    },
                    None => {},
                }
            }
            proof {
                let so_far = due_along(self.reporters(), keys@.take(i as int), step);
                let now = due_along(self.reporters(), keys@.take(i + 1), step);
                assert forall|k: int| 0 <= k < reporters@.len() implies *(
                #[trigger] reporters@[k]) == now[k] by {
                    if k < before.len() {
                        assert(reporters@[k] == before[k]);
                        assert(*before[k] == so_far[k]);
                    }
                }
            }
            i = i + 1;
        }
        assert(keys@.take(keys@.len() as int) =~= keys@);
        reporters
    }

    /// Queues an agent with the specified state for the beginning of the
    /// next run, returning the new agent's id.
    pub fn spawn(&mut self, state: S::State) -> (id: u64)
        ensures
            final(self).initial() == old(self).initial().push(PopulationUpdate::Spawn(id, state)),
            final(self).reporters() == old(self).reporters(),
            final(self).view() == old(self).view(),
    {
        let id = fresh_id();
        self.initial_pop.push(PopulationUpdate::Spawn(id, state));
        id
    }

    /// Spawns multiple agents at once, returning their ids in the order of
    /// their states.
    pub fn spawns(&mut self, states: Vec<S::State>) -> (ids: Vec<u64>)
        ensures
            ids@.len() == states@.len(),
            final(self).initial() == old(self).initial() + Seq::new(
                states@.len(),
                |i: int| PopulationUpdate::Spawn(ids@[i], states@[i]),
            ),
            final(self).reporters() == old(self).reporters(),
            final(self).view() == old(self).view(),
    {
        let mut ids: Vec<u64> = Vec::new();
        let ghost given = states@;
        for state in it: states
            invariant
                it.seq() == given,
                ids@.len() == it.index(),
                self.initial_pop@ == old(self).initial_pop@ + Seq::new(
                    it.index() as nat,
                    |i: int| PopulationUpdate::Spawn(ids@[i], given[i]),
                ),
                self.reporters() == old(self).reporters(),
                self.view() == old(self).view(),
        {
            let id = self.spawn(state);
            ids.push(id);
        }
        ids
    }

    /// The initial population, to be added to the pending changes when a run
    /// begins: none where nothing was spawned.
    pub fn initial_population(&self) -> (initial: Option<&Vec<PopulationUpdate<S::State>>>)
        ensures
            match initial {
                Some(list) => list@ == self.initial() && list@.len() > 0,
                None => self.initial().len() == 0,
            },
    {
        if self.initial_pop.len() > 0 {
            Some(&self.initial_pop)
        } else {
            None
        }
    }
}

/// Where a run stands, and all that was asked on the way, after the
/// replies `replies` were given in turn.
pub open spec fn course(at: Progress, replies: Seq<Reply>) -> (Progress, Seq<Request>)
    decreases replies.len(),
{
    if replies.len() == 0 {
        (at, Seq::empty())
    } else {
        let (before, asked) = course(at, replies.drop_last());
        let (after, request) = advance(before, replies.last());
        (after, asked.push(request))
    }
}

/// The commands among requests, in their order.
pub open spec fn published(requests: Seq<Request>) -> Seq<Signal>
    decreases requests.len(),
{
    if requests.len() == 0 {
        Seq::empty()
    } else {
        match requests.last() {
            Request::Publish(signal) => published(requests.drop_last()).push(signal),
            _ => published(requests.drop_last()),
        }
    }
}

/// The replies of one step in which every barrier is passed at once by
/// `workers` workers.
pub open spec fn smooth_step(workers: usize) -> Seq<Reply> {
    let passed = Reply::Finished { finished: workers, workers };
    seq![
        Reply::Done,
        Reply::Done,
        passed,
        Reply::Done,
        Reply::Done,
        Reply::Done,
        passed,
        Reply::Done,
        Reply::Done,
        Reply::Done,
        passed,
        Reply::Done,
        Reply::Done,
    ]
}

/// The course of one step. Once the pending changes to the population are
/// applied, a step goes through sync, the reporters, decide, the world's
/// decision, update and the world's update, in this order and each once;
/// every command is followed by its barrier; and the step counter goes up
/// by one, at the very end.
pub proof fn lemma_step_cadence(at: Progress, workers: usize)
    requires
        at.stage == Stage::Applying,
        at.steps < at.n_steps,
    ensures
        course(at, smooth_step(workers)).1 == seq![
            Request::Publish(Signal::Sync),
            Request::CountFinished,
            Request::ClearFinished,
            Request::Report { step: at.steps },
            Request::Publish(Signal::Decide),
            Request::CountFinished,
            Request::ClearFinished,
            Request::WorldDecide,
            Request::Publish(Signal::Update),
            Request::CountFinished,
            Request::ClearFinished,
            Request::WorldUpdate,
            turn((at.steps + 1) as usize, at.n_steps).1,
        ],
        course(at, smooth_step(workers)).0 == (Progress {
            stage: turn((at.steps + 1) as usize, at.n_steps).0,
            steps: (at.steps + 1) as usize,
            ..at
        }),
        published(course(at, smooth_step(workers)).1.drop_last()) == seq![
            Signal::Sync,
            Signal::Decide,
            Signal::Update,
        ],
{
    let r13 = smooth_step(workers);
    let r12 = r13.drop_last();
    let r11 = r12.drop_last();
    let r10 = r11.drop_last();
    let r9 = r10.drop_last();
    let r8 = r9.drop_last();
    let r7 = r8.drop_last();
    let r6 = r7.drop_last();
    let r5 = r6.drop_last();
    let r4 = r5.drop_last();
    let r3 = r4.drop_last();
    let r2 = r3.drop_last();
    let r1 = r2.drop_last();
    let r0 = r1.drop_last();
    let sync = Signal::Sync;
    let decide = Signal::Decide;
    let update = Signal::Update;
    let a0 = Seq::<Request>::empty();
    let a1 = a0.push(Request::Publish(sync));
    let a2 = a1.push(Request::CountFinished);
    let a3 = a2.push(Request::ClearFinished);
    let a4 = a3.push(Request::Report { step: at.steps });
    let a5 = a4.push(Request::Publish(decide));
    let a6 = a5.push(Request::CountFinished);
    let a7 = a6.push(Request::ClearFinished);
    let a8 = a7.push(Request::WorldDecide);
    let a9 = a8.push(Request::Publish(update));
    let a10 = a9.push(Request::CountFinished);
    let a11 = a10.push(Request::ClearFinished);
    let a12 = a11.push(Request::WorldUpdate);
    let a13 = a12.push(turn((at.steps + 1) as usize, at.n_steps).1);
    assert(course(at, r0) == (at, a0));
    assert(course(at, r1) == (Progress { stage: Stage::Publishing(sync), ..at }, a1));
    assert(course(at, r2) == (Progress { stage: Stage::Barrier(sync), ..at }, a2));
    assert(course(at, r3) == (Progress { stage: Stage::Clearing(sync), ..at }, a3));
    assert(course(at, r4) == (Progress { stage: Stage::Reporting, ..at }, a4));
    assert(course(at, r5) == (Progress { stage: Stage::Publishing(decide), ..at }, a5));
    assert(course(at, r6) == (Progress { stage: Stage::Barrier(decide), ..at }, a6));
    assert(course(at, r7) == (Progress { stage: Stage::Clearing(decide), ..at }, a7));
    assert(course(at, r8) == (Progress { stage: Stage::WorldDeciding, ..at }, a8));
    assert(course(at, r9) == (Progress { stage: Stage::Publishing(update), ..at }, a9));
    assert(course(at, r10) == (Progress { stage: Stage::Barrier(update), ..at }, a10));
    assert(course(at, r11) == (Progress { stage: Stage::Clearing(update), ..at }, a11));
    assert(course(at, r12) == (Progress { stage: Stage::WorldUpdating, ..at }, a12));
    assert(a13.drop_last() =~= a12);
    let c0 = Seq::<Signal>::empty();
    let c1 = c0.push(sync);
    let c2 = c1.push(decide);
    let c3 = c2.push(update);
    assert(published(a0) == c0);
    assert(published(a1) == c1) by {
        assert(a1.drop_last() =~= a0);
    }
    assert(published(a2) == c1) by {
        assert(a2.drop_last() =~= a1);
    }
    assert(published(a3) == c1) by {
        assert(a3.drop_last() =~= a2);
    }
    assert(published(a4) == c1) by {
        assert(a4.drop_last() =~= a3);
    }
    assert(published(a5) == c2) by {
        assert(a5.drop_last() =~= a4);
    }
    assert(published(a6) == c2) by {
        assert(a6.drop_last() =~= a5);
    }
    assert(published(a7) == c2) by {
        assert(a7.drop_last() =~= a6);
    }
    assert(published(a8) == c2) by {
        assert(a8.drop_last() =~= a7);
    }
    assert(published(a9) == c3) by {
        assert(a9.drop_last() =~= a8);
    }
    assert(published(a10) == c3) by {
        assert(a10.drop_last() =~= a9);
    }
    assert(published(a11) == c3) by {
        assert(a11.drop_last() =~= a10);
    }
    assert(published(a12) == c3) by {
        assert(a12.drop_last() =~= a11);
    }
}

/// A run only moves forward: whatever the reply, the number of steps to run
/// stays, and the number of complete steps stays or goes up by one, never
/// beyond the number of steps to run.
pub proof fn lemma_advance_forward(at: Progress, reply: Reply)
    requires
        at.steps <= at.n_steps,
    ensures
        advance(at, reply).0.n_steps == at.n_steps,
        at.steps <= advance(at, reply).0.steps <= at.steps + 1,
        advance(at, reply).0.steps <= at.n_steps,
        advance(at, reply).0.steps == at.steps + 1 ==> at.stage == Stage::WorldUpdating,
{
}

/// The barrier. A phase is left only when as many workers have finished
/// as are registered: until then the manager asks again.
pub proof fn lemma_barrier_holds(at: Progress, signal: Signal, reply: Reply)
    requires
        at.stage == Stage::Barrier(signal),
    ensures
        advance(at, reply).0.stage == Stage::Clearing(signal) <==> (reply matches Reply::Finished {
            finished,
            workers,
        } && finished == workers),
        advance(at, reply).0.stage != Stage::Clearing(signal) ==> advance(at, reply) == (
            at,
            Request::CountFinished,
        ),
{
}

/// The pending changes to the population are applied at the start of a
/// step, just before `sync` is published, and at no other time: `sync` is
/// published only when they have been applied.
pub proof fn lemma_population_applied_before_sync(at: Progress, reply: Reply)
    ensures
        advance(at, reply).1 == Request::Publish(Signal::Sync) <==> at.stage == Stage::Applying,
        advance(at, reply).1 == Request::ApplyPopulation ==> advance(at, reply).0.stage
            == Stage::Applying,
        advance(at, reply).0.stage == Stage::Applying ==> advance(at, reply).1
            == Request::ApplyPopulation || advance(at, reply).0 == at,
{
}

/// The replies of `steps` steps in which every barrier is passed at once.
pub open spec fn smooth_steps(workers: usize, steps: nat) -> Seq<Reply>
    decreases steps,
{
    if steps == 0 {
        Seq::empty()
    } else {
        smooth_step(workers) + smooth_steps(workers, (steps - 1) as nat)
    }
}

/// The commands of `steps` steps.
pub open spec fn step_commands(steps: nat) -> Seq<Signal>
    decreases steps,
{
    if steps == 0 {
        Seq::empty()
    } else {
        seq![Signal::Sync, Signal::Decide, Signal::Update] + step_commands((steps - 1) as nat)
    }
}

/// Going on from where a run stands after some replies is the same as
/// giving all replies in one go.
pub proof fn lemma_course_goes_on(at: Progress, first: Seq<Reply>, then: Seq<Reply>)
    ensures
        course(at, first + then).0 == course(course(at, first).0, then).0,
        course(at, first + then).1 == course(at, first).1 + course(course(at, first).0, then).1,
    decreases then.len(),
{
    if then.len() > 0 {
        lemma_course_goes_on(at, first, then.drop_last());
        assert((first + then).drop_last() =~= first + then.drop_last());
    }
}

/// The commands among requests that were asked one after the other are
/// those of the first and then those of the others.
pub proof fn lemma_published_concat(first: Seq<Request>, then: Seq<Request>)
    ensures
        published(first + then) == published(first) + published(then),
    decreases then.len(),
{
    if then.len() > 0 {
        lemma_published_concat(first, then.drop_last());
        assert((first + then).drop_last() =~= first + then.drop_last());
    }
}

/// The commands of the steps of a run. From the start of a step on, with
/// `left` steps still to run and every barrier passed at once, the manager
/// publishes `sync`, `decide` and `update` once for each step, in this
/// order, and `terminate` after the last; then all steps are complete.
pub proof fn lemma_steps_cadence(at: Progress, workers: usize, left: nat)
    requires
        at.stage == Stage::Applying,
        at.steps + left == at.n_steps,
        left > 0,
    ensures
        published(course(at, smooth_steps(workers, left)).1) == step_commands(left).push(
            Signal::Terminate,
        ),
        course(at, smooth_steps(workers, left)).0 == (Progress {
            stage: Stage::Publishing(Signal::Terminate),
            steps: at.n_steps,
            ..at
        }),
    decreases left,
{
    lemma_step_cadence(at, workers);
    let one = smooth_step(workers);
    let rest = smooth_steps(workers, (left - 1) as nat);
    let after = course(at, one).0;
    let asked = course(at, one).1;
    lemma_course_goes_on(at, one, rest);
    lemma_published_concat(asked, course(after, rest).1);
    if left == 1 {
        assert(step_commands(0) =~= Seq::<Signal>::empty());
    } else {
        lemma_steps_cadence(after, workers, (left - 1) as nat);
    }
}

/// The commands of a run. When `workers` workers are there at the start and
/// every barrier is passed at once, a run of `n_steps` steps publishes
/// `start`, then `sync`, `decide` and `update` for each step, then
/// `terminate`, and is over.
pub proof fn lemma_run_cadence(n_steps: usize, workers: usize)
    requires
        workers > 0,
    ensures
        ({
            let begin = Progress { stage: Stage::Waiting, steps: 0, n_steps, n_workers: 0 };
            let replies = seq![Reply::Workers(workers), Reply::Done, Reply::Done] + smooth_steps(
                workers,
                n_steps as nat,
            ) + seq![Reply::Done];
            &&& published(course(begin, replies).1) == seq![Signal::Start] + step_commands(
                n_steps as nat,
            ).push(Signal::Terminate)
            &&& course(begin, replies).0.stage == Stage::Done
            &&& course(begin, replies).0.steps == n_steps
            &&& course(begin, replies).1.last() == Request::Halt
        }),
{
    let begin = Progress { stage: Stage::Waiting, steps: 0, n_steps, n_workers: 0 };
    let opening = seq![Reply::Workers(workers), Reply::Done, Reply::Done];
    let steps = smooth_steps(workers, n_steps as nat);
    let closing = seq![Reply::Done];
    let o2 = opening.drop_last();
    let o1 = o2.drop_last();
    let o0 = o1.drop_last();
    assert(course(begin, o0) == (begin, Seq::<Request>::empty()));
    assert(course(begin, o1).0.stage == Stage::Starting);
    assert(course(begin, o2).0.stage == Stage::Publishing(Signal::Start));
    let started = course(begin, opening).0;
    let first = course(begin, opening).1;
    assert(published(first.drop_last()) =~= seq![Signal::Start]) by {
        reveal_with_fuel(published, 3);
    }
    lemma_course_goes_on(begin, opening, steps);
    lemma_course_goes_on(begin, opening + steps, closing);
    let stepped = course(started, steps).0;
    let asked = course(started, steps).1;
    if n_steps > 0 {
        lemma_steps_cadence(started, workers, n_steps as nat);
    }
    assert(course(stepped, closing) == (
        Progress { stage: Stage::Done, ..stepped },
        seq![Request::Halt],
    )) by {
        assert(course(stepped, closing.drop_last()) == (stepped, Seq::<Request>::empty()));
    }
    lemma_published_concat(first, asked);
    lemma_published_concat(first + asked, seq![Request::Halt]);
    assert(published(seq![Request::Halt]) =~= Seq::<Signal>::empty()) by {
        reveal_with_fuel(published, 2);
    }
}

} // verus!
