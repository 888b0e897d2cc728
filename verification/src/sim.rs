//! Agents, and the simulation that a user of the engine supplies.

use crate::hash::WHasher;
use crate::population::Population;
use crate::store::Redis;
use crate::updates::Updates;
use std::fmt::Debug;
use vstd::prelude::*;

verus! {

/// What the state of an agent, or of the world, has to offer.
pub trait State: Debug + Send + Sync + Clone + PartialEq {

}

impl<T: Debug + Send + Sync + Clone + PartialEq> State for T {

}

/// What an update has to offer.
pub trait Update: Debug + Send + Sync + Clone + PartialEq {

}

impl<T: Debug + Send + Sync + Clone + PartialEq> Update for T {

}

/// Agents are just structures containing a unique id and a state.
#[derive(Debug, PartialEq, Clone)]
pub struct Agent<S: State> {
    pub id: u64,
    pub state: S,
}

/// The main logic of a simulation. A single step consists of two
/// synchronized phases:
/// 1. `decide`: a read-only phase where agents decide on what updates to
///    apply. The updates themselves are not applied in this phase.
/// 2. `update`: a phase where agents consider the queued updates and compute
///    a new state accordingly.
pub trait Simulation: Sized + Send + Sync + Clone {
    type State: State;

    type World: State;

    type Update: Update;

    /// Called whenever new agents are spawned, for example to build an index
    /// of agents by state values.
    fn on_spawns<R: Redis>(
        &self,
        agents: Vec<Agent<Self::State>>,
        population: &Population<Self, R>,
    ) {
    }

    /// Called whenever agents are killed, for example to remove them from an
    /// index.
    fn on_deaths<R: Redis>(
        &self,
        agents: Vec<Agent<Self::State>>,
        population: &Population<Self, R>,
    ) {
    }

    /// Computes updates for the specified agent and/or other agents. The
    /// buffer that is handed in files for at least one worker, so that
    /// updates can be queued in it.
    fn decide<R: Redis>(
        &self,
        agent: &Agent<Self::State>,
        world: &Self::World,
        population: &Population<Self, R>,
        updates: &mut Updates<Self>,
    )
        requires
            old(updates).hasher.workers() > 0,
    ;

    /// Computes a final updated state given a starting state and updates,
    /// and says whether the state has changed.
    fn update(&self, state: &mut Self::State, updates: Vec<Self::Update>) -> bool;

    /// Computes updates for the world. The buffer that is handed in files
    /// for at least one worker, so that updates can be queued in it.
    fn world_decide<R: Redis>(
        &self,
        world: &Self::World,
        population: &Population<Self, R>,
        updates: &mut Updates<Self>,
    )
        requires
            old(updates).hasher.workers() > 0,
    {
    }

    /// Computes a final state for the world given updates. Unless a
    /// simulation says otherwise, the world stays as it is.
    fn world_update(&self, world: Self::World, updates: Vec<Self::Update>) -> (after: Self::World)
        default_ensures
            after == world,
    {
        world
    }
}

/// Applies updates to a state, by the simulation's `update`: hands the state
/// and the updates to one call of it, and gives back the state as the call
/// has left it, and whether the simulation calls it changed.
pub fn apply_updates<S: Simulation>(rules: &S, state: S::State, updates: Vec<S::Update>) -> (out: (
    S::State,
    bool,
))
    ensures
        exists|handed: &mut S::State|
            *handed == state && *final(handed) == out.0 && #[trigger] call_ensures(
                S::update,
                (rules, handed, updates),
                out.1,
            ),
{
    let mut after = state;
    let changed = rules.update(&mut after, updates);
    let out = (after, changed);
    proof {
        let handed = choose|handed: &mut S::State|
            *handed == state && *final(handed) == after && #[trigger] call_ensures(
                S::update,
                (rules, handed, updates),
                changed,
            );
        assert(call_ensures(S::update, (rules, handed, updates), out.1));
    }
    out
}

/// Whether two buffers hold the same: the same updates for every worker,
/// the same updates to the world and the same changes to the population.
pub open spec fn same_queue<S: Simulation>(one: Updates<S>, other: Updates<S>) -> bool {
    &&& one.shards() == other.shards()
    &&& one.world() == other.world()
    &&& one.population() == other.population()
}

/// Lets an agent decide: hands the agent, the world, the view of the
/// population and the buffer to one call of the simulation's `decide`, and
/// gives back the buffer with what the call has left in it. Whatever the
/// call has done to the buffer, it files for as many workers as before.
pub fn decide_for<S: Simulation, C: Redis>(
    rules: &S,
    agent: &Agent<S::State>,
    world: &S::World,
    population: &Population<S, C>,
    buffer: Updates<S>,
) -> (out: Updates<S>)
    requires
        buffer.workers() > 0,
    ensures
        out.workers() == buffer.workers(),
        exists|handed: &mut Updates<S>|
            *handed == buffer && same_queue(*final(handed), out) && #[trigger] call_ensures(
                S::decide::<C>,
                (rules, agent, world, population, handed),
                (),
            ),
{
    let workers = buffer.n_workers();
    let mut out = buffer;
    rules.decide(agent, world, population, &mut out);
    let ghost left = out;
    out.set_hasher(WHasher::new(workers));
    proof {
        let handed = choose|handed: &mut Updates<S>|
            *handed == buffer && *final(handed) == left && #[trigger] call_ensures(
                S::decide::<C>,
                (rules, agent, world, population, handed),
                (),
            );
        assert(same_queue(*final(handed), out));
    }
    out
}

/// Lets the world decide: hands the world, the view of the population and
/// the buffer to one call of the simulation's `world_decide`, and gives back
/// the buffer with what the call has left in it. Whatever the call has done
/// to the buffer, it files for as many workers as before.
pub fn decide_for_world<S: Simulation, C: Redis>(
    rules: &S,
    world: &S::World,
    population: &Population<S, C>,
    buffer: Updates<S>,
) -> (out: Updates<S>)
    requires
        buffer.workers() > 0,
    ensures
        out.workers() == buffer.workers(),
        exists|handed: &mut Updates<S>|
            *handed == buffer && same_queue(*final(handed), out) && #[trigger] call_ensures(
                S::world_decide::<C>,
                (rules, world, population, handed),
                (),
            ),
{
    let workers = buffer.n_workers();
    let mut out = buffer;
    rules.world_decide(world, population, &mut out);
    let ghost left = out;
    out.set_hasher(WHasher::new(workers));
    proof {
        let handed = choose|handed: &mut Updates<S>|
            *handed == buffer && *final(handed) == left && #[trigger] call_ensures(
                S::world_decide::<C>,
                (rules, world, population, handed),
                (),
            );
        assert(same_queue(*final(handed), out));
    }
    out
}

/// Whether `after` is a buffer that the agent's deciding can make of
/// `before`: what one call of the simulation's `decide`, with the agent, the
/// world, the view of the population and `before`, has left in the buffer.
pub open spec fn decides_to<S: Simulation, C: Redis>(
    rules: S,
    agent: Agent<S::State>,
    world: S::World,
    population: Population<S, C>,
    before: Updates<S>,
    after: Updates<S>,
) -> bool {
    call_ensures(decide_for::<S, C>, (&rules, &agent, &world, &population, before), after)
}

/// Whether `after` is a buffer that the world's deciding can make of
/// `before`: what one call of the simulation's `world_decide`, with the
/// world, the view of the population and `before`, has left in the buffer.
pub open spec fn world_decides_to<S: Simulation, C: Redis>(
    rules: S,
    world: S::World,
    population: Population<S, C>,
    before: Updates<S>,
    after: Updates<S>,
) -> bool {
    call_ensures(decide_for_world::<S, C>, (&rules, &world, &population, before), after)
}

/// Whether `after` and `changed` are what one call of the simulation's
/// `update`, with the state `before` and the updates `updates`, can leave:
/// the state after the call, and whether the simulation calls it changed.
pub open spec fn updates_to<S: Simulation>(
    rules: S,
    before: S::State,
    updates: Seq<S::Update>,
    after: S::State,
    changed: bool,
) -> bool {
    exists|list: Vec<S::Update>|
        list@ == updates && #[trigger] call_ensures(
            apply_updates::<S>,
            (&rules, before, list),
            (after, changed),
        )
}

/// Whether `after` is a world that one call of the simulation's
/// `world_update`, with the world `before` and the updates `updates`, can
/// give.
pub open spec fn world_updates_to<S: Simulation>(
    rules: S,
    before: S::World,
    updates: Seq<S::Update>,
    after: S::World,
) -> bool {
    exists|list: Vec<S::Update>|
        list@ == updates && #[trigger] call_ensures(
            S::world_update,
            (&rules, before, list),
            after,
        )
}

} // verus!
