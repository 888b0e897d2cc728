// The parts of the engine, each on its own.

use djinn::ext::yaml::{
    load_from_yaml, outgrows, survey, verdict, Mark, YamlError, MAX_DEPTH, MAX_NODES,
};
use djinn::hash::{hash, WHasher};
use djinn::keys::{Key, COMMAND_CHANNEL, INDEX_PATTERN};
use djinn::lists::{Batch, Lists};
use djinn::manager::{Manager, Progress, Reply, Request, Stage};
use djinn::population::{pick, Batching, Population};
use djinn::signal::Signal;
use djinn::sim::{decide_for, decide_for_world};
use djinn::text::{decimal_text, push_decimal};
use djinn::worker::{Task, Worker};
use djinn::{Agent, PopulationUpdate, Redis, Simulation, Updates};
use std::collections::hash_map::DefaultHasher;
use std::hash::{Hash, Hasher};

#[derive(Clone)]
struct Nowhere;

impl Redis for Nowhere {
    fn get(&self, _key: &str) -> Option<Vec<u8>> {
        None
    }
    fn get_multiple(&self, keys: &Vec<String>) -> Vec<Option<Vec<u8>>> {
        keys.iter().map(|_| None).collect()
    }
    fn set(&self, _key: &str, _value: Vec<u8>) {}
    fn set_multiple(&self, _entries: Vec<(String, Vec<u8>)>) {}
    fn del(&self, _keys: &Vec<String>) {}
    fn keys(&self, _pattern: &str) -> Vec<String> {
        Vec::new()
    }
    fn sadd(&self, _key: &str, _members: Vec<Vec<u8>>) {}
    fn srem(&self, _key: &str, _members: Vec<Vec<u8>>) {}
    fn smembers(&self, _key: &str) -> Vec<Vec<u8>> {
        Vec::new()
    }
    fn scard(&self, _key: &str) -> usize {
        0
    }
    fn spop(&self, _key: &str) -> Option<Vec<u8>> {
        None
    }
    fn srandmember(&self, _key: &str, _count: usize) -> Vec<Vec<u8>> {
        Vec::new()
    }
    fn lpush(&self, _key: &str, _items: Vec<Vec<u8>>) {}
    fn lrange(&self, _key: &str) -> Vec<Vec<u8>> {
        Vec::new()
    }
    fn lpop(&self, _key: &str) -> Option<Vec<u8>> {
        None
    }
    fn publish(&self, _channel: &str, _message: &str) {}
}

// A simulation whose agents hold the list of updates they were given. An
// agent with an odd state queues one update for each of its neighbours.
#[derive(Clone)]
struct Tally;

impl Simulation for Tally {
    type State = Vec<u32>;
    type World = u32;
    type Update = u32;

    fn decide<R: Redis>(
        &self,
        agent: &Agent<Vec<u32>>,
        world: &u32,
        _population: &Population<Self, R>,
        updates: &mut Updates<Self>,
    ) {
        updates.queue(agent.id, *world);
        updates.queue(agent.id.wrapping_add(u64::MAX / 2), *world + 1);
    }

    fn update(&self, state: &mut Vec<u32>, updates: Vec<u32>) -> bool {
        let grows = !updates.is_empty();
        state.extend(updates);
        grows
    }
}

const QUARTER: u64 = u64::MAX / 4;

#[test]
fn hasher_cuts_the_ids_into_equal_slices() {
    let hasher = WHasher::new(4);
    assert_eq!(hasher.n_workers(), 4);
    assert_eq!(hasher.hash(0), 0);
    assert_eq!(hasher.hash(QUARTER - 1), 0);
    assert_eq!(hasher.hash(QUARTER), 1);
    assert_eq!(hasher.hash(2 * QUARTER - 1), 1);
    assert_eq!(hasher.hash(2 * QUARTER), 2);
    assert_eq!(hasher.hash(3 * QUARTER), 3);
    assert_eq!(hasher.hash(4 * QUARTER), 3);
    assert_eq!(hasher.hash(u64::MAX), 3);
    let one = WHasher::new(1);
    assert_eq!(one.hash(0), 0);
    assert_eq!(one.hash(u64::MAX), 0);
    let three = WHasher::new(3);
    assert_eq!(three.hash(u64::MAX / 3 - 1), 0);
    assert_eq!(three.hash(u64::MAX / 3), 1);
    assert_eq!(three.hash(u64::MAX), 2);
    let many = WHasher::new(usize::MAX);
    assert_eq!(many.hash(5), 5);
    assert_eq!(many.hash(u64::MAX), usize::MAX - 1);
}

#[test]
fn hasher_is_monotone_and_steady() {
    let hasher = WHasher::new(7);
    let mut id = 1u64;
    let mut last = 0usize;
    for _ in 0..63 {
        let owner = hasher.hash(id);
        assert!(owner < 7);
        assert!(owner >= last);
        assert_eq!(owner, hasher.hash(id));
        assert_eq!(owner as u64, (id / (u64::MAX / 7)).min(6));
        last = owner;
        id *= 2;
    }
}

#[test]
fn text_hash_is_that_of_the_standard_hasher() {
    for text in ["", "agent", "6ba7b810-9dad-11d1-80b4-00c04fd430c8"] {
        let mut hasher = DefaultHasher::new();
        text.to_string().hash(&mut hasher);
        assert_eq!(hash(text), hasher.finish());
    }
}

#[test]
fn text_hash_is_steady_and_tells_texts_apart() {
    assert_eq!(hash("agent"), hash("agent"));
    assert_ne!(hash("agent"), hash("agenu"));
    assert_ne!(hash(""), hash("a"));
}

#[test]
fn fresh_ids_differ() {
    let a = djinn::ids::fresh_id();
    let b = djinn::ids::fresh_id();
    assert_ne!(a, b);
}

#[test]
fn decimal_text_of_numbers() {
    assert_eq!(decimal_text(0), "0");
    assert_eq!(decimal_text(7), "7");
    assert_eq!(decimal_text(10), "10");
    assert_eq!(decimal_text(1234567890), "1234567890");
    assert_eq!(decimal_text(u64::MAX), "18446744073709551615");
    let mut text = String::from("n=");
    push_decimal(&mut text, 405);
    assert_eq!(text, "n=405");
}

#[test]
fn keys_have_their_names() {
    assert_eq!(Key::World.name(), "world");
    assert_eq!(Key::Population.name(), "population");
    assert_eq!(Key::PopulationUpdates.name(), "updates:population");
    assert_eq!(Key::WorldUpdates.name(), "updates:world");
    assert_eq!(Key::Updates(0).name(), "updates:0");
    assert_eq!(Key::Updates(12).name(), "updates:12");
    assert_eq!(Key::Spawn(3).name(), "spawn:3");
    assert_eq!(Key::Kill(40).name(), "kill:40");
    assert_eq!(Key::Index("people".to_string()).name(), "idx:people");
    assert_eq!(Key::Index(String::new()).name(), "idx:");
    assert_eq!(Key::Workers.name(), "workers");
    assert_eq!(Key::WorkerIds.name(), "worker_ids");
    assert_eq!(Key::Finished.name(), "finished");
    assert_eq!(Key::CurrentPhase.name(), "current_phase");
    assert_eq!(Key::Agent(9001).name(), "9001");
    assert_eq!(COMMAND_CHANNEL, "command");
    assert_eq!(INDEX_PATTERN, "idx:*");
}

#[test]
fn commands_are_read_back_as_written() {
    let all = [Signal::Start, Signal::Sync, Signal::Decide, Signal::Update, Signal::Terminate];
    let texts = ["start", "sync", "decide", "update", "terminate"];
    for (signal, text) in all.iter().zip(texts.iter()) {
        assert_eq!(signal.text(), *text);
        assert_eq!(Signal::parse(text), Some(*signal));
        assert_eq!(Signal::parse(signal.text()), Some(*signal));
    }
    assert_eq!(Signal::parse("TERMINATE"), None);
    assert_eq!(Signal::parse("syn"), None);
    assert_eq!(Signal::parse("sync "), None);
    assert_eq!(Signal::parse(""), None);
}

#[test]
fn lists_keep_order_and_drain_whole() {
    let mut lists: Lists<u64, char> = Lists::new();
    lists.add(5, 'a');
    lists.add(9, 'b');
    lists.add(5, 'c');
    lists.add(9, 'd');
    lists.add(9, 'e');
    assert_eq!(lists.take(7), None);
    let mut batches = lists.drain();
    batches.sort_by_key(|batch| batch.key);
    assert_eq!(batches.len(), 2);
    assert_eq!((batches[0].key, batches[0].items.clone()), (5, vec!['a', 'c']));
    assert_eq!((batches[1].key, batches[1].items.clone()), (9, vec!['b', 'd', 'e']));
    assert!(lists.drain().is_empty());
    lists.add(1, 'x');
    assert_eq!(lists.take(1), Some(vec!['x']));
    assert_eq!(lists.take(1), None);
    lists.add(1, 'y');
    lists.clear();
    assert!(lists.drain().is_empty());
}

fn sorted<T>(mut batches: Vec<Batch<usize, T>>) -> Vec<(usize, Vec<T>)> {
    batches.sort_by_key(|batch| batch.key);
    batches.into_iter().map(|batch| (batch.key, batch.items)).collect()
}

#[test]
fn buffer_files_updates_by_owner() {
    let mut updates: Updates<Tally> = Updates::new(WHasher::new(4));
    updates.queue(0, 1);
    updates.queue(3 * QUARTER + 5, 2);
    updates.queue(7, 3);
    updates.queue(QUARTER, 4);
    updates.queue(3 * QUARTER, 5);
    updates.queue_world(99);
    updates.queue_world(98);
    let id = updates.spawn(vec![1]);
    updates.kill(&Agent { id: 44, state: vec![4, 4] });
    let staged = updates.push();
    assert_eq!(
        sorted(staged.updates),
        vec![
            (0, vec![(0, 1), (7, 3)]),
            (1, vec![(QUARTER, 4)]),
            (3, vec![(3 * QUARTER + 5, 2), (3 * QUARTER, 5)]),
        ]
    );
    assert_eq!(staged.world, Some(vec![99, 98]));
    assert_eq!(
        staged.population,
        Some(vec![PopulationUpdate::Spawn(id, vec![1]), PopulationUpdate::Kill(44, vec![4, 4])])
    );
    let again = updates.push();
    assert!(again.updates.is_empty());
    assert_eq!(again.world, None);
    assert_eq!(again.population, None);
}

#[test]
fn every_queued_update_is_pushed_once() {
    let mut updates: Updates<Tally> = Updates::new(WHasher::new(5));
    let mut id = 3u64;
    for n in 0..1000u32 {
        id = id.wrapping_mul(6364136223846793005).wrapping_add(1442695040888963407);
        updates.queue(id, n);
    }
    let staged = updates.push();
    let total: usize = staged.updates.iter().map(|batch| batch.items.len()).sum();
    assert_eq!(total, 1000);
    let hasher = WHasher::new(5);
    for batch in &staged.updates {
        assert!(!batch.items.is_empty());
        let mut last = None;
        for (id, n) in &batch.items {
            assert_eq!(hasher.hash(*id), batch.key);
            assert!(last < Some(*n));
            last = Some(*n);
        }
    }
}

#[test]
fn buffer_hands_out_one_shard_and_forgets() {
    let mut updates: Updates<Tally> = Updates::new(WHasher::new(2));
    updates.queue(1, 10);
    updates.queue(u64::MAX, 20);
    updates.queue(2, 30);
    assert_eq!(updates.take(0), Some(vec![(1, 10), (2, 30)]));
    assert_eq!(updates.take(0), None);
    updates.queue_world(1);
    updates.clear();
    let staged = updates.push();
    assert!(staged.updates.is_empty());
    assert_eq!(staged.world, None);
    updates.set_hasher(WHasher::new(1));
    updates.queue(u64::MAX, 5);
    assert_eq!(sorted(updates.push().updates), vec![(0, vec![(u64::MAX, 5)])]);
}

#[test]
fn population_routes_spawns_and_kills() {
    let mut population = Population::new(Tally, Nowhere);
    population.set_hasher(WHasher::new(4));
    assert!(population.spawns(Vec::new()).is_none());
    assert!(population.kills(Vec::new()).is_none());
    let pairs = vec![
        (3 * QUARTER, vec![0]),
        (1, vec![1]),
        (QUARTER + 9, vec![2]),
        (3 * QUARTER + 1, vec![3]),
    ];
    let plan = population.spawns(pairs.clone()).unwrap();
    let agents: Vec<Agent<Vec<u32>>> =
        pairs.iter().map(|(id, state)| Agent { id: *id, state: state.clone() }).collect();
    assert_eq!(plan.agents, agents);
    assert_eq!(sorted(plan.spawn_lists), vec![(0, vec![1]), (1, vec![2]), (3, vec![0, 3])]);
    let plan = population.kills(pairs).unwrap();
    assert_eq!(plan.agents, agents);
    let lists = sorted(plan.kill_lists);
    assert_eq!(lists, vec![(0, vec![1]), (1, vec![2]), (3, vec![0, 3])]);
    let dead: Vec<u64> = pick(&plan.agents, &lists[2].1).iter().map(|agent| agent.id).collect();
    assert_eq!(dead, vec![3 * QUARTER, 3 * QUARTER + 1]);
}

#[test]
fn population_sorts_pending_changes() {
    let mut population = Population::new(Tally, Nowhere);
    population.set_hasher(WHasher::new(2));
    let pending = vec![
        PopulationUpdate::Spawn(1, vec![1]),
        PopulationUpdate::Kill(u64::MAX, vec![2]),
        PopulationUpdate::Kill(2, vec![3]),
        PopulationUpdate::Spawn(u64::MAX - 1, vec![4]),
    ];
    let mutation = population.update(pending);
    let kills = mutation.kills.unwrap();
    assert_eq!(
        kills.agents,
        vec![Agent { id: u64::MAX, state: vec![2] }, Agent { id: 2, state: vec![3] }]
    );
    assert_eq!(sorted(kills.kill_lists), vec![(0, vec![1]), (1, vec![0])]);
    let spawns = mutation.spawns.unwrap();
    assert_eq!(
        spawns.agents,
        vec![Agent { id: 1, state: vec![1] }, Agent { id: u64::MAX - 1, state: vec![4] }]
    );
    assert_eq!(sorted(spawns.spawn_lists), vec![(0, vec![0]), (1, vec![1])]);
    let nothing = population.update(Vec::new());
    assert!(nothing.kills.is_none() && nothing.spawns.is_none());
    let only = population.update(vec![PopulationUpdate::Kill(5, vec![])]);
    assert!(only.spawns.is_none());
    assert_eq!(only.kills.unwrap().agents.len(), 1);
}

#[test]
fn population_assembles_agents() {
    let population = Population::new(Tally, Nowhere);
    assert_eq!(population.get_agent(4, None), None);
    assert_eq!(population.get_agent(4, Some(vec![1])), Some(Agent { id: 4, state: vec![1] }));
    assert_eq!(
        population.get_agents(vec![9, 8, 7], vec![vec![1], vec![2], vec![3]]),
        vec![
            Agent { id: 9, state: vec![1] },
            Agent { id: 8, state: vec![2] },
            Agent { id: 7, state: vec![3] },
        ]
    );
    assert_eq!(population.get_agents(vec![9, 8], vec![vec![1]]).len(), 1);
    assert_eq!(population.get_agents(vec![9], vec![vec![1], vec![2]]).len(), 1);
    assert!(population.get_agents(Vec::new(), Vec::new()).is_empty());
    assert_eq!(Population::<Tally, Nowhere>::batching(0), Batching::Nothing);
    assert_eq!(Population::<Tally, Nowhere>::batching(1), Batching::Single);
    assert_eq!(Population::<Tally, Nowhere>::batching(2), Batching::Multiple);
}

#[test]
fn population_names_index_changes() {
    let population = Population::new(Tally, Nowhere);
    let change = population.index("cats", 5);
    assert!(change.add);
    assert_eq!(change.key.name(), "idx:cats");
    assert_eq!(change.ids, vec![5]);
    let change = population.unindex("cats", 5);
    assert!(!change.add);
    assert_eq!(change.key.name(), "idx:cats");
    assert_eq!(change.ids, vec![5]);
    assert!(population.indexes("cats", Vec::new()).is_none());
    assert!(population.unindexes("cats", Vec::new()).is_none());
    let change = population.indexes("cats", vec![1, 2]).unwrap();
    assert!(change.add);
    assert_eq!((change.key.name(), change.ids), ("idx:cats".to_string(), vec![1, 2]));
    let change = population.unindexes("dogs", vec![3]).unwrap();
    assert!(!change.add);
    assert_eq!((change.key.name(), change.ids), ("idx:dogs".to_string(), vec![3]));
    assert_eq!(population.reset_indices(Vec::new()), None);
    assert_eq!(
        population.reset_indices(vec!["idx:cats".to_string()]),
        Some(vec!["idx:cats".to_string()])
    );
    let doomed: Vec<String> = population.reset().iter().map(|key| key.name()).collect();
    assert_eq!(doomed, vec!["population", "updates:population"]);
}

fn tally_worker(id: usize, n_workers: usize) -> Worker<Tally, Nowhere> {
    let mut worker = Worker::new(Nowhere, Tally);
    assert_eq!(worker.start(), Task::Register);
    assert_eq!(worker.on_message("start"), Task::Claim);
    worker.claim(id, n_workers);
    worker
}

#[test]
fn worker_waits_for_the_start() {
    let mut worker = Worker::new(Nowhere, Tally);
    assert_eq!(worker.id(), 0);
    assert_eq!(worker.uid().len(), 36);
    assert_ne!(worker.uid(), Worker::new(Nowhere, Tally).uid());
    assert_eq!(worker.start(), Task::Register);
    for text in ["sync", "decide", "update", "terminate", "go"] {
        assert_eq!(worker.on_message(text), Task::Listen);
    }
    assert_eq!(worker.on_message("start"), Task::Claim);
    worker.claim(2, 3);
    assert_eq!(worker.id(), 2);
    assert_eq!(worker.on_message("sync"), Task::Sync);
    assert_eq!(worker.on_message("decide"), Task::Decide);
    assert_eq!(worker.on_message("update"), Task::Update);
    assert_eq!(worker.on_message("start"), Task::Unknown);
    assert_eq!(worker.on_message("dance"), Task::Unknown);
    assert_eq!(worker.on_message("terminate"), Task::Leave);
    assert_eq!(worker.process_cmd("sync"), Task::Sync);
    assert_eq!(worker.process_cmd("decide"), Task::Decide);
    assert_eq!(worker.process_cmd("update"), Task::Update);
    assert_eq!(worker.process_cmd("terminate"), Task::Leave);
    assert_eq!(worker.process_cmd("start"), Task::Unknown);
    assert_eq!(worker.process_cmd(""), Task::Unknown);
    assert_eq!(worker.start(), Task::Register);
    assert_eq!(worker.on_message("sync"), Task::Listen);
    let reporting: Vec<bool> = [
        Task::Register,
        Task::Listen,
        Task::Claim,
        Task::Sync,
        Task::Decide,
        Task::Update,
        Task::Leave,
        Task::Unknown,
    ]
    .iter()
    .map(|task| task.reports())
    .collect();
    assert_eq!(reporting, vec![false, false, false, true, true, true, false, false]);
    assert!(Task::Leave.is_last());
    assert!(!Task::Update.is_last() && !Task::Unknown.is_last() && !Task::Register.is_last());
}

#[test]
fn worker_adopts_and_drops() {
    let mut worker = tally_worker(1, 2);
    let doomed = worker.sync_population(Vec::new(), Vec::new());
    assert!(doomed.is_empty());
    let spawned = vec![
        Agent { id: u64::MAX, state: vec![1] },
        Agent { id: u64::MAX - 1, state: vec![2] },
        Agent { id: u64::MAX, state: vec![3] },
    ];
    let doomed: Vec<String> =
        worker.sync_population(spawned, Vec::new()).iter().map(|key| key.name()).collect();
    assert_eq!(doomed, vec!["spawn:1"]);
    assert_eq!(worker.population_size(), 2);
    assert_eq!(worker.agent(u64::MAX), Some(&Agent { id: u64::MAX, state: vec![3] }));
    let doomed: Vec<String> = worker
        .sync_population(vec![Agent { id: u64::MAX - 2, state: vec![] }], vec![u64::MAX, 12])
        .iter()
        .map(|key| key.name())
        .collect();
    assert_eq!(doomed, vec!["spawn:1", "kill:1"]);
    assert_eq!(worker.agent(u64::MAX), None);
    assert_eq!(worker.population_size(), 2);
    let doomed: Vec<String> = worker
        .sync_population(vec![Agent { id: 77, state: vec![] }], vec![77])
        .iter()
        .map(|key| key.name())
        .collect();
    assert_eq!(doomed, vec!["spawn:1", "kill:1"]);
    assert_eq!(worker.agent(77), None);
    assert_eq!(worker.start(), Task::Register);
    assert_eq!(worker.population_size(), 0);
}

#[test]
fn worker_keeps_its_own_updates_and_sends_the_rest() {
    let mut worker = tally_worker(0, 2);
    worker.sync_population(vec![Agent { id: 5, state: vec![] }], Vec::new());
    assert_eq!(worker.n_workers(), 2);
    let staged = worker.decide(&40);
    assert_eq!(worker.n_workers(), 2);
    // The agent 5 has queued 40 for itself and 41 for an agent of the other
    // worker.
    assert_eq!(sorted(staged.updates), vec![(1, vec![(5 + u64::MAX / 2, 41)])]);
    assert_eq!(staged.world, None);
    assert_eq!(staged.population, None);
    // From the store come, the latest first, updates that others have sent.
    let changed = worker.update(vec![(5, 3), (6, 2), (5, 1)]);
    assert_eq!(changed, vec![5]);
    assert_eq!(worker.agent(5), Some(&Agent { id: 5, state: vec![40, 1, 3] }));
    // Nothing waits after the step: the agent is not handed to the
    // simulation again, and what came for a stranger is gone.
    let changed = worker.update(Vec::new());
    assert!(changed.is_empty());
    assert_eq!(worker.agent(5), Some(&Agent { id: 5, state: vec![40, 1, 3] }));
    worker.sync_population(vec![Agent { id: 6, state: vec![9] }], Vec::new());
    let changed = worker.update(vec![(6, 8)]);
    assert_eq!(changed, vec![6]);
    assert_eq!(worker.agent(6), Some(&Agent { id: 6, state: vec![9, 8] }));
}

#[test]
fn updates_are_applied_by_one_call_of_the_simulation() {
    assert_eq!(djinn::sim::apply_updates(&Tally, vec![1], vec![2, 3]), (vec![1, 2, 3], true));
    assert_eq!(djinn::sim::apply_updates(&Tally, vec![1], Vec::new()), (vec![1], false));
    // A simulation that does not say how the world is updated leaves it as
    // it is.
    assert_eq!(Tally.world_update(9, vec![1, 2]), 9);
}

#[test]
fn worker_only_updates_agents_that_updates_wait_for() {
    let mut worker = tally_worker(0, 1);
    worker.sync_population(
        vec![Agent { id: 1, state: vec![] }, Agent { id: 2, state: vec![] }],
        Vec::new(),
    );
    let changed = worker.update(vec![(2, 7)]);
    assert_eq!(changed, vec![2]);
    assert_eq!(worker.agent(1), Some(&Agent { id: 1, state: vec![] }));
    assert_eq!(worker.agent(2), Some(&Agent { id: 2, state: vec![7] }));
    let staged = worker.collect();
    assert!(staged.updates.is_empty());
}

type NoReporter = fn(usize) -> usize;

#[test]
fn manager_holds_the_initial_population() {
    let mut manager: Manager<Tally, Nowhere, NoReporter> = Manager::new(Nowhere, Tally);
    assert!(manager.initial_population().is_none());
    let a = manager.spawn(vec![1]);
    let ids = manager.spawns(vec![vec![2], vec![3]]);
    assert_eq!(ids.len(), 2);
    assert_eq!(
        manager.initial_population(),
        Some(&vec![
            PopulationUpdate::Spawn(a, vec![1]),
            PopulationUpdate::Spawn(ids[0], vec![2]),
            PopulationUpdate::Spawn(ids[1], vec![3]),
        ])
    );
    assert!(manager.spawns(Vec::new()).is_empty());
    let doomed: Vec<String> = manager.reset().iter().map(|key| key.name()).collect();
    assert_eq!(doomed, vec!["workers", "finished"]);
}

#[test]
fn manager_knows_which_reporters_are_due() {
    fn double(n: usize) -> usize {
        2 * n
    }
    fn triple(n: usize) -> usize {
        3 * n
    }
    let mut manager: Manager<Tally, Nowhere, NoReporter> = Manager::new(Nowhere, Tally);
    assert!(manager.due_reporters(0).is_empty());
    manager.register_reporter(2, double);
    manager.register_reporter(5, double);
    manager.register_reporter(5, triple);
    manager.register_reporter(1, triple);
    // The reporters of different numbers of steps come in the order of the
    // table's walk.
    let due = |step: usize| -> Vec<usize> {
        let mut called: Vec<usize> =
            manager.due_reporters(step).iter().map(|reporter| reporter(1)).collect();
        called.sort();
        called
    };
    assert_eq!(due(0), vec![2, 2, 3, 3]);
    assert_eq!(due(1), vec![3]);
    assert_eq!(due(4), vec![2, 3]);
    assert_eq!(due(10), vec![2, 2, 3, 3]);
    assert_eq!(due(15), vec![2, 3, 3]);
    assert!(due(7) == vec![3] && due(3) == vec![3]);
}

#[test]
fn reporters_of_one_interval_all_stay() {
    fn one(_: usize) -> usize {
        1
    }
    fn two(_: usize) -> usize {
        2
    }
    fn three(_: usize) -> usize {
        3
    }
    let mut manager: Manager<Tally, Nowhere, NoReporter> = Manager::new(Nowhere, Tally);
    manager.register_reporter(4, one);
    manager.register_reporter(4, two);
    manager.register_reporter(4, three);
    let called: Vec<usize> = manager.due_reporters(8).iter().map(|reporter| reporter(0)).collect();
    assert_eq!(called, vec![1, 2, 3]);
    assert!(manager.due_reporters(9).is_empty());
}

#[test]
fn run_waits_for_workers_and_for_the_barrier() {
    let manager: Manager<Tally, Nowhere, NoReporter> = Manager::new(Nowhere, Tally);
    let mut run = manager.run(Tally, 5, 1);
    assert_eq!(
        run.progress(),
        Progress { stage: Stage::Waiting, steps: 0, n_steps: 1, n_workers: 0 }
    );
    assert_eq!(run.next(Reply::Done), Request::CountWorkers);
    assert_eq!(run.next(Reply::Workers(0)), Request::CountWorkers);
    assert_eq!(run.next(Reply::Finished { finished: 3, workers: 3 }), Request::CountWorkers);
    assert_eq!(run.next(Reply::Workers(3)), Request::Start);
    assert_eq!(run.worker_ids(), vec![0, 1, 2]);
    assert_eq!(run.progress().n_workers, 3);
    assert_eq!(run.take_world(), Some(5));
    assert_eq!(run.take_world(), None);
    assert_eq!(run.next(Reply::Done), Request::Publish(Signal::Start));
    assert_eq!(run.next(Reply::Done), Request::ApplyPopulation);
    assert_eq!(run.next(Reply::Done), Request::Publish(Signal::Sync));
    assert_eq!(run.next(Reply::Done), Request::CountFinished);
    assert_eq!(run.next(Reply::Finished { finished: 0, workers: 3 }), Request::CountFinished);
    assert_eq!(run.next(Reply::Done), Request::CountFinished);
    assert_eq!(run.next(Reply::Workers(3)), Request::CountFinished);
    assert_eq!(run.next(Reply::Finished { finished: 2, workers: 3 }), Request::CountFinished);
    assert_eq!(run.progress().stage, Stage::Barrier(Signal::Sync));
    assert_eq!(run.next(Reply::Finished { finished: 3, workers: 3 }), Request::ClearFinished);
    assert_eq!(run.next(Reply::Done), Request::Report { step: 0 });
    assert_eq!(run.next(Reply::Done), Request::Publish(Signal::Decide));
    assert_eq!(run.next(Reply::Done), Request::CountFinished);
    assert_eq!(run.next(Reply::Finished { finished: 3, workers: 3 }), Request::ClearFinished);
    assert_eq!(run.next(Reply::Done), Request::WorldDecide);
    assert_eq!(run.n_workers(), 3);
    let staged = run.world_decide(6);
    assert!(staged.updates.is_empty() && staged.world.is_none() && staged.population.is_none());
    assert_eq!(run.next(Reply::Done), Request::Publish(Signal::Update));
    assert_eq!(run.next(Reply::Done), Request::CountFinished);
    assert_eq!(run.next(Reply::Finished { finished: 3, workers: 3 }), Request::ClearFinished);
    assert_eq!(run.next(Reply::Done), Request::WorldUpdate);
    assert_eq!(run.world_update(vec![1, 2]), Some(6));
    assert_eq!(run.world_update(vec![1, 2]), None);
    assert_eq!(run.progress().steps, 0);
    assert_eq!(run.next(Reply::Done), Request::Publish(Signal::Terminate));
    assert_eq!(run.progress().steps, 1);
    assert_eq!(run.next(Reply::Done), Request::Halt);
    assert_eq!(run.next(Reply::Done), Request::Halt);
    assert_eq!(run.progress().stage, Stage::Done);
}

#[test]
fn run_of_no_steps_only_starts_and_terminates() {
    let manager: Manager<Tally, Nowhere, NoReporter> = Manager::new(Nowhere, Tally);
    let mut run = manager.run(Tally, 5, 0);
    assert_eq!(run.next(Reply::Workers(1)), Request::Start);
    assert_eq!(run.worker_ids(), vec![0]);
    assert_eq!(run.next(Reply::Done), Request::Publish(Signal::Start));
    assert_eq!(run.next(Reply::Done), Request::Publish(Signal::Terminate));
    assert_eq!(run.next(Reply::Done), Request::Halt);
}

#[test]
fn yaml_text_gives_its_first_document() {
    let doc = load_from_yaml("steps: 10\nname: run\n---\nsteps: 20\n").unwrap();
    assert_eq!(doc["steps"].as_i64(), Some(10));
    assert_eq!(doc["name"].as_str(), Some("run"));
    assert_eq!(load_from_yaml(""), Err(YamlError::Empty));
    assert_eq!(load_from_yaml("a: [1, 2"), Err(YamlError::Malformed));
}

// A simulation whose agents queue an update for themselves and then leave
// the buffer with a hasher for no workers at all.
#[derive(Clone)]
struct Meddler;

impl Simulation for Meddler {
    type State = u32;
    type World = u32;
    type Update = u32;

    fn decide<R: Redis>(
        &self,
        agent: &Agent<u32>,
        world: &u32,
        _population: &Population<Self, R>,
        updates: &mut Updates<Self>,
    ) {
        assert_eq!(updates.n_workers(), 2);
        updates.queue(agent.id, agent.state + *world);
        updates.set_hasher(WHasher::new(0));
    }

    fn update(&self, state: &mut u32, updates: Vec<u32>) -> bool {
        *state += updates.iter().sum::<u32>();
        !updates.is_empty()
    }

    fn world_decide<R: Redis>(
        &self,
        world: &u32,
        _population: &Population<Self, R>,
        updates: &mut Updates<Self>,
    ) {
        updates.queue(u64::MAX, *world);
        updates.queue_world(*world + 1);
        updates.set_hasher(WHasher::new(0));
    }
}

#[test]
fn buffer_files_for_the_same_workers_whatever_a_decider_does() {
    let mut worker = Worker::new(Nowhere, Meddler);
    assert_eq!(worker.start(), Task::Register);
    assert_eq!(worker.on_message("start"), Task::Claim);
    worker.claim(1, 2);
    let agents: Vec<Agent<u32>> =
        (0..3).map(|i| Agent { id: u64::MAX - i, state: i as u32 }).collect();
    worker.sync_population(agents, Vec::new());
    assert_eq!(worker.population_size(), 3);
    let staged = worker.decide(&10);
    assert!(staged.updates.is_empty());
    assert_eq!(worker.n_workers(), 2);
    let mut changed = worker.update(Vec::new());
    changed.sort();
    assert_eq!(changed, vec![u64::MAX - 2, u64::MAX - 1, u64::MAX]);
    assert_eq!(worker.agent(u64::MAX - 2).unwrap().state, 14);

    let manager: Manager<Meddler, Nowhere, NoReporter> = Manager::new(Nowhere, Meddler);
    let mut run = manager.run(Meddler, 0, 1);
    assert_eq!(run.next(Reply::Done), Request::CountWorkers);
    assert_eq!(run.next(Reply::Workers(2)), Request::Start);
    assert_eq!(run.n_workers(), 2);
    let staged = run.world_decide(7);
    assert_eq!(sorted(staged.updates), vec![(1, vec![(u64::MAX, 7)])]);
    assert_eq!(staged.world, Some(vec![8]));
    assert_eq!(run.n_workers(), 2);
}

#[test]
fn one_call_lets_one_agent_decide() {
    let population = Population::new(Tally, Nowhere);
    let mut buffer: Updates<Tally> = Updates::new(WHasher::new(2));
    buffer.queue(1, 5);
    let agent = Agent { id: 3, state: vec![] };
    let mut left = decide_for(&Tally, &agent, &7, &population, buffer);
    assert_eq!(left.n_workers(), 2);
    assert_eq!(
        sorted(left.push().updates),
        vec![(0, vec![(1, 5), (3, 7)]), (1, vec![(3 + u64::MAX / 2, 8)])]
    );
    // The world of this simulation decides nothing.
    let mut left = decide_for_world(&Tally, &7, &population, left);
    assert_eq!(left.n_workers(), 2);
    let staged = left.push();
    assert!(staged.updates.is_empty() && staged.world.is_none() && staged.population.is_none());
    // A decider that meddles with the hasher is held to the one it was given.
    let population = Population::new(Meddler, Nowhere);
    let buffer: Updates<Meddler> = Updates::new(WHasher::new(2));
    let mut left = decide_for(&Meddler, &Agent { id: 9, state: 1 }, &4, &population, buffer);
    assert_eq!(left.n_workers(), 2);
    assert_eq!(sorted(left.push().updates), vec![(0, vec![(9, 5)])]);
    let mut left = decide_for_world(&Meddler, &4, &population, left);
    assert_eq!(left.n_workers(), 2);
    let staged = left.push();
    assert_eq!(sorted(staged.updates), vec![(1, vec![(u64::MAX, 4)])]);
    assert_eq!(staged.world, Some(vec![5]));
}

#[test]
fn lists_hand_out_their_keys_and_their_lists() {
    let mut lists: Lists<usize, u32> = Lists::new();
    assert!(lists.keys().is_empty());
    assert_eq!(lists.get(3), None);
    lists.add(3, 30);
    lists.add(1, 10);
    lists.add(3, 31);
    let mut keys = lists.keys();
    keys.sort();
    assert_eq!(keys, vec![1, 3]);
    assert_eq!(lists.get(3), Some(&vec![30, 31]));
    assert_eq!(lists.get(1), Some(&vec![10]));
    assert_eq!(lists.get(2), None);
    assert_eq!(lists.take(3), Some(vec![30, 31]));
    assert_eq!(lists.keys(), vec![1]);
}

fn depth_of(mut node: &yaml_rust::Yaml) -> usize {
    let mut depth = 0;
    loop {
        let inner = match node {
            yaml_rust::Yaml::Array(items) => items.first(),
            yaml_rust::Yaml::Hash(pairs) => pairs.values().next(),
            _ => None,
        };
        match inner {
            Some(inner) => {
                depth += 1;
                node = inner;
            }
            None => return depth,
        }
    }
}

#[test]
fn yaml_marks_are_surveyed() {
    let open = Mark::FlowSequenceStart;
    let marks = vec![
        Mark::Other,
        Mark::BlockMappingStart,
        open,
        Mark::Anchor,
        Mark::FlowSequenceEnd,
        Mark::Alias,
        Mark::Alias,
        Mark::BlockEnd,
        Mark::BlockEnd,
        Mark::FlowMappingStart,
    ];
    assert_eq!(survey(&marks), (1, 2, 1, 2));
    assert_eq!(survey(&Vec::new()), (0, 0, 0, 0));
    assert_eq!(verdict(&marks), None);
    assert_eq!(verdict(&Vec::new()), None);
    // As deep as the text may nest, and one level deeper.
    assert_eq!(verdict(&vec![open; MAX_DEPTH / 2]), None);
    assert_eq!(verdict(&vec![open; MAX_DEPTH / 2 + 1]), Some(YamlError::TooDeep));
    // A hundred levels of marks are two hundred levels of nesting: they
    // take one copy inside, and no second.
    let with = |levels: usize, anchors: usize, aliases: usize| {
        let mut marks = vec![Mark::BlockSequenceStart; levels];
        marks.extend(vec![Mark::Anchor; anchors]);
        marks.extend(vec![Mark::Alias; aliases]);
        marks
    };
    assert_eq!(verdict(&with(100, 1, 1)), None);
    assert_eq!(verdict(&with(100, 1, 9)), None);
    assert_eq!(verdict(&with(100, 9, 1)), None);
    assert_eq!(verdict(&with(100, 2, 2)), Some(YamlError::TooManyAliases));
    assert_eq!(verdict(&with(1, 400, 400)), Some(YamlError::TooManyAliases));
    // Eleven marks with five aliases and five anchors weigh 11 * 2^5 = 352,
    // and twenty-two with fifteen aliases 22 * 2^15 = 720896; twenty-three
    // with sixteen weigh 23 * 2^16 = 1507328, which is too much.
    assert_eq!(verdict(&with(1, 5, 5)), None);
    assert_eq!(verdict(&with(1, 6, 15)), None);
    assert_eq!(verdict(&with(1, 6, 16)), Some(YamlError::TooManyAliases));
    assert_eq!(verdict(&with(0, 6, 16)), Some(YamlError::TooManyAliases));
    assert_eq!(verdict(&with(1, 100_000, 6)), Some(YamlError::TooManyAliases));
    // With three anchors, twenty aliases weigh 24 * 21^3 = 222264.
    assert_eq!(verdict(&with(1, 3, 20)), None);
    assert_eq!(verdict(&with(1, 4, 20)), Some(YamlError::TooManyAliases));
    // One anchor bears many aliases, as long as the text is small.
    assert_eq!(verdict(&with(1, 1, 1000)), None);
    assert_eq!(verdict(&with(1, 1, 1023)), Some(YamlError::TooManyAliases));
    // Without an anchor to copy from, or an alias to copy to, nothing
    // grows.
    assert_eq!(verdict(&with(5, 2_000_000, 0)), None);
    assert_eq!(verdict(&with(5, 0, 2_000_000)), None);
}

#[test]
fn yaml_growth_is_held_to_its_bound() {
    assert_eq!(MAX_NODES, 1 << 20);
    assert!(!outgrows(1, 2, 20));
    assert!(outgrows(1, 2, 21));
    assert!(outgrows(2, 2, 20));
    assert!(!outgrows(1024, 1024, 1));
    assert!(outgrows(1025, 1024, 1));
    assert!(!outgrows(0, 5, 1000));
    assert!(!outgrows(MAX_NODES, 7, 0));
    assert!(outgrows(MAX_NODES + 1, 7, 0));
    assert!(outgrows(1, usize::MAX, 2));
    assert!(outgrows(3, 2, usize::MAX));
}

#[test]
fn yaml_text_with_long_lines_is_loaded() {
    let long = "x".repeat(10_000);
    let text = format!("name: {long}\nnote: \"a * b & c - d: e [ {long}\"\nsteps: 3\n");
    let doc = load_from_yaml(&text).unwrap();
    assert_eq!(doc["name"].as_str(), Some(long.as_str()));
    assert_eq!(doc["steps"].as_i64(), Some(3));
    let many_lines = "- [1, 2]\n".repeat(1000);
    assert_eq!(load_from_yaml(&many_lines).unwrap().as_vec().unwrap().len(), 1000);
    let stars = "- \"* & *\"\n".repeat(500);
    assert_eq!(load_from_yaml(&stars).unwrap().as_vec().unwrap().len(), 500);
}

#[test]
fn yaml_text_is_held_to_its_depth() {
    let half = MAX_DEPTH / 2;
    // Sequences inside sequences.
    let dashes = format!("{}x\n", "- ".repeat(half));
    assert_eq!(depth_of(&load_from_yaml(&dashes).unwrap()), half);
    let deeper = format!("{}x\n", "- ".repeat(half + 1));
    assert_eq!(load_from_yaml(&deeper), Err(YamlError::TooDeep));
    // Flow sequences inside flow sequences.
    let flows = format!("{}{}\n", "[".repeat(half), "]".repeat(half));
    assert_eq!(depth_of(&load_from_yaml(&flows).unwrap()), half - 1);
    let deeper = format!("{}{}\n", "[".repeat(half + 1), "]".repeat(half + 1));
    assert_eq!(load_from_yaml(&deeper), Err(YamlError::TooDeep));
    let unclosed = "[\n".repeat(300);
    assert_eq!(load_from_yaml(&unclosed), Err(YamlError::TooDeep));
    assert_eq!(load_from_yaml("a: [1, 2"), Err(YamlError::Malformed));
}

#[test]
fn yaml_text_that_nests_twice_at_each_level_is_loaded() {
    let half = MAX_DEPTH / 2;
    // A mapping whose value is a sequence in the column of its key, whose
    // entry is such a mapping again: two levels for every mapping.
    let mut text = String::from("a:\n");
    for level in 1..half {
        text.push_str(&" ".repeat(2 * (level - 1)));
        text.push_str("- a:\n");
    }
    text.push_str(&" ".repeat(2 * (half - 1)));
    text.push_str("- x\n");
    assert_eq!(depth_of(&load_from_yaml(&text).unwrap()), MAX_DEPTH);
    // A flow sequence whose entry is a single pair, whose value is such a
    // sequence again.
    let pairs = format!("{}x{}\n", "[a: ".repeat(half), "]".repeat(half));
    assert_eq!(depth_of(&load_from_yaml(&pairs).unwrap()), MAX_DEPTH);
}

#[test]
fn yaml_text_is_held_to_its_aliases() {
    // Each named sequence holds a copy of the one before it.
    let chain = |links: usize| {
        let mut text = String::from("a0: &a0 [x]\n");
        for link in 1..=links {
            text.push_str(&format!("a{link}: &a{link} [*a{}]\n", link - 1));
        }
        text
    };
    let doc = load_from_yaml(&chain(4)).unwrap();
    assert_eq!(depth_of(&doc["a4"]), 5);
    assert_eq!(doc["a4"][0][0][0][0][0].as_str(), Some("x"));
    assert_eq!(depth_of(&load_from_yaml(&chain(12)).unwrap()["a12"]), 13);
    assert_eq!(load_from_yaml(&chain(20)), Err(YamlError::TooManyAliases));
    assert_eq!(load_from_yaml(&chain(100)), Err(YamlError::TooManyAliases));
    assert_eq!(load_from_yaml(&chain(10_000)), Err(YamlError::TooManyAliases));
    // Each named sequence is as deep as a flow may nest, and holds a copy
    // of the one before it.
    let deepest_chain = |links: usize| {
        let mut text = format!("a0: &a0 {}x{}\n", "[".repeat(199), "]".repeat(199));
        for link in 1..=links {
            text.push_str(&format!(
                "a{link}: &a{link} {}*a{}{}\n",
                "[".repeat(199),
                link - 1,
                "]".repeat(199)
            ));
        }
        text
    };
    assert_eq!(depth_of(&load_from_yaml(&deepest_chain(0)).unwrap()["a0"]), 199);
    assert_eq!(load_from_yaml(&deepest_chain(1)), Err(YamlError::TooManyAliases));
    assert_eq!(load_from_yaml(&deepest_chain(120)), Err(YamlError::TooManyAliases));
    // Each named sequence is fifty deep and holds a copy of the one before.
    let deep_chain = |links: usize| {
        let mut text = format!("a0: &a0 {}x{}\n", "[".repeat(50), "]".repeat(50));
        for link in 1..=links {
            text.push_str(&format!(
                "a{link}: &a{link} {}*a{}{}\n",
                "[".repeat(50),
                link - 1,
                "]".repeat(50)
            ));
        }
        text
    };
    let doc = load_from_yaml(&deep_chain(2)).unwrap();
    assert_eq!(depth_of(&doc["a2"]), 150);
    assert_eq!(load_from_yaml(&deep_chain(3)), Err(YamlError::TooManyAliases));
    assert_eq!(load_from_yaml(&deep_chain(300)), Err(YamlError::TooManyAliases));
    // A copy as deep as the text may nest, inside a sequence as deep again:
    // the deepest value that is loaded.
    let pairs = MAX_DEPTH / 4 - 1;
    let copied = format!(
        "a0: &a0 {}x{}\na1: {}*a0{}\n",
        "[a: ".repeat(pairs),
        "]".repeat(pairs),
        "[a: ".repeat(pairs),
        "]".repeat(pairs)
    );
    let doc = load_from_yaml(&copied).unwrap();
    assert_eq!(depth_of(&doc["a0"]), 2 * pairs);
    assert_eq!(depth_of(&doc["a1"]), 4 * pairs);
    // Each named sequence holds two copies of the one before it: the value
    // would double with every line.
    let mut doubling = String::from("a0: &a0 [x, x]\n");
    for link in 1..=60 {
        doubling.push_str(&format!("a{link}: &a{link} [*a{0}, *a{0}]\n", link - 1));
    }
    assert_eq!(load_from_yaml(&doubling), Err(YamlError::TooManyAliases));
    // Copies that stand side by side make nothing deeper.
    let mut wide = String::from("base: &base {a: 1, b: [2, 3]}\n");
    for i in 0..400 {
        wide.push_str(&format!("k{i}: *base\n"));
    }
    let doc = load_from_yaml(&wide).unwrap();
    assert_eq!(doc["k399"]["b"][1].as_i64(), Some(3));
    // An alias of a name that no anchor has given is no YAML.
    assert_eq!(load_from_yaml("a: *nobody\n"), Err(YamlError::Malformed));
}
