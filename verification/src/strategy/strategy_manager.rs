//! Holding all strategies and serving through the one currently chosen.

use vstd::prelude::*;
use crate::performance::metrics::PerformanceMetrics;
use crate::performance::ordered::keys_ascending;
use crate::performance::queues::{connections_key, delay_key};
use crate::strategy::fastest_server::FastestServerStrategy;
use crate::strategy::fewest_connections::FewestConnectionsStrategy;
use crate::strategy::random::RandomStrategy;
use crate::strategy::round_robin::{host_texts, RoundRobinStrategy};
use crate::strategy::strategy::{Strategy, StrategyNames};

verus! {

/// The strategy a manager starts with: the one given, or fastest server.
pub open spec fn initial_strategy(default_strategy: Option<StrategyNames>) -> StrategyNames {
    match default_strategy {
        Some(s) => s,
        None => StrategyNames::FastestServer,
    }
}

/// All strategies over one list of hosts, and which of them is in use.
pub struct StrategyManager {
    current_strategy: StrategyNames,
    random: RandomStrategy,
    round_robin: RoundRobinStrategy,
    fastest_server: FastestServerStrategy,
    fewest_connections: FewestConnectionsStrategy,
}

impl StrategyManager {
    /// The strategy in use.
    pub closed spec fn strategy(self) -> StrategyNames {
        self.current_strategy
    }

    /// The hosts that round robin serves in turn.
    pub closed spec fn hosts(self) -> Seq<Seq<char>> {
        self.round_robin.hosts()
    }

    /// The hosts that random picks from (the same as `hosts` for a manager
    /// made by `new`).
    pub closed spec fn random_hosts(self) -> Seq<Seq<char>> {
        self.random.hosts()
    }

    /// The position of the host that round robin serves next.
    pub closed spec fn cursor(self) -> nat {
        self.round_robin.cursor()
    }

    /// The same manager with `strategy` in use.
    pub closed spec fn with_strategy(self, strategy: StrategyNames) -> StrategyManager {
        StrategyManager { current_strategy: strategy, ..self }
    }

    /// Whether the strategy in use has a host to hand out.
    pub open spec fn worker_available(self, metrics: PerformanceMetrics) -> bool {
        match self.strategy() {
            StrategyNames::RoundRobin => self.hosts().len() > 0,
            StrategyNames::Random => self.random_hosts().len() > 0,
            StrategyNames::FastestServer => metrics.latency_workers.workers@.len() > 0,
            StrategyNames::FewestConnections => metrics.connections_count@.len() > 0,
        }
    }

    /// Whether the strategy in use may hand out `host`: round robin the host
    /// at its cursor, random any of the hosts, fastest server the host at the
    /// front of the delay queue, fewest connections the host at the front of
    /// the connections queue.
    pub open spec fn may_serve(self, metrics: PerformanceMetrics, host: Seq<char>) -> bool {
        match self.strategy() {
            StrategyNames::RoundRobin => host == self.hosts()[self.cursor() as int],
            StrategyNames::Random => self.random_hosts().contains(host),
            StrategyNames::FastestServer => host == metrics.latency_workers.workers@[0].0,
            StrategyNames::FewestConnections => host == metrics.connections_count@[0].0,
        }
    }

    /// Where the round robin cursor stands after a hand-out: one further,
    /// from the last host back to the first, when round robin handed out a
    /// host; unchanged otherwise.
    pub open spec fn cursor_after_pick(self) -> nat {
        if self.strategy() == StrategyNames::RoundRobin && self.hosts().len() > 0 {
            (self.cursor() + 1) % self.hosts().len()
        } else {
            self.cursor()
        }
    }

    /// Whether this manager is `before` after a hand-out: same strategy,
    /// same hosts, and the round robin cursor moved as `cursor_after_pick`
    /// says.
    pub open spec fn after_pick_of(self, before: StrategyManager) -> bool {
        &&& self.strategy() == before.strategy()
        &&& self.hosts() == before.hosts()
        &&& self.random_hosts() == before.random_hosts()
        &&& self.cursor() == before.cursor_after_pick()
    }

    /// All strategies over `worker_hosts`, with `default_strategy` in use, or
    /// fastest server when none is given.
    pub fn new(worker_hosts: Vec<String>, default_strategy: Option<StrategyNames>) -> (m: StrategyManager)
        ensures
            m.strategy() == initial_strategy(default_strategy),
            m.hosts() == host_texts(worker_hosts@),
            m.random_hosts() == host_texts(worker_hosts@),
            m.cursor() == 0,
    {
        let random_strategy = RandomStrategy::new(worker_hosts.clone());
        let fastest_server_strategy = FastestServerStrategy::new();
        let round_robin_strategy = RoundRobinStrategy::new(worker_hosts);
        let fewest_connections = FewestConnectionsStrategy::new();
        let current_strategy = match default_strategy {
            Some(s) => s,
            None => StrategyNames::FastestServer,
        };
        StrategyManager {
            current_strategy,
            random: random_strategy,
            round_robin: round_robin_strategy,
            fastest_server: fastest_server_strategy,
            fewest_connections,
        }
    }

    /// A host from the strategy in use, or nothing when it has none.
    pub fn get_worker(&mut self, metrics: &PerformanceMetrics) -> (w: Option<String>)
        ensures
            final(self).after_pick_of(*old(self)),
            old(self).hosts().len() > 0 ==> old(self).cursor() < old(self).hosts().len(),
            w is Some <==> old(self).worker_available(*metrics),
            w matches Some(h) ==> old(self).may_serve(*metrics, h@),
            // Fastest server: the front of the delay queue, whose delay is the
            // smallest of all.
            old(self).strategy() == StrategyNames::FastestServer ==> (w matches Some(h) ==> {
                &&& h@ == metrics.latency_workers.workers@[0].0
                &&& forall|i: int|
                    0 <= i < metrics.latency_workers.workers@.len() ==> metrics.latency_workers.workers@[0].1
                        <= (#[trigger] metrics.latency_workers.workers@[i]).1
            }),
            // Fewest connections: the front of the connections queue, whose
            // count is the smallest of all.
            old(self).strategy() == StrategyNames::FewestConnections ==> (w matches Some(h) ==> {
                &&& h@ == metrics.connections_count@[0].0
                &&& forall|i: int|
                    0 <= i < metrics.connections_count@.len() ==> metrics.connections_count@[0].1
                        <= (#[trigger] metrics.connections_count@[i]).1
            }),
            // Round robin: the host at the cursor.
            old(self).strategy() == StrategyNames::RoundRobin ==> (w matches Some(h) ==> h@
                == old(self).hosts()[old(self).cursor() as int]),
            // Random: one of the hosts.
            old(self).strategy() == StrategyNames::Random ==> (w matches Some(h) ==> old(
                self,
            ).random_hosts().contains(h@)),
    {
        self.round_robin.cursor_is_valid();
        match self.current_strategy {
            StrategyNames::RoundRobin => self.round_robin.get_worker(metrics),
            StrategyNames::Random => self.random.get_worker(metrics),
            StrategyNames::FastestServer => self.fastest_server.get_worker(metrics),
            StrategyNames::FewestConnections => self.fewest_connections.get_worker(metrics),
        }
    }

    /// The strategy in use.
    pub fn get_strategy(&self) -> (s: StrategyNames)
        ensures
            s == self.strategy(),
    {
        self.current_strategy
    }

    /// Puts `strategy` in use; nothing else changes.
    pub fn set_strategy(&mut self, strategy: StrategyNames)
        ensures
            *final(self) == old(self).with_strategy(strategy),
    {
        self.current_strategy = strategy;
    }
}

/// What `get_strategy` reads after `set_strategy` is what was set, and
/// setting a strategy changes neither the hosts nor the round robin cursor.
pub proof fn lemma_strategy_read_after_write(m: StrategyManager, strategy: StrategyNames)
    ensures
        m.with_strategy(strategy).strategy() == strategy,
        m.with_strategy(strategy).hosts() == m.hosts(),
        m.with_strategy(strategy).random_hosts() == m.random_hosts(),
        m.with_strategy(strategy).cursor() == m.cursor(),
{
}

/// Fastest server hands out a host with the smallest delay: when the delay
/// queue is in ascending order (as every `DelayQueue` is), any host the
/// manager may serve under fastest server is the host of some worker whose
/// delay is at most every worker's delay.
pub proof fn lemma_fastest_server_serves_smallest_delay(
    m: StrategyManager,
    metrics: PerformanceMetrics,
    host: Seq<char>,
)
    requires
        m.strategy() == StrategyNames::FastestServer,
        metrics.latency_workers.workers@.len() > 0,
        keys_ascending(metrics.latency_workers.workers@, delay_key()),
        m.may_serve(metrics, host),
    ensures
        exists|i: int|
            0 <= i < metrics.latency_workers.workers@.len() && (#[trigger] metrics.latency_workers.workers@[i]).0
                == host && forall|j: int|
                0 <= j < metrics.latency_workers.workers@.len() ==> metrics.latency_workers.workers@[i].1
                    <= (#[trigger] metrics.latency_workers.workers@[j]).1,
{
    let ws = metrics.latency_workers.workers@;
    assert forall|j: int| 0 <= j < ws.len() implies ws[0].1 <= (#[trigger] ws[j]).1 by {
        assert((delay_key())(ws[0]) <= (delay_key())(ws[j]));
    }
    assert(ws[0].0 == host);
}

/// Fewest connections hands out a host with the fewest connections: when
/// the connections queue is in ascending order (as every `ConnectionsQueue`
/// is), any host the manager may serve under fewest connections is the host
/// of some worker whose count is at most every worker's count.
pub proof fn lemma_fewest_connections_serves_fewest(
    m: StrategyManager,
    metrics: PerformanceMetrics,
    host: Seq<char>,
)
    requires
        m.strategy() == StrategyNames::FewestConnections,
        metrics.connections_count@.len() > 0,
        keys_ascending(metrics.connections_count@, connections_key()),
        m.may_serve(metrics, host),
    ensures
        exists|i: int|
            0 <= i < metrics.connections_count@.len() && (#[trigger] metrics.connections_count@[i]).0 == host
                && forall|j: int|
                0 <= j < metrics.connections_count@.len() ==> metrics.connections_count@[i].1 <= (
                #[trigger] metrics.connections_count@[j]).1,
{
    let cs = metrics.connections_count@;
    assert forall|j: int| 0 <= j < cs.len() implies cs[0].1 <= (#[trigger] cs[j]).1 by {
        assert((connections_key())(cs[0]) <= (connections_key())(cs[j]));
    }
    assert(cs[0].0 == host);
}

/// One call on a manager, from `before` to `after`: `Some(s)` stands for
/// `set_strategy(s)`, `None` for a `get_worker` call (with any metrics).
/// `get_strategy` takes the manager by shared reference and changes nothing.
pub open spec fn manager_step(before: StrategyManager, after: StrategyManager, call: Option<StrategyNames>) -> bool {
    match call {
        Some(s) => after == before.with_strategy(s),
        None => after.after_pick_of(before),
    }
}

/// The strategy after a sequence of calls: the last one set, or `initial`
/// when none was.
pub open spec fn last_strategy_set(calls: Seq<Option<StrategyNames>>, initial: StrategyNames) -> StrategyNames
    decreases calls.len(),
{
    if calls.len() == 0 {
        initial
    } else {
        match calls.last() {
            Some(s) => s,
            None => last_strategy_set(calls.drop_last(), initial),
        }
    }
}

/// Over a whole run of calls: a manager made by `new` with
/// `default_strategy`, then `set_strategy` and `get_worker` calls in any
/// order (`states[t]` being the manager before call `t`), has in use, and so
/// `get_strategy` reads, the last strategy set, or the default when none was.
pub proof fn lemma_strategy_after_calls(
    default_strategy: Option<StrategyNames>,
    states: Seq<StrategyManager>,
    calls: Seq<Option<StrategyNames>>,
)
    requires
        states.len() == calls.len() + 1,
        states[0].strategy() == initial_strategy(default_strategy),
        forall|t: int| 0 <= t < calls.len() ==> manager_step(#[trigger] states[t], states[t + 1], calls[t]),
    ensures
        states.last().strategy() == last_strategy_set(calls, initial_strategy(default_strategy)),
    decreases calls.len(),
{
    if calls.len() > 0 {
        let k = calls.len() - 1;
        lemma_strategy_after_calls(default_strategy, states.drop_last(), calls.drop_last());
        assert(states.drop_last().last() == states[k]);
        assert(manager_step(states[k], states[k + 1], calls[k]));
        match calls[k] {
            Some(s) => {
                lemma_strategy_read_after_write(states[k], s);
            },
            None => {},
        }
    }
}

} // verus!
