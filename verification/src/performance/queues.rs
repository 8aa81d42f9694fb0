//! Worker queues ordered so that the best worker comes first: by delay for
//! the fastest-server strategy, by open connections for the
//! fewest-connections strategy.

use vstd::prelude::*;
use crate::performance::metrics::{WorkerConnectionsCount, WorkerDelay};
use crate::performance::ordered::{
    insert_by_key, is_insert_position, keys_ascending, lemma_insert_at_position_properties,
    lemma_insert_by_key_at,
};

verus! {

/// The key that orders workers by delay.
pub open spec fn delay_key() -> spec_fn((Seq<char>, u128)) -> int {
    |w: (Seq<char>, u128)| w.1 as int
}

/// The key that orders workers by open connections.
pub open spec fn connections_key() -> spec_fn((Seq<char>, u64)) -> int {
    |w: (Seq<char>, u64)| w.1 as int
}

/// The (host, delay) pairs of a sequence of workers.
pub open spec fn delay_entries(items: Seq<WorkerDelay>) -> Seq<(Seq<char>, u128)> {
    items.map_values(|w: WorkerDelay| w@)
}

/// The (host, connections) pairs of a sequence of workers.
pub open spec fn connection_entries(items: Seq<WorkerConnectionsCount>) -> Seq<(Seq<char>, u64)> {
    items.map_values(|w: WorkerConnectionsCount| w@)
}

/// The given hosts, each with delay 0.
pub open spec fn zero_delays(hosts: Seq<String>) -> Seq<(Seq<char>, u128)> {
    hosts.map_values(|h: String| (h@, 0u128))
}

/// (host, delay) pairs as texts.
pub open spec fn delay_pairs(v: Seq<(String, u128)>) -> Seq<(Seq<char>, u128)> {
    v.map_values(|p: (String, u128)| (p.0@, p.1))
}

/// (host, connections) pairs as texts.
pub open spec fn connection_pairs(v: Seq<(String, u64)>) -> Seq<(Seq<char>, u64)> {
    v.map_values(|p: (String, u64)| (p.0@, p.1))
}

/// Workers with their delays, the one with the smallest delay first.
pub struct DelayQueue {
    items: Vec<WorkerDelay>,
}

impl View for DelayQueue {
    type V = Seq<(Seq<char>, u128)>;

    closed spec fn view(&self) -> Seq<(Seq<char>, u128)> {
        delay_entries(self.items@)
    }
}

impl DelayQueue {
    #[verifier::type_invariant]
    closed spec fn ascending(self) -> bool {
        keys_ascending(delay_entries(self.items@), delay_key())
    }

    /// An empty queue.
    pub fn new() -> (q: DelayQueue)
        ensures
            q@ == Seq::<(Seq<char>, u128)>::empty(),
    {
        let q = DelayQueue { items: Vec::new() };
        assert(q@ =~= Seq::<(Seq<char>, u128)>::empty());
        q
    }

    /// A queue of the given hosts, each with delay 0, in the given order.
    pub fn from_hosts(hosts: Vec<String>) -> (q: DelayQueue)
        ensures
            q@ == zero_delays(hosts@),
    {
        let mut items: Vec<WorkerDelay> = Vec::new();
        let mut i: usize = 0;
        while i < hosts.len()
            invariant
                i <= hosts@.len(),
                items@.len() == i,
                delay_entries(items@) == zero_delays(hosts@.take(i as int)),
                forall|j: int| 0 <= j < items@.len() ==> #[trigger] items@[j].delay_ms == 0,
            decreases hosts@.len() - i,
        {
            let w = WorkerDelay { host: hosts[i].clone(), delay_ms: 0 };
            let ghost before = items@;
            items.push(w);
            proof {
                assert forall|j: int| 0 <= j < i + 1 implies #[trigger] delay_entries(items@)[j]
                    == zero_delays(hosts@.take(i + 1))[j] by {
                    if j < i {
                        assert(delay_entries(before)[j] == zero_delays(hosts@.take(i as int))[j]);
                        assert(items@[j] == before[j]);
                    }
                }
                assert(delay_entries(items@) =~= zero_delays(hosts@.take(i + 1)));
            }
            i = i + 1;
        }
        assert(hosts@.take(i as int) =~= hosts@);
        DelayQueue { items }
    }

    /// The number of workers.
    pub fn len(&self) -> (n: usize)
        ensures
            n == self@.len(),
    {
        self.items.len()
    }

    /// The workers with their delays, smallest delay first.
    pub fn entries(&self) -> (v: Vec<(String, u128)>)
        ensures
            delay_pairs(v@) == self@,
    {
        let mut v: Vec<(String, u128)> = Vec::new();
        let mut i: usize = 0;
        while i < self.items.len()
            invariant
                i <= self.items@.len(),
                v@.len() == i,
                self@.len() == self.items@.len(),
                delay_pairs(v@) == self@.take(i as int),
            decreases self.items@.len() - i,
        {
            let w = &self.items[i];
            let ghost before = v@;
            let h = w.host.clone();
            v.push((h, w.delay_ms));
            proof {
                assert(self@[i as int] == (w.host@, w.delay_ms));
                assert(v@ == before.push((h, w.delay_ms)));
                assert(delay_pairs(before) == self@.take(i as int));
                assert forall|j: int| 0 <= j < i + 1 implies #[trigger] delay_pairs(v@)[j] == self@.take(i + 1)[j] by {
                    if j < i {
                        assert(delay_pairs(before)[j] == self@.take(i as int)[j]);
                        assert(v@[j] == before[j]);
                    }
                }
                assert(delay_pairs(v@) =~= self@.take(i + 1));
            }
            i = i + 1;
        }
        assert(self@.take(i as int) =~= self@);
        v
    }

    /// The worker with the smallest delay, if there is a worker.
    pub fn peek(&self) -> (w: Option<&WorkerDelay>)
        ensures
            w is None <==> self@.len() == 0,
            w matches Some(w) ==> w@ == self@[0] && forall|i: int|
                0 <= i < self@.len() ==> w.delay_ms <= (#[trigger] self@[i]).1,
    {
        proof {
            use_type_invariant(self);
        }
        if self.items.len() == 0 {
            None
        } else {
            Some(&self.items[0])
        }
    }

    /// Gives the first worker (the one with the smallest delay) the delay
    /// `delay` and moves it to its place: after the workers whose delay is
    /// at most `delay`, before those whose delay is greater. An empty queue
    /// stays empty.
    pub fn update_top_delay(&mut self, delay: u128)
        ensures
            old(self)@.len() == 0 ==> final(self)@ == old(self)@,
            old(self)@.len() > 0 ==> final(self)@ == insert_by_key(
                old(self)@.drop_first(),
                (old(self)@[0].0, delay),
                delay_key(),
            ),
            keys_ascending(final(self)@, delay_key()),
    {
        proof {
            use_type_invariant(&*self);
        }
        let mut items: Vec<WorkerDelay> = Vec::new();
        std::mem::swap(&mut items, &mut self.items);
        let ghost before = delay_entries(items@);
        if items.len() == 0 {
            self.items = items;
            return;
        }
        let mut top = items.remove(0);
        top.delay_ms = delay;
        let ghost rest = delay_entries(items@);
        proof {
            assert(rest =~= before.drop_first());
        }
        let mut p: usize = 0;
        while p < items.len() && items[p].delay_ms <= delay
            invariant
                p <= items.len(),
                rest == delay_entries(items@),
                forall|j: int| 0 <= j < p ==> (#[trigger] items@[j]).delay_ms <= delay,
            decreases items.len() - p,
        {
            p = p + 1;
        }
        proof {
            assert forall|j: int| 0 <= j < p implies (delay_key())(#[trigger] rest[j]) <= (
            delay_key())(top@) by {
                assert(rest[j] == items@[j]@);
            }
            if p < rest.len() {
                assert(rest[p as int] == items@[p as int]@);
            }
            assert(is_insert_position(rest, top@, delay_key(), p as int));
            lemma_insert_by_key_at(rest, top@, delay_key(), p as int);
            lemma_insert_at_position_properties(rest, top@, delay_key(), p as int);
            assert forall|i: int, j: int| 0 <= i <= j < rest.len() implies (delay_key())(
                #[trigger] rest[i],
            ) <= (delay_key())(#[trigger] rest[j]) by {
                assert(rest[i] == before[i + 1] && rest[j] == before[j + 1]);
            }
        }
        items.insert(p, top);
        proof {
            assert(delay_entries(items@) =~= rest.insert(p as int, top@));
        }
        self.items = items;
    }
}

/// Workers with their numbers of open connections, the one with the fewest
/// first.
pub struct ConnectionsQueue {
    items: Vec<WorkerConnectionsCount>,
}

impl View for ConnectionsQueue {
    type V = Seq<(Seq<char>, u64)>;

    closed spec fn view(&self) -> Seq<(Seq<char>, u64)> {
        connection_entries(self.items@)
    }
}

impl ConnectionsQueue {
    #[verifier::type_invariant]
    closed spec fn ascending(self) -> bool {
        keys_ascending(connection_entries(self.items@), connections_key())
    }

    /// An empty queue.
    pub fn new() -> (q: ConnectionsQueue)
        ensures
            q@ == Seq::<(Seq<char>, u64)>::empty(),
    {
        let q = ConnectionsQueue { items: Vec::new() };
        assert(q@ =~= Seq::<(Seq<char>, u64)>::empty());
        q
    }

    /// The number of workers.
    pub fn len(&self) -> (n: usize)
        ensures
            n == self@.len(),
    {
        self.items.len()
    }

    /// The workers with their numbers of connections, fewest first.
    pub fn entries(&self) -> (v: Vec<(String, u64)>)
        ensures
            connection_pairs(v@) == self@,
    {
        let mut v: Vec<(String, u64)> = Vec::new();
        let mut i: usize = 0;
        while i < self.items.len()
            invariant
                i <= self.items@.len(),
                v@.len() == i,
                self@.len() == self.items@.len(),
                connection_pairs(v@) == self@.take(i as int),
            decreases self.items@.len() - i,
        {
            let w = &self.items[i];
            let ghost before = v@;
            let h = w.host.clone();
            v.push((h, w.connections_count.count));
            proof {
                assert(self@[i as int] == (w.host@, w.connections_count.count));
                assert(v@ == before.push((h, w.connections_count.count)));
                assert(connection_pairs(before) == self@.take(i as int));
                assert forall|j: int| 0 <= j < i + 1 implies #[trigger] connection_pairs(v@)[j] == self@.take(i + 1)[j] by {
                    if j < i {
                        assert(connection_pairs(before)[j] == self@.take(i as int)[j]);
                        assert(v@[j] == before[j]);
                    }
                }
                assert(connection_pairs(v@) =~= self@.take(i + 1));
            }
            i = i + 1;
        }
        assert(self@.take(i as int) =~= self@);
        v
    }

    /// The worker with the fewest open connections, if there is a worker.
    pub fn peek(&self) -> (w: Option<&WorkerConnectionsCount>)
        ensures
            w is None <==> self@.len() == 0,
            w matches Some(w) ==> w@ == self@[0] && forall|i: int|
                0 <= i < self@.len() ==> w.connections_count.count <= (#[trigger] self@[i]).1,
    {
        proof {
            use_type_invariant(self);
        }
        if self.items.len() == 0 {
            None
        } else {
            Some(&self.items[0])
        }
    }

    /// Adds a worker after those with at most as many connections.
    pub fn push(&mut self, worker: WorkerConnectionsCount)
        ensures
            final(self)@ == insert_by_key(old(self)@, worker@, connections_key()),
            keys_ascending(final(self)@, connections_key()),
    {
        proof {
            use_type_invariant(&*self);
        }
        let mut items: Vec<WorkerConnectionsCount> = Vec::new();
        std::mem::swap(&mut items, &mut self.items);
        let ghost before = connection_entries(items@);
        let count = worker.connections_count.count;
        let mut p: usize = 0;
        while p < items.len() && items[p].connections_count.count <= count
            invariant
                p <= items.len(),
                before == connection_entries(items@),
                forall|j: int|
                    0 <= j < p ==> (#[trigger] items@[j]).connections_count.count <= count,
            decreases items.len() - p,
        {
            p = p + 1;
        }
        proof {
            assert forall|j: int| 0 <= j < p implies (connections_key())(#[trigger] before[j]) <= (
            connections_key())(worker@) by {
                assert(before[j] == items@[j]@);
            }
            if p < before.len() {
                assert(before[p as int] == items@[p as int]@);
            }
            lemma_insert_by_key_at(before, worker@, connections_key(), p as int);
            lemma_insert_at_position_properties(before, worker@, connections_key(), p as int);
        }
        let ghost w = worker@;
        items.insert(p, worker);
        proof {
            assert(connection_entries(items@) =~= before.insert(p as int, w));
        }
        self.items = items;
    }
}

} // verus!
