//! The latency and connection measurements kept for the workers.

use vstd::prelude::*;
use std::collections::VecDeque;
use crate::performance::latency_table::LatencyTable;
use crate::performance::ordered::{
    firsts, insert_by_key, keys_ascending, lemma_insert_by_key_at, lemma_insert_position_exists,
    lemma_reinsert_first_keeps_firsts,
};
use crate::performance::queues::{delay_key, zero_delays, ConnectionsQueue, DelayQueue};
use vstd::string::*;
use crate::utils::{append_decimal, decimal, MAX_ALLOWABLE_LATENCIES_STORED_PER_WORKER};

verus! {

/// A latency, in milliseconds.
#[derive(Debug, Clone, PartialEq, Eq, Structural)]
pub struct Latency {
    pub ms: u128,
}

/// A number of open connections.
#[derive(Debug, Clone, PartialEq, Eq, Structural)]
pub struct ConnectionsCount {
    pub count: u64,
}

impl Latency {
    /// The latency as it is shown: its number of milliseconds.
    pub fn to_string(&self) -> (s: String)
        ensures
            s@ == decimal(self.ms as nat),
    {
        let mut s = String::new();
        append_decimal(&mut s, self.ms);
        s
    }
}

impl ConnectionsCount {
    /// The count as it is shown: its number.
    pub fn to_string(&self) -> (s: String)
        ensures
            s@ == decimal(self.count as nat),
    {
        let mut s = String::new();
        append_decimal(&mut s, self.count as u128);
        s
    }
}

/// A worker host and the delay measured for it.
#[derive(Debug, PartialEq, Eq)]
pub struct WorkerDelay {
    pub host: String,
    pub delay_ms: u128,
}

impl View for WorkerDelay {
    type V = (Seq<char>, u128);

    open spec fn view(&self) -> (Seq<char>, u128) {
        (self.host@, self.delay_ms)
    }
}

impl WorkerDelay {
    /// The worker as it is shown: `host:<host>, delay:<delay>`.
    pub fn to_string(&self) -> (s: String)
        ensures
            s@ == "host:"@ + self.host@ + ", delay:"@ + decimal(self.delay_ms as nat),
    {
        let mut s = String::from_str("host:");
        s.append(self.host.as_str());
        s.append(", delay:");
        append_decimal(&mut s, self.delay_ms);
        s
    }
}

/// A worker host and its number of open connections.
#[derive(Debug, PartialEq, Eq)]
pub struct WorkerConnectionsCount {
    pub host: String,
    pub connections_count: ConnectionsCount,
}

impl View for WorkerConnectionsCount {
    type V = (Seq<char>, u64);

    open spec fn view(&self) -> (Seq<char>, u64) {
        (self.host@, self.connections_count.count)
    }
}

impl WorkerConnectionsCount {
    /// The worker as it is shown: `host:<host>, connections_count:<count>`.
    pub fn to_string(&self) -> (s: String)
        ensures
            s@ == "host:"@ + self.host@ + ", connections_count:"@ + decimal(
                self.connections_count.count as nat,
            ),
    {
        let mut s = String::from_str("host:");
        s.append(self.host.as_str());
        s.append(", connections_count:");
        append_decimal(&mut s, self.connections_count.count as u128);
        s
    }
}

/// The sum of a sequence of latencies.
pub open spec fn latency_sum(s: Seq<u128>) -> int
    decreases s.len(),
{
    if s.len() == 0 {
        0
    } else {
        latency_sum(s.drop_last()) + s.last()
    }
}

/// The part of a latency history that is kept when a new sample comes in:
/// the newest `MAX_ALLOWABLE_LATENCIES_STORED_PER_WORKER` entries.
pub open spec fn kept_history(q: Seq<u128>) -> Seq<u128> {
    if q.len() > MAX_ALLOWABLE_LATENCIES_STORED_PER_WORKER {
        q.take(MAX_ALLOWABLE_LATENCIES_STORED_PER_WORKER as int)
    } else {
        q
    }
}

/// The history once the new sample `latency` stands in front of what is kept.
pub open spec fn history_with(q: Seq<u128>, latency: u128) -> Seq<u128> {
    seq![latency] + kept_history(q)
}

/// The mean of a non-empty sequence of latencies, rounded down.
pub open spec fn average(s: Seq<u128>) -> int {
    latency_sum(s) / (s.len() as int)
}

/// The history after a new sample: the average of `history_with`, in front
/// of `history_with`.
pub open spec fn recorded_history(q: Seq<u128>, latency: u128) -> Seq<u128> {
    seq![average(history_with(q, latency)) as u128] + history_with(q, latency)
}

/// How many entries of a history of length `n` are kept when a new sample
/// comes in: all of them, but at most
/// `MAX_ALLOWABLE_LATENCIES_STORED_PER_WORKER`.
pub open spec fn kept_count(n: nat) -> int {
    if n > MAX_ALLOWABLE_LATENCIES_STORED_PER_WORKER {
        MAX_ALLOWABLE_LATENCIES_STORED_PER_WORKER as int
    } else {
        n as int
    }
}

/// A sample in front adds its value to the sum.
pub proof fn lemma_latency_sum_prepend(latency: u128, s: Seq<u128>)
    ensures
        latency_sum(seq![latency] + s) == latency + latency_sum(s),
    decreases s.len(),
{
    if s.len() > 0 {
        lemma_latency_sum_prepend(latency, s.drop_last());
        assert((seq![latency] + s).drop_last() =~= seq![latency] + s.drop_last());
        assert((seq![latency] + s).last() == s.last());
    } else {
        assert(seq![latency] + s =~= seq![latency]);
        assert(seq![latency].drop_last() =~= Seq::<u128>::empty());
        assert(latency_sum(Seq::<u128>::empty()) == 0);
    }
}

/// What recording a sample does to a history, in terms of the history and
/// the sample: the newest `k` entries of the history stay, in order, behind
/// the sample itself, and in front of both stands the mean of the sample
/// and those entries, rounded down.
pub proof fn lemma_recorded_history(q: Seq<u128>, latency: u128)
    requires
        latency + latency_sum(q.take(kept_count(q.len()))) <= u128::MAX,
    ensures
        ({
            let k = kept_count(q.len());
            let r = recorded_history(q, latency);
            &&& q.len() <= MAX_ALLOWABLE_LATENCIES_STORED_PER_WORKER ==> k == q.len()
            &&& q.len() > MAX_ALLOWABLE_LATENCIES_STORED_PER_WORKER ==> k
                == MAX_ALLOWABLE_LATENCIES_STORED_PER_WORKER
            &&& r.len() == k + 2
            &&& r[1] == latency
            &&& forall|j: int| 0 <= j < k ==> r[j + 2] == #[trigger] q[j]
            &&& r[0] == (latency + latency_sum(q.take(k))) / (k + 1)
        }),
{
    let k = kept_count(q.len());
    assert(kept_history(q) =~= q.take(k));
    let w = history_with(q, latency);
    assert(w =~= seq![latency] + q.take(k));
    lemma_latency_sum_prepend(latency, q.take(k));
    lemma_latency_sum_nonnegative(q.take(k));
    assert(w.len() == k + 1);
    let total = latency_sum(w);
    assert(0 <= total / (k + 1) <= total) by (nonlinear_arith)
        requires
            0 <= total,
            k + 1 >= 1,
    ;
}

/// A sum of latencies is never negative.
pub proof fn lemma_latency_sum_nonnegative(s: Seq<u128>)
    ensures
        latency_sum(s) >= 0,
    decreases s.len(),
{
    if s.len() > 0 {
        lemma_latency_sum_nonnegative(s.drop_last());
    }
}

/// The prefix sums of latencies never exceed the whole sum.
pub proof fn lemma_latency_sum_prefix(s: Seq<u128>, i: int)
    requires
        0 <= i <= s.len(),
    ensures
        latency_sum(s.take(i)) <= latency_sum(s),
        i < s.len() ==> latency_sum(s.take(i + 1)) == latency_sum(s.take(i)) + s[i],
    decreases s.len(),
{
    if i < s.len() {
        assert(s.take(i + 1).drop_last() =~= s.take(i));
        lemma_latency_sum_prefix(s.drop_last(), i);
        assert(s.drop_last().take(i) =~= s.take(i));
    } else {
        assert(s.take(i) =~= s);
    }
}

/// The sum of a latency history.
fn sum_latencies(q: &VecDeque<u128>) -> (total: u128)
    requires
        latency_sum(q@) <= u128::MAX,
    ensures
        total == latency_sum(q@),
{
    let mut total: u128 = 0;
    let mut i: usize = 0;
    assert(q@.take(0) =~= Seq::<u128>::empty());
    while i < q.len()
        invariant
            i <= q@.len(),
            total == latency_sum(q@.take(i as int)),
            latency_sum(q@) <= u128::MAX,
        decreases q@.len() - i,
    {
        proof {
            lemma_latency_sum_prefix(q@, i as int);
            lemma_latency_sum_prefix(q@, i + 1);
        }
        total = total + q[i];
        i = i + 1;
    }
    assert(q@.take(i as int) =~= q@);
    total
}

/// The workers ordered by delay, and the latency history of each host.
pub struct LatencyWorkers {
    pub workers: DelayQueue,
    pub worker_latencies: LatencyTable,
}

impl LatencyWorkers {
    /// Every host starts with delay 0, in the order given; no host has a
    /// latency history yet.
    pub fn new(worker_hosts: Vec<String>) -> (lw: LatencyWorkers)
        ensures
            lw.workers@ == zero_delays(worker_hosts@),
            lw.worker_latencies@ == Map::<Seq<char>, Seq<u128>>::empty(),
    {
        LatencyWorkers { workers: DelayQueue::from_hosts(worker_hosts), worker_latencies: LatencyTable::new() }
    }
}

/// Everything measured about the workers.
pub struct PerformanceMetrics {
    pub latency_workers: LatencyWorkers,
    pub connections_count: ConnectionsQueue,
}

impl PerformanceMetrics {
    /// Metrics for the given hosts: each with delay 0, no latency history,
    /// and no connection counts.
    pub fn new(worker_hosts: Vec<String>) -> (m: PerformanceMetrics)
        ensures
            m.latency_workers.workers@ == zero_delays(worker_hosts@),
            m.latency_workers.worker_latencies@ == Map::<Seq<char>, Seq<u128>>::empty(),
            m.connections_count@ == Seq::<(Seq<char>, u64)>::empty(),
    {
        PerformanceMetrics {
            latency_workers: LatencyWorkers::new(worker_hosts.clone()),
            connections_count: ConnectionsQueue::new(),
        }
    }

    /// Whether recording `latency` for `host` keeps the sum of its new
    /// history within `u128`.
    pub open spec fn latency_fits(self, host: Seq<char>, latency: u128) -> bool {
        self.latency_workers.worker_latencies@.dom().contains(host) ==> latency_sum(
            history_with(self.latency_workers.worker_latencies@[host], latency),
        ) <= u128::MAX
    }

    /// The average that recording `latency` for `host` computes: the mean of
    /// the new history, or 1 for a host with no history yet.
    pub open spec fn new_average(self, host: Seq<char>, latency: u128) -> u128 {
        if self.latency_workers.worker_latencies@.dom().contains(host) {
            average(history_with(self.latency_workers.worker_latencies@[host], latency)) as u128
        } else {
            1
        }
    }

    /// The history of `host` after recording `latency`.
    pub open spec fn new_history(self, host: Seq<char>, latency: u128) -> Seq<u128> {
        if self.latency_workers.worker_latencies@.dom().contains(host) {
            recorded_history(self.latency_workers.worker_latencies@[host], latency)
        } else {
            seq![1u128]
        }
    }

    /// Records a new latency sample for `host`.
    ///
    /// A host with a history keeps its newest entries (at most
    /// `MAX_ALLOWABLE_LATENCIES_STORED_PER_WORKER`), gets the sample in
    /// front, then the mean of that history in front of it. A host without
    /// a history gets the history `[1]`, and 1 is taken as the average.
    /// The worker with the smallest delay then gets the average as its
    /// delay and moves to its place in the order; which host was measured
    /// does not matter for that.
    pub fn update_latency(&mut self, host: &String, new_latency: u128)
        requires
            old(self).latency_fits(host@, new_latency),
        ensures
            final(self).latency_workers.worker_latencies@ == old(
                self,
            ).latency_workers.worker_latencies@.insert(host@, old(self).new_history(host@, new_latency)),
            old(self).latency_workers.workers@.len() == 0 ==> final(self).latency_workers.workers@
                == old(self).latency_workers.workers@,
            old(self).latency_workers.workers@.len() > 0 ==> final(self).latency_workers.workers@
                == insert_by_key(
                old(self).latency_workers.workers@.drop_first(),
                (old(self).latency_workers.workers@[0].0, old(self).new_average(host@, new_latency)),
                delay_key(),
            ),
            final(self).connections_count@ == old(self).connections_count@,
            // The delays stay in ascending order.
            keys_ascending(final(self).latency_workers.workers@, delay_key()),
            // The same hosts stay in the queue, each as often as before.
            firsts(final(self).latency_workers.workers@).to_multiset() == firsts(
                old(self).latency_workers.workers@,
            ).to_multiset(),
            // A history never grows beyond two entries more than the kept ones.
            final(self).latency_workers.worker_latencies@[host@].len()
                <= MAX_ALLOWABLE_LATENCIES_STORED_PER_WORKER + 2,
            // A host with a history: the newest `k` entries stay, behind the
            // sample itself and, in front, the mean of the sample and those
            // entries, rounded down.
            old(self).latency_workers.worker_latencies@.dom().contains(host@) ==> ({
                let q = old(self).latency_workers.worker_latencies@[host@];
                let k = if q.len() > MAX_ALLOWABLE_LATENCIES_STORED_PER_WORKER {
                    MAX_ALLOWABLE_LATENCIES_STORED_PER_WORKER as int
                } else {
                    q.len() as int
                };
                let h = final(self).latency_workers.worker_latencies@[host@];
                &&& h.len() == k + 2
                &&& h[1] == new_latency
                &&& forall|j: int| 0 <= j < k ==> h[j + 2] == #[trigger] q[j]
                &&& h[0] == (new_latency + latency_sum(q.take(k))) / (k + 1)
            }),
            // A host without a history gets the history [1].
            !old(self).latency_workers.worker_latencies@.dom().contains(host@)
                ==> final(self).latency_workers.worker_latencies@[host@] == seq![1u128],
            // The worker that was in front now has the newest mean of `host`
            // as its delay.
            old(self).latency_workers.workers@.len() > 0 ==> final(self).latency_workers.workers@.contains(
                (
                    old(self).latency_workers.workers@[0].0,
                    final(self).latency_workers.worker_latencies@[host@][0],
                ),
            ),
    {
        let ghost before = *self;
        let mut new_average_latency: u128 = 1;
        match self.latency_workers.worker_latencies.remove(host) {
            Some(existing_latencies) => {
                let mut latencies = existing_latencies;
                let ghost stored = latencies@;
                if latencies.len() > MAX_ALLOWABLE_LATENCIES_STORED_PER_WORKER {
                    while latencies.len() > MAX_ALLOWABLE_LATENCIES_STORED_PER_WORKER
                        invariant
                            latencies@.len() >= MAX_ALLOWABLE_LATENCIES_STORED_PER_WORKER,
                            latencies@.len() <= stored.len(),
                            latencies@ == stored.take(latencies@.len() as int),
                        decreases latencies@.len(),
                    {
                        let ghost n = latencies@.len();
                        latencies.pop_back();
                        proof {
                            assert(latencies@ =~= stored.take(n - 1));
                        }
                    }
                }
                proof {
                    if stored.len() <= MAX_ALLOWABLE_LATENCIES_STORED_PER_WORKER {
                        assert(latencies@ =~= stored);
                    }
                    assert(latencies@ == kept_history(stored));
                }
                latencies.push_front(new_latency);
                let total = sum_latencies(&latencies);
                new_average_latency = total / (latencies.len() as u128);
                latencies.push_front(new_average_latency);
                self.latency_workers.worker_latencies.insert(host.clone(), latencies);
            },
            None => {
                let mut queue: VecDeque<u128> = VecDeque::new();
                queue.push_front(new_average_latency);
                proof {
                    assert(queue@ =~= seq![1u128]);
                }
                self.latency_workers.worker_latencies.insert(host.clone(), queue);
            },
        }
        proof {
            assert(self.latency_workers.worker_latencies@ =~= before.latency_workers.worker_latencies@.insert(
                host@,
                before.new_history(host@, new_latency),
            ));
        }
        self.latency_workers.workers.update_top_delay(new_average_latency);
        proof {
            let q = before.latency_workers.worker_latencies@[host@];
            if before.latency_workers.worker_latencies@.dom().contains(host@) {
                assert(kept_history(q) =~= q.take(kept_count(q.len())));
                lemma_latency_sum_prepend(new_latency, q.take(kept_count(q.len())));
                lemma_recorded_history(q, new_latency);
            }
            if before.latency_workers.workers@.len() > 0 {
                let rest = before.latency_workers.workers@.drop_first();
                let x = (before.latency_workers.workers@[0].0, new_average_latency);
                let p = lemma_insert_position_exists(rest, x, delay_key());
                lemma_insert_by_key_at(rest, x, delay_key(), p);
                assert(rest.insert(p, x)[p] == x);
                assert(self.latency_workers.worker_latencies@[host@][0] == new_average_latency);
                lemma_reinsert_first_keeps_firsts(
                    before.latency_workers.workers@,
                    new_average_latency,
                    delay_key(),
                );
            }
        }
    }
}

} // verus!
