//! Serving the hosts in turn.

use vstd::prelude::*;
use crate::performance::metrics::PerformanceMetrics;
use crate::strategy::strategy::Strategy;

verus! {

/// Hands out the hosts one after the other, starting over after the last.
pub struct RoundRobinStrategy {
    worker_hosts: Vec<String>,
    current_worker: usize,
}

/// The hosts of a list, as text.
pub open spec fn host_texts(hosts: Seq<String>) -> Seq<Seq<char>> {
    hosts.map_values(|h: String| h@)
}

impl RoundRobinStrategy {
    #[verifier::type_invariant]
    closed spec fn cursor_in_range(self) -> bool {
        self.worker_hosts@.len() == 0 || self.current_worker < self.worker_hosts@.len()
    }

    /// The hosts served, in turn.
    pub closed spec fn hosts(self) -> Seq<Seq<char>> {
        host_texts(self.worker_hosts@)
    }

    /// The position of the host served next.
    pub closed spec fn cursor(self) -> nat {
        self.current_worker as nat
    }

    /// Serves the given hosts in turn, the first one first.
    pub fn new(worker_hosts: Vec<String>) -> (s: RoundRobinStrategy)
        ensures
            s.hosts() == host_texts(worker_hosts@),
            s.cursor() == 0,
    {
        RoundRobinStrategy { worker_hosts, current_worker: 0 }
    }

    /// The position of the host served next is within the hosts.
    pub(crate) fn cursor_is_valid(&self)
        ensures
            self.hosts().len() == 0 || self.cursor() < self.hosts().len(),
    {
        proof {
            use_type_invariant(self);
        }
    }
}

/// A host handed out, as text.
pub open spec fn host_text(w: Option<String>) -> Option<Seq<char>> {
    match w {
        Some(h) => Some(h@),
        None => None,
    }
}

/// One hand-out of a round robin: from `before` to `after`, handing out
/// `w`. With hosts, the host at the cursor is handed out and the cursor
/// moves on by one, from the last host back to the first; without hosts,
/// nothing is handed out and nothing changes.
pub open spec fn round_robin_step(
    before: RoundRobinStrategy,
    after: RoundRobinStrategy,
    w: Option<Seq<char>>,
) -> bool {
    &&& after.hosts() == before.hosts()
    &&& before.hosts().len() == 0 ==> w is None && after.cursor() == before.cursor()
    &&& before.hosts().len() > 0 ==> {
        &&& before.cursor() < before.hosts().len()
        &&& w == Some(before.hosts()[before.cursor() as int])
        &&& after.cursor() == (before.cursor() + 1) % before.hosts().len()
    }
}

impl Strategy for RoundRobinStrategy {
    /// The host at the cursor, after which the cursor moves on by one,
    /// from the last host back to the first; nothing when there are no
    /// hosts.
    fn get_worker(&mut self, metrics: &PerformanceMetrics) -> (w: Option<String>)
        ensures
            round_robin_step(*old(self), *final(self), host_text(w)),
    {
        proof {
            use_type_invariant(&*self);
        }
        if self.worker_hosts.len() == 0 {
            return None;
        }
        let worker = self.worker_hosts[self.current_worker].clone();
        self.current_worker = (self.current_worker + 1) % self.worker_hosts.len();
        Some(worker)
    }
}

/// Where the cursor of a round robin over `n` hosts stands after `k`
/// hand-outs that started at `c`.
pub open spec fn round_robin_cursor_after(n: nat, c: nat, k: nat) -> nat
    decreases k,
{
    if k == 0 {
        c
    } else {
        (round_robin_cursor_after(n, c, (k - 1) as nat) + 1) % n
    }
}

/// Round robin serves the hosts in turn: starting at position `c`, the
/// hand-out numbered `k` (from 0) serves the host at `(c + k) % n`.
pub proof fn lemma_round_robin_serves_in_turn(n: nat, c: nat, k: nat)
    requires
        n > 0,
        c < n,
    ensures
        round_robin_cursor_after(n, c, k) == (c + k) % n,
    decreases k,
{
    if k == 0 {
        vstd::arithmetic::div_mod::lemma_small_mod(c, n);
    } else {
        lemma_round_robin_serves_in_turn(n, c, (k - 1) as nat);
        vstd::arithmetic::div_mod::lemma_add_mod_noop((c + k - 1) as int, 1, n as int);
        vstd::arithmetic::div_mod::lemma_mod_bound((c + k - 1) as int, n as int);
        if n == 1 {
            vstd::arithmetic::div_mod::lemma_mod_self_0(1);
        } else {
            vstd::arithmetic::div_mod::lemma_small_mod(1, n);
        }
    }
}

/// Along a run of hand-outs that starts from a round robin as `new` makes
/// it, the state before hand-out `i` has the hosts it started with and its
/// cursor at `i % n`.
proof fn lemma_round_robin_run_cursor(
    worker_hosts: Seq<String>,
    states: Seq<RoundRobinStrategy>,
    picks: Seq<Option<Seq<char>>>,
    i: int,
)
    requires
        worker_hosts.len() > 0,
        states.len() == picks.len() + 1,
        states[0].hosts() == host_texts(worker_hosts),
        states[0].cursor() == 0,
        forall|t: int| 0 <= t < picks.len() ==> round_robin_step(#[trigger] states[t], states[t + 1], picks[t]),
        0 <= i < states.len(),
    ensures
        states[i].hosts() == host_texts(worker_hosts),
        states[i].cursor() == i % (worker_hosts.len() as int),
        states[i].cursor() == round_robin_cursor_after(worker_hosts.len(), 0, i as nat),
    decreases i,
{
    let n = worker_hosts.len();
    if i == 0 {
        vstd::arithmetic::div_mod::lemma_small_mod(0, n);
    } else {
        lemma_round_robin_run_cursor(worker_hosts, states, picks, i - 1);
        assert(round_robin_step(states[i - 1], states[i], picks[i - 1]));
        vstd::arithmetic::div_mod::lemma_add_mod_noop(i - 1, 1, n as int);
        vstd::arithmetic::div_mod::lemma_mod_bound(i - 1, n as int);
        if n == 1 {
            vstd::arithmetic::div_mod::lemma_mod_self_0(1);
        } else {
            vstd::arithmetic::div_mod::lemma_small_mod(1, n);
        }
    }
}

/// Which hand-out, among the `n` that start at hand-out `k`, serves the
/// host at position `j`.
pub open spec fn round_robin_window_turn(n: nat, k: nat, j: nat) -> nat {
    k + round_robin_turn_of(n, (k % n) as nat, j)
}

/// Round robin over calls: take a round robin made by `new` over
/// `worker_hosts` (`n > 0` hosts) and a run of `get_worker` calls on it,
/// `states[t]` being the strategy before call `t` and `picks[t]` what that
/// call handed out. Call `i` hands out the host at position `i % n`; so after
/// any `k` calls, the next `n` hand out the hosts at `(k + i) % n` in order,
/// and any `n` calls in a row serve each host exactly once.
pub proof fn lemma_round_robin_run(
    worker_hosts: Seq<String>,
    states: Seq<RoundRobinStrategy>,
    picks: Seq<Option<Seq<char>>>,
)
    requires
        worker_hosts.len() > 0,
        states.len() == picks.len() + 1,
        states[0].hosts() == host_texts(worker_hosts),
        states[0].cursor() == 0,
        forall|t: int| 0 <= t < picks.len() ==> round_robin_step(#[trigger] states[t], states[t + 1], picks[t]),
    ensures
        forall|i: int|
            0 <= i < picks.len() ==> #[trigger] picks[i] == Some(
                worker_hosts[i % (worker_hosts.len() as int)]@,
            ),
        forall|k: nat, j: nat|
            k + worker_hosts.len() <= picks.len() && j < worker_hosts.len() ==> {
                &&& k <= #[trigger] round_robin_window_turn(worker_hosts.len(), k, j) < k
                    + worker_hosts.len()
                &&& picks[round_robin_window_turn(worker_hosts.len(), k, j) as int] == Some(
                    worker_hosts[j as int]@,
                )
            },
        forall|t1: int, t2: int|
            0 <= t1 < t2 < t1 + worker_hosts.len() ==> #[trigger] (t1 % (worker_hosts.len() as int))
                != #[trigger] (t2 % (worker_hosts.len() as int)),
{
    let n = worker_hosts.len();
    assert forall|i: int| 0 <= i < picks.len() implies #[trigger] picks[i] == Some(
        worker_hosts[i % (n as int)]@,
    ) by {
        lemma_round_robin_run_cursor(worker_hosts, states, picks, i);
        assert(round_robin_step(states[i], states[i + 1], picks[i]));
        vstd::arithmetic::div_mod::lemma_mod_bound(i, n as int);
        assert(host_texts(worker_hosts)[i % (n as int)] == worker_hosts[i % (n as int)]@);
    }
    assert forall|k: nat, j: nat| k + n <= picks.len() && j < n implies {
        &&& k <= #[trigger] round_robin_window_turn(n, k, j) < k + n
        &&& picks[round_robin_window_turn(n, k, j) as int] == Some(worker_hosts[j as int]@)
    } by {
        let c = (k % n) as nat;
        vstd::arithmetic::div_mod::lemma_mod_bound(k as int, n as int);
        lemma_round_robin_serves_every_host(n, c);
        let d = round_robin_turn_of(n, c, j);
        assert(d < n && round_robin_cursor_after(n, c, d) == j);
        lemma_round_robin_serves_in_turn(n, c, d);
        let t = (k + d) as int;
        assert(picks[t] == Some(worker_hosts[t % (n as int)]@));
        // (k % n + d) % n == (k + d) % n
        vstd::arithmetic::div_mod::lemma_add_mod_noop(k as int, d as int, n as int);
        vstd::arithmetic::div_mod::lemma_small_mod(d, n);
        vstd::arithmetic::div_mod::lemma_add_mod_noop(c as int, d as int, n as int);
        vstd::arithmetic::div_mod::lemma_mod_twice(k as int, n as int);
    }
    assert forall|t1: int, t2: int| 0 <= t1 < t2 < t1 + n implies #[trigger] (t1 % (n as int))
        != #[trigger] (t2 % (n as int)) by {
        vstd::arithmetic::div_mod::lemma_fundamental_div_mod(t1, n as int);
        vstd::arithmetic::div_mod::lemma_fundamental_div_mod(t2, n as int);
        vstd::arithmetic::div_mod::lemma_mod_bound(t1, n as int);
        vstd::arithmetic::div_mod::lemma_mod_bound(t2, n as int);
        if t1 % (n as int) == t2 % (n as int) {
            assert((n as int) * (t2 / (n as int)) - (n as int) * (t1 / (n as int)) == t2 - t1);
            vstd::arithmetic::mul::lemma_mul_is_distributive_sub(n as int, t2 / (n as int), t1 / (n as int));
            let q = t2 / (n as int) - t1 / (n as int);
            assert((n as int) * q == t2 - t1);
            assert(false) by (nonlinear_arith)
                requires
                    (n as int) * q == t2 - t1,
                    0 < t2 - t1 < (n as int),
            ;
        }
    }
}

/// How many hand-outs after one at position `c` the host at position `j`
/// is served.
pub open spec fn round_robin_turn_of(n: nat, c: nat, j: nat) -> nat {
    ((j + n - c) % (n as int)) as nat
}

/// Round robin is fair: any `n` hand-outs in a row serve each of the `n`
/// hosts exactly once.
pub proof fn lemma_round_robin_serves_every_host(n: nat, c: nat)
    requires
        n > 0,
        c < n,
    ensures
        forall|j: nat|
            j < n ==> #[trigger] round_robin_turn_of(n, c, j) < n && round_robin_cursor_after(
                n,
                c,
                round_robin_turn_of(n, c, j),
            ) == j,
        forall|k1: nat, k2: nat|
            k1 < k2 < n ==> #[trigger] round_robin_cursor_after(n, c, k1)
                != #[trigger] round_robin_cursor_after(n, c, k2),
{
    assert forall|j: nat| j < n implies #[trigger] round_robin_turn_of(n, c, j) < n
        && round_robin_cursor_after(n, c, round_robin_turn_of(n, c, j)) == j by {
        let k = round_robin_turn_of(n, c, j);
        if j >= c {
            vstd::arithmetic::div_mod::lemma_mod_add_multiples_vanish((j - c) as int, n as int);
            vstd::arithmetic::div_mod::lemma_small_mod((j - c) as nat, n);
            assert(k == j - c);
        } else {
            vstd::arithmetic::div_mod::lemma_small_mod((j + n - c) as nat, n);
            assert(k == j + n - c);
        }
        lemma_round_robin_serves_in_turn(n, c, k);
        if j >= c {
            vstd::arithmetic::div_mod::lemma_small_mod(j, n);
        } else {
            vstd::arithmetic::div_mod::lemma_mod_add_multiples_vanish(j as int, n as int);
            vstd::arithmetic::div_mod::lemma_small_mod(j, n);
        }
    }
    assert forall|k1: nat, k2: nat| k1 < k2 < n implies #[trigger] round_robin_cursor_after(n, c, k1)
        != #[trigger] round_robin_cursor_after(n, c, k2) by {
        lemma_round_robin_serves_in_turn(n, c, k1);
        lemma_round_robin_serves_in_turn(n, c, k2);
        if c + k1 < n {
            vstd::arithmetic::div_mod::lemma_small_mod(c + k1, n);
        } else {
            vstd::arithmetic::div_mod::lemma_mod_sub_multiples_vanish((c + k1) as int, n as int);
            vstd::arithmetic::div_mod::lemma_small_mod((c + k1 - n) as nat, n);
        }
        if c + k2 < n {
            vstd::arithmetic::div_mod::lemma_small_mod(c + k2, n);
        } else {
            vstd::arithmetic::div_mod::lemma_mod_sub_multiples_vanish((c + k2) as int, n as int);
            vstd::arithmetic::div_mod::lemma_small_mod((c + k2 - n) as nat, n);
        }
    }
}

} // verus!
