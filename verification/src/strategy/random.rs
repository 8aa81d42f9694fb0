//! Serving a host picked at random.

use vstd::prelude::*;
use rand::seq::IndexedRandom;
use crate::performance::metrics::PerformanceMetrics;
use crate::strategy::round_robin::host_texts;
use crate::strategy::strategy::Strategy;

verus! {

/// Picks one of `hosts` with `rand`'s `IndexedRandom::choose`, driven by
/// the thread-local generator `rand::rng()`, and hands back a copy of it.
/// Claimed, as `choose` does it: nothing when `hosts` is empty, otherwise
/// one of the hosts. Which host is picked rests on chance and is not stated;
/// neither is a failure of the operating system's random source, on which
/// `rand`'s thread-local generator panics.
#[verifier::external_body]
fn choose_host(hosts: &Vec<String>) -> (chosen: Option<String>)
    ensures
        chosen is None <==> hosts@.len() == 0,
        chosen matches Some(h) ==> exists|i: int| 0 <= i < hosts@.len() && (#[trigger] hosts@[i])@ == h@,
{
    hosts.choose(&mut rand::rng()).cloned()
}

/// Hands out a host picked at random.
pub struct RandomStrategy {
    worker_hosts: Vec<String>,
}

impl RandomStrategy {
    /// The hosts picked from.
    pub closed spec fn hosts(self) -> Seq<Seq<char>> {
        host_texts(self.worker_hosts@)
    }

    /// Picks from the given hosts.
    pub fn new(worker_hosts: Vec<String>) -> (s: RandomStrategy)
        ensures
            s.hosts() == host_texts(worker_hosts@),
    {
        RandomStrategy { worker_hosts }
    }
}

impl Strategy for RandomStrategy {
    /// One of the hosts, or nothing when there is none.
    fn get_worker(&mut self, metrics: &PerformanceMetrics) -> (w: Option<String>)
        ensures
            *final(self) == *old(self),
            w is None <==> old(self).hosts().len() == 0,
            w matches Some(h) ==> old(self).hosts().contains(h@),
            old(self).hosts().len() == 1 ==> (w matches Some(h) && h@ == old(self).hosts()[0]),
    {
        let w = choose_host(&self.worker_hosts);
        proof {
            if w is Some {
                let h = w->0;
                let i = choose|i: int| 0 <= i < self.worker_hosts@.len() && (#[trigger] self.worker_hosts@[i])@ == h@;
                assert(self.hosts()[i] == h@);
            }
        }
        w
    }
}

} // verus!
