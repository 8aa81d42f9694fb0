//! Serving the host with the smallest measured delay.

use vstd::prelude::*;
use crate::performance::metrics::PerformanceMetrics;
use crate::strategy::strategy::Strategy;

verus! {

/// Hands out the host with the smallest delay in the metrics.
pub struct FastestServerStrategy;

impl FastestServerStrategy {
    pub fn new() -> (s: FastestServerStrategy) {
        FastestServerStrategy
    }
}

impl Strategy for FastestServerStrategy {
    /// The host at the front of the delay queue, which has the smallest
    /// delay; nothing when the queue is empty.
    fn get_worker(&mut self, metrics: &PerformanceMetrics) -> (w: Option<String>)
        ensures
            w is None <==> metrics.latency_workers.workers@.len() == 0,
            w matches Some(h) ==> {
                &&& h@ == metrics.latency_workers.workers@[0].0
                &&& forall|i: int|
                    0 <= i < metrics.latency_workers.workers@.len()
                        ==> metrics.latency_workers.workers@[0].1 <= (
                    #[trigger] metrics.latency_workers.workers@[i]).1
            },
    {
        match metrics.latency_workers.workers.peek() {
            Some(worker) => Some(worker.host.clone()),
            None => None,
        }
    }
}

} // verus!
