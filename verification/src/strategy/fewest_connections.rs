//! Serving the host with the fewest open connections.

use vstd::prelude::*;
use crate::performance::metrics::PerformanceMetrics;
use crate::strategy::strategy::Strategy;

verus! {

/// Hands out the host with the fewest connections in the metrics.
pub struct FewestConnectionsStrategy;

impl FewestConnectionsStrategy {
    pub fn new() -> (s: FewestConnectionsStrategy) {
        FewestConnectionsStrategy
    }
}

impl Strategy for FewestConnectionsStrategy {
    /// The host at the front of the connections queue, which has the fewest
    /// connections; nothing when the queue is empty.
    fn get_worker(&mut self, metrics: &PerformanceMetrics) -> (w: Option<String>)
        ensures
            w is None <==> metrics.connections_count@.len() == 0,
            w matches Some(h) ==> {
                &&& h@ == metrics.connections_count@[0].0
                &&& forall|i: int|
                    0 <= i < metrics.connections_count@.len() ==> metrics.connections_count@[0].1
                        <= (#[trigger] metrics.connections_count@[i]).1
            },
    {
        match metrics.connections_count.peek() {
            Some(worker) => Some(worker.host.clone()),
            None => None,
        }
    }
}

} // verus!
