//! Comparing workers: by delay, and by open connections.

use vstd::prelude::*;
use vstd::std_specs::cmp::PartialOrdSpecImpl;
use std::cmp::Ordering;
use crate::performance::metrics::{WorkerConnectionsCount, WorkerDelay};

verus! {

/// How two delays compare.
pub open spec fn delay_order(a: u128, b: u128) -> Ordering {
    if a < b {
        Ordering::Less
    } else if a == b {
        Ordering::Equal
    } else {
        Ordering::Greater
    }
}

/// How two connection counts compare.
pub open spec fn count_order(a: u64, b: u64) -> Ordering {
    if a < b {
        Ordering::Less
    } else if a == b {
        Ordering::Equal
    } else {
        Ordering::Greater
    }
}

impl WorkerDelay {
    /// Compares two workers by their delays alone.
    pub fn cmp(&self, other: &Self) -> (r: Ordering)
        ensures
            r == delay_order(self.delay_ms, other.delay_ms),
    {
        if self.delay_ms < other.delay_ms {
            Ordering::Less
        } else if self.delay_ms == other.delay_ms {
            Ordering::Equal
        } else {
            Ordering::Greater
        }
    }
}

impl WorkerConnectionsCount {
    /// Compares two workers by their numbers of open connections alone.
    pub fn cmp(&self, other: &Self) -> (r: Ordering)
        ensures
            r == count_order(self.connections_count.count, other.connections_count.count),
    {
        if self.connections_count.count < other.connections_count.count {
            Ordering::Less
        } else if self.connections_count.count == other.connections_count.count {
            Ordering::Equal
        } else {
            Ordering::Greater
        }
    }
}

/// Workers compare by their delays alone.
impl PartialOrd for WorkerDelay {
    fn partial_cmp(&self, other: &Self) -> (r: Option<Ordering>) {
        Some(self.delay_ms.cmp(&other.delay_ms))
    }
}

impl PartialOrdSpecImpl for WorkerDelay {
    open spec fn obeys_partial_cmp_spec() -> bool {
        true
    }

    open spec fn partial_cmp_spec(&self, other: &Self) -> Option<Ordering> {
        Some(delay_order(self.delay_ms, other.delay_ms))
    }
}

/// Workers compare by their numbers of open connections alone.
impl PartialOrd for WorkerConnectionsCount {
    fn partial_cmp(&self, other: &Self) -> (r: Option<Ordering>) {
        Some(self.connections_count.count.cmp(&other.connections_count.count))
    }
}

impl PartialOrdSpecImpl for WorkerConnectionsCount {
    open spec fn obeys_partial_cmp_spec() -> bool {
        true
    }

    open spec fn partial_cmp_spec(&self, other: &Self) -> Option<Ordering> {
        Some(count_order(self.connections_count.count, other.connections_count.count))
    }
}

} // verus!
