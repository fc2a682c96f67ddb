//! What the server tells of itself.

use crate::metrics::Metric;
use crate::sharded::{Clearable, Gauge};
use vstd::prelude::*;

verus! {

/// What the server tells of itself.
pub struct ServerMetrics {
    pub uptime: Option<Metric<Gauge>>,
    pub concurrency: Option<Metric<Gauge>>,
    pub memory_heap_size: Option<Metric<Gauge>>,
    pub memory_physical_size: Option<Metric<Gauge>>,
    pub memory_allocated: Option<Metric<Gauge>>,
}

/// Whether no metric is set up.
pub open spec fn unset(metrics: ServerMetrics) -> bool {
    &&& metrics.uptime is None
    &&& metrics.concurrency is None
    &&& metrics.memory_heap_size is None
    &&& metrics.memory_physical_size is None
    &&& metrics.memory_allocated is None
}

impl Default for ServerMetrics {
    fn default() -> (metrics: ServerMetrics)
        ensures
            unset(metrics),
    {
        ServerMetrics {
            uptime: None,
            concurrency: None,
            memory_heap_size: None,
            memory_physical_size: None,
            memory_allocated: None,
        }
    }
}

/// Whether every metric is back at its beginning, and described as before.
pub open spec fn was_reset(before: ServerMetrics, after: ServerMetrics) -> bool {
    &&& after.uptime.is_clear() && after.uptime.same_kind(&before.uptime)
    &&& after.concurrency.is_clear() && after.concurrency.same_kind(&before.concurrency)
    &&& after.memory_heap_size.is_clear() && after.memory_heap_size.same_kind(&before.memory_heap_size)
    &&& after.memory_physical_size.is_clear() && after.memory_physical_size.same_kind(&before.memory_physical_size)
    &&& after.memory_allocated.is_clear() && after.memory_allocated.same_kind(&before.memory_allocated)
}

/// Sets every metric back to its beginning.
pub fn reset_metrics(metrics: &mut ServerMetrics)
    ensures
        was_reset(*old(metrics), *final(metrics)),
{
    metrics.uptime.clear();
    metrics.concurrency.clear();
    metrics.memory_heap_size.clear();
    metrics.memory_physical_size.clear();
    metrics.memory_allocated.clear();
}

} // verus!
