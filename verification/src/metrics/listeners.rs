//! What happened on the listeners.

use crate::metrics::Metric;
use crate::sharded::{Clearable, ShardedHistogram, ShardedU64};
use vstd::prelude::*;

verus! {

/// What happened on the listeners.
pub struct ListenerMetrics {
    pub downstream_cx_total: Option<Metric<ShardedU64>>,
    pub downstream_cx_active: Option<Metric<ShardedU64>>,
    pub downstream_cx_destroy: Option<Metric<ShardedU64>>,
    pub downstream_cx_length_ms: Option<Metric<ShardedHistogram>>,
    pub no_filter_chain_match: Option<Metric<ShardedU64>>,
}

/// Whether no metric is set up.
pub open spec fn unset(metrics: ListenerMetrics) -> bool {
    &&& metrics.downstream_cx_total is None
    &&& metrics.downstream_cx_active is None
    &&& metrics.downstream_cx_destroy is None
    &&& metrics.downstream_cx_length_ms is None
    &&& metrics.no_filter_chain_match is None
}

impl Default for ListenerMetrics {
    fn default() -> (metrics: ListenerMetrics)
        ensures
            unset(metrics),
    {
        ListenerMetrics {
            downstream_cx_total: None,
            downstream_cx_active: None,
            downstream_cx_destroy: None,
            downstream_cx_length_ms: None,
            no_filter_chain_match: None,
        }
    }
}

/// Whether every metric is back at its beginning, and described as before.
pub open spec fn was_reset(before: ListenerMetrics, after: ListenerMetrics) -> bool {
    &&& after.downstream_cx_total.is_clear() && after.downstream_cx_total.same_kind(&before.downstream_cx_total)
    &&& after.downstream_cx_active.is_clear() && after.downstream_cx_active.same_kind(&before.downstream_cx_active)
    &&& after.downstream_cx_destroy.is_clear() && after.downstream_cx_destroy.same_kind(&before.downstream_cx_destroy)
    &&& after.downstream_cx_length_ms.is_clear() && after.downstream_cx_length_ms.same_kind(
        &before.downstream_cx_length_ms,
    )
    &&& after.no_filter_chain_match.is_clear() && after.no_filter_chain_match.same_kind(&before.no_filter_chain_match)
}

/// Sets every metric back to its beginning.
pub fn reset_metrics(metrics: &mut ListenerMetrics)
    ensures
        was_reset(*old(metrics), *final(metrics)),
{
    metrics.downstream_cx_total.clear();
    metrics.downstream_cx_active.clear();
    metrics.downstream_cx_destroy.clear();
    metrics.downstream_cx_length_ms.clear();
    metrics.no_filter_chain_match.clear();
}

} // verus!
