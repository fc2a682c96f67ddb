//! How often the filters that limit rates were asked.

use crate::metrics::{counter_ready, init_counter, renamed, resolve_metric_name, Metric, PREFIX_FILTER};
use crate::name_table::NameTable;
use crate::sharded::{Clearable, ShardedU64};
use vstd::prelude::*;

verus! {

/// How often the filters that limit rates were asked.
pub struct FilterMetrics {
    pub connection_rate_limit: Option<Metric<ShardedU64>>,
    pub local_rate_limit: Option<Metric<ShardedU64>>,
    pub user_rate_limit: Option<Metric<ShardedU64>>,
}

/// Whether no metric is set up.
pub open spec fn unset(metrics: FilterMetrics) -> bool {
    &&& metrics.connection_rate_limit is None
    &&& metrics.local_rate_limit is None
    &&& metrics.user_rate_limit is None
}

impl Default for FilterMetrics {
    fn default() -> (metrics: FilterMetrics)
        ensures
            unset(metrics),
    {
        FilterMetrics {
            connection_rate_limit: None,
            local_rate_limit: None,
            user_rate_limit: None,
        }
    }
}

/// Whether every metric is named and described, where it was not before.
pub open spec fn ready(before: FilterMetrics, after: FilterMetrics, rename: Map<Seq<char>, String>) -> bool {
    &&& counter_ready(
        before.connection_rate_limit,
        after.connection_rate_limit,
        PREFIX_FILTER@,
        renamed(rename, "connection_rate_limit"@),
        "Connections rate limit filter invocations"@,
    )
    &&& counter_ready(
        before.local_rate_limit,
        after.local_rate_limit,
        PREFIX_FILTER@,
        renamed(rename, "local_rate_limit"@),
        "Local rate limit filter invocations"@,
    )
    &&& counter_ready(
        before.user_rate_limit,
        after.user_rate_limit,
        PREFIX_FILTER@,
        renamed(rename, "user_rate_limit"@),
        "User rate limit filter invocations"@,
    )
}

/// Names and describes every metric, each once.
pub fn init_metrics(metrics: &mut FilterMetrics, rename: &NameTable<String>)
    ensures
        ready(*old(metrics), *final(metrics), rename@),
{
    init_counter(
        &mut metrics.connection_rate_limit,
        PREFIX_FILTER,
        resolve_metric_name(rename, "connection_rate_limit").as_str(),
        "Connections rate limit filter invocations",
    );
    init_counter(
        &mut metrics.local_rate_limit,
        PREFIX_FILTER,
        resolve_metric_name(rename, "local_rate_limit").as_str(),
        "Local rate limit filter invocations",
    );
    init_counter(
        &mut metrics.user_rate_limit,
        PREFIX_FILTER,
        resolve_metric_name(rename, "user_rate_limit").as_str(),
        "User rate limit filter invocations",
    );
}

/// Whether every metric is back at its beginning, and described as before.
pub open spec fn was_reset(before: FilterMetrics, after: FilterMetrics) -> bool {
    &&& after.connection_rate_limit.is_clear() && after.connection_rate_limit.same_kind(&before.connection_rate_limit)
    &&& after.local_rate_limit.is_clear() && after.local_rate_limit.same_kind(&before.local_rate_limit)
    &&& after.user_rate_limit.is_clear() && after.user_rate_limit.same_kind(&before.user_rate_limit)
}

/// Sets every metric back to its beginning.
pub fn reset_metrics(metrics: &mut FilterMetrics)
    ensures
        was_reset(*old(metrics), *final(metrics)),
{
    metrics.connection_rate_limit.clear();
    metrics.local_rate_limit.clear();
    metrics.user_rate_limit.clear();
}

} // verus!
