//! What happened to the clusters of upstreams.

use crate::metrics::{
    counter_ready, histogram_ready, init_counter, init_histogram, latency_buckets, renamed, resolve_metric_name,
    Metric, PREFIX_CLUSTER,
};
use crate::name_table::NameTable;
use crate::sharded::{Clearable, ShardedHistogram, ShardedU64};
use vstd::prelude::*;

verus! {

/// What happened to the clusters of upstreams.
pub struct ClusterMetrics {
    pub upstream_rq_total: Option<Metric<ShardedU64>>,
    pub upstream_rq_active: Option<Metric<ShardedU64>>,
    pub upstream_rq_time: Option<Metric<ShardedHistogram>>,
    pub upstream_rq_timeout: Option<Metric<ShardedU64>>,
    pub upstream_rq_per_try_timeout: Option<Metric<ShardedU64>>,
    pub upstream_rq_retry: Option<Metric<ShardedU64>>,
    pub upstream_cx_total: Option<Metric<ShardedU64>>,
    pub upstream_cx_active: Option<Metric<ShardedU64>>,
    pub upstream_cx_destroy: Option<Metric<ShardedU64>>,
    pub upstream_cx_idle_timeout: Option<Metric<ShardedU64>>,
    pub upstream_cx_connect_fail: Option<Metric<ShardedU64>>,
    pub upstream_cx_connect_timeout: Option<Metric<ShardedU64>>,
    pub upstream_cx_rx_bytes_total: Option<Metric<ShardedU64>>,
    pub upstream_cx_tx_bytes_total: Option<Metric<ShardedU64>>,
    pub upstream_cx_overflow: Option<Metric<ShardedU64>>,
    pub upstream_rq_overflow: Option<Metric<ShardedU64>>,
    pub upstream_rq_retry_overflow: Option<Metric<ShardedU64>>,
}

/// Whether no metric is set up.
pub open spec fn unset(metrics: ClusterMetrics) -> bool {
    &&& metrics.upstream_rq_total is None
    &&& metrics.upstream_rq_active is None
    &&& metrics.upstream_rq_time is None
    &&& metrics.upstream_rq_timeout is None
    &&& metrics.upstream_rq_per_try_timeout is None
    &&& metrics.upstream_rq_retry is None
    &&& metrics.upstream_cx_total is None
    &&& metrics.upstream_cx_active is None
    &&& metrics.upstream_cx_destroy is None
    &&& metrics.upstream_cx_idle_timeout is None
    &&& metrics.upstream_cx_connect_fail is None
    &&& metrics.upstream_cx_connect_timeout is None
    &&& metrics.upstream_cx_rx_bytes_total is None
    &&& metrics.upstream_cx_tx_bytes_total is None
    &&& metrics.upstream_cx_overflow is None
    &&& metrics.upstream_rq_overflow is None
    &&& metrics.upstream_rq_retry_overflow is None
}

impl Default for ClusterMetrics {
    fn default() -> (metrics: ClusterMetrics)
        ensures
            unset(metrics),
    {
        ClusterMetrics {
            upstream_rq_total: None,
            upstream_rq_active: None,
            upstream_rq_time: None,
            upstream_rq_timeout: None,
            upstream_rq_per_try_timeout: None,
            upstream_rq_retry: None,
            upstream_cx_total: None,
            upstream_cx_active: None,
            upstream_cx_destroy: None,
            upstream_cx_idle_timeout: None,
            upstream_cx_connect_fail: None,
            upstream_cx_connect_timeout: None,
            upstream_cx_rx_bytes_total: None,
            upstream_cx_tx_bytes_total: None,
            upstream_cx_overflow: None,
            upstream_rq_overflow: None,
            upstream_rq_retry_overflow: None,
        }
    }
}

/// Whether every metric is named and described, where it was not before.
pub open spec fn ready(before: ClusterMetrics, after: ClusterMetrics, rename: Map<Seq<char>, String>) -> bool {
    &&& counter_ready(
        before.upstream_rq_total,
        after.upstream_rq_total,
        PREFIX_CLUSTER@,
        renamed(rename, "upstream_rq_total"@),
        "Total number of upstream requests"@,
    )
    &&& counter_ready(
        before.upstream_rq_active,
        after.upstream_rq_active,
        PREFIX_CLUSTER@,
        renamed(rename, "upstream_rq_active"@),
        "Number of active upstream requests"@,
    )
    &&& histogram_ready(
        before.upstream_rq_time,
        after.upstream_rq_time,
        PREFIX_CLUSTER@,
        renamed(rename, "upstream_rq_time"@),
        "Upstream request time in milliseconds"@,
        seq![5u64, 10, 50, 100, 500, 1000, 5000, 10000, u64::MAX],
    )
    &&& counter_ready(
        before.upstream_rq_timeout,
        after.upstream_rq_timeout,
        PREFIX_CLUSTER@,
        renamed(rename, "upstream_rq_timeout"@),
        "Total upstream request timeouts"@,
    )
    &&& counter_ready(
        before.upstream_rq_per_try_timeout,
        after.upstream_rq_per_try_timeout,
        PREFIX_CLUSTER@,
        renamed(rename, "upstream_rq_per_try_timeout"@),
        "Total upstream request timeouts per try"@,
    )
    &&& counter_ready(
        before.upstream_rq_retry,
        after.upstream_rq_retry,
        PREFIX_CLUSTER@,
        renamed(rename, "upstream_rq_retry"@),
        "Total upstream request retries"@,
    )
    &&& counter_ready(
        before.upstream_cx_total,
        after.upstream_cx_total,
        PREFIX_CLUSTER@,
        renamed(rename, "upstream_cx_total"@),
        "Total upstream connections"@,
    )
    &&& counter_ready(
        before.upstream_cx_active,
        after.upstream_cx_active,
        PREFIX_CLUSTER@,
        renamed(rename, "upstream_cx_active"@),
        "Number of active connections"@,
    )
    &&& counter_ready(
        before.upstream_cx_destroy,
        after.upstream_cx_destroy,
        PREFIX_CLUSTER@,
        renamed(rename, "upstream_cx_destroy"@),
        "Total upstream connections destroyed"@,
    )
    &&& counter_ready(
        before.upstream_cx_idle_timeout,
        after.upstream_cx_idle_timeout,
        PREFIX_CLUSTER@,
        renamed(rename, "upstream_cx_idle_timeout"@),
        "Total upstream connections idle timeout"@,
    )
    &&& counter_ready(
        before.upstream_cx_connect_fail,
        after.upstream_cx_connect_fail,
        PREFIX_CLUSTER@,
        renamed(rename, "upstream_cx_connect_fail"@),
        "Total upstream connection failures"@,
    )
    &&& counter_ready(
        before.upstream_cx_connect_timeout,
        after.upstream_cx_connect_timeout,
        PREFIX_CLUSTER@,
        renamed(rename, "upstream_cx_connect_timeout"@),
        "Total upstream connection timeouts"@,
    )
    &&& counter_ready(
        before.upstream_cx_rx_bytes_total,
        after.upstream_cx_rx_bytes_total,
        PREFIX_CLUSTER@,
        renamed(rename, "upstream_cx_rx_bytes_total"@),
        "Total upstream bytes received"@,
    )
    &&& counter_ready(
        before.upstream_cx_tx_bytes_total,
        after.upstream_cx_tx_bytes_total,
        PREFIX_CLUSTER@,
        renamed(rename, "upstream_cx_tx_bytes_total"@),
        "Total upstream bytes sent"@,
    )
    &&& counter_ready(
        before.upstream_cx_overflow,
        after.upstream_cx_overflow,
        PREFIX_CLUSTER@,
        "upstream_cx_overflow"@,
        "Total connections rejected by circuit breaker"@,
    )
    &&& counter_ready(
        before.upstream_rq_overflow,
        after.upstream_rq_overflow,
        PREFIX_CLUSTER@,
        "upstream_rq_overflow"@,
        "Total requests rejected by circuit breaker"@,
    )
    &&& counter_ready(
        before.upstream_rq_retry_overflow,
        after.upstream_rq_retry_overflow,
        PREFIX_CLUSTER@,
        "upstream_rq_retry_overflow"@,
        "Total retries rejected by circuit breaker"@,
    )
}

/// Names and describes every metric, each once.
pub fn init_metrics(metrics: &mut ClusterMetrics, rename: &NameTable<String>)
    ensures
        ready(*old(metrics), *final(metrics), rename@),
{
    init_counter(
        &mut metrics.upstream_rq_total,
        PREFIX_CLUSTER,
        resolve_metric_name(rename, "upstream_rq_total").as_str(),
        "Total number of upstream requests",
    );
    init_counter(
        &mut metrics.upstream_rq_active,
        PREFIX_CLUSTER,
        resolve_metric_name(rename, "upstream_rq_active").as_str(),
        "Number of active upstream requests",
    );
    init_histogram(
        &mut metrics.upstream_rq_time,
        PREFIX_CLUSTER,
        resolve_metric_name(rename, "upstream_rq_time").as_str(),
        "Upstream request time in milliseconds",
        &latency_buckets(),
    );
    init_counter(
        &mut metrics.upstream_rq_timeout,
        PREFIX_CLUSTER,
        resolve_metric_name(rename, "upstream_rq_timeout").as_str(),
        "Total upstream request timeouts",
    );
    init_counter(
        &mut metrics.upstream_rq_per_try_timeout,
        PREFIX_CLUSTER,
        resolve_metric_name(rename, "upstream_rq_per_try_timeout").as_str(),
        "Total upstream request timeouts per try",
    );
    init_counter(
        &mut metrics.upstream_rq_retry,
        PREFIX_CLUSTER,
        resolve_metric_name(rename, "upstream_rq_retry").as_str(),
        "Total upstream request retries",
    );
    init_counter(
        &mut metrics.upstream_cx_total,
        PREFIX_CLUSTER,
        resolve_metric_name(rename, "upstream_cx_total").as_str(),
        "Total upstream connections",
    );
    init_counter(
        &mut metrics.upstream_cx_active,
        PREFIX_CLUSTER,
        resolve_metric_name(rename, "upstream_cx_active").as_str(),
        "Number of active connections",
    );
    init_counter(
        &mut metrics.upstream_cx_destroy,
        PREFIX_CLUSTER,
        resolve_metric_name(rename, "upstream_cx_destroy").as_str(),
        "Total upstream connections destroyed",
    );
    init_counter(
        &mut metrics.upstream_cx_idle_timeout,
        PREFIX_CLUSTER,
        resolve_metric_name(rename, "upstream_cx_idle_timeout").as_str(),
        "Total upstream connections idle timeout",
    );
    init_counter(
        &mut metrics.upstream_cx_connect_fail,
        PREFIX_CLUSTER,
        resolve_metric_name(rename, "upstream_cx_connect_fail").as_str(),
        "Total upstream connection failures",
    );
    init_counter(
        &mut metrics.upstream_cx_connect_timeout,
        PREFIX_CLUSTER,
        resolve_metric_name(rename, "upstream_cx_connect_timeout").as_str(),
        "Total upstream connection timeouts",
    );
    init_counter(
        &mut metrics.upstream_cx_rx_bytes_total,
        PREFIX_CLUSTER,
        resolve_metric_name(rename, "upstream_cx_rx_bytes_total").as_str(),
        "Total upstream bytes received",
    );
    init_counter(
        &mut metrics.upstream_cx_tx_bytes_total,
        PREFIX_CLUSTER,
        resolve_metric_name(rename, "upstream_cx_tx_bytes_total").as_str(),
        "Total upstream bytes sent",
    );
    init_counter(
        &mut metrics.upstream_cx_overflow,
        PREFIX_CLUSTER,
        "upstream_cx_overflow",
        "Total connections rejected by circuit breaker",
    );
    init_counter(
        &mut metrics.upstream_rq_overflow,
        PREFIX_CLUSTER,
        "upstream_rq_overflow",
        "Total requests rejected by circuit breaker",
    );
    init_counter(
        &mut metrics.upstream_rq_retry_overflow,
        PREFIX_CLUSTER,
        "upstream_rq_retry_overflow",
        "Total retries rejected by circuit breaker",
    );
}

/// Whether every metric is back at its beginning, and described as before.
pub open spec fn was_reset(before: ClusterMetrics, after: ClusterMetrics) -> bool {
    &&& after.upstream_rq_total.is_clear() && after.upstream_rq_total.same_kind(&before.upstream_rq_total)
    &&& after.upstream_rq_active.is_clear() && after.upstream_rq_active.same_kind(&before.upstream_rq_active)
    &&& after.upstream_rq_time.is_clear() && after.upstream_rq_time.same_kind(&before.upstream_rq_time)
    &&& after.upstream_rq_timeout.is_clear() && after.upstream_rq_timeout.same_kind(&before.upstream_rq_timeout)
    &&& after.upstream_rq_per_try_timeout.is_clear() && after.upstream_rq_per_try_timeout.same_kind(&before.upstream_rq_per_try_timeout)
    &&& after.upstream_rq_retry.is_clear() && after.upstream_rq_retry.same_kind(&before.upstream_rq_retry)
    &&& after.upstream_cx_total.is_clear() && after.upstream_cx_total.same_kind(&before.upstream_cx_total)
    &&& after.upstream_cx_active.is_clear() && after.upstream_cx_active.same_kind(&before.upstream_cx_active)
    &&& after.upstream_cx_destroy.is_clear() && after.upstream_cx_destroy.same_kind(&before.upstream_cx_destroy)
    &&& after.upstream_cx_idle_timeout.is_clear() && after.upstream_cx_idle_timeout.same_kind(&before.upstream_cx_idle_timeout)
    &&& after.upstream_cx_connect_fail.is_clear() && after.upstream_cx_connect_fail.same_kind(&before.upstream_cx_connect_fail)
    &&& after.upstream_cx_connect_timeout.is_clear() && after.upstream_cx_connect_timeout.same_kind(&before.upstream_cx_connect_timeout)
    &&& after.upstream_cx_rx_bytes_total.is_clear() && after.upstream_cx_rx_bytes_total.same_kind(&before.upstream_cx_rx_bytes_total)
    &&& after.upstream_cx_tx_bytes_total.is_clear() && after.upstream_cx_tx_bytes_total.same_kind(&before.upstream_cx_tx_bytes_total)
    &&& after.upstream_cx_overflow.is_clear() && after.upstream_cx_overflow.same_kind(&before.upstream_cx_overflow)
    &&& after.upstream_rq_overflow.is_clear() && after.upstream_rq_overflow.same_kind(&before.upstream_rq_overflow)
    &&& after.upstream_rq_retry_overflow.is_clear() && after.upstream_rq_retry_overflow.same_kind(&before.upstream_rq_retry_overflow)
}

/// Sets every metric back to its beginning.
pub fn reset_metrics(metrics: &mut ClusterMetrics)
    ensures
        was_reset(*old(metrics), *final(metrics)),
{
    metrics.upstream_rq_total.clear();
    metrics.upstream_rq_active.clear();
    metrics.upstream_rq_time.clear();
    metrics.upstream_rq_timeout.clear();
    metrics.upstream_rq_per_try_timeout.clear();
    metrics.upstream_rq_retry.clear();
    metrics.upstream_cx_total.clear();
    metrics.upstream_cx_active.clear();
    metrics.upstream_cx_destroy.clear();
    metrics.upstream_cx_idle_timeout.clear();
    metrics.upstream_cx_connect_fail.clear();
    metrics.upstream_cx_connect_timeout.clear();
    metrics.upstream_cx_rx_bytes_total.clear();
    metrics.upstream_cx_tx_bytes_total.clear();
    metrics.upstream_cx_overflow.clear();
    metrics.upstream_rq_overflow.clear();
    metrics.upstream_rq_retry_overflow.clear();
}

} // verus!
