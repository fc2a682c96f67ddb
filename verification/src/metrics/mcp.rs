//! What happened to the tools that the proxy offers.

use crate::metrics::{
    byte_buckets, counter_ready, histogram_ready, init_counter, init_histogram, latency_buckets, Metric, PREFIX_MCP,
};
use crate::sharded::{Clearable, ShardedHistogram, ShardedU64};
use vstd::prelude::*;

verus! {

/// What happened to the tools that the proxy offers.
pub struct McpMetrics {
    pub embedding_failures_total: Option<Metric<ShardedU64>>,
    pub tool_rq_total: Option<Metric<ShardedU64>>,
    pub tool_rq_failures_total: Option<Metric<ShardedU64>>,
    pub tool_rq_time: Option<Metric<ShardedHistogram>>,
    pub tool_response_bytes: Option<Metric<ShardedHistogram>>,
}

/// Whether no metric is set up.
pub open spec fn unset(metrics: McpMetrics) -> bool {
    &&& metrics.embedding_failures_total is None
    &&& metrics.tool_rq_total is None
    &&& metrics.tool_rq_failures_total is None
    &&& metrics.tool_rq_time is None
    &&& metrics.tool_response_bytes is None
}

impl Default for McpMetrics {
    fn default() -> (metrics: McpMetrics)
        ensures
            unset(metrics),
    {
        McpMetrics {
            embedding_failures_total: None,
            tool_rq_total: None,
            tool_rq_failures_total: None,
            tool_rq_time: None,
            tool_response_bytes: None,
        }
    }
}

/// Whether every metric is named and described, where it was not before.
pub open spec fn ready(before: McpMetrics, after: McpMetrics) -> bool {
    &&& counter_ready(
        before.embedding_failures_total,
        after.embedding_failures_total,
        PREFIX_MCP@,
        "embedding_failures_total"@,
        "Total number of MCP tool embedding generation failures"@,
    )
    &&& counter_ready(
        before.tool_rq_total,
        after.tool_rq_total,
        PREFIX_MCP@,
        "tool_rq_total"@,
        "Total number of MCP tool invocations dispatched to an upstream backend"@,
    )
    &&& counter_ready(
        before.tool_rq_failures_total,
        after.tool_rq_failures_total,
        PREFIX_MCP@,
        "tool_rq_failures_total"@,
        "Total number of MCP tool invocations that produced a tool error, keyed by error code"@,
    )
    &&& histogram_ready(
        before.tool_rq_time,
        after.tool_rq_time,
        PREFIX_MCP@,
        "tool_rq_time"@,
        "MCP tool invocation time in milliseconds, including upstream acquisition"@,
        seq![5u64, 10, 50, 100, 500, 1000, 5000, 10000, u64::MAX],
    )
    &&& histogram_ready(
        before.tool_response_bytes,
        after.tool_response_bytes,
        PREFIX_MCP@,
        "tool_response_bytes"@,
        "Bytes of upstream tool response payload counted against max_upstream_response_bytes"@,
        seq![256u64, 1024, 4096, 16384, 65536, 262144, 1048576, 4194304, u64::MAX],
    )
}

/// Names and describes every metric, each once.
pub fn init_metrics(metrics: &mut McpMetrics)
    ensures
        ready(*old(metrics), *final(metrics)),
{
    init_counter(
        &mut metrics.embedding_failures_total,
        PREFIX_MCP,
        "embedding_failures_total",
        "Total number of MCP tool embedding generation failures",
    );
    init_counter(
        &mut metrics.tool_rq_total,
        PREFIX_MCP,
        "tool_rq_total",
        "Total number of MCP tool invocations dispatched to an upstream backend",
    );
    init_counter(
        &mut metrics.tool_rq_failures_total,
        PREFIX_MCP,
        "tool_rq_failures_total",
        "Total number of MCP tool invocations that produced a tool error, keyed by error code",
    );
    init_histogram(
        &mut metrics.tool_rq_time,
        PREFIX_MCP,
        "tool_rq_time",
        "MCP tool invocation time in milliseconds, including upstream acquisition",
        &latency_buckets(),
    );
    init_histogram(
        &mut metrics.tool_response_bytes,
        PREFIX_MCP,
        "tool_response_bytes",
        "Bytes of upstream tool response payload counted against max_upstream_response_bytes",
        &byte_buckets(),
    );
}

/// Whether every metric is back at its beginning, and described as before.
pub open spec fn was_reset(before: McpMetrics, after: McpMetrics) -> bool {
    &&& after.embedding_failures_total.is_clear() && after.embedding_failures_total.same_kind(&before.embedding_failures_total)
    &&& after.tool_rq_total.is_clear() && after.tool_rq_total.same_kind(&before.tool_rq_total)
    &&& after.tool_rq_failures_total.is_clear() && after.tool_rq_failures_total.same_kind(&before.tool_rq_failures_total)
    &&& after.tool_rq_time.is_clear() && after.tool_rq_time.same_kind(&before.tool_rq_time)
    &&& after.tool_response_bytes.is_clear() && after.tool_response_bytes.same_kind(&before.tool_response_bytes)
}

/// Sets every metric back to its beginning.
pub fn reset_metrics(metrics: &mut McpMetrics)
    ensures
        was_reset(*old(metrics), *final(metrics)),
{
    metrics.embedding_failures_total.clear();
    metrics.tool_rq_total.clear();
    metrics.tool_rq_failures_total.clear();
    metrics.tool_rq_time.clear();
    metrics.tool_response_bytes.clear();
}

} // verus!
