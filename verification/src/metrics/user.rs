//! What the calls of each user came to.

use crate::metrics::{
    counter_ready, histogram_ready, init_counter, init_histogram, latency_buckets, renamed, resolve_metric_name,
    Metric, PREFIX_USER,
};
use crate::name_table::NameTable;
use crate::sharded::{Clearable, ShardedHistogram, ShardedU64};
use vstd::prelude::*;

verus! {

/// What the calls of each user came to.
pub struct UserMetrics {
    pub invocations: Option<Metric<ShardedU64>>,
    pub throttles: Option<Metric<ShardedU64>>,
    pub system_errors: Option<Metric<ShardedU64>>,
    pub user_errors: Option<Metric<ShardedU64>>,
    pub total_errors: Option<Metric<ShardedU64>>,
    pub bytes_tx: Option<Metric<ShardedU64>>,
    pub bytes_rx: Option<Metric<ShardedU64>>,
    pub inbound_streaming_bytes_processed: Option<Metric<ShardedU64>>,
    pub outbound_streaming_bytes_processed: Option<Metric<ShardedU64>>,
    pub latency: Option<Metric<ShardedHistogram>>,
    pub connections: Option<Metric<ShardedU64>>,
    pub connections_active: Option<Metric<ShardedU64>>,
    pub http_1xx_responses: Option<Metric<ShardedU64>>,
    pub http_2xx_responses: Option<Metric<ShardedU64>>,
    pub http_3xx_responses: Option<Metric<ShardedU64>>,
    pub http_4xx_responses: Option<Metric<ShardedU64>>,
    pub http_5xx_responses: Option<Metric<ShardedU64>>,
    pub http_404_responses: Option<Metric<ShardedU64>>,
    pub http_502_responses: Option<Metric<ShardedU64>>,
    pub http_504_responses: Option<Metric<ShardedU64>>,
    pub upstream_rq_time: Option<Metric<ShardedHistogram>>,
}

/// Whether no metric is set up.
pub open spec fn unset(metrics: UserMetrics) -> bool {
    &&& metrics.invocations is None
    &&& metrics.throttles is None
    &&& metrics.system_errors is None
    &&& metrics.user_errors is None
    &&& metrics.total_errors is None
    &&& metrics.bytes_tx is None
    &&& metrics.bytes_rx is None
    &&& metrics.inbound_streaming_bytes_processed is None
    &&& metrics.outbound_streaming_bytes_processed is None
    &&& metrics.latency is None
    &&& metrics.connections is None
    &&& metrics.connections_active is None
    &&& metrics.http_1xx_responses is None
    &&& metrics.http_2xx_responses is None
    &&& metrics.http_3xx_responses is None
    &&& metrics.http_4xx_responses is None
    &&& metrics.http_5xx_responses is None
    &&& metrics.http_404_responses is None
    &&& metrics.http_502_responses is None
    &&& metrics.http_504_responses is None
    &&& metrics.upstream_rq_time is None
}

impl Default for UserMetrics {
    fn default() -> (metrics: UserMetrics)
        ensures
            unset(metrics),
    {
        UserMetrics {
            invocations: None,
            throttles: None,
            system_errors: None,
            user_errors: None,
            total_errors: None,
            bytes_tx: None,
            bytes_rx: None,
            inbound_streaming_bytes_processed: None,
            outbound_streaming_bytes_processed: None,
            latency: None,
            connections: None,
            connections_active: None,
            http_1xx_responses: None,
            http_2xx_responses: None,
            http_3xx_responses: None,
            http_4xx_responses: None,
            http_5xx_responses: None,
            http_404_responses: None,
            http_502_responses: None,
            http_504_responses: None,
            upstream_rq_time: None,
        }
    }
}

/// Whether every metric is named and described, where it was not before.
pub open spec fn ready(before: UserMetrics, after: UserMetrics, rename: Map<Seq<char>, String>) -> bool {
    &&& counter_ready(
        before.invocations,
        after.invocations,
        PREFIX_USER@,
        renamed(rename, "invocations"@),
        "Total number of API calls"@,
    )
    &&& counter_ready(
        before.throttles,
        after.throttles,
        PREFIX_USER@,
        renamed(rename, "throttles"@),
        "Total number of API calls that were throttled"@,
    )
    &&& counter_ready(
        before.system_errors,
        after.system_errors,
        PREFIX_USER@,
        renamed(rename, "system_errors"@),
        "Total number of API calls that resulted in a system error"@,
    )
    &&& counter_ready(
        before.user_errors,
        after.user_errors,
        PREFIX_USER@,
        renamed(rename, "user_errors"@),
        "Total number of API calls that resulted in a user error"@,
    )
    &&& counter_ready(
        before.total_errors,
        after.total_errors,
        PREFIX_USER@,
        renamed(rename, "total_errors"@),
        "Total number of API calls that resulted in any error"@,
    )
    &&& counter_ready(
        before.bytes_tx,
        after.bytes_tx,
        PREFIX_USER@,
        renamed(rename, "bytes_tx"@),
        "Total number of bytes transmitted in API calls"@,
    )
    &&& counter_ready(
        before.bytes_rx,
        after.bytes_rx,
        PREFIX_USER@,
        renamed(rename, "bytes_rx"@),
        "Total number of bytes received in API calls"@,
    )
    &&& counter_ready(
        before.inbound_streaming_bytes_processed,
        after.inbound_streaming_bytes_processed,
        PREFIX_USER@,
        renamed(rename, "inbound_streaming_bytes_processed"@),
        "Total number of bytes processed in inbound streaming API calls"@,
    )
    &&& counter_ready(
        before.outbound_streaming_bytes_processed,
        after.outbound_streaming_bytes_processed,
        PREFIX_USER@,
        renamed(rename, "outbound_streaming_bytes_processed"@),
        "Total number of bytes processed in outbound streaming API calls"@,
    )
    &&& histogram_ready(
        before.latency,
        after.latency,
        PREFIX_USER@,
        renamed(rename, "latency"@),
        "Latency of API calls in milliseconds"@,
        seq![5u64, 10, 50, 100, 500, 1000, 5000, 10000, u64::MAX],
    )
    &&& counter_ready(
        before.connections,
        after.connections,
        PREFIX_USER@,
        renamed(rename, "connections"@),
        "Number of total connections established"@,
    )
    &&& counter_ready(
        before.connections_active,
        after.connections_active,
        PREFIX_USER@,
        renamed(rename, "connections_active"@),
        "Number of active connections"@,
    )
    &&& counter_ready(
        before.http_1xx_responses,
        after.http_1xx_responses,
        PREFIX_USER@,
        renamed(rename, "http_1xx_response"@),
        "Total number of API calls that resulted in a 1xx HTTP response"@,
    )
    &&& counter_ready(
        before.http_2xx_responses,
        after.http_2xx_responses,
        PREFIX_USER@,
        renamed(rename, "http_2xx_response"@),
        "Total number of API calls that resulted in a 2xx HTTP response"@,
    )
    &&& counter_ready(
        before.http_3xx_responses,
        after.http_3xx_responses,
        PREFIX_USER@,
        renamed(rename, "http_3xx_response"@),
        "Total number of API calls that resulted in a 3xx HTTP response"@,
    )
    &&& counter_ready(
        before.http_4xx_responses,
        after.http_4xx_responses,
        PREFIX_USER@,
        renamed(rename, "http_4xx_response"@),
        "Total number of API calls that resulted in a 4xx HTTP response"@,
    )
    &&& counter_ready(
        before.http_5xx_responses,
        after.http_5xx_responses,
        PREFIX_USER@,
        renamed(rename, "http_5xx_response"@),
        "Total number of API calls that resulted in a 5xx HTTP response"@,
    )
    &&& counter_ready(
        before.http_404_responses,
        after.http_404_responses,
        PREFIX_USER@,
        renamed(rename, "http_404_response"@),
        "Total number of API calls that resulted in a 404 HTTP response"@,
    )
    &&& counter_ready(
        before.http_502_responses,
        after.http_502_responses,
        PREFIX_USER@,
        renamed(rename, "http_502_response"@),
        "Total number of API calls that resulted in a 502 HTTP response"@,
    )
    &&& counter_ready(
        before.http_504_responses,
        after.http_504_responses,
        PREFIX_USER@,
        renamed(rename, "http_504_response"@),
        "Total number of API calls that resulted in a 504 HTTP response"@,
    )
    &&& histogram_ready(
        before.upstream_rq_time,
        after.upstream_rq_time,
        PREFIX_USER@,
        renamed(rename, "upstream_rq_time"@),
        "Upstream request time in milliseconds"@,
        seq![5u64, 10, 50, 100, 500, 1000, 5000, 10000, u64::MAX],
    )
}

/// Names and describes every metric, each once.
pub fn init_metrics(metrics: &mut UserMetrics, rename: &NameTable<String>)
    ensures
        ready(*old(metrics), *final(metrics), rename@),
{
    init_counter(
        &mut metrics.invocations,
        PREFIX_USER,
        resolve_metric_name(rename, "invocations").as_str(),
        "Total number of API calls",
    );
    init_counter(
        &mut metrics.throttles,
        PREFIX_USER,
        resolve_metric_name(rename, "throttles").as_str(),
        "Total number of API calls that were throttled",
    );
    init_counter(
        &mut metrics.system_errors,
        PREFIX_USER,
        resolve_metric_name(rename, "system_errors").as_str(),
        "Total number of API calls that resulted in a system error",
    );
    init_counter(
        &mut metrics.user_errors,
        PREFIX_USER,
        resolve_metric_name(rename, "user_errors").as_str(),
        "Total number of API calls that resulted in a user error",
    );
    init_counter(
        &mut metrics.total_errors,
        PREFIX_USER,
        resolve_metric_name(rename, "total_errors").as_str(),
        "Total number of API calls that resulted in any error",
    );
    init_counter(
        &mut metrics.bytes_tx,
        PREFIX_USER,
        resolve_metric_name(rename, "bytes_tx").as_str(),
        "Total number of bytes transmitted in API calls",
    );
    init_counter(
        &mut metrics.bytes_rx,
        PREFIX_USER,
        resolve_metric_name(rename, "bytes_rx").as_str(),
        "Total number of bytes received in API calls",
    );
    init_counter(
        &mut metrics.inbound_streaming_bytes_processed,
        PREFIX_USER,
        resolve_metric_name(rename, "inbound_streaming_bytes_processed").as_str(),
        "Total number of bytes processed in inbound streaming API calls",
    );
    init_counter(
        &mut metrics.outbound_streaming_bytes_processed,
        PREFIX_USER,
        resolve_metric_name(rename, "outbound_streaming_bytes_processed").as_str(),
        "Total number of bytes processed in outbound streaming API calls",
    );
    init_histogram(
        &mut metrics.latency,
        PREFIX_USER,
        resolve_metric_name(rename, "latency").as_str(),
        "Latency of API calls in milliseconds",
        &latency_buckets(),
    );
    init_counter(
        &mut metrics.connections,
        PREFIX_USER,
        resolve_metric_name(rename, "connections").as_str(),
        "Number of total connections established",
    );
    init_counter(
        &mut metrics.connections_active,
        PREFIX_USER,
        resolve_metric_name(rename, "connections_active").as_str(),
        "Number of active connections",
    );
    init_counter(
        &mut metrics.http_1xx_responses,
        PREFIX_USER,
        resolve_metric_name(rename, "http_1xx_response").as_str(),
        "Total number of API calls that resulted in a 1xx HTTP response",
    );
    init_counter(
        &mut metrics.http_2xx_responses,
        PREFIX_USER,
        resolve_metric_name(rename, "http_2xx_response").as_str(),
        "Total number of API calls that resulted in a 2xx HTTP response",
    );
    init_counter(
        &mut metrics.http_3xx_responses,
        PREFIX_USER,
        resolve_metric_name(rename, "http_3xx_response").as_str(),
        "Total number of API calls that resulted in a 3xx HTTP response",
    );
    init_counter(
        &mut metrics.http_4xx_responses,
        PREFIX_USER,
        resolve_metric_name(rename, "http_4xx_response").as_str(),
        "Total number of API calls that resulted in a 4xx HTTP response",
    );
    init_counter(
        &mut metrics.http_5xx_responses,
        PREFIX_USER,
        resolve_metric_name(rename, "http_5xx_response").as_str(),
        "Total number of API calls that resulted in a 5xx HTTP response",
    );
    init_counter(
        &mut metrics.http_404_responses,
        PREFIX_USER,
        resolve_metric_name(rename, "http_404_response").as_str(),
        "Total number of API calls that resulted in a 404 HTTP response",
    );
    init_counter(
        &mut metrics.http_502_responses,
        PREFIX_USER,
        resolve_metric_name(rename, "http_502_response").as_str(),
        "Total number of API calls that resulted in a 502 HTTP response",
    );
    init_counter(
        &mut metrics.http_504_responses,
        PREFIX_USER,
        resolve_metric_name(rename, "http_504_response").as_str(),
        "Total number of API calls that resulted in a 504 HTTP response",
    );
    init_histogram(
        &mut metrics.upstream_rq_time,
        PREFIX_USER,
        resolve_metric_name(rename, "upstream_rq_time").as_str(),
        "Upstream request time in milliseconds",
        &latency_buckets(),
    );
}

/// Whether every metric is back at its beginning, and described as before.
pub open spec fn was_reset(before: UserMetrics, after: UserMetrics) -> bool {
    &&& after.invocations.is_clear() && after.invocations.same_kind(&before.invocations)
    &&& after.throttles.is_clear() && after.throttles.same_kind(&before.throttles)
    &&& after.system_errors.is_clear() && after.system_errors.same_kind(&before.system_errors)
    &&& after.user_errors.is_clear() && after.user_errors.same_kind(&before.user_errors)
    &&& after.total_errors.is_clear() && after.total_errors.same_kind(&before.total_errors)
    &&& after.bytes_tx.is_clear() && after.bytes_tx.same_kind(&before.bytes_tx)
    &&& after.bytes_rx.is_clear() && after.bytes_rx.same_kind(&before.bytes_rx)
    &&& after.inbound_streaming_bytes_processed.is_clear() && after.inbound_streaming_bytes_processed.same_kind(&before.inbound_streaming_bytes_processed)
    &&& after.outbound_streaming_bytes_processed.is_clear() && after.outbound_streaming_bytes_processed.same_kind(&before.outbound_streaming_bytes_processed)
    &&& after.latency.is_clear() && after.latency.same_kind(&before.latency)
    &&& after.connections.is_clear() && after.connections.same_kind(&before.connections)
    &&& after.connections_active.is_clear() && after.connections_active.same_kind(&before.connections_active)
    &&& after.http_1xx_responses.is_clear() && after.http_1xx_responses.same_kind(&before.http_1xx_responses)
    &&& after.http_2xx_responses.is_clear() && after.http_2xx_responses.same_kind(&before.http_2xx_responses)
    &&& after.http_3xx_responses.is_clear() && after.http_3xx_responses.same_kind(&before.http_3xx_responses)
    &&& after.http_4xx_responses.is_clear() && after.http_4xx_responses.same_kind(&before.http_4xx_responses)
    &&& after.http_5xx_responses.is_clear() && after.http_5xx_responses.same_kind(&before.http_5xx_responses)
    &&& after.http_404_responses.is_clear() && after.http_404_responses.same_kind(&before.http_404_responses)
    &&& after.http_502_responses.is_clear() && after.http_502_responses.same_kind(&before.http_502_responses)
    &&& after.http_504_responses.is_clear() && after.http_504_responses.same_kind(&before.http_504_responses)
    &&& after.upstream_rq_time.is_clear() && after.upstream_rq_time.same_kind(&before.upstream_rq_time)
}

/// Sets every metric back to its beginning.
pub fn reset_metrics(metrics: &mut UserMetrics)
    ensures
        was_reset(*old(metrics), *final(metrics)),
{
    metrics.invocations.clear();
    metrics.throttles.clear();
    metrics.system_errors.clear();
    metrics.user_errors.clear();
    metrics.total_errors.clear();
    metrics.bytes_tx.clear();
    metrics.bytes_rx.clear();
    metrics.inbound_streaming_bytes_processed.clear();
    metrics.outbound_streaming_bytes_processed.clear();
    metrics.latency.clear();
    metrics.connections.clear();
    metrics.connections_active.clear();
    metrics.http_1xx_responses.clear();
    metrics.http_2xx_responses.clear();
    metrics.http_3xx_responses.clear();
    metrics.http_4xx_responses.clear();
    metrics.http_5xx_responses.clear();
    metrics.http_404_responses.clear();
    metrics.http_502_responses.clear();
    metrics.http_504_responses.clear();
    metrics.upstream_rq_time.clear();
}

} // verus!
