//! What happened on raw connections from clients.

use crate::metrics::{
    counter_ready, histogram_ready, init_counter, init_histogram, latency_buckets, renamed, resolve_metric_name,
    Metric, PREFIX_TCP,
};
use crate::name_table::NameTable;
use crate::sharded::{Clearable, ShardedHistogram, ShardedU64};
use vstd::prelude::*;

verus! {

/// What happened on raw connections from clients.
pub struct TcpMetrics {
    pub downstream_cx_total: Option<Metric<ShardedU64>>,
    pub downstream_cx_destroy: Option<Metric<ShardedU64>>,
    pub downstream_cx_active: Option<Metric<ShardedU64>>,
    pub downstream_cx_length_ms: Option<Metric<ShardedHistogram>>,
    pub cx_rx_bytes_received: Option<Metric<ShardedU64>>,
    pub cx_tx_bytes_sent: Option<Metric<ShardedU64>>,
}

/// Whether no metric is set up.
pub open spec fn unset(metrics: TcpMetrics) -> bool {
    &&& metrics.downstream_cx_total is None
    &&& metrics.downstream_cx_destroy is None
    &&& metrics.downstream_cx_active is None
    &&& metrics.downstream_cx_length_ms is None
    &&& metrics.cx_rx_bytes_received is None
    &&& metrics.cx_tx_bytes_sent is None
}

impl Default for TcpMetrics {
    fn default() -> (metrics: TcpMetrics)
        ensures
            unset(metrics),
    {
        TcpMetrics {
            downstream_cx_total: None,
            downstream_cx_destroy: None,
            downstream_cx_active: None,
            downstream_cx_length_ms: None,
            cx_rx_bytes_received: None,
            cx_tx_bytes_sent: None,
        }
    }
}

/// Whether every metric is named and described, where it was not before.
pub open spec fn ready(before: TcpMetrics, after: TcpMetrics, rename: Map<Seq<char>, String>) -> bool {
    &&& counter_ready(
        before.downstream_cx_total,
        after.downstream_cx_total,
        PREFIX_TCP@,
        renamed(rename, "downstream_cx_total"@),
        "Total number of downstream TCP connections"@,
    )
    &&& counter_ready(
        before.downstream_cx_destroy,
        after.downstream_cx_destroy,
        PREFIX_TCP@,
        renamed(rename, "downstream_cx_destroy"@),
        "Total number of destroyed downstream TCP connections"@,
    )
    &&& counter_ready(
        before.downstream_cx_active,
        after.downstream_cx_active,
        PREFIX_TCP@,
        renamed(rename, "downstream_cx_active"@),
        "Current number of active downstream TCP connections"@,
    )
    &&& histogram_ready(
        before.downstream_cx_length_ms,
        after.downstream_cx_length_ms,
        PREFIX_TCP@,
        renamed(rename, "downstream_cx_length_ms"@),
        "Connection length milliseconds"@,
        seq![5u64, 10, 50, 100, 500, 1000, 5000, 10000, u64::MAX],
    )
    &&& counter_ready(
        before.cx_rx_bytes_received,
        after.cx_rx_bytes_received,
        PREFIX_TCP@,
        renamed(rename, "cx_rx_bytes_received"@),
        "Total number of bytes received in TCP connections"@,
    )
    &&& counter_ready(
        before.cx_tx_bytes_sent,
        after.cx_tx_bytes_sent,
        PREFIX_TCP@,
        renamed(rename, "cx_tx_bytes_sent"@),
        "Total number of bytes sent in TCP connections"@,
    )
}

/// Names and describes every metric, each once.
pub fn init_metrics(metrics: &mut TcpMetrics, rename: &NameTable<String>)
    ensures
        ready(*old(metrics), *final(metrics), rename@),
{
    init_counter(
        &mut metrics.downstream_cx_total,
        PREFIX_TCP,
        resolve_metric_name(rename, "downstream_cx_total").as_str(),
        "Total number of downstream TCP connections",
    );
    init_counter(
        &mut metrics.downstream_cx_destroy,
        PREFIX_TCP,
        resolve_metric_name(rename, "downstream_cx_destroy").as_str(),
        "Total number of destroyed downstream TCP connections",
    );
    init_counter(
        &mut metrics.downstream_cx_active,
        PREFIX_TCP,
        resolve_metric_name(rename, "downstream_cx_active").as_str(),
        "Current number of active downstream TCP connections",
    );
    init_histogram(
        &mut metrics.downstream_cx_length_ms,
        PREFIX_TCP,
        resolve_metric_name(rename, "downstream_cx_length_ms").as_str(),
        "Connection length milliseconds",
        &latency_buckets(),
    );
    init_counter(
        &mut metrics.cx_rx_bytes_received,
        PREFIX_TCP,
        resolve_metric_name(rename, "cx_rx_bytes_received").as_str(),
        "Total number of bytes received in TCP connections",
    );
    init_counter(
        &mut metrics.cx_tx_bytes_sent,
        PREFIX_TCP,
        resolve_metric_name(rename, "cx_tx_bytes_sent").as_str(),
        "Total number of bytes sent in TCP connections",
    );
}

/// Whether every metric is back at its beginning, and described as before.
pub open spec fn was_reset(before: TcpMetrics, after: TcpMetrics) -> bool {
    &&& after.downstream_cx_total.is_clear() && after.downstream_cx_total.same_kind(&before.downstream_cx_total)
    &&& after.downstream_cx_destroy.is_clear() && after.downstream_cx_destroy.same_kind(&before.downstream_cx_destroy)
    &&& after.downstream_cx_active.is_clear() && after.downstream_cx_active.same_kind(&before.downstream_cx_active)
    &&& after.downstream_cx_length_ms.is_clear() && after.downstream_cx_length_ms.same_kind(&before.downstream_cx_length_ms)
    &&& after.cx_rx_bytes_received.is_clear() && after.cx_rx_bytes_received.same_kind(&before.cx_rx_bytes_received)
    &&& after.cx_tx_bytes_sent.is_clear() && after.cx_tx_bytes_sent.same_kind(&before.cx_tx_bytes_sent)
}

/// Sets every metric back to its beginning.
pub fn reset_metrics(metrics: &mut TcpMetrics)
    ensures
        was_reset(*old(metrics), *final(metrics)),
{
    metrics.downstream_cx_total.clear();
    metrics.downstream_cx_destroy.clear();
    metrics.downstream_cx_active.clear();
    metrics.downstream_cx_length_ms.clear();
    metrics.cx_rx_bytes_received.clear();
    metrics.cx_tx_bytes_sent.clear();
}

} // verus!
