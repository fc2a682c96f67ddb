//! What happened on connections from clients that speak HTTP.

use crate::metrics::{
    counter_ready, histogram_ready, init_counter, init_histogram, latency_buckets, renamed, resolve_metric_name,
    Metric, PREFIX_HTTP,
};
use crate::name_table::NameTable;
use crate::sharded::{Clearable, ShardedHistogram, ShardedU64};
use vstd::prelude::*;

verus! {

/// What happened on connections from clients that speak HTTP.
pub struct HttpMetrics {
    pub downstream_cx_total: Option<Metric<ShardedU64>>,
    pub downstream_cx_ssl_total: Option<Metric<ShardedU64>>,
    pub downstream_cx_ssl_active: Option<Metric<ShardedU64>>,
    pub downstream_cx_destroy: Option<Metric<ShardedU64>>,
    pub downstream_cx_active: Option<Metric<ShardedU64>>,
    pub downstream_cx_length_ms: Option<Metric<ShardedHistogram>>,
    pub downstream_cx_ws_upgrades_total: Option<Metric<ShardedU64>>,
    pub downstream_cx_ws_upgrades_active: Option<Metric<ShardedU64>>,
    pub downstream_rq_ws_on_non_ws_route: Option<Metric<ShardedU64>>,
    pub downstream_rq_1xx: Option<Metric<ShardedU64>>,
    pub downstream_rq_2xx: Option<Metric<ShardedU64>>,
    pub downstream_rq_3xx: Option<Metric<ShardedU64>>,
    pub downstream_rq_4xx: Option<Metric<ShardedU64>>,
    pub downstream_rq_5xx: Option<Metric<ShardedU64>>,
    pub downstream_rq_total: Option<Metric<ShardedU64>>,
    pub downstream_rq_active: Option<Metric<ShardedU64>>,
    pub downstream_cx_rx_bytes_total: Option<Metric<ShardedU64>>,
    pub downstream_cx_tx_bytes_total: Option<Metric<ShardedU64>>,
}

/// Whether no metric is set up.
pub open spec fn unset(metrics: HttpMetrics) -> bool {
    &&& metrics.downstream_cx_total is None
    &&& metrics.downstream_cx_ssl_total is None
    &&& metrics.downstream_cx_ssl_active is None
    &&& metrics.downstream_cx_destroy is None
    &&& metrics.downstream_cx_active is None
    &&& metrics.downstream_cx_length_ms is None
    &&& metrics.downstream_cx_ws_upgrades_total is None
    &&& metrics.downstream_cx_ws_upgrades_active is None
    &&& metrics.downstream_rq_ws_on_non_ws_route is None
    &&& metrics.downstream_rq_1xx is None
    &&& metrics.downstream_rq_2xx is None
    &&& metrics.downstream_rq_3xx is None
    &&& metrics.downstream_rq_4xx is None
    &&& metrics.downstream_rq_5xx is None
    &&& metrics.downstream_rq_total is None
    &&& metrics.downstream_rq_active is None
    &&& metrics.downstream_cx_rx_bytes_total is None
    &&& metrics.downstream_cx_tx_bytes_total is None
}

impl Default for HttpMetrics {
    fn default() -> (metrics: HttpMetrics)
        ensures
            unset(metrics),
    {
        HttpMetrics {
            downstream_cx_total: None,
            downstream_cx_ssl_total: None,
            downstream_cx_ssl_active: None,
            downstream_cx_destroy: None,
            downstream_cx_active: None,
            downstream_cx_length_ms: None,
            downstream_cx_ws_upgrades_total: None,
            downstream_cx_ws_upgrades_active: None,
            downstream_rq_ws_on_non_ws_route: None,
            downstream_rq_1xx: None,
            downstream_rq_2xx: None,
            downstream_rq_3xx: None,
            downstream_rq_4xx: None,
            downstream_rq_5xx: None,
            downstream_rq_total: None,
            downstream_rq_active: None,
            downstream_cx_rx_bytes_total: None,
            downstream_cx_tx_bytes_total: None,
        }
    }
}

/// Whether every metric is named and described, where it was not before.
pub open spec fn ready(before: HttpMetrics, after: HttpMetrics, rename: Map<Seq<char>, String>) -> bool {
    &&& counter_ready(
        before.downstream_cx_total,
        after.downstream_cx_total,
        PREFIX_HTTP@,
        renamed(rename, "downstream_cx_total"@),
        "Total number of downstream HTTP connections"@,
    )
    &&& counter_ready(
        before.downstream_cx_ssl_total,
        after.downstream_cx_ssl_total,
        PREFIX_HTTP@,
        renamed(rename, "downstream_cx_ssl_total"@),
        "Total number of downstream HTTP connections with TLS"@,
    )
    &&& counter_ready(
        before.downstream_cx_ssl_active,
        after.downstream_cx_ssl_active,
        PREFIX_HTTP@,
        renamed(rename, "downstream_cx_ssl_active"@),
        "Active downstream HTTP connections with TLS"@,
    )
    &&& counter_ready(
        before.downstream_cx_destroy,
        after.downstream_cx_destroy,
        PREFIX_HTTP@,
        renamed(rename, "downstream_cx_destroy"@),
        "Number of destroyed downstream HTTP connections"@,
    )
    &&& counter_ready(
        before.downstream_cx_active,
        after.downstream_cx_active,
        PREFIX_HTTP@,
        renamed(rename, "downstream_cx_active"@),
        "Active downstream HTTP connections"@,
    )
    &&& histogram_ready(
        before.downstream_cx_length_ms,
        after.downstream_cx_length_ms,
        PREFIX_HTTP@,
        renamed(rename, "downstream_cx_length_ms"@),
        "Connection length milliseconds"@,
        seq![5u64, 10, 50, 100, 500, 1000, 5000, 10000, u64::MAX],
    )
    &&& counter_ready(
        before.downstream_cx_ws_upgrades_total,
        after.downstream_cx_ws_upgrades_total,
        PREFIX_HTTP@,
        renamed(rename, "downstream_cx_ws_upgrades_total"@),
        "Total successfully upgraded connections"@,
    )
    &&& counter_ready(
        before.downstream_cx_ws_upgrades_active,
        after.downstream_cx_ws_upgrades_active,
        PREFIX_HTTP@,
        renamed(rename, "downstream_cx_ws_upgrades_active"@),
        "Total active upgraded connections"@,
    )
    &&& counter_ready(
        before.downstream_rq_ws_on_non_ws_route,
        after.downstream_rq_ws_on_non_ws_route,
        PREFIX_HTTP@,
        renamed(rename, "downstream_rq_ws_on_non_ws_route"@),
        "Total upgrade requests rejected by non upgrade routes"@,
    )
    &&& counter_ready(
        before.downstream_rq_1xx,
        after.downstream_rq_1xx,
        PREFIX_HTTP@,
        renamed(rename, "downstream_rq_1xx"@),
        "1xx responses to downstream HTTP requests"@,
    )
    &&& counter_ready(
        before.downstream_rq_2xx,
        after.downstream_rq_2xx,
        PREFIX_HTTP@,
        renamed(rename, "downstream_rq_2xx"@),
        "2xx responses to downstream HTTP requests"@,
    )
    &&& counter_ready(
        before.downstream_rq_3xx,
        after.downstream_rq_3xx,
        PREFIX_HTTP@,
        renamed(rename, "downstream_rq_3xx"@),
        "3xx responses to downstream HTTP requests"@,
    )
    &&& counter_ready(
        before.downstream_rq_4xx,
        after.downstream_rq_4xx,
        PREFIX_HTTP@,
        renamed(rename, "downstream_rq_4xx"@),
        "4xx responses to downstream HTTP requests"@,
    )
    &&& counter_ready(
        before.downstream_rq_5xx,
        after.downstream_rq_5xx,
        PREFIX_HTTP@,
        renamed(rename, "downstream_rq_5xx"@),
        "5xx responses to downstream HTTP requests"@,
    )
    &&& counter_ready(
        before.downstream_rq_total,
        after.downstream_rq_total,
        PREFIX_HTTP@,
        renamed(rename, "downstream_rq_total"@),
        "Total number of downstream HTTP requests"@,
    )
    &&& counter_ready(
        before.downstream_rq_active,
        after.downstream_rq_active,
        PREFIX_HTTP@,
        renamed(rename, "downstream_rq_active"@),
        "Active downstream HTTP requests"@,
    )
    &&& counter_ready(
        before.downstream_cx_rx_bytes_total,
        after.downstream_cx_rx_bytes_total,
        PREFIX_HTTP@,
        renamed(rename, "downstream_cx_rx_bytes_total"@),
        "Total number of bytes received on downstream HTTP connections"@,
    )
    &&& counter_ready(
        before.downstream_cx_tx_bytes_total,
        after.downstream_cx_tx_bytes_total,
        PREFIX_HTTP@,
        renamed(rename, "downstream_cx_tx_bytes_total"@),
        "Total number of bytes sent on downstream HTTP connections"@,
    )
}

/// Names and describes every metric, each once.
pub fn init_metrics(metrics: &mut HttpMetrics, rename: &NameTable<String>)
    ensures
        ready(*old(metrics), *final(metrics), rename@),
{
    init_counter(
        &mut metrics.downstream_cx_total,
        PREFIX_HTTP,
        resolve_metric_name(rename, "downstream_cx_total").as_str(),
        "Total number of downstream HTTP connections",
    );
    init_counter(
        &mut metrics.downstream_cx_ssl_total,
        PREFIX_HTTP,
        resolve_metric_name(rename, "downstream_cx_ssl_total").as_str(),
        "Total number of downstream HTTP connections with TLS",
    );
    init_counter(
        &mut metrics.downstream_cx_ssl_active,
        PREFIX_HTTP,
        resolve_metric_name(rename, "downstream_cx_ssl_active").as_str(),
        "Active downstream HTTP connections with TLS",
    );
    init_counter(
        &mut metrics.downstream_cx_destroy,
        PREFIX_HTTP,
        resolve_metric_name(rename, "downstream_cx_destroy").as_str(),
        "Number of destroyed downstream HTTP connections",
    );
    init_counter(
        &mut metrics.downstream_cx_active,
        PREFIX_HTTP,
        resolve_metric_name(rename, "downstream_cx_active").as_str(),
        "Active downstream HTTP connections",
    );
    init_histogram(
        &mut metrics.downstream_cx_length_ms,
        PREFIX_HTTP,
        resolve_metric_name(rename, "downstream_cx_length_ms").as_str(),
        "Connection length milliseconds",
        &latency_buckets(),
    );
    init_counter(
        &mut metrics.downstream_cx_ws_upgrades_total,
        PREFIX_HTTP,
        resolve_metric_name(rename, "downstream_cx_ws_upgrades_total").as_str(),
        "Total successfully upgraded connections",
    );
    init_counter(
        &mut metrics.downstream_cx_ws_upgrades_active,
        PREFIX_HTTP,
        resolve_metric_name(rename, "downstream_cx_ws_upgrades_active").as_str(),
        "Total active upgraded connections",
    );
    init_counter(
        &mut metrics.downstream_rq_ws_on_non_ws_route,
        PREFIX_HTTP,
        resolve_metric_name(rename, "downstream_rq_ws_on_non_ws_route").as_str(),
        "Total upgrade requests rejected by non upgrade routes",
    );
    init_counter(
        &mut metrics.downstream_rq_1xx,
        PREFIX_HTTP,
        resolve_metric_name(rename, "downstream_rq_1xx").as_str(),
        "1xx responses to downstream HTTP requests",
    );
    init_counter(
        &mut metrics.downstream_rq_2xx,
        PREFIX_HTTP,
        resolve_metric_name(rename, "downstream_rq_2xx").as_str(),
        "2xx responses to downstream HTTP requests",
    );
    init_counter(
        &mut metrics.downstream_rq_3xx,
        PREFIX_HTTP,
        resolve_metric_name(rename, "downstream_rq_3xx").as_str(),
        "3xx responses to downstream HTTP requests",
    );
    init_counter(
        &mut metrics.downstream_rq_4xx,
        PREFIX_HTTP,
        resolve_metric_name(rename, "downstream_rq_4xx").as_str(),
        "4xx responses to downstream HTTP requests",
    );
    init_counter(
        &mut metrics.downstream_rq_5xx,
        PREFIX_HTTP,
        resolve_metric_name(rename, "downstream_rq_5xx").as_str(),
        "5xx responses to downstream HTTP requests",
    );
    init_counter(
        &mut metrics.downstream_rq_total,
        PREFIX_HTTP,
        resolve_metric_name(rename, "downstream_rq_total").as_str(),
        "Total number of downstream HTTP requests",
    );
    init_counter(
        &mut metrics.downstream_rq_active,
        PREFIX_HTTP,
        resolve_metric_name(rename, "downstream_rq_active").as_str(),
        "Active downstream HTTP requests",
    );
    init_counter(
        &mut metrics.downstream_cx_rx_bytes_total,
        PREFIX_HTTP,
        resolve_metric_name(rename, "downstream_cx_rx_bytes_total").as_str(),
        "Total number of bytes received on downstream HTTP connections",
    );
    init_counter(
        &mut metrics.downstream_cx_tx_bytes_total,
        PREFIX_HTTP,
        resolve_metric_name(rename, "downstream_cx_tx_bytes_total").as_str(),
        "Total number of bytes sent on downstream HTTP connections",
    );
}

/// Whether every metric is back at its beginning, and described as before.
pub open spec fn was_reset(before: HttpMetrics, after: HttpMetrics) -> bool {
    &&& after.downstream_cx_total.is_clear() && after.downstream_cx_total.same_kind(&before.downstream_cx_total)
    &&& after.downstream_cx_ssl_total.is_clear() && after.downstream_cx_ssl_total.same_kind(&before.downstream_cx_ssl_total)
    &&& after.downstream_cx_ssl_active.is_clear() && after.downstream_cx_ssl_active.same_kind(&before.downstream_cx_ssl_active)
    &&& after.downstream_cx_destroy.is_clear() && after.downstream_cx_destroy.same_kind(&before.downstream_cx_destroy)
    &&& after.downstream_cx_active.is_clear() && after.downstream_cx_active.same_kind(&before.downstream_cx_active)
    &&& after.downstream_cx_length_ms.is_clear() && after.downstream_cx_length_ms.same_kind(&before.downstream_cx_length_ms)
    &&& after.downstream_cx_ws_upgrades_total.is_clear() && after.downstream_cx_ws_upgrades_total.same_kind(&before.downstream_cx_ws_upgrades_total)
    &&& after.downstream_cx_ws_upgrades_active.is_clear() && after.downstream_cx_ws_upgrades_active.same_kind(&before.downstream_cx_ws_upgrades_active)
    &&& after.downstream_rq_ws_on_non_ws_route.is_clear() && after.downstream_rq_ws_on_non_ws_route.same_kind(&before.downstream_rq_ws_on_non_ws_route)
    &&& after.downstream_rq_1xx.is_clear() && after.downstream_rq_1xx.same_kind(&before.downstream_rq_1xx)
    &&& after.downstream_rq_2xx.is_clear() && after.downstream_rq_2xx.same_kind(&before.downstream_rq_2xx)
    &&& after.downstream_rq_3xx.is_clear() && after.downstream_rq_3xx.same_kind(&before.downstream_rq_3xx)
    &&& after.downstream_rq_4xx.is_clear() && after.downstream_rq_4xx.same_kind(&before.downstream_rq_4xx)
    &&& after.downstream_rq_5xx.is_clear() && after.downstream_rq_5xx.same_kind(&before.downstream_rq_5xx)
    &&& after.downstream_rq_total.is_clear() && after.downstream_rq_total.same_kind(&before.downstream_rq_total)
    &&& after.downstream_rq_active.is_clear() && after.downstream_rq_active.same_kind(&before.downstream_rq_active)
    &&& after.downstream_cx_rx_bytes_total.is_clear() && after.downstream_cx_rx_bytes_total.same_kind(&before.downstream_cx_rx_bytes_total)
    &&& after.downstream_cx_tx_bytes_total.is_clear() && after.downstream_cx_tx_bytes_total.same_kind(&before.downstream_cx_tx_bytes_total)
}

/// Sets every metric back to its beginning.
pub fn reset_metrics(metrics: &mut HttpMetrics)
    ensures
        was_reset(*old(metrics), *final(metrics)),
{
    metrics.downstream_cx_total.clear();
    metrics.downstream_cx_ssl_total.clear();
    metrics.downstream_cx_ssl_active.clear();
    metrics.downstream_cx_destroy.clear();
    metrics.downstream_cx_active.clear();
    metrics.downstream_cx_length_ms.clear();
    metrics.downstream_cx_ws_upgrades_total.clear();
    metrics.downstream_cx_ws_upgrades_active.clear();
    metrics.downstream_rq_ws_on_non_ws_route.clear();
    metrics.downstream_rq_1xx.clear();
    metrics.downstream_rq_2xx.clear();
    metrics.downstream_rq_3xx.clear();
    metrics.downstream_rq_4xx.clear();
    metrics.downstream_rq_5xx.clear();
    metrics.downstream_rq_total.clear();
    metrics.downstream_rq_active.clear();
    metrics.downstream_cx_rx_bytes_total.clear();
    metrics.downstream_cx_tx_bytes_total.clear();
}

} // verus!
