//! Which metrics are shown in each of the text formats, and as what.

use crate::admin::canonical;
use crate::admin::prometheus;
use crate::admin::snapshot::{covers, custom_sources, shows, Snapshot, Source};
use crate::metrics::clusters::ClusterMetrics;
use crate::metrics::filters::FilterMetrics;
use crate::metrics::http::HttpMetrics;
use crate::metrics::listeners::ListenerMetrics;
use crate::metrics::server::ServerMetrics;
use crate::metrics::tcp::TcpMetrics;
use crate::metrics::tls::TlsMetrics;
use crate::metrics::user::UserMetrics;
use crate::metrics::GlobalMetrics;
use vstd::prelude::*;

verus! {

/// What two lists hold together.
proof fn lemma_in_either(a: Seq<Source>, b: Seq<Source>, source: Source)
    ensures
        a.contains(source) || b.contains(source) ==> (a + b).contains(source),
{
    let both = a + b;
    if a.contains(source) {
        let i = choose|i: int| 0 <= i < a.len() && a[i] == source;
        assert(both[i] == source);
    }
    if b.contains(source) {
        let i = choose|i: int| 0 <= i < b.len() && b[i] == source;
        assert(both[a.len() + i] == source);
    }
}

/// A metric that is among those to show has a snapshot.
pub proof fn law_every_source_has_a_snapshot(shots: Seq<Option<Snapshot>>, sources: Seq<Source>, source: Source)
    requires
        covers(shots, sources),
        sources.contains(source),
    ensures
        exists|i: int| 0 <= i < shots.len() && shows(#[trigger] shots[i], source),
{
    let i = choose|i: int| 0 <= i < sources.len() && sources[i] == source;
    assert(shows(shots[i], source));
}

/// The metrics of the listeners are shown in the format of Prometheus. Numbers that can also go down are shown as gauges.
pub proof fn law_prometheus_shows_listeners(m: ListenerMetrics)
    ensures
        prometheus::listeners_sources(m).contains(Source::Counter(m.downstream_cx_total)),
        prometheus::listeners_sources(m).contains(Source::Counter(m.downstream_cx_destroy)),
        prometheus::listeners_sources(m).contains(Source::GaugeCounter(m.downstream_cx_active)),
        prometheus::listeners_sources(m).contains(Source::Counter(m.no_filter_chain_match)),
        prometheus::listeners_sources(m).contains(Source::Histogram(m.downstream_cx_length_ms)),
        prometheus::listeners_sources(m).len() == 5,
{
    let all = prometheus::listeners_sources(m);
    assert(all[0] == Source::Counter(m.downstream_cx_total));
    assert(all[1] == Source::Counter(m.downstream_cx_destroy));
    assert(all[2] == Source::GaugeCounter(m.downstream_cx_active));
    assert(all[3] == Source::Counter(m.no_filter_chain_match));
    assert(all[4] == Source::Histogram(m.downstream_cx_length_ms));
}

/// The metrics of the clusters are shown in the format of Prometheus. Numbers that can also go down are shown as gauges.
pub proof fn law_prometheus_shows_clusters(m: ClusterMetrics)
    ensures
        prometheus::clusters_sources(m).contains(Source::Counter(m.upstream_rq_total)),
        prometheus::clusters_sources(m).contains(Source::GaugeCounter(m.upstream_rq_active)),
        prometheus::clusters_sources(m).contains(Source::Counter(m.upstream_rq_timeout)),
        prometheus::clusters_sources(m).contains(Source::Counter(m.upstream_rq_per_try_timeout)),
        prometheus::clusters_sources(m).contains(Source::Counter(m.upstream_rq_retry)),
        prometheus::clusters_sources(m).contains(Source::Counter(m.upstream_cx_total)),
        prometheus::clusters_sources(m).contains(Source::GaugeCounter(m.upstream_cx_active)),
        prometheus::clusters_sources(m).contains(Source::Counter(m.upstream_cx_destroy)),
        prometheus::clusters_sources(m).contains(Source::Counter(m.upstream_cx_idle_timeout)),
        prometheus::clusters_sources(m).contains(Source::Counter(m.upstream_cx_connect_fail)),
        prometheus::clusters_sources(m).contains(Source::Counter(m.upstream_cx_connect_timeout)),
        prometheus::clusters_sources(m).contains(Source::Counter(m.upstream_cx_rx_bytes_total)),
        prometheus::clusters_sources(m).contains(Source::Counter(m.upstream_cx_tx_bytes_total)),
        prometheus::clusters_sources(m).contains(Source::Counter(m.upstream_cx_overflow)),
        prometheus::clusters_sources(m).contains(Source::Counter(m.upstream_rq_overflow)),
        prometheus::clusters_sources(m).contains(Source::Counter(m.upstream_rq_retry_overflow)),
        prometheus::clusters_sources(m).len() == 16,
{
    let all = prometheus::clusters_sources(m);
    assert(all[0] == Source::Counter(m.upstream_rq_total));
    assert(all[1] == Source::GaugeCounter(m.upstream_rq_active));
    assert(all[2] == Source::Counter(m.upstream_rq_timeout));
    assert(all[3] == Source::Counter(m.upstream_rq_per_try_timeout));
    assert(all[4] == Source::Counter(m.upstream_rq_retry));
    assert(all[5] == Source::Counter(m.upstream_cx_total));
    assert(all[6] == Source::GaugeCounter(m.upstream_cx_active));
    assert(all[7] == Source::Counter(m.upstream_cx_destroy));
    assert(all[8] == Source::Counter(m.upstream_cx_idle_timeout));
    assert(all[9] == Source::Counter(m.upstream_cx_connect_fail));
    assert(all[10] == Source::Counter(m.upstream_cx_connect_timeout));
    assert(all[11] == Source::Counter(m.upstream_cx_rx_bytes_total));
    assert(all[12] == Source::Counter(m.upstream_cx_tx_bytes_total));
    assert(all[13] == Source::Counter(m.upstream_cx_overflow));
    assert(all[14] == Source::Counter(m.upstream_rq_overflow));
    assert(all[15] == Source::Counter(m.upstream_rq_retry_overflow));
}

/// The metrics of the HTTP connections are shown in the format of Prometheus. Numbers that can also go down are shown as gauges.
pub proof fn law_prometheus_shows_http(m: HttpMetrics)
    ensures
        prometheus::http_sources(m).contains(Source::Counter(m.downstream_cx_total)),
        prometheus::http_sources(m).contains(Source::Counter(m.downstream_cx_ssl_total)),
        prometheus::http_sources(m).contains(Source::GaugeCounter(m.downstream_cx_ssl_active)),
        prometheus::http_sources(m).contains(Source::Counter(m.downstream_cx_destroy)),
        prometheus::http_sources(m).contains(Source::GaugeCounter(m.downstream_cx_active)),
        prometheus::http_sources(m).contains(Source::Counter(m.downstream_rq_1xx)),
        prometheus::http_sources(m).contains(Source::Counter(m.downstream_rq_2xx)),
        prometheus::http_sources(m).contains(Source::Counter(m.downstream_rq_3xx)),
        prometheus::http_sources(m).contains(Source::Counter(m.downstream_rq_4xx)),
        prometheus::http_sources(m).contains(Source::Counter(m.downstream_rq_5xx)),
        prometheus::http_sources(m).contains(Source::Counter(m.downstream_rq_total)),
        prometheus::http_sources(m).contains(Source::GaugeCounter(m.downstream_rq_active)),
        prometheus::http_sources(m).contains(Source::Counter(m.downstream_cx_rx_bytes_total)),
        prometheus::http_sources(m).contains(Source::Counter(m.downstream_cx_tx_bytes_total)),
        prometheus::http_sources(m).contains(Source::Histogram(m.downstream_cx_length_ms)),
        prometheus::http_sources(m).len() == 15,
{
    let all = prometheus::http_sources(m);
    assert(all[0] == Source::Counter(m.downstream_cx_total));
    assert(all[1] == Source::Counter(m.downstream_cx_ssl_total));
    assert(all[2] == Source::GaugeCounter(m.downstream_cx_ssl_active));
    assert(all[3] == Source::Counter(m.downstream_cx_destroy));
    assert(all[4] == Source::GaugeCounter(m.downstream_cx_active));
    assert(all[5] == Source::Counter(m.downstream_rq_1xx));
    assert(all[6] == Source::Counter(m.downstream_rq_2xx));
    assert(all[7] == Source::Counter(m.downstream_rq_3xx));
    assert(all[8] == Source::Counter(m.downstream_rq_4xx));
    assert(all[9] == Source::Counter(m.downstream_rq_5xx));
    assert(all[10] == Source::Counter(m.downstream_rq_total));
    assert(all[11] == Source::GaugeCounter(m.downstream_rq_active));
    assert(all[12] == Source::Counter(m.downstream_cx_rx_bytes_total));
    assert(all[13] == Source::Counter(m.downstream_cx_tx_bytes_total));
    assert(all[14] == Source::Histogram(m.downstream_cx_length_ms));
}

/// The metrics of the server are shown in the format of Prometheus. Numbers that can also go down are shown as gauges.
pub proof fn law_prometheus_shows_server(m: ServerMetrics)
    ensures
        prometheus::server_sources(m).contains(Source::Gauge(m.uptime)),
        prometheus::server_sources(m).contains(Source::Gauge(m.concurrency)),
        prometheus::server_sources(m).contains(Source::Gauge(m.memory_heap_size)),
        prometheus::server_sources(m).contains(Source::Gauge(m.memory_physical_size)),
        prometheus::server_sources(m).contains(Source::Gauge(m.memory_allocated)),
        prometheus::server_sources(m).len() == 5,
{
    let all = prometheus::server_sources(m);
    assert(all[0] == Source::Gauge(m.uptime));
    assert(all[1] == Source::Gauge(m.concurrency));
    assert(all[2] == Source::Gauge(m.memory_heap_size));
    assert(all[3] == Source::Gauge(m.memory_physical_size));
    assert(all[4] == Source::Gauge(m.memory_allocated));
}

/// The metrics of the raw connections are shown in the format of Prometheus. Numbers that can also go down are shown as gauges.
pub proof fn law_prometheus_shows_tcp(m: TcpMetrics)
    ensures
        prometheus::tcp_sources(m).contains(Source::Counter(m.downstream_cx_total)),
        prometheus::tcp_sources(m).contains(Source::Counter(m.downstream_cx_destroy)),
        prometheus::tcp_sources(m).contains(Source::GaugeCounter(m.downstream_cx_active)),
        prometheus::tcp_sources(m).contains(Source::Histogram(m.downstream_cx_length_ms)),
        prometheus::tcp_sources(m).contains(Source::Counter(m.cx_rx_bytes_received)),
        prometheus::tcp_sources(m).contains(Source::Counter(m.cx_tx_bytes_sent)),
        prometheus::tcp_sources(m).len() == 6,
{
    let all = prometheus::tcp_sources(m);
    assert(all[0] == Source::Counter(m.downstream_cx_total));
    assert(all[1] == Source::Counter(m.downstream_cx_destroy));
    assert(all[2] == Source::GaugeCounter(m.downstream_cx_active));
    assert(all[3] == Source::Histogram(m.downstream_cx_length_ms));
    assert(all[4] == Source::Counter(m.cx_rx_bytes_received));
    assert(all[5] == Source::Counter(m.cx_tx_bytes_sent));
}

/// The metrics of TLS are shown in the format of Prometheus. Numbers that can also go down are shown as gauges.
pub proof fn law_prometheus_shows_tls(m: TlsMetrics)
    ensures
        prometheus::tls_sources(m).contains(Source::Counter(m.handshakes)),
        prometheus::tls_sources(m).len() == 1,
{
    let all = prometheus::tls_sources(m);
    assert(all[0] == Source::Counter(m.handshakes));
}

/// The metrics of upgraded connections are shown in the format of Prometheus. Numbers that can also go down are shown as gauges.
pub proof fn law_prometheus_shows_websocket(m: HttpMetrics)
    ensures
        prometheus::websocket_sources(m).contains(Source::Counter(m.downstream_cx_ws_upgrades_total)),
        prometheus::websocket_sources(m).contains(Source::GaugeCounter(m.downstream_cx_ws_upgrades_active)),
        prometheus::websocket_sources(m).contains(Source::Counter(m.downstream_rq_ws_on_non_ws_route)),
        prometheus::websocket_sources(m).len() == 3,
{
    let all = prometheus::websocket_sources(m);
    assert(all[0] == Source::Counter(m.downstream_cx_ws_upgrades_total));
    assert(all[1] == Source::GaugeCounter(m.downstream_cx_ws_upgrades_active));
    assert(all[2] == Source::Counter(m.downstream_rq_ws_on_non_ws_route));
}

/// The metrics of the users are shown in the format of Prometheus. Numbers that can also go down are shown as gauges.
pub proof fn law_prometheus_shows_user(m: UserMetrics)
    ensures
        prometheus::user_sources(m).contains(Source::Counter(m.invocations)),
        prometheus::user_sources(m).contains(Source::Counter(m.throttles)),
        prometheus::user_sources(m).contains(Source::Counter(m.system_errors)),
        prometheus::user_sources(m).contains(Source::Counter(m.user_errors)),
        prometheus::user_sources(m).contains(Source::Counter(m.total_errors)),
        prometheus::user_sources(m).contains(Source::Counter(m.bytes_tx)),
        prometheus::user_sources(m).contains(Source::Counter(m.bytes_rx)),
        prometheus::user_sources(m).contains(Source::Counter(m.inbound_streaming_bytes_processed)),
        prometheus::user_sources(m).contains(Source::Counter(m.outbound_streaming_bytes_processed)),
        prometheus::user_sources(m).contains(Source::Counter(m.http_1xx_responses)),
        prometheus::user_sources(m).contains(Source::Counter(m.http_2xx_responses)),
        prometheus::user_sources(m).contains(Source::Counter(m.http_3xx_responses)),
        prometheus::user_sources(m).contains(Source::Counter(m.http_4xx_responses)),
        prometheus::user_sources(m).contains(Source::Counter(m.http_5xx_responses)),
        prometheus::user_sources(m).contains(Source::Histogram(m.latency)),
        prometheus::user_sources(m).len() == 15,
{
    let all = prometheus::user_sources(m);
    assert(all[0] == Source::Counter(m.invocations));
    assert(all[1] == Source::Counter(m.throttles));
    assert(all[2] == Source::Counter(m.system_errors));
    assert(all[3] == Source::Counter(m.user_errors));
    assert(all[4] == Source::Counter(m.total_errors));
    assert(all[5] == Source::Counter(m.bytes_tx));
    assert(all[6] == Source::Counter(m.bytes_rx));
    assert(all[7] == Source::Counter(m.inbound_streaming_bytes_processed));
    assert(all[8] == Source::Counter(m.outbound_streaming_bytes_processed));
    assert(all[9] == Source::Counter(m.http_1xx_responses));
    assert(all[10] == Source::Counter(m.http_2xx_responses));
    assert(all[11] == Source::Counter(m.http_3xx_responses));
    assert(all[12] == Source::Counter(m.http_4xx_responses));
    assert(all[13] == Source::Counter(m.http_5xx_responses));
    assert(all[14] == Source::Histogram(m.latency));
}

/// The metrics of the filters are shown in the format of Prometheus. Numbers that can also go down are shown as gauges.
pub proof fn law_prometheus_shows_filters(m: FilterMetrics)
    ensures
        prometheus::filters_sources(m).contains(Source::Counter(m.connection_rate_limit)),
        prometheus::filters_sources(m).contains(Source::Counter(m.local_rate_limit)),
        prometheus::filters_sources(m).contains(Source::Counter(m.user_rate_limit)),
        prometheus::filters_sources(m).len() == 3,
{
    let all = prometheus::filters_sources(m);
    assert(all[0] == Source::Counter(m.connection_rate_limit));
    assert(all[1] == Source::Counter(m.local_rate_limit));
    assert(all[2] == Source::Counter(m.user_rate_limit));
}

/// All metrics are shown, those over header fields too.
pub proof fn law_prometheus_shows_all(m: GlobalMetrics, source: Source)
    requires
        ({
            ||| prometheus::listeners_sources(m.listeners).contains(source)
            ||| prometheus::clusters_sources(m.clusters).contains(source)
            ||| prometheus::http_sources(m.http).contains(source)
            ||| prometheus::server_sources(m.server).contains(source)
            ||| prometheus::tcp_sources(m.tcp).contains(source)
            ||| prometheus::tls_sources(m.tls).contains(source)
            ||| prometheus::websocket_sources(m.http).contains(source)
            ||| prometheus::user_sources(m.user).contains(source)
            ||| prometheus::filters_sources(m.filters).contains(source)
            ||| custom_sources(m.custom).contains(source)
        }),
    ensures
        prometheus::all_sources(m).contains(source),
{
    let all = prometheus::listeners_sources(m.listeners);
    lemma_in_either(all, prometheus::clusters_sources(m.clusters), source);
    let all = all + prometheus::clusters_sources(m.clusters);
    lemma_in_either(all, prometheus::http_sources(m.http), source);
    let all = all + prometheus::http_sources(m.http);
    lemma_in_either(all, prometheus::server_sources(m.server), source);
    let all = all + prometheus::server_sources(m.server);
    lemma_in_either(all, prometheus::tcp_sources(m.tcp), source);
    let all = all + prometheus::tcp_sources(m.tcp);
    lemma_in_either(all, prometheus::tls_sources(m.tls), source);
    let all = all + prometheus::tls_sources(m.tls);
    lemma_in_either(all, prometheus::websocket_sources(m.http), source);
    let all = all + prometheus::websocket_sources(m.http);
    lemma_in_either(all, prometheus::user_sources(m.user), source);
    let all = all + prometheus::user_sources(m.user);
    lemma_in_either(all, prometheus::filters_sources(m.filters), source);
    let all = all + prometheus::filters_sources(m.filters);
    lemma_in_either(all, custom_sources(m.custom), source);
    let all = all + custom_sources(m.custom);
}

/// The metrics of the listeners are shown one to a line.
pub proof fn law_canonical_shows_listeners(m: ListenerMetrics)
    ensures
        canonical::listeners_sources(m).contains(Source::Counter(m.downstream_cx_total)),
        canonical::listeners_sources(m).contains(Source::Counter(m.downstream_cx_destroy)),
        canonical::listeners_sources(m).contains(Source::Counter(m.downstream_cx_active)),
        canonical::listeners_sources(m).contains(Source::Counter(m.no_filter_chain_match)),
        canonical::listeners_sources(m).contains(Source::Histogram(m.downstream_cx_length_ms)),
        canonical::listeners_sources(m).len() == 5,
{
    let all = canonical::listeners_sources(m);
    assert(all[0] == Source::Counter(m.downstream_cx_total));
    assert(all[1] == Source::Counter(m.downstream_cx_destroy));
    assert(all[2] == Source::Counter(m.downstream_cx_active));
    assert(all[3] == Source::Counter(m.no_filter_chain_match));
    assert(all[4] == Source::Histogram(m.downstream_cx_length_ms));
}

/// The metrics of the clusters are shown one to a line.
pub proof fn law_canonical_shows_clusters(m: ClusterMetrics)
    ensures
        canonical::clusters_sources(m).contains(Source::Counter(m.upstream_rq_total)),
        canonical::clusters_sources(m).contains(Source::Counter(m.upstream_rq_active)),
        canonical::clusters_sources(m).contains(Source::Counter(m.upstream_rq_timeout)),
        canonical::clusters_sources(m).contains(Source::Counter(m.upstream_rq_per_try_timeout)),
        canonical::clusters_sources(m).contains(Source::Counter(m.upstream_rq_retry)),
        canonical::clusters_sources(m).contains(Source::Counter(m.upstream_cx_total)),
        canonical::clusters_sources(m).contains(Source::Counter(m.upstream_cx_active)),
        canonical::clusters_sources(m).contains(Source::Counter(m.upstream_cx_destroy)),
        canonical::clusters_sources(m).contains(Source::Counter(m.upstream_cx_idle_timeout)),
        canonical::clusters_sources(m).contains(Source::Counter(m.upstream_cx_connect_fail)),
        canonical::clusters_sources(m).contains(Source::Counter(m.upstream_cx_connect_timeout)),
        canonical::clusters_sources(m).contains(Source::Counter(m.upstream_cx_rx_bytes_total)),
        canonical::clusters_sources(m).contains(Source::Counter(m.upstream_cx_tx_bytes_total)),
        canonical::clusters_sources(m).contains(Source::Counter(m.upstream_cx_overflow)),
        canonical::clusters_sources(m).contains(Source::Counter(m.upstream_rq_overflow)),
        canonical::clusters_sources(m).contains(Source::Counter(m.upstream_rq_retry_overflow)),
        canonical::clusters_sources(m).len() == 16,
{
    let all = canonical::clusters_sources(m);
    assert(all[0] == Source::Counter(m.upstream_rq_total));
    assert(all[1] == Source::Counter(m.upstream_rq_active));
    assert(all[2] == Source::Counter(m.upstream_rq_timeout));
    assert(all[3] == Source::Counter(m.upstream_rq_per_try_timeout));
    assert(all[4] == Source::Counter(m.upstream_rq_retry));
    assert(all[5] == Source::Counter(m.upstream_cx_total));
    assert(all[6] == Source::Counter(m.upstream_cx_active));
    assert(all[7] == Source::Counter(m.upstream_cx_destroy));
    assert(all[8] == Source::Counter(m.upstream_cx_idle_timeout));
    assert(all[9] == Source::Counter(m.upstream_cx_connect_fail));
    assert(all[10] == Source::Counter(m.upstream_cx_connect_timeout));
    assert(all[11] == Source::Counter(m.upstream_cx_rx_bytes_total));
    assert(all[12] == Source::Counter(m.upstream_cx_tx_bytes_total));
    assert(all[13] == Source::Counter(m.upstream_cx_overflow));
    assert(all[14] == Source::Counter(m.upstream_rq_overflow));
    assert(all[15] == Source::Counter(m.upstream_rq_retry_overflow));
}

/// The metrics of the HTTP connections are shown one to a line.
pub proof fn law_canonical_shows_http(m: HttpMetrics)
    ensures
        canonical::http_sources(m).contains(Source::Counter(m.downstream_cx_total)),
        canonical::http_sources(m).contains(Source::Counter(m.downstream_cx_ssl_total)),
        canonical::http_sources(m).contains(Source::Counter(m.downstream_cx_ssl_active)),
        canonical::http_sources(m).contains(Source::Counter(m.downstream_cx_destroy)),
        canonical::http_sources(m).contains(Source::Counter(m.downstream_cx_active)),
        canonical::http_sources(m).contains(Source::Counter(m.downstream_rq_1xx)),
        canonical::http_sources(m).contains(Source::Counter(m.downstream_rq_2xx)),
        canonical::http_sources(m).contains(Source::Counter(m.downstream_rq_3xx)),
        canonical::http_sources(m).contains(Source::Counter(m.downstream_rq_4xx)),
        canonical::http_sources(m).contains(Source::Counter(m.downstream_rq_5xx)),
        canonical::http_sources(m).contains(Source::Counter(m.downstream_rq_total)),
        canonical::http_sources(m).contains(Source::Counter(m.downstream_rq_active)),
        canonical::http_sources(m).contains(Source::Counter(m.downstream_cx_rx_bytes_total)),
        canonical::http_sources(m).contains(Source::Counter(m.downstream_cx_tx_bytes_total)),
        canonical::http_sources(m).contains(Source::Histogram(m.downstream_cx_length_ms)),
        canonical::http_sources(m).len() == 15,
{
    let all = canonical::http_sources(m);
    assert(all[0] == Source::Counter(m.downstream_cx_total));
    assert(all[1] == Source::Counter(m.downstream_cx_ssl_total));
    assert(all[2] == Source::Counter(m.downstream_cx_ssl_active));
    assert(all[3] == Source::Counter(m.downstream_cx_destroy));
    assert(all[4] == Source::Counter(m.downstream_cx_active));
    assert(all[5] == Source::Counter(m.downstream_rq_1xx));
    assert(all[6] == Source::Counter(m.downstream_rq_2xx));
    assert(all[7] == Source::Counter(m.downstream_rq_3xx));
    assert(all[8] == Source::Counter(m.downstream_rq_4xx));
    assert(all[9] == Source::Counter(m.downstream_rq_5xx));
    assert(all[10] == Source::Counter(m.downstream_rq_total));
    assert(all[11] == Source::Counter(m.downstream_rq_active));
    assert(all[12] == Source::Counter(m.downstream_cx_rx_bytes_total));
    assert(all[13] == Source::Counter(m.downstream_cx_tx_bytes_total));
    assert(all[14] == Source::Histogram(m.downstream_cx_length_ms));
}

/// The metrics of the server are shown one to a line.
pub proof fn law_canonical_shows_server(m: ServerMetrics)
    ensures
        canonical::server_sources(m).contains(Source::Gauge(m.uptime)),
        canonical::server_sources(m).contains(Source::Gauge(m.concurrency)),
        canonical::server_sources(m).contains(Source::Gauge(m.memory_heap_size)),
        canonical::server_sources(m).contains(Source::Gauge(m.memory_physical_size)),
        canonical::server_sources(m).contains(Source::Gauge(m.memory_allocated)),
        canonical::server_sources(m).len() == 5,
{
    let all = canonical::server_sources(m);
    assert(all[0] == Source::Gauge(m.uptime));
    assert(all[1] == Source::Gauge(m.concurrency));
    assert(all[2] == Source::Gauge(m.memory_heap_size));
    assert(all[3] == Source::Gauge(m.memory_physical_size));
    assert(all[4] == Source::Gauge(m.memory_allocated));
}

/// The metrics of the raw connections are shown one to a line.
pub proof fn law_canonical_shows_tcp(m: TcpMetrics)
    ensures
        canonical::tcp_sources(m).contains(Source::Counter(m.downstream_cx_total)),
        canonical::tcp_sources(m).contains(Source::Counter(m.downstream_cx_destroy)),
        canonical::tcp_sources(m).contains(Source::Counter(m.downstream_cx_active)),
        canonical::tcp_sources(m).contains(Source::Histogram(m.downstream_cx_length_ms)),
        canonical::tcp_sources(m).contains(Source::Counter(m.cx_rx_bytes_received)),
        canonical::tcp_sources(m).contains(Source::Counter(m.cx_tx_bytes_sent)),
        canonical::tcp_sources(m).len() == 6,
{
    let all = canonical::tcp_sources(m);
    assert(all[0] == Source::Counter(m.downstream_cx_total));
    assert(all[1] == Source::Counter(m.downstream_cx_destroy));
    assert(all[2] == Source::Counter(m.downstream_cx_active));
    assert(all[3] == Source::Histogram(m.downstream_cx_length_ms));
    assert(all[4] == Source::Counter(m.cx_rx_bytes_received));
    assert(all[5] == Source::Counter(m.cx_tx_bytes_sent));
}

/// The metrics of TLS are shown one to a line.
pub proof fn law_canonical_shows_tls(m: TlsMetrics)
    ensures
        canonical::tls_sources(m).contains(Source::Counter(m.handshakes)),
        canonical::tls_sources(m).len() == 1,
{
    let all = canonical::tls_sources(m);
    assert(all[0] == Source::Counter(m.handshakes));
}

/// The metrics of upgraded connections are shown one to a line.
pub proof fn law_canonical_shows_websocket(m: HttpMetrics)
    ensures
        canonical::websocket_sources(m).contains(Source::Counter(m.downstream_cx_ws_upgrades_total)),
        canonical::websocket_sources(m).contains(Source::Counter(m.downstream_cx_ws_upgrades_active)),
        canonical::websocket_sources(m).contains(Source::Counter(m.downstream_rq_ws_on_non_ws_route)),
        canonical::websocket_sources(m).len() == 3,
{
    let all = canonical::websocket_sources(m);
    assert(all[0] == Source::Counter(m.downstream_cx_ws_upgrades_total));
    assert(all[1] == Source::Counter(m.downstream_cx_ws_upgrades_active));
    assert(all[2] == Source::Counter(m.downstream_rq_ws_on_non_ws_route));
}

/// The metrics of the users are shown one to a line.
pub proof fn law_canonical_shows_user(m: UserMetrics)
    ensures
        canonical::user_sources(m).contains(Source::Counter(m.invocations)),
        canonical::user_sources(m).contains(Source::Counter(m.throttles)),
        canonical::user_sources(m).contains(Source::Counter(m.system_errors)),
        canonical::user_sources(m).contains(Source::Counter(m.user_errors)),
        canonical::user_sources(m).contains(Source::Counter(m.total_errors)),
        canonical::user_sources(m).contains(Source::Counter(m.bytes_tx)),
        canonical::user_sources(m).contains(Source::Counter(m.bytes_rx)),
        canonical::user_sources(m).contains(Source::Counter(m.inbound_streaming_bytes_processed)),
        canonical::user_sources(m).contains(Source::Counter(m.outbound_streaming_bytes_processed)),
        canonical::user_sources(m).contains(Source::Counter(m.connections)),
        canonical::user_sources(m).contains(Source::Counter(m.connections_active)),
        canonical::user_sources(m).contains(Source::Counter(m.http_1xx_responses)),
        canonical::user_sources(m).contains(Source::Counter(m.http_2xx_responses)),
        canonical::user_sources(m).contains(Source::Counter(m.http_3xx_responses)),
        canonical::user_sources(m).contains(Source::Counter(m.http_4xx_responses)),
        canonical::user_sources(m).contains(Source::Counter(m.http_5xx_responses)),
        canonical::user_sources(m).contains(Source::Counter(m.http_404_responses)),
        canonical::user_sources(m).contains(Source::Counter(m.http_502_responses)),
        canonical::user_sources(m).contains(Source::Counter(m.http_504_responses)),
        canonical::user_sources(m).contains(Source::Histogram(m.latency)),
        canonical::user_sources(m).len() == 20,
{
    let all = canonical::user_sources(m);
    assert(all[0] == Source::Counter(m.invocations));
    assert(all[1] == Source::Counter(m.throttles));
    assert(all[2] == Source::Counter(m.system_errors));
    assert(all[3] == Source::Counter(m.user_errors));
    assert(all[4] == Source::Counter(m.total_errors));
    assert(all[5] == Source::Counter(m.bytes_tx));
    assert(all[6] == Source::Counter(m.bytes_rx));
    assert(all[7] == Source::Counter(m.inbound_streaming_bytes_processed));
    assert(all[8] == Source::Counter(m.outbound_streaming_bytes_processed));
    assert(all[9] == Source::Counter(m.connections));
    assert(all[10] == Source::Counter(m.connections_active));
    assert(all[11] == Source::Counter(m.http_1xx_responses));
    assert(all[12] == Source::Counter(m.http_2xx_responses));
    assert(all[13] == Source::Counter(m.http_3xx_responses));
    assert(all[14] == Source::Counter(m.http_4xx_responses));
    assert(all[15] == Source::Counter(m.http_5xx_responses));
    assert(all[16] == Source::Counter(m.http_404_responses));
    assert(all[17] == Source::Counter(m.http_502_responses));
    assert(all[18] == Source::Counter(m.http_504_responses));
    assert(all[19] == Source::Histogram(m.latency));
}

/// The metrics of the filters are shown one to a line.
pub proof fn law_canonical_shows_filters(m: FilterMetrics)
    ensures
        canonical::filters_sources(m).contains(Source::Counter(m.connection_rate_limit)),
        canonical::filters_sources(m).contains(Source::Counter(m.local_rate_limit)),
        canonical::filters_sources(m).contains(Source::Counter(m.user_rate_limit)),
        canonical::filters_sources(m).len() == 3,
{
    let all = canonical::filters_sources(m);
    assert(all[0] == Source::Counter(m.connection_rate_limit));
    assert(all[1] == Source::Counter(m.local_rate_limit));
    assert(all[2] == Source::Counter(m.user_rate_limit));
}

/// All metrics are shown, those over header fields too.
pub proof fn law_canonical_shows_all(m: GlobalMetrics, source: Source)
    requires
        ({
            ||| canonical::listeners_sources(m.listeners).contains(source)
            ||| canonical::clusters_sources(m.clusters).contains(source)
            ||| canonical::http_sources(m.http).contains(source)
            ||| canonical::server_sources(m.server).contains(source)
            ||| canonical::tcp_sources(m.tcp).contains(source)
            ||| canonical::tls_sources(m.tls).contains(source)
            ||| canonical::websocket_sources(m.http).contains(source)
            ||| canonical::user_sources(m.user).contains(source)
            ||| canonical::filters_sources(m.filters).contains(source)
            ||| custom_sources(m.custom).contains(source)
        }),
    ensures
        canonical::all_sources(m).contains(source),
{
    let all = canonical::listeners_sources(m.listeners);
    lemma_in_either(all, canonical::clusters_sources(m.clusters), source);
    let all = all + canonical::clusters_sources(m.clusters);
    lemma_in_either(all, canonical::http_sources(m.http), source);
    let all = all + canonical::http_sources(m.http);
    lemma_in_either(all, canonical::server_sources(m.server), source);
    let all = all + canonical::server_sources(m.server);
    lemma_in_either(all, canonical::tcp_sources(m.tcp), source);
    let all = all + canonical::tcp_sources(m.tcp);
    lemma_in_either(all, canonical::tls_sources(m.tls), source);
    let all = all + canonical::tls_sources(m.tls);
    lemma_in_either(all, canonical::websocket_sources(m.http), source);
    let all = all + canonical::websocket_sources(m.http);
    lemma_in_either(all, canonical::user_sources(m.user), source);
    let all = all + canonical::user_sources(m.user);
    lemma_in_either(all, canonical::filters_sources(m.filters), source);
    let all = all + canonical::filters_sources(m.filters);
    lemma_in_either(all, custom_sources(m.custom), source);
    let all = all + custom_sources(m.custom);
}

} // verus!
