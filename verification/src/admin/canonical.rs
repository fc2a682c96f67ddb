//! The metrics one to a line, each under the path of its labels.

use crate::admin::snapshot::{
    append_snapshots, counter_snapshot, covers, custom_snapshots, custom_sources, gauge_snapshot, histogram_snapshot,
    push_snapshot, Numbers, Snapshot, SnapshotData, Source,
};
use crate::metrics::clusters::ClusterMetrics;
use crate::metrics::filters::FilterMetrics;
use crate::metrics::http::HttpMetrics;
use crate::metrics::listeners::ListenerMetrics;
use crate::metrics::server::ServerMetrics;
use crate::metrics::tcp::TcpMetrics;
use crate::metrics::tls::TlsMetrics;
use crate::metrics::user::UserMetrics;
use crate::metrics::GlobalMetrics;
use crate::sharded::{labels_view, LabelsView};
use crate::text::{append_decimal, decimal};
use vstd::prelude::*;

verus! {

/// The values of labels, each behind a dot.
pub open spec fn label_path(labels: LabelsView) -> Seq<char>
    decreases labels.len(),
{
    if labels.len() == 0 {
        Seq::empty()
    } else {
        label_path(labels.drop_last()) + "."@ + labels.last().1
    }
}

/// A number of a metric.
pub open spec fn canonical_line(prefix: Seq<char>, name: Seq<char>, labels: LabelsView, value: u64) -> Seq<char> {
    prefix + label_path(labels) + "."@ + name + ": "@ + decimal(value as nat) + "\n"@
}

fn format_canonical_line(out: &mut String, prefix: &str, name: &str, labels: &Vec<(String, String)>, value: u64)
    ensures
        final(out)@ == old(out)@ + canonical_line(prefix@, name@, labels_view(labels@), value),
{
    let ghost all = labels_view(labels@);
    out.append(prefix);
    let ghost begun = out@;
    let mut i: usize = 0;
    assert(begun + label_path(all.take(0)) =~= begun);
    while i < labels.len()
        invariant
            i <= labels@.len(),
            all == labels_view(labels@),
            out@ == begun + label_path(all.take(i as int)),
        decreases labels@.len() - i,
    {
        assert(all.take(i + 1).drop_last() =~= all.take(i as int));
        out.append(".");
        out.append(labels[i].1.as_str());
        assert(out@ =~= begun + label_path(all.take(i + 1)));
        i = i + 1;
    }
    assert(all.take(all.len() as int) =~= all);
    out.append(".");
    out.append(name);
    out.append(": ");
    append_decimal(out, value);
    out.append("\n");
    assert(out@ =~= old(out)@ + canonical_line(prefix@, name@, all, value));
}

/// The numbers of a metric, one to a line.
pub open spec fn canonical_lines(prefix: Seq<char>, name: Seq<char>, list: Seq<(Vec<(String, String)>, u64)>) -> Seq<char>
    decreases list.len(),
{
    if list.len() == 0 {
        Seq::empty()
    } else {
        canonical_lines(prefix, name, list.drop_last()) + canonical_line(
            prefix,
            name,
            labels_view(list.last().0@),
            list.last().1,
        )
    }
}

fn append_lines(out: &mut String, prefix: &str, name: &str, list: &Numbers)
    ensures
        final(out)@ == old(out)@ + canonical_lines(prefix@, name@, list@),
{
    let mut i: usize = 0;
    assert(old(out)@ + canonical_lines(prefix@, name@, list@.take(0)) =~= old(out)@);
    while i < list.len()
        invariant
            i <= list@.len(),
            out@ == old(out)@ + canonical_lines(prefix@, name@, list@.take(i as int)),
        decreases list@.len() - i,
    {
        assert(list@.take(i + 1).drop_last() =~= list@.take(i as int));
        format_canonical_line(out, prefix, name, &list[i].0, list[i].1);
        assert(out@ =~= old(out)@ + canonical_lines(prefix@, name@, list@.take(i + 1)));
        i = i + 1;
    }
    assert(list@.take(list@.len() as int) =~= list@);
}

/// The text of a metric. Of a histogram the sum and the count are shown.
pub open spec fn canonical_text(shot: Option<Snapshot>) -> Seq<char> {
    match shot {
        None => Seq::empty(),
        Some(s) => match s.data {
            SnapshotData::Counter { list, .. } => canonical_lines(s.prefix@, s.name@, list@),
            SnapshotData::Gauge { list } => canonical_lines(s.prefix@, s.name@, list@),
            SnapshotData::Histogram { sum, count, .. } => canonical_lines(s.prefix@, s.name@ + "_sum"@, sum@)
                + canonical_lines(s.prefix@, s.name@ + "_count"@, count@),
        },
    }
}

/// The text of metrics, one after the other.
pub open spec fn rendered(shots: Seq<Option<Snapshot>>) -> Seq<char>
    decreases shots.len(),
{
    if shots.len() == 0 {
        Seq::empty()
    } else {
        rendered(shots.drop_last()) + canonical_text(shots.last())
    }
}

/// The text of metrics, one after the other.
pub fn render(shots: &Vec<Option<Snapshot>>) -> (out: String)
    ensures
        out@ == rendered(shots@),
{
    let mut out = String::new();
    let mut i: usize = 0;
    while i < shots.len()
        invariant
            i <= shots@.len(),
            out@ == rendered(shots@.take(i as int)),
        decreases shots@.len() - i,
    {
        let ghost before = out@;
        assert(shots@.take(i + 1).drop_last() =~= shots@.take(i as int));
        assert(shots@.take(i + 1).last() == shots@[i as int]);
        match &shots[i] {
            Some(s) => match &s.data {
                SnapshotData::Counter { list, .. } => {
                    append_lines(&mut out, s.prefix.as_str(), s.name.as_str(), list);
                },
                SnapshotData::Gauge { list } => {
                    append_lines(&mut out, s.prefix.as_str(), s.name.as_str(), list);
                },
                SnapshotData::Histogram { sum, count, .. } => {
                    let mut sum_name: String = s.name.clone();
                    sum_name.append("_sum");
                    append_lines(&mut out, s.prefix.as_str(), sum_name.as_str(), sum);
                    let mut count_name: String = s.name.clone();
                    count_name.append("_count");
                    append_lines(&mut out, s.prefix.as_str(), count_name.as_str(), count);
                    assert(out@ =~= before + canonical_text(shots@[i as int]));
                },
            },
            None => {
                assert(before + canonical_text(shots@[i as int]) =~= before);
            },
        }
        assert(out@ == before + canonical_text(shots@[i as int]));
        i = i + 1;
    }
    assert(shots@.take(shots@.len() as int) =~= shots@);
    out
}

/// The metrics of the listeners in the order in which they are shown.
pub open spec fn listeners_sources(m: ListenerMetrics) -> Seq<Source> {
    Seq::empty()
        .push(Source::Counter(m.downstream_cx_total))
        .push(Source::Counter(m.downstream_cx_destroy))
        .push(Source::Counter(m.downstream_cx_active))
        .push(Source::Counter(m.no_filter_chain_match))
        .push(Source::Histogram(m.downstream_cx_length_ms))
}

fn listeners_snapshots(m: &ListenerMetrics) -> (shots: Vec<Option<Snapshot>>)
    ensures
        covers(shots@, listeners_sources(*m)),
{
    let mut shots: Vec<Option<Snapshot>> = Vec::new();
    let ghost mut done = Seq::<Source>::empty();
    push_snapshot(&mut shots, counter_snapshot(&m.downstream_cx_total, false), Ghost(done), Ghost(Source::Counter(m.downstream_cx_total)));
    proof {
        done = done.push(Source::Counter(m.downstream_cx_total));
    }
    push_snapshot(&mut shots, counter_snapshot(&m.downstream_cx_destroy, false), Ghost(done), Ghost(Source::Counter(m.downstream_cx_destroy)));
    proof {
        done = done.push(Source::Counter(m.downstream_cx_destroy));
    }
    push_snapshot(&mut shots, counter_snapshot(&m.downstream_cx_active, false), Ghost(done), Ghost(Source::Counter(m.downstream_cx_active)));
    proof {
        done = done.push(Source::Counter(m.downstream_cx_active));
    }
    push_snapshot(&mut shots, counter_snapshot(&m.no_filter_chain_match, false), Ghost(done), Ghost(Source::Counter(m.no_filter_chain_match)));
    proof {
        done = done.push(Source::Counter(m.no_filter_chain_match));
    }
    push_snapshot(&mut shots, histogram_snapshot(&m.downstream_cx_length_ms), Ghost(done), Ghost(Source::Histogram(m.downstream_cx_length_ms)));
    proof {
        done = done.push(Source::Histogram(m.downstream_cx_length_ms));
    }
    shots
}

/// The metrics of the clusters in the order in which they are shown.
pub open spec fn clusters_sources(m: ClusterMetrics) -> Seq<Source> {
    Seq::empty()
        .push(Source::Counter(m.upstream_rq_total))
        .push(Source::Counter(m.upstream_rq_active))
        .push(Source::Counter(m.upstream_rq_timeout))
        .push(Source::Counter(m.upstream_rq_per_try_timeout))
        .push(Source::Counter(m.upstream_rq_retry))
        .push(Source::Counter(m.upstream_cx_total))
        .push(Source::Counter(m.upstream_cx_active))
        .push(Source::Counter(m.upstream_cx_destroy))
        .push(Source::Counter(m.upstream_cx_idle_timeout))
        .push(Source::Counter(m.upstream_cx_connect_fail))
        .push(Source::Counter(m.upstream_cx_connect_timeout))
        .push(Source::Counter(m.upstream_cx_rx_bytes_total))
        .push(Source::Counter(m.upstream_cx_tx_bytes_total))
        .push(Source::Counter(m.upstream_cx_overflow))
        .push(Source::Counter(m.upstream_rq_overflow))
        .push(Source::Counter(m.upstream_rq_retry_overflow))
}

fn clusters_snapshots(m: &ClusterMetrics) -> (shots: Vec<Option<Snapshot>>)
    ensures
        covers(shots@, clusters_sources(*m)),
{
    let mut shots: Vec<Option<Snapshot>> = Vec::new();
    let ghost mut done = Seq::<Source>::empty();
    push_snapshot(&mut shots, counter_snapshot(&m.upstream_rq_total, false), Ghost(done), Ghost(Source::Counter(m.upstream_rq_total)));
    proof {
        done = done.push(Source::Counter(m.upstream_rq_total));
    }
    push_snapshot(&mut shots, counter_snapshot(&m.upstream_rq_active, false), Ghost(done), Ghost(Source::Counter(m.upstream_rq_active)));
    proof {
        done = done.push(Source::Counter(m.upstream_rq_active));
    }
    push_snapshot(&mut shots, counter_snapshot(&m.upstream_rq_timeout, false), Ghost(done), Ghost(Source::Counter(m.upstream_rq_timeout)));
    proof {
        done = done.push(Source::Counter(m.upstream_rq_timeout));
    }
    push_snapshot(&mut shots, counter_snapshot(&m.upstream_rq_per_try_timeout, false), Ghost(done), Ghost(Source::Counter(m.upstream_rq_per_try_timeout)));
    proof {
        done = done.push(Source::Counter(m.upstream_rq_per_try_timeout));
    }
    push_snapshot(&mut shots, counter_snapshot(&m.upstream_rq_retry, false), Ghost(done), Ghost(Source::Counter(m.upstream_rq_retry)));
    proof {
        done = done.push(Source::Counter(m.upstream_rq_retry));
    }
    push_snapshot(&mut shots, counter_snapshot(&m.upstream_cx_total, false), Ghost(done), Ghost(Source::Counter(m.upstream_cx_total)));
    proof {
        done = done.push(Source::Counter(m.upstream_cx_total));
    }
    push_snapshot(&mut shots, counter_snapshot(&m.upstream_cx_active, false), Ghost(done), Ghost(Source::Counter(m.upstream_cx_active)));
    proof {
        done = done.push(Source::Counter(m.upstream_cx_active));
    }
    push_snapshot(&mut shots, counter_snapshot(&m.upstream_cx_destroy, false), Ghost(done), Ghost(Source::Counter(m.upstream_cx_destroy)));
    proof {
        done = done.push(Source::Counter(m.upstream_cx_destroy));
    }
    push_snapshot(&mut shots, counter_snapshot(&m.upstream_cx_idle_timeout, false), Ghost(done), Ghost(Source::Counter(m.upstream_cx_idle_timeout)));
    proof {
        done = done.push(Source::Counter(m.upstream_cx_idle_timeout));
    }
    push_snapshot(&mut shots, counter_snapshot(&m.upstream_cx_connect_fail, false), Ghost(done), Ghost(Source::Counter(m.upstream_cx_connect_fail)));
    proof {
        done = done.push(Source::Counter(m.upstream_cx_connect_fail));
    }
    push_snapshot(&mut shots, counter_snapshot(&m.upstream_cx_connect_timeout, false), Ghost(done), Ghost(Source::Counter(m.upstream_cx_connect_timeout)));
    proof {
        done = done.push(Source::Counter(m.upstream_cx_connect_timeout));
    }
    push_snapshot(&mut shots, counter_snapshot(&m.upstream_cx_rx_bytes_total, false), Ghost(done), Ghost(Source::Counter(m.upstream_cx_rx_bytes_total)));
    proof {
        done = done.push(Source::Counter(m.upstream_cx_rx_bytes_total));
    }
    push_snapshot(&mut shots, counter_snapshot(&m.upstream_cx_tx_bytes_total, false), Ghost(done), Ghost(Source::Counter(m.upstream_cx_tx_bytes_total)));
    proof {
        done = done.push(Source::Counter(m.upstream_cx_tx_bytes_total));
    }
    push_snapshot(&mut shots, counter_snapshot(&m.upstream_cx_overflow, false), Ghost(done), Ghost(Source::Counter(m.upstream_cx_overflow)));
    proof {
        done = done.push(Source::Counter(m.upstream_cx_overflow));
    }
    push_snapshot(&mut shots, counter_snapshot(&m.upstream_rq_overflow, false), Ghost(done), Ghost(Source::Counter(m.upstream_rq_overflow)));
    proof {
        done = done.push(Source::Counter(m.upstream_rq_overflow));
    }
    push_snapshot(&mut shots, counter_snapshot(&m.upstream_rq_retry_overflow, false), Ghost(done), Ghost(Source::Counter(m.upstream_rq_retry_overflow)));
    proof {
        done = done.push(Source::Counter(m.upstream_rq_retry_overflow));
    }
    shots
}

/// The metrics of the HTTP connections in the order in which they are shown.
pub open spec fn http_sources(m: HttpMetrics) -> Seq<Source> {
    Seq::empty()
        .push(Source::Counter(m.downstream_cx_total))
        .push(Source::Counter(m.downstream_cx_ssl_total))
        .push(Source::Counter(m.downstream_cx_ssl_active))
        .push(Source::Counter(m.downstream_cx_destroy))
        .push(Source::Counter(m.downstream_cx_active))
        .push(Source::Counter(m.downstream_rq_1xx))
        .push(Source::Counter(m.downstream_rq_2xx))
        .push(Source::Counter(m.downstream_rq_3xx))
        .push(Source::Counter(m.downstream_rq_4xx))
        .push(Source::Counter(m.downstream_rq_5xx))
        .push(Source::Counter(m.downstream_rq_total))
        .push(Source::Counter(m.downstream_rq_active))
        .push(Source::Counter(m.downstream_cx_rx_bytes_total))
        .push(Source::Counter(m.downstream_cx_tx_bytes_total))
        .push(Source::Histogram(m.downstream_cx_length_ms))
}

fn http_snapshots(m: &HttpMetrics) -> (shots: Vec<Option<Snapshot>>)
    ensures
        covers(shots@, http_sources(*m)),
{
    let mut shots: Vec<Option<Snapshot>> = Vec::new();
    let ghost mut done = Seq::<Source>::empty();
    push_snapshot(&mut shots, counter_snapshot(&m.downstream_cx_total, false), Ghost(done), Ghost(Source::Counter(m.downstream_cx_total)));
    proof {
        done = done.push(Source::Counter(m.downstream_cx_total));
    }
    push_snapshot(&mut shots, counter_snapshot(&m.downstream_cx_ssl_total, false), Ghost(done), Ghost(Source::Counter(m.downstream_cx_ssl_total)));
    proof {
        done = done.push(Source::Counter(m.downstream_cx_ssl_total));
    }
    push_snapshot(&mut shots, counter_snapshot(&m.downstream_cx_ssl_active, false), Ghost(done), Ghost(Source::Counter(m.downstream_cx_ssl_active)));
    proof {
        done = done.push(Source::Counter(m.downstream_cx_ssl_active));
    }
    push_snapshot(&mut shots, counter_snapshot(&m.downstream_cx_destroy, false), Ghost(done), Ghost(Source::Counter(m.downstream_cx_destroy)));
    proof {
        done = done.push(Source::Counter(m.downstream_cx_destroy));
    }
    push_snapshot(&mut shots, counter_snapshot(&m.downstream_cx_active, false), Ghost(done), Ghost(Source::Counter(m.downstream_cx_active)));
    proof {
        done = done.push(Source::Counter(m.downstream_cx_active));
    }
    push_snapshot(&mut shots, counter_snapshot(&m.downstream_rq_1xx, false), Ghost(done), Ghost(Source::Counter(m.downstream_rq_1xx)));
    proof {
        done = done.push(Source::Counter(m.downstream_rq_1xx));
    }
    push_snapshot(&mut shots, counter_snapshot(&m.downstream_rq_2xx, false), Ghost(done), Ghost(Source::Counter(m.downstream_rq_2xx)));
    proof {
        done = done.push(Source::Counter(m.downstream_rq_2xx));
    }
    push_snapshot(&mut shots, counter_snapshot(&m.downstream_rq_3xx, false), Ghost(done), Ghost(Source::Counter(m.downstream_rq_3xx)));
    proof {
        done = done.push(Source::Counter(m.downstream_rq_3xx));
    }
    push_snapshot(&mut shots, counter_snapshot(&m.downstream_rq_4xx, false), Ghost(done), Ghost(Source::Counter(m.downstream_rq_4xx)));
    proof {
        done = done.push(Source::Counter(m.downstream_rq_4xx));
    }
    push_snapshot(&mut shots, counter_snapshot(&m.downstream_rq_5xx, false), Ghost(done), Ghost(Source::Counter(m.downstream_rq_5xx)));
    proof {
        done = done.push(Source::Counter(m.downstream_rq_5xx));
    }
    push_snapshot(&mut shots, counter_snapshot(&m.downstream_rq_total, false), Ghost(done), Ghost(Source::Counter(m.downstream_rq_total)));
    proof {
        done = done.push(Source::Counter(m.downstream_rq_total));
    }
    push_snapshot(&mut shots, counter_snapshot(&m.downstream_rq_active, false), Ghost(done), Ghost(Source::Counter(m.downstream_rq_active)));
    proof {
        done = done.push(Source::Counter(m.downstream_rq_active));
    }
    push_snapshot(&mut shots, counter_snapshot(&m.downstream_cx_rx_bytes_total, false), Ghost(done), Ghost(Source::Counter(m.downstream_cx_rx_bytes_total)));
    proof {
        done = done.push(Source::Counter(m.downstream_cx_rx_bytes_total));
    }
    push_snapshot(&mut shots, counter_snapshot(&m.downstream_cx_tx_bytes_total, false), Ghost(done), Ghost(Source::Counter(m.downstream_cx_tx_bytes_total)));
    proof {
        done = done.push(Source::Counter(m.downstream_cx_tx_bytes_total));
    }
    push_snapshot(&mut shots, histogram_snapshot(&m.downstream_cx_length_ms), Ghost(done), Ghost(Source::Histogram(m.downstream_cx_length_ms)));
    proof {
        done = done.push(Source::Histogram(m.downstream_cx_length_ms));
    }
    shots
}

/// The metrics of the server in the order in which they are shown.
pub open spec fn server_sources(m: ServerMetrics) -> Seq<Source> {
    Seq::empty()
        .push(Source::Gauge(m.uptime))
        .push(Source::Gauge(m.concurrency))
        .push(Source::Gauge(m.memory_heap_size))
        .push(Source::Gauge(m.memory_physical_size))
        .push(Source::Gauge(m.memory_allocated))
}

fn server_snapshots(m: &ServerMetrics) -> (shots: Vec<Option<Snapshot>>)
    ensures
        covers(shots@, server_sources(*m)),
{
    let mut shots: Vec<Option<Snapshot>> = Vec::new();
    let ghost mut done = Seq::<Source>::empty();
    push_snapshot(&mut shots, gauge_snapshot(&m.uptime), Ghost(done), Ghost(Source::Gauge(m.uptime)));
    proof {
        done = done.push(Source::Gauge(m.uptime));
    }
    push_snapshot(&mut shots, gauge_snapshot(&m.concurrency), Ghost(done), Ghost(Source::Gauge(m.concurrency)));
    proof {
        done = done.push(Source::Gauge(m.concurrency));
    }
    push_snapshot(&mut shots, gauge_snapshot(&m.memory_heap_size), Ghost(done), Ghost(Source::Gauge(m.memory_heap_size)));
    proof {
        done = done.push(Source::Gauge(m.memory_heap_size));
    }
    push_snapshot(&mut shots, gauge_snapshot(&m.memory_physical_size), Ghost(done), Ghost(Source::Gauge(m.memory_physical_size)));
    proof {
        done = done.push(Source::Gauge(m.memory_physical_size));
    }
    push_snapshot(&mut shots, gauge_snapshot(&m.memory_allocated), Ghost(done), Ghost(Source::Gauge(m.memory_allocated)));
    proof {
        done = done.push(Source::Gauge(m.memory_allocated));
    }
    shots
}

/// The metrics of the raw connections in the order in which they are shown.
pub open spec fn tcp_sources(m: TcpMetrics) -> Seq<Source> {
    Seq::empty()
        .push(Source::Counter(m.downstream_cx_total))
        .push(Source::Counter(m.downstream_cx_destroy))
        .push(Source::Counter(m.downstream_cx_active))
        .push(Source::Histogram(m.downstream_cx_length_ms))
        .push(Source::Counter(m.cx_rx_bytes_received))
        .push(Source::Counter(m.cx_tx_bytes_sent))
}

fn tcp_snapshots(m: &TcpMetrics) -> (shots: Vec<Option<Snapshot>>)
    ensures
        covers(shots@, tcp_sources(*m)),
{
    let mut shots: Vec<Option<Snapshot>> = Vec::new();
    let ghost mut done = Seq::<Source>::empty();
    push_snapshot(&mut shots, counter_snapshot(&m.downstream_cx_total, false), Ghost(done), Ghost(Source::Counter(m.downstream_cx_total)));
    proof {
        done = done.push(Source::Counter(m.downstream_cx_total));
    }
    push_snapshot(&mut shots, counter_snapshot(&m.downstream_cx_destroy, false), Ghost(done), Ghost(Source::Counter(m.downstream_cx_destroy)));
    proof {
        done = done.push(Source::Counter(m.downstream_cx_destroy));
    }
    push_snapshot(&mut shots, counter_snapshot(&m.downstream_cx_active, false), Ghost(done), Ghost(Source::Counter(m.downstream_cx_active)));
    proof {
        done = done.push(Source::Counter(m.downstream_cx_active));
    }
    push_snapshot(&mut shots, histogram_snapshot(&m.downstream_cx_length_ms), Ghost(done), Ghost(Source::Histogram(m.downstream_cx_length_ms)));
    proof {
        done = done.push(Source::Histogram(m.downstream_cx_length_ms));
    }
    push_snapshot(&mut shots, counter_snapshot(&m.cx_rx_bytes_received, false), Ghost(done), Ghost(Source::Counter(m.cx_rx_bytes_received)));
    proof {
        done = done.push(Source::Counter(m.cx_rx_bytes_received));
    }
    push_snapshot(&mut shots, counter_snapshot(&m.cx_tx_bytes_sent, false), Ghost(done), Ghost(Source::Counter(m.cx_tx_bytes_sent)));
    proof {
        done = done.push(Source::Counter(m.cx_tx_bytes_sent));
    }
    shots
}

/// The metrics of the TLS handshakes in the order in which they are shown.
pub open spec fn tls_sources(m: TlsMetrics) -> Seq<Source> {
    Seq::empty()
        .push(Source::Counter(m.handshakes))
}

fn tls_snapshots(m: &TlsMetrics) -> (shots: Vec<Option<Snapshot>>)
    ensures
        covers(shots@, tls_sources(*m)),
{
    let mut shots: Vec<Option<Snapshot>> = Vec::new();
    let ghost mut done = Seq::<Source>::empty();
    push_snapshot(&mut shots, counter_snapshot(&m.handshakes, false), Ghost(done), Ghost(Source::Counter(m.handshakes)));
    proof {
        done = done.push(Source::Counter(m.handshakes));
    }
    shots
}

/// The metrics of the upgraded connections in the order in which they are shown.
pub open spec fn websocket_sources(m: HttpMetrics) -> Seq<Source> {
    Seq::empty()
        .push(Source::Counter(m.downstream_cx_ws_upgrades_total))
        .push(Source::Counter(m.downstream_cx_ws_upgrades_active))
        .push(Source::Counter(m.downstream_rq_ws_on_non_ws_route))
}

fn websocket_snapshots(m: &HttpMetrics) -> (shots: Vec<Option<Snapshot>>)
    ensures
        covers(shots@, websocket_sources(*m)),
{
    let mut shots: Vec<Option<Snapshot>> = Vec::new();
    let ghost mut done = Seq::<Source>::empty();
    push_snapshot(&mut shots, counter_snapshot(&m.downstream_cx_ws_upgrades_total, false), Ghost(done), Ghost(Source::Counter(m.downstream_cx_ws_upgrades_total)));
    proof {
        done = done.push(Source::Counter(m.downstream_cx_ws_upgrades_total));
    }
    push_snapshot(&mut shots, counter_snapshot(&m.downstream_cx_ws_upgrades_active, false), Ghost(done), Ghost(Source::Counter(m.downstream_cx_ws_upgrades_active)));
    proof {
        done = done.push(Source::Counter(m.downstream_cx_ws_upgrades_active));
    }
    push_snapshot(&mut shots, counter_snapshot(&m.downstream_rq_ws_on_non_ws_route, false), Ghost(done), Ghost(Source::Counter(m.downstream_rq_ws_on_non_ws_route)));
    proof {
        done = done.push(Source::Counter(m.downstream_rq_ws_on_non_ws_route));
    }
    shots
}

/// The metrics of the users in the order in which they are shown.
pub open spec fn user_sources(m: UserMetrics) -> Seq<Source> {
    Seq::empty()
        .push(Source::Counter(m.invocations))
        .push(Source::Counter(m.throttles))
        .push(Source::Counter(m.system_errors))
        .push(Source::Counter(m.user_errors))
        .push(Source::Counter(m.total_errors))
        .push(Source::Counter(m.bytes_tx))
        .push(Source::Counter(m.bytes_rx))
        .push(Source::Counter(m.inbound_streaming_bytes_processed))
        .push(Source::Counter(m.outbound_streaming_bytes_processed))
        .push(Source::Counter(m.connections))
        .push(Source::Counter(m.connections_active))
        .push(Source::Counter(m.http_1xx_responses))
        .push(Source::Counter(m.http_2xx_responses))
        .push(Source::Counter(m.http_3xx_responses))
        .push(Source::Counter(m.http_4xx_responses))
        .push(Source::Counter(m.http_5xx_responses))
        .push(Source::Counter(m.http_404_responses))
        .push(Source::Counter(m.http_502_responses))
        .push(Source::Counter(m.http_504_responses))
        .push(Source::Histogram(m.latency))
}

fn user_snapshots(m: &UserMetrics) -> (shots: Vec<Option<Snapshot>>)
    ensures
        covers(shots@, user_sources(*m)),
{
    let mut shots: Vec<Option<Snapshot>> = Vec::new();
    let ghost mut done = Seq::<Source>::empty();
    push_snapshot(&mut shots, counter_snapshot(&m.invocations, false), Ghost(done), Ghost(Source::Counter(m.invocations)));
    proof {
        done = done.push(Source::Counter(m.invocations));
    }
    push_snapshot(&mut shots, counter_snapshot(&m.throttles, false), Ghost(done), Ghost(Source::Counter(m.throttles)));
    proof {
        done = done.push(Source::Counter(m.throttles));
    }
    push_snapshot(&mut shots, counter_snapshot(&m.system_errors, false), Ghost(done), Ghost(Source::Counter(m.system_errors)));
    proof {
        done = done.push(Source::Counter(m.system_errors));
    }
    push_snapshot(&mut shots, counter_snapshot(&m.user_errors, false), Ghost(done), Ghost(Source::Counter(m.user_errors)));
    proof {
        done = done.push(Source::Counter(m.user_errors));
    }
    push_snapshot(&mut shots, counter_snapshot(&m.total_errors, false), Ghost(done), Ghost(Source::Counter(m.total_errors)));
    proof {
        done = done.push(Source::Counter(m.total_errors));
    }
    push_snapshot(&mut shots, counter_snapshot(&m.bytes_tx, false), Ghost(done), Ghost(Source::Counter(m.bytes_tx)));
    proof {
        done = done.push(Source::Counter(m.bytes_tx));
    }
    push_snapshot(&mut shots, counter_snapshot(&m.bytes_rx, false), Ghost(done), Ghost(Source::Counter(m.bytes_rx)));
    proof {
        done = done.push(Source::Counter(m.bytes_rx));
    }
    push_snapshot(&mut shots, counter_snapshot(&m.inbound_streaming_bytes_processed, false), Ghost(done), Ghost(Source::Counter(m.inbound_streaming_bytes_processed)));
    proof {
        done = done.push(Source::Counter(m.inbound_streaming_bytes_processed));
    }
    push_snapshot(&mut shots, counter_snapshot(&m.outbound_streaming_bytes_processed, false), Ghost(done), Ghost(Source::Counter(m.outbound_streaming_bytes_processed)));
    proof {
        done = done.push(Source::Counter(m.outbound_streaming_bytes_processed));
    }
    push_snapshot(&mut shots, counter_snapshot(&m.connections, false), Ghost(done), Ghost(Source::Counter(m.connections)));
    proof {
        done = done.push(Source::Counter(m.connections));
    }
    push_snapshot(&mut shots, counter_snapshot(&m.connections_active, false), Ghost(done), Ghost(Source::Counter(m.connections_active)));
    proof {
        done = done.push(Source::Counter(m.connections_active));
    }
    push_snapshot(&mut shots, counter_snapshot(&m.http_1xx_responses, false), Ghost(done), Ghost(Source::Counter(m.http_1xx_responses)));
    proof {
        done = done.push(Source::Counter(m.http_1xx_responses));
    }
    push_snapshot(&mut shots, counter_snapshot(&m.http_2xx_responses, false), Ghost(done), Ghost(Source::Counter(m.http_2xx_responses)));
    proof {
        done = done.push(Source::Counter(m.http_2xx_responses));
    }
    push_snapshot(&mut shots, counter_snapshot(&m.http_3xx_responses, false), Ghost(done), Ghost(Source::Counter(m.http_3xx_responses)));
    proof {
        done = done.push(Source::Counter(m.http_3xx_responses));
    }
    push_snapshot(&mut shots, counter_snapshot(&m.http_4xx_responses, false), Ghost(done), Ghost(Source::Counter(m.http_4xx_responses)));
    proof {
        done = done.push(Source::Counter(m.http_4xx_responses));
    }
    push_snapshot(&mut shots, counter_snapshot(&m.http_5xx_responses, false), Ghost(done), Ghost(Source::Counter(m.http_5xx_responses)));
    proof {
        done = done.push(Source::Counter(m.http_5xx_responses));
    }
    push_snapshot(&mut shots, counter_snapshot(&m.http_404_responses, false), Ghost(done), Ghost(Source::Counter(m.http_404_responses)));
    proof {
        done = done.push(Source::Counter(m.http_404_responses));
    }
    push_snapshot(&mut shots, counter_snapshot(&m.http_502_responses, false), Ghost(done), Ghost(Source::Counter(m.http_502_responses)));
    proof {
        done = done.push(Source::Counter(m.http_502_responses));
    }
    push_snapshot(&mut shots, counter_snapshot(&m.http_504_responses, false), Ghost(done), Ghost(Source::Counter(m.http_504_responses)));
    proof {
        done = done.push(Source::Counter(m.http_504_responses));
    }
    push_snapshot(&mut shots, histogram_snapshot(&m.latency), Ghost(done), Ghost(Source::Histogram(m.latency)));
    proof {
        done = done.push(Source::Histogram(m.latency));
    }
    shots
}

/// The metrics of the filters in the order in which they are shown.
pub open spec fn filters_sources(m: FilterMetrics) -> Seq<Source> {
    Seq::empty()
        .push(Source::Counter(m.connection_rate_limit))
        .push(Source::Counter(m.local_rate_limit))
        .push(Source::Counter(m.user_rate_limit))
}

fn filters_snapshots(m: &FilterMetrics) -> (shots: Vec<Option<Snapshot>>)
    ensures
        covers(shots@, filters_sources(*m)),
{
    let mut shots: Vec<Option<Snapshot>> = Vec::new();
    let ghost mut done = Seq::<Source>::empty();
    push_snapshot(&mut shots, counter_snapshot(&m.connection_rate_limit, false), Ghost(done), Ghost(Source::Counter(m.connection_rate_limit)));
    proof {
        done = done.push(Source::Counter(m.connection_rate_limit));
    }
    push_snapshot(&mut shots, counter_snapshot(&m.local_rate_limit, false), Ghost(done), Ghost(Source::Counter(m.local_rate_limit)));
    proof {
        done = done.push(Source::Counter(m.local_rate_limit));
    }
    push_snapshot(&mut shots, counter_snapshot(&m.user_rate_limit, false), Ghost(done), Ghost(Source::Counter(m.user_rate_limit)));
    proof {
        done = done.push(Source::Counter(m.user_rate_limit));
    }
    shots
}

/// All metrics in the order in which they are shown.
pub open spec fn all_sources(m: GlobalMetrics) -> Seq<Source> {
    listeners_sources(m.listeners)
        + clusters_sources(m.clusters)
        + http_sources(m.http)
        + server_sources(m.server)
        + tcp_sources(m.tcp)
        + tls_sources(m.tls)
        + websocket_sources(m.http)
        + user_sources(m.user)
        + filters_sources(m.filters)
        + custom_sources(m.custom)
}

/// What all metrics hold at the moment, in the order in which they are shown.
pub fn all_snapshots(m: &GlobalMetrics) -> (shots: Vec<Option<Snapshot>>)
    ensures
        covers(shots@, all_sources(*m)),
{
    let mut shots: Vec<Option<Snapshot>> = listeners_snapshots(&m.listeners);
    let ghost done = listeners_sources(m.listeners);
    let mut more: Vec<Option<Snapshot>> = clusters_snapshots(&m.clusters);
    append_snapshots(&mut shots, &mut more, Ghost(done), Ghost(clusters_sources(m.clusters)));
    let ghost done = done + clusters_sources(m.clusters);
    let mut more: Vec<Option<Snapshot>> = http_snapshots(&m.http);
    append_snapshots(&mut shots, &mut more, Ghost(done), Ghost(http_sources(m.http)));
    let ghost done = done + http_sources(m.http);
    let mut more: Vec<Option<Snapshot>> = server_snapshots(&m.server);
    append_snapshots(&mut shots, &mut more, Ghost(done), Ghost(server_sources(m.server)));
    let ghost done = done + server_sources(m.server);
    let mut more: Vec<Option<Snapshot>> = tcp_snapshots(&m.tcp);
    append_snapshots(&mut shots, &mut more, Ghost(done), Ghost(tcp_sources(m.tcp)));
    let ghost done = done + tcp_sources(m.tcp);
    let mut more: Vec<Option<Snapshot>> = tls_snapshots(&m.tls);
    append_snapshots(&mut shots, &mut more, Ghost(done), Ghost(tls_sources(m.tls)));
    let ghost done = done + tls_sources(m.tls);
    let mut more: Vec<Option<Snapshot>> = websocket_snapshots(&m.http);
    append_snapshots(&mut shots, &mut more, Ghost(done), Ghost(websocket_sources(m.http)));
    let ghost done = done + websocket_sources(m.http);
    let mut more: Vec<Option<Snapshot>> = user_snapshots(&m.user);
    append_snapshots(&mut shots, &mut more, Ghost(done), Ghost(user_sources(m.user)));
    let ghost done = done + user_sources(m.user);
    let mut more: Vec<Option<Snapshot>> = filters_snapshots(&m.filters);
    append_snapshots(&mut shots, &mut more, Ghost(done), Ghost(filters_sources(m.filters)));
    let ghost done = done + filters_sources(m.filters);
    let mut more: Vec<Option<Snapshot>> = custom_snapshots(&m.custom);
    append_snapshots(&mut shots, &mut more, Ghost(done), Ghost(custom_sources(m.custom)));
    shots
}

/// All metrics as text. The numbers of each metric come in some order.
pub fn build_canonical_output(metrics: &GlobalMetrics) -> (out: String)
    ensures
        exists|shots: Seq<Option<Snapshot>>| #[trigger]
            covers(shots, all_sources(*metrics)) && out@ == rendered(shots),
{
    let shots: Vec<Option<Snapshot>> = all_snapshots(metrics);
    render(&shots)
}

} // verus!
