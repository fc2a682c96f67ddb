//! The metrics of the proxy: their names, what they count, and how they are
//! set back.

use crate::metrics::clusters::ClusterMetrics;
use crate::metrics::custom::{CustomMetrics, CustomMetricsConfig};
use crate::metrics::filters::FilterMetrics;
use crate::metrics::http::HttpMetrics;
use crate::metrics::listeners::ListenerMetrics;
use crate::metrics::mcp::McpMetrics;
use crate::metrics::server::ServerMetrics;
use crate::metrics::tcp::TcpMetrics;
use crate::metrics::tls::TlsMetrics;
use crate::metrics::user::UserMetrics;
use crate::name_table::NameTable;
use crate::sharded::{
    added, labels_view, nothing_counted, nothing_recorded, recorded, subtracted, Clearable, ShardedHistogram,
    ShardedU64,
};
use vstd::prelude::*;

pub mod clusters;
pub mod custom;
pub mod dynamic;
pub mod filters;
pub mod http;
pub mod listeners;
pub mod mcp;
pub mod server;
pub mod tcp;
pub mod tls;
pub mod user;

verus! {

pub const PREFIX_TCP: &'static str = "tcp";

pub const PREFIX_HTTP: &'static str = "http";

pub const PREFIX_CUSTOM: &'static str = "custom";

pub const PREFIX_SERVER: &'static str = "server";

pub const PREFIX_TLS: &'static str = "tls";

pub const PREFIX_CLUSTER: &'static str = "cluster";

pub const PREFIX_FILTER: &'static str = "filter";

pub const PREFIX_USER: &'static str = "user";

pub const PREFIX_LISTENERS: &'static str = "listeners";

pub const PREFIX_MCP: &'static str = "mcp";

/// A value with the words that describe it.
#[derive(Debug)]
pub struct Metric<T> {
    pub prefix: String,
    pub name: String,
    pub descr: String,
    pub value: T,
}

/// Whether a metric is described by some words.
pub open spec fn described<T>(metric: Metric<T>, prefix: Seq<char>, name: Seq<char>, descr: Seq<char>) -> bool {
    metric.prefix@ == prefix && metric.name@ == name && metric.descr@ == descr
}

impl<T> Metric<T> {
    pub fn new(prefix: &str, name: &str, descr: &str, value: T) -> (metric: Metric<T>)
        ensures
            described(metric, prefix@, name@, descr@),
            metric.value == value,
    {
        Metric { prefix: prefix.to_owned(), name: name.to_owned(), descr: descr.to_owned(), value }
    }
}

impl<T: Clearable> Clearable for Metric<T> {
    open spec fn is_clear(&self) -> bool {
        self.value.is_clear()
    }

    open spec fn same_kind(&self, other: &Metric<T>) -> bool {
        &&& self.prefix@ == other.prefix@ && self.name@ == other.name@ && self.descr@ == other.descr@
        &&& self.value.same_kind(&other.value)
    }

    fn clear(&mut self) {
        self.value.clear();
    }
}

impl<T: Clearable> Clearable for Option<T> {
    open spec fn is_clear(&self) -> bool {
        match self {
            Some(value) => value.is_clear(),
            None => true,
        }
    }

    open spec fn same_kind(&self, other: &Option<T>) -> bool {
        match (self, other) {
            (Some(a), Some(b)) => a.same_kind(b),
            (None, None) => true,
            _ => false,
        }
    }

    fn clear(&mut self) {
        match self {
            Some(value) => {
                value.clear();
            },
            None => {},
        }
    }
}

/// The name of a metric, after the configuration may have given it another.
pub open spec fn renamed(rename: Map<Seq<char>, String>, default_name: Seq<char>) -> Seq<char> {
    if rename.contains_key(default_name) {
        rename[default_name]@
    } else {
        default_name
    }
}

/// The name of a metric, after the configuration may have given it another.
pub fn resolve_metric_name(rename: &NameTable<String>, default_name: &str) -> (name: String)
    ensures
        name@ == renamed(rename@, default_name@),
{
    match rename.get(default_name) {
        Some(name) => name.clone(),
        None => default_name.to_owned(),
    }
}

/// Whether a place for a counter is filled: once, with a counter of nothing.
pub open spec fn counter_ready(
    before: Option<Metric<ShardedU64>>,
    after: Option<Metric<ShardedU64>>,
    prefix: Seq<char>,
    name: Seq<char>,
    descr: Seq<char>,
) -> bool {
    if before is Some {
        after == before
    } else {
        &&& after is Some
        &&& described(after->0, prefix, name, descr)
        &&& after->0.value@ == nothing_counted()
    }
}

/// Whether a place for a histogram is filled: once, with a histogram of nothing.
pub open spec fn histogram_ready(
    before: Option<Metric<ShardedHistogram>>,
    after: Option<Metric<ShardedHistogram>>,
    prefix: Seq<char>,
    name: Seq<char>,
    descr: Seq<char>,
    buckets: Seq<u64>,
) -> bool {
    if before is Some {
        after == before
    } else {
        &&& after is Some
        &&& described(after->0, prefix, name, descr)
        &&& after->0.value@ == nothing_recorded(buckets)
    }
}

/// Fills the place for a counter, where it is not filled.
pub fn init_counter(slot: &mut Option<Metric<ShardedU64>>, prefix: &str, name: &str, descr: &str)
    ensures
        counter_ready(*old(slot), *final(slot), prefix@, name@, descr@),
{
    if slot.is_none() {
        *slot = Some(Metric::new(prefix, name, descr, ShardedU64::new()));
    }
}

/// Fills the place for a histogram, where it is not filled.
pub fn init_histogram(
    slot: &mut Option<Metric<ShardedHistogram>>,
    prefix: &str,
    name: &str,
    descr: &str,
    buckets: &Vec<u64>,
)
    requires
        crate::sharded::is_rising(buckets@),
    ensures
        histogram_ready(*old(slot), *final(slot), prefix@, name@, descr@, buckets@),
{
    if slot.is_none() {
        *slot = Some(Metric::new(prefix, name, descr, ShardedHistogram::new(buckets)));
    }
}

/// The bounds by which times in milliseconds are counted.
pub fn latency_buckets() -> (buckets: Vec<u64>)
    ensures
        buckets@ == seq![5u64, 10, 50, 100, 500, 1000, 5000, 10000, u64::MAX],
        crate::sharded::is_rising(buckets@),
{
    vec![5u64, 10, 50, 100, 500, 1000, 5000, 10000, u64::MAX]
}

/// The bounds by which sizes in bytes are counted.
pub fn byte_buckets() -> (buckets: Vec<u64>)
    ensures
        buckets@ == seq![256u64, 1024, 4096, 16384, 65536, 262144, 1048576, 4194304, u64::MAX],
        crate::sharded::is_rising(buckets@),
{
    vec![256u64, 1024, 4096, 16384, 65536, 262144, 1048576, 4194304, u64::MAX]
}

/// Whether a counter went from one state to another by counting up; a place
/// that is not filled stays so.
pub open spec fn counter_added(
    before: Option<Metric<ShardedU64>>,
    after: Option<Metric<ShardedU64>>,
    value: u64,
    shard: u64,
    labels: crate::sharded::LabelsView,
) -> bool {
    match before {
        Some(m) => {
            &&& after is Some
            &&& described(after->0, m.prefix@, m.name@, m.descr@)
            &&& after->0.value@ == added(m.value@, value, shard, labels)
        },
        None => after is None,
    }
}

/// Whether a counter went from one state to another by counting down.
pub open spec fn counter_subtracted(
    before: Option<Metric<ShardedU64>>,
    after: Option<Metric<ShardedU64>>,
    value: u64,
    shard: u64,
    labels: crate::sharded::LabelsView,
) -> bool {
    match before {
        Some(m) => {
            &&& after is Some
            &&& described(after->0, m.prefix@, m.name@, m.descr@)
            &&& after->0.value@ == subtracted(m.value@, value, shard, labels)
        },
        None => after is None,
    }
}

/// Whether a histogram went from one state to another by a number.
pub open spec fn histogram_recorded(
    before: Option<Metric<ShardedHistogram>>,
    after: Option<Metric<ShardedHistogram>>,
    value: u64,
    shard: u64,
    labels: crate::sharded::LabelsView,
) -> bool {
    match before {
        Some(m) => {
            &&& after is Some
            &&& described(after->0, m.prefix@, m.name@, m.descr@)
            &&& after->0.value@ == recorded(m.value@, value, shard, labels)
        },
        None => after is None,
    }
}

/// Counts a metric up, where it is set up.
pub fn count_up(slot: &mut Option<Metric<ShardedU64>>, value: u64, shard: u64, key: &Vec<(String, String)>)
    ensures
        counter_added(*old(slot), *final(slot), value, shard, labels_view(key@)),
{
    match slot {
        Some(metric) => {
            metric.value.add(value, shard, key);
        },
        None => {},
    }
}

/// Counts a metric down, where it is set up.
pub fn count_down(slot: &mut Option<Metric<ShardedU64>>, value: u64, shard: u64, key: &Vec<(String, String)>)
    ensures
        counter_subtracted(*old(slot), *final(slot), value, shard, labels_view(key@)),
{
    match slot {
        Some(metric) => {
            metric.value.sub(value, shard, key);
        },
        None => {},
    }
}

/// Records a number in a metric, where it is set up.
pub fn record(slot: &mut Option<Metric<ShardedHistogram>>, value: u64, shard: u64, key: &Vec<(String, String)>)
    ensures
        histogram_recorded(*old(slot), *final(slot), value, shard, labels_view(key@)),
{
    match slot {
        Some(metric) => {
            metric.value.record(value, shard, key);
        },
        None => {},
    }
}

/// What the configuration says of metrics.
pub struct MetricsConfig {
    /// Other names for metrics, by the names they have.
    pub rename: NameTable<String>,
    pub custom_metrics: CustomMetricsConfig,
}

/// All metrics.
pub struct GlobalMetrics {
    pub tcp: TcpMetrics,
    pub http: HttpMetrics,
    pub listeners: ListenerMetrics,
    pub clusters: ClusterMetrics,
    pub filters: FilterMetrics,
    pub server: ServerMetrics,
    pub tls: TlsMetrics,
    pub user: UserMetrics,
    pub mcp: McpMetrics,
    pub custom: Option<CustomMetrics>,
}

impl Default for GlobalMetrics {
    fn default() -> (metrics: GlobalMetrics)
        ensures
            tcp::unset(metrics.tcp),
            http::unset(metrics.http),
            listeners::unset(metrics.listeners),
            clusters::unset(metrics.clusters),
            filters::unset(metrics.filters),
            server::unset(metrics.server),
            tls::unset(metrics.tls),
            user::unset(metrics.user),
            mcp::unset(metrics.mcp),
            metrics.custom is None,
    {
        GlobalMetrics {
            tcp: TcpMetrics::default(),
            http: HttpMetrics::default(),
            listeners: ListenerMetrics::default(),
            clusters: ClusterMetrics::default(),
            filters: FilterMetrics::default(),
            server: ServerMetrics::default(),
            tls: TlsMetrics::default(),
            user: UserMetrics::default(),
            mcp: McpMetrics::default(),
            custom: None,
        }
    }
}

/// Prepares a thread for counting: a thread begins with cells of nothing, so
/// nothing has to be done.
pub fn init_per_thread_metrics(metrics: &mut GlobalMetrics)
    ensures
        *final(metrics) == *old(metrics),
{
}

/// Sets the metrics up, each once. Those of the listeners, of the server and
/// of TLS get their words where they are filled in.
pub fn init_global_metrics(metrics: &mut GlobalMetrics, config: &MetricsConfig)
    ensures
        tcp::ready(old(metrics).tcp, final(metrics).tcp, config.rename@),
        http::ready(old(metrics).http, final(metrics).http, config.rename@),
        clusters::ready(old(metrics).clusters, final(metrics).clusters, config.rename@),
        filters::ready(old(metrics).filters, final(metrics).filters, config.rename@),
        user::ready(old(metrics).user, final(metrics).user, config.rename@),
        mcp::ready(old(metrics).mcp, final(metrics).mcp),
        final(metrics).listeners == old(metrics).listeners,
        final(metrics).server == old(metrics).server,
        final(metrics).tls == old(metrics).tls,
        if old(metrics).custom is Some || !custom::asks_for_any(config.custom_metrics) {
            final(metrics).custom == old(metrics).custom
        } else {
            &&& final(metrics).custom is Some
            &&& custom::are_new(
                final(metrics).custom->0.incoming_request,
                config.custom_metrics.incoming_request@,
            )
            &&& custom::are_new(
                final(metrics).custom->0.upstream_request,
                config.custom_metrics.upstream_request@,
            )
            &&& custom::are_new(
                final(metrics).custom->0.incoming_response,
                config.custom_metrics.incoming_response@,
            )
            &&& custom::are_new(
                final(metrics).custom->0.downstream_response,
                config.custom_metrics.downstream_response@,
            )
        },
{
    tcp::init_metrics(&mut metrics.tcp, &config.rename);
    http::init_metrics(&mut metrics.http, &config.rename);
    clusters::init_metrics(&mut metrics.clusters, &config.rename);
    filters::init_metrics(&mut metrics.filters, &config.rename);
    user::init_metrics(&mut metrics.user, &config.rename);
    mcp::init_metrics(&mut metrics.mcp);
    custom::init_metrics(&mut metrics.custom, &config.custom_metrics);
}

/// Sets all metrics back to their beginning.
pub fn reset_global_metrics(metrics: &mut GlobalMetrics)
    ensures
        tcp::was_reset(old(metrics).tcp, final(metrics).tcp),
        http::was_reset(old(metrics).http, final(metrics).http),
        listeners::was_reset(old(metrics).listeners, final(metrics).listeners),
        clusters::was_reset(old(metrics).clusters, final(metrics).clusters),
        filters::was_reset(old(metrics).filters, final(metrics).filters),
        server::was_reset(old(metrics).server, final(metrics).server),
        tls::was_reset(old(metrics).tls, final(metrics).tls),
        user::was_reset(old(metrics).user, final(metrics).user),
        custom::was_reset(old(metrics).custom, final(metrics).custom),
        mcp::was_reset(old(metrics).mcp, final(metrics).mcp),
{
    tcp::reset_metrics(&mut metrics.tcp);
    http::reset_metrics(&mut metrics.http);
    listeners::reset_metrics(&mut metrics.listeners);
    clusters::reset_metrics(&mut metrics.clusters);
    filters::reset_metrics(&mut metrics.filters);
    server::reset_metrics(&mut metrics.server);
    tls::reset_metrics(&mut metrics.tls);
    user::reset_metrics(&mut metrics.user);
    custom::reset_metrics(&mut metrics.custom);
    mcp::reset_metrics(&mut metrics.mcp);
}

/// Setting a counter up twice is the same as setting it up once: the words of
/// the first time stay, and nothing that was counted is lost.
pub proof fn law_first_setup_stays(
    before: Option<Metric<ShardedU64>>,
    once: Option<Metric<ShardedU64>>,
    twice: Option<Metric<ShardedU64>>,
    prefix: Seq<char>,
    name: Seq<char>,
    other_name: Seq<char>,
    descr: Seq<char>,
)
    requires
        counter_ready(before, once, prefix, name, descr),
        counter_ready(once, twice, prefix, other_name, descr),
    ensures
        twice == once,
{
}

/// A reset keeps the words of a metric, and afterwards it has loaded nothing.
pub proof fn law_reset_forgets_counts(
    before: Option<Metric<ShardedU64>>,
    after: Option<Metric<ShardedU64>>,
    labels: crate::sharded::LabelsView,
)
    requires
        before is Some,
        after.is_clear(),
        after.same_kind(&before),
    ensures
        after is Some,
        after->0.name@ == before->0.name@,
        !crate::sharded::present(after->0.value@, labels),
{
}

} // verus!
