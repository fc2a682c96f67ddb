//! The state of the clusters, one fact to a line.

use crate::connector::Address;
use crate::http_channel::RoutingPriority;
use crate::metrics::clusters::ClusterMetrics;
use crate::metrics::Metric;
use crate::sharded::{in_range, labels_view, one_label, present, total, LabelsView, ShardedU64};
use crate::text::{append_decimal, decimal, decimal_string};
use vstd::prelude::*;

verus! {

/// How many requests may wait; there is no setting of its own for it.
pub const DEFAULT_MAX_REQUESTS: u32 = 1024;

/// The limits of a circuit breaker.
#[derive(Debug, Clone, Copy, PartialEq, Eq, Structural)]
pub struct CircuitBreakerThresholds {
    pub priority: RoutingPriority,
    pub max_connections: u32,
    pub max_requests: u32,
    pub max_retries: u32,
}

impl Default for CircuitBreakerThresholds {
    fn default() -> (thresholds: CircuitBreakerThresholds)
        ensures
            thresholds == (CircuitBreakerThresholds {
                priority: RoutingPriority::Default,
                max_connections: 1024,
                max_requests: 1024,
                max_retries: 3,
            }),
    {
        CircuitBreakerThresholds {
            priority: RoutingPriority::Default,
            max_connections: 1024,
            max_requests: DEFAULT_MAX_REQUESTS,
            max_retries: 3,
        }
    }
}

#[derive(Debug, Clone, Copy, PartialEq, Eq, Structural)]
pub enum HealthStatus {
    Healthy,
    Unhealthy,
}

/// An endpoint of a cluster.
#[derive(Debug)]
pub struct LbEndpoint {
    pub address: Address,
    pub health_status: HealthStatus,
    pub load_balancing_weight: u32,
}

/// The endpoints at one place.
#[derive(Debug)]
pub struct LocalityLbEndpoints {
    pub priority: u32,
    pub lb_endpoints: Vec<LbEndpoint>,
}

/// How the endpoints of a cluster are found.
#[derive(Debug)]
pub enum ClusterDiscoveryType {
    Static(Vec<LocalityLbEndpoints>),
    StrictDns(Vec<LocalityLbEndpoints>),
    Eds(Option<Vec<LocalityLbEndpoints>>),
    OriginalDst,
}

/// A cluster.
#[derive(Debug)]
pub struct ClusterConfig {
    pub name: String,
    pub discovery_settings: ClusterDiscoveryType,
    pub circuit_breakers: Option<Vec<CircuitBreakerThresholds>>,
}

/// What was counted for a cluster. It counts for each of its endpoints.
#[derive(Debug, Clone, Copy, PartialEq, Eq, Structural)]
pub struct EndpointMetrics {
    pub cx_active: u64,
    pub cx_connect_fail: u64,
    pub cx_total: u64,
    pub rq_active: u64,
    pub rq_timeout: u64,
    pub rq_total: u64,
}

/// What a metric has counted under some labels; nothing counts for zero.
pub open spec fn loaded_or_zero(slot: Option<Metric<ShardedU64>>, labels: LabelsView) -> u64 {
    match slot {
        Some(m) => if present(m.value@, labels) {
            in_range(total(m.value@, labels)) as u64
        } else {
            0
        },
        None => 0,
    }
}

fn load_or_zero(slot: &Option<Metric<ShardedU64>>, key: &Vec<(String, String)>) -> (n: u64)
    ensures
        n == loaded_or_zero(*slot, labels_view(key@)),
{
    match slot {
        Some(metric) => match metric.value.load(key) {
            Some(n) => n,
            None => 0,
        },
        None => 0,
    }
}

/// What was counted for a cluster.
pub open spec fn metrics_of(metrics: ClusterMetrics, name: Seq<char>) -> EndpointMetrics {
    let labels = seq![("cluster"@, name)];
    EndpointMetrics {
        cx_active: loaded_or_zero(metrics.upstream_cx_active, labels),
        cx_connect_fail: loaded_or_zero(metrics.upstream_cx_connect_fail, labels),
        cx_total: loaded_or_zero(metrics.upstream_cx_total, labels),
        rq_active: loaded_or_zero(metrics.upstream_rq_active, labels),
        rq_timeout: loaded_or_zero(metrics.upstream_rq_timeout, labels),
        rq_total: loaded_or_zero(metrics.upstream_rq_total, labels),
    }
}

/// What was counted for a cluster.
pub fn cluster_metrics(metrics: &ClusterMetrics, cluster_name: &str) -> (found: EndpointMetrics)
    ensures
        found == metrics_of(*metrics, cluster_name@),
{
    let key: Vec<(String, String)> = one_label("cluster", cluster_name);
    EndpointMetrics {
        cx_active: load_or_zero(&metrics.upstream_cx_active, &key),
        cx_connect_fail: load_or_zero(&metrics.upstream_cx_connect_fail, &key),
        cx_total: load_or_zero(&metrics.upstream_cx_total, &key),
        rq_active: load_or_zero(&metrics.upstream_rq_active, &key),
        rq_timeout: load_or_zero(&metrics.upstream_rq_timeout, &key),
        rq_total: load_or_zero(&metrics.upstream_rq_total, &key),
    }
}

/// The limits that count where none are configured.
pub open spec fn default_thresholds() -> CircuitBreakerThresholds {
    CircuitBreakerThresholds {
        priority: RoutingPriority::Default,
        max_connections: 1024,
        max_requests: 1024,
        max_retries: 3,
    }
}

/// The last of some limits that is for a priority, or else those that count
/// where none are configured.
pub open spec fn last_for(thresholds: Seq<CircuitBreakerThresholds>, priority: RoutingPriority) -> CircuitBreakerThresholds
    decreases thresholds.len(),
{
    if thresholds.len() == 0 {
        default_thresholds()
    } else if thresholds.last().priority == priority {
        thresholds.last()
    } else {
        last_for(thresholds.drop_last(), priority)
    }
}

/// The limits of a cluster for a priority.
pub open spec fn spec_thresholds(cluster: ClusterConfig, priority: RoutingPriority) -> CircuitBreakerThresholds {
    match cluster.circuit_breakers {
        Some(thresholds) => last_for(thresholds@, priority),
        None => default_thresholds(),
    }
}

/// The limits of a cluster for a priority.
pub fn thresholds_for(cluster: &ClusterConfig, priority: RoutingPriority) -> (found: CircuitBreakerThresholds)
    ensures
        found == spec_thresholds(*cluster, priority),
{
    match &cluster.circuit_breakers {
        Some(thresholds) => {
            let mut n: usize = thresholds.len();
            assert(thresholds@.take(n as int) =~= thresholds@);
            while n > 0
                invariant
                    n <= thresholds@.len(),
                    cluster.circuit_breakers == Some(*thresholds),
                    last_for(thresholds@, priority) == last_for(thresholds@.take(n as int), priority),
                decreases n,
            {
                assert(thresholds@.take(n as int).last() == thresholds@[n - 1]);
                assert(thresholds@.take(n as int).drop_last() =~= thresholds@.take(n - 1));
                let t: CircuitBreakerThresholds = thresholds[n - 1];
                if t.priority == priority {
                    return t;
                }
                n = n - 1;
            }
            CircuitBreakerThresholds::default()
        },
        None => CircuitBreakerThresholds::default(),
    }
}

/// The endpoints of a cluster, where it has a list of them.
pub open spec fn endpoints_of(cluster: ClusterConfig) -> Option<Seq<LocalityLbEndpoints>> {
    match cluster.discovery_settings {
        ClusterDiscoveryType::Static(endpoints) => Some(endpoints@),
        ClusterDiscoveryType::StrictDns(endpoints) => Some(endpoints@),
        ClusterDiscoveryType::Eds(Some(endpoints)) => Some(endpoints@),
        ClusterDiscoveryType::Eds(None) => None,
        ClusterDiscoveryType::OriginalDst => None,
    }
}

/// The endpoints of a cluster, and whether they were found by their names.
pub fn cluster_endpoints(cluster: &ClusterConfig) -> (found: (Option<&Vec<LocalityLbEndpoints>>, bool))
    ensures
        match found.0 {
            Some(endpoints) => endpoints_of(*cluster) == Some(endpoints@),
            None => endpoints_of(*cluster) is None,
        },
        found.1 == (cluster.discovery_settings is StrictDns),
{
    match &cluster.discovery_settings {
        ClusterDiscoveryType::StrictDns(endpoints) => (Some(endpoints), true),
        ClusterDiscoveryType::Static(endpoints) => (Some(endpoints), false),
        ClusterDiscoveryType::Eds(Some(endpoints)) => (Some(endpoints), false),
        ClusterDiscoveryType::Eds(None) => (None, false),
        ClusterDiscoveryType::OriginalDst => (None, false),
    }
}

/// The text of an address.
pub open spec fn address_text(address: Address) -> Seq<char> {
    match address {
        Address::Socket(host, port) => host@ + ":"@ + decimal(port as nat),
        Address::Internal(name) => name@,
        Address::Pipe(path) => path@,
    }
}

fn show_address(address: &Address) -> (text: String)
    ensures
        text@ == address_text(*address),
{
    match address {
        Address::Socket(host, port) => {
            let mut text: String = host.clone();
            text.append(":");
            append_decimal(&mut text, *port as u64);
            text
        },
        Address::Internal(name) => name.clone(),
        Address::Pipe(path) => path.clone(),
    }
}

/// A fact about a part of a cluster.
#[verifier::opaque]
pub open spec fn fact(name: Seq<char>, part: Seq<char>, key: Seq<char>, value: Seq<char>) -> Seq<char> {
    name + "::"@ + part + "::"@ + key + "::"@ + value + "\n"@
}

fn write_fact(out: &mut String, name: &str, part: &str, key: &str, value: &str)
    ensures
        final(out)@ == old(out)@ + fact(name@, part@, key@, value@),
{
    out.append(name);
    out.append("::");
    out.append(part);
    out.append("::");
    out.append(key);
    out.append("::");
    out.append(value);
    out.append("\n");
    proof {
        reveal(fact);
    }
    assert(out@ =~= old(out)@ + fact(name@, part@, key@, value@));
}

fn write_number(out: &mut String, name: &str, part: &str, key: &str, value: u64)
    ensures
        final(out)@ == old(out)@ + fact(name@, part@, key@, decimal(value as nat)),
{
    write_fact(out, name, part, key, decimal_string(value).as_str());
}

/// A fact about a cluster.
#[verifier::opaque]
pub open spec fn own_fact(name: Seq<char>, key: Seq<char>, value: Seq<char>) -> Seq<char> {
    name + "::"@ + key + "::"@ + value + "\n"@
}

fn write_own_fact(out: &mut String, name: &str, key: &str, value: &str)
    ensures
        final(out)@ == old(out)@ + own_fact(name@, key@, value@),
{
    out.append(name);
    out.append("::");
    out.append(key);
    out.append("::");
    out.append(value);
    out.append("\n");
    proof {
        reveal(own_fact);
    }
    assert(out@ =~= old(out)@ + own_fact(name@, key@, value@));
}

/// The limits of a cluster for a priority, as text.
#[verifier::opaque]
pub open spec fn limits_text(name: Seq<char>, label: Seq<char>, t: CircuitBreakerThresholds) -> Seq<char> {
    fact(name, label, "max_connections"@, decimal(t.max_connections as nat)) + fact(
        name,
        label,
        "max_pending_requests"@,
        decimal(DEFAULT_MAX_REQUESTS as nat),
    ) + fact(name, label, "max_requests"@, decimal(t.max_requests as nat)) + fact(
        name,
        label,
        "max_retries"@,
        decimal(t.max_retries as nat),
    )
}

fn write_limits(out: &mut String, name: &str, label: &str, t: CircuitBreakerThresholds)
    ensures
        final(out)@ == old(out)@ + limits_text(name@, label@, t),
{
    write_number(out, name, label, "max_connections", t.max_connections as u64);
    write_number(out, name, label, "max_pending_requests", DEFAULT_MAX_REQUESTS as u64);
    write_number(out, name, label, "max_requests", t.max_requests as u64);
    write_number(out, name, label, "max_retries", t.max_retries as u64);
    proof {
        reveal(limits_text);
    }
    assert(out@ =~= old(out)@ + limits_text(name@, label@, t));
}

/// The host that was looked up for an endpoint.
pub open spec fn hostname_of(address: Address, is_strict_dns: bool) -> Seq<char> {
    match address {
        Address::Socket(host, _) => if is_strict_dns {
            host@
        } else {
            ""@
        },
        _ => ""@,
    }
}

/// The word for the health of an endpoint.
pub open spec fn health_text(status: HealthStatus) -> Seq<char> {
    match status {
        HealthStatus::Healthy => "healthy"@,
        HealthStatus::Unhealthy => "/failed_active_hc"@,
    }
}

/// How many requests of a cluster went well: all but those that took too long.
pub open spec fn successes(metrics: EndpointMetrics) -> nat {
    if metrics.rq_total > metrics.rq_timeout {
        (metrics.rq_total - metrics.rq_timeout) as nat
    } else {
        0
    }
}

/// The counts of an endpoint, as text.
#[verifier::opaque]
pub open spec fn counts_text(name: Seq<char>, address: Seq<char>, m: EndpointMetrics) -> Seq<char> {
    fact(name, address, "cx_active"@, decimal(m.cx_active as nat)) + fact(
        name,
        address,
        "cx_connect_fail"@,
        decimal(m.cx_connect_fail as nat),
    ) + fact(name, address, "cx_total"@, decimal(m.cx_total as nat)) + fact(
        name,
        address,
        "rq_active"@,
        decimal(m.rq_active as nat),
    ) + fact(name, address, "rq_error"@, decimal(m.rq_timeout as nat)) + fact(
        name,
        address,
        "rq_success"@,
        decimal(successes(m)),
    ) + fact(name, address, "rq_timeout"@, decimal(m.rq_timeout as nat)) + fact(
        name,
        address,
        "rq_total"@,
        decimal(m.rq_total as nat),
    )
}

/// What is configured of an endpoint, as text.
#[verifier::opaque]
pub open spec fn setting_text(
    name: Seq<char>,
    address: Seq<char>,
    endpoint: LbEndpoint,
    is_strict_dns: bool,
    priority: u32,
) -> Seq<char> {
    fact(name, address, "hostname"@, hostname_of(endpoint.address, is_strict_dns)) + fact(
        name,
        address,
        "health_flags"@,
        health_text(endpoint.health_status),
    ) + fact(name, address, "weight"@, decimal(endpoint.load_balancing_weight as nat)) + fact(
        name,
        address,
        "region"@,
        ""@,
    ) + fact(name, address, "zone"@, ""@) + fact(name, address, "sub_zone"@, ""@) + fact(
        name,
        address,
        "canary"@,
        "false"@,
    ) + fact(name, address, "priority"@, decimal(priority as nat)) + fact(name, address, "success_rate"@, "-1"@)
        + fact(name, address, "local_origin_success_rate"@, "-1"@)
}

/// An endpoint, as text.
pub open spec fn endpoint_text(
    name: Seq<char>,
    endpoint: LbEndpoint,
    is_strict_dns: bool,
    priority: u32,
    m: EndpointMetrics,
) -> Seq<char> {
    counts_text(name, address_text(endpoint.address), m) + setting_text(
        name,
        address_text(endpoint.address),
        endpoint,
        is_strict_dns,
        priority,
    )
}

fn write_counts(out: &mut String, name: &str, address: &str, m: EndpointMetrics)
    ensures
        final(out)@ == old(out)@ + counts_text(name@, address@, m),
{
    let rq_success: u64 = if m.rq_total > m.rq_timeout {
        m.rq_total - m.rq_timeout
    } else {
        0
    };
    write_number(out, name, address, "cx_active", m.cx_active);
    write_number(out, name, address, "cx_connect_fail", m.cx_connect_fail);
    write_number(out, name, address, "cx_total", m.cx_total);
    write_number(out, name, address, "rq_active", m.rq_active);
    write_number(out, name, address, "rq_error", m.rq_timeout);
    write_number(out, name, address, "rq_success", rq_success);
    write_number(out, name, address, "rq_timeout", m.rq_timeout);
    write_number(out, name, address, "rq_total", m.rq_total);
    proof {
        reveal(counts_text);
    }
    assert(out@ =~= old(out)@ + counts_text(name@, address@, m));
}

fn write_settings(out: &mut String, name: &str, address: &str, endpoint: &LbEndpoint, is_strict_dns: bool, priority: u32)
    ensures
        final(out)@ == old(out)@ + setting_text(name@, address@, *endpoint, is_strict_dns, priority),
{
    let hostname: &str = match &endpoint.address {
        Address::Socket(host, _) => {
            if is_strict_dns {
                host.as_str()
            } else {
                ""
            }
        },
        _ => "",
    };
    let health_flags: &str = match endpoint.health_status {
        HealthStatus::Healthy => "healthy",
        HealthStatus::Unhealthy => "/failed_active_hc",
    };
    write_fact(out, name, address, "hostname", hostname);
    write_fact(out, name, address, "health_flags", health_flags);
    write_number(out, name, address, "weight", endpoint.load_balancing_weight as u64);
    write_fact(out, name, address, "region", "");
    write_fact(out, name, address, "zone", "");
    write_fact(out, name, address, "sub_zone", "");
    write_fact(out, name, address, "canary", "false");
    write_number(out, name, address, "priority", priority as u64);
    write_fact(out, name, address, "success_rate", "-1");
    write_fact(out, name, address, "local_origin_success_rate", "-1");
    proof {
        reveal(setting_text);
    }
    assert(out@ =~= old(out)@ + setting_text(name@, address@, *endpoint, is_strict_dns, priority));
}

/// The first `n` endpoints at a place, as text.
pub open spec fn locality_text(
    name: Seq<char>,
    locality: LocalityLbEndpoints,
    is_strict_dns: bool,
    m: EndpointMetrics,
    n: int,
) -> Seq<char>
    decreases n,
{
    if n <= 0 {
        Seq::empty()
    } else {
        locality_text(name, locality, is_strict_dns, m, n - 1) + endpoint_text(
            name,
            locality.lb_endpoints@[n - 1],
            is_strict_dns,
            locality.priority,
            m,
        )
    }
}

/// The endpoints at the first `n` places, as text.
pub open spec fn localities_text(
    name: Seq<char>,
    localities: Seq<LocalityLbEndpoints>,
    is_strict_dns: bool,
    m: EndpointMetrics,
    n: int,
) -> Seq<char>
    decreases n,
{
    if n <= 0 {
        Seq::empty()
    } else {
        localities_text(name, localities, is_strict_dns, m, n - 1) + locality_text(
            name,
            localities[n - 1],
            is_strict_dns,
            m,
            localities[n - 1].lb_endpoints@.len() as int,
        )
    }
}

fn write_locality(out: &mut String, name: &str, locality: &LocalityLbEndpoints, is_strict_dns: bool, m: EndpointMetrics)
    ensures
        final(out)@ == old(out)@ + locality_text(
            name@,
            *locality,
            is_strict_dns,
            m,
            locality.lb_endpoints@.len() as int,
        ),
{
    let mut i: usize = 0;
    assert(old(out)@ + locality_text(name@, *locality, is_strict_dns, m, 0) =~= old(out)@);
    while i < locality.lb_endpoints.len()
        invariant
            i <= locality.lb_endpoints@.len(),
            out@ == old(out)@ + locality_text(name@, *locality, is_strict_dns, m, i as int),
        decreases locality.lb_endpoints@.len() - i,
    {
        let endpoint: &LbEndpoint = &locality.lb_endpoints[i];
        let address: String = show_address(&endpoint.address);
        write_counts(out, name, address.as_str(), m);
        write_settings(out, name, address.as_str(), endpoint, is_strict_dns, locality.priority);
        assert(out@ =~= old(out)@ + locality_text(name@, *locality, is_strict_dns, m, i + 1));
        i = i + 1;
    }
}

/// What is known of a cluster beside its endpoints, as text.
pub open spec fn cluster_head(cluster: ClusterConfig) -> Seq<char> {
    own_fact(cluster.name@, "observability_name"@, cluster.name@) + limits_text(
        cluster.name@,
        "default_priority"@,
        spec_thresholds(cluster, RoutingPriority::Default),
    ) + limits_text(cluster.name@, "high_priority"@, spec_thresholds(cluster, RoutingPriority::High)) + own_fact(
        cluster.name@,
        "added_via_api"@,
        "false"@,
    )
}

/// A cluster, as text. One without a list of endpoints has no lines for them.
pub open spec fn cluster_text(cluster: ClusterConfig, metrics: ClusterMetrics) -> Seq<char> {
    match endpoints_of(cluster) {
        None => cluster_head(cluster),
        Some(localities) => cluster_head(cluster) + localities_text(
            cluster.name@,
            localities,
            cluster.discovery_settings is StrictDns,
            metrics_of(metrics, cluster.name@),
            localities.len() as int,
        ),
    }
}

/// Appends a cluster as text.
pub fn write_cluster(out: &mut String, cluster: &ClusterConfig, metrics: &ClusterMetrics)
    ensures
        final(out)@ == old(out)@ + cluster_text(*cluster, *metrics),
{
    let name: &str = cluster.name.as_str();
    write_own_fact(out, name, "observability_name", name);
    write_limits(out, name, "default_priority", thresholds_for(cluster, RoutingPriority::Default));
    write_limits(out, name, "high_priority", thresholds_for(cluster, RoutingPriority::High));
    write_own_fact(out, name, "added_via_api", "false");
    let ghost headed = out@;
    assert(headed =~= old(out)@ + cluster_head(*cluster));
    let (endpoints, is_strict_dns) = cluster_endpoints(cluster);
    match endpoints {
        None => {},
        Some(localities) => {
            let m: EndpointMetrics = cluster_metrics(metrics, name);
            let mut i: usize = 0;
            assert(headed + localities_text(name@, localities@, is_strict_dns, m, 0) =~= headed);
            while i < localities.len()
                invariant
                    i <= localities@.len(),
                    out@ == headed + localities_text(name@, localities@, is_strict_dns, m, i as int),
                decreases localities@.len() - i,
            {
                write_locality(out, name, &localities[i], is_strict_dns, m);
                assert(out@ =~= headed + localities_text(name@, localities@, is_strict_dns, m, i + 1));
                i = i + 1;
            }
            assert(out@ =~= old(out)@ + cluster_text(*cluster, *metrics));
        },
    }
}

/// Clusters, as text.
pub open spec fn clusters_text(clusters: Seq<ClusterConfig>, metrics: ClusterMetrics) -> Seq<char>
    decreases clusters.len(),
{
    if clusters.len() == 0 {
        Seq::empty()
    } else {
        clusters_text(clusters.drop_last(), metrics) + cluster_text(clusters.last(), metrics)
    }
}

/// All clusters as text.
pub fn build_clusters_output(clusters: &Vec<ClusterConfig>, metrics: &ClusterMetrics) -> (out: String)
    ensures
        out@ == clusters_text(clusters@, *metrics),
{
    let mut out = String::new();
    let mut i: usize = 0;
    while i < clusters.len()
        invariant
            i <= clusters@.len(),
            out@ == clusters_text(clusters@.take(i as int), *metrics),
        decreases clusters@.len() - i,
    {
        assert(clusters@.take(i + 1).drop_last() =~= clusters@.take(i as int));
        write_cluster(&mut out, &clusters[i], metrics);
        i = i + 1;
    }
    assert(clusters@.take(clusters@.len() as int) =~= clusters@);
    out
}

/// The successes and the errors of a cluster make up its requests, where no
/// more took too long than were counted in all.
pub proof fn law_requests_add_up(m: EndpointMetrics)
    requires
        m.rq_timeout <= m.rq_total,
    ensures
        successes(m) + m.rq_timeout == m.rq_total,
{
}

} // verus!
