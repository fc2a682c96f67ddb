//! The lines of the cluster status.

use crate::admin::clusters_status::{
    address_text, cluster_head, cluster_text, clusters_text, counts_text, endpoint_text, endpoints_of, fact,
    health_text, hostname_of, last_for, limits_text, localities_text, locality_text, metrics_of, own_fact, setting_text,
    spec_thresholds, successes, CircuitBreakerThresholds, ClusterConfig, EndpointMetrics, HealthStatus, LbEndpoint,
    LocalityLbEndpoints, DEFAULT_MAX_REQUESTS,
};
use crate::admin::lines::{
    lemma_another_line, lemma_in_either, lemma_joined_on_one_line, lemma_lines_of_both, lemma_number_on_one_line,
    lines_of, on_one_line, whole_lines,
};
use crate::connector::Address;
use crate::http_channel::RoutingPriority;
use crate::metrics::clusters::ClusterMetrics;
use crate::metrics::Metric;
use crate::sharded::{is_load, present, LabelsView, ShardedU64};
use crate::text::decimal;
use vstd::prelude::*;

verus! {

/// Whether a text has a line that says something of a part of a cluster.
pub open spec fn says(text: Seq<char>, name: Seq<char>, part: Seq<char>, key: Seq<char>, value: Seq<char>) -> bool {
    lines_of(text).contains(name + "::"@ + part + "::"@ + key + "::"@ + value)
}

/// Whether a number is what a counter has come to under some labels: nothing,
/// where nothing was counted.
pub open spec fn has_counted(slot: Option<Metric<ShardedU64>>, labels: LabelsView, n: u64) -> bool {
    if slot is Some && present(slot->0.value@, labels) {
        is_load(slot->0.value@, labels, Some(n))
    } else {
        n == 0
    }
}

/// Whether numbers are what the counters of a cluster have come to.
pub open spec fn have_counted(metrics: ClusterMetrics, name: Seq<char>, m: EndpointMetrics) -> bool {
    let labels = seq![("cluster"@, name)];
    &&& has_counted(metrics.upstream_cx_active, labels, m.cx_active)
    &&& has_counted(metrics.upstream_cx_connect_fail, labels, m.cx_connect_fail)
    &&& has_counted(metrics.upstream_cx_total, labels, m.cx_total)
    &&& has_counted(metrics.upstream_rq_active, labels, m.rq_active)
    &&& has_counted(metrics.upstream_rq_timeout, labels, m.rq_timeout)
    &&& has_counted(metrics.upstream_rq_total, labels, m.rq_total)
}

/// Two texts in whole lines: each keeps its lines.
proof fn lemma_both(first: Seq<char>, second: Seq<char>, line: Seq<char>)
    requires
        whole_lines(first),
        whole_lines(second),
    ensures
        whole_lines(first + second),
        lines_of(first).contains(line) ==> lines_of(first + second).contains(line),
        lines_of(second).contains(line) ==> lines_of(first + second).contains(line),
{
    lemma_lines_of_both(first, second);
    lemma_in_either(lines_of(first), lines_of(second), line);
}

/// A fact behind other lines.
proof fn lemma_fact(
    before: Seq<char>,
    name: Seq<char>,
    part: Seq<char>,
    key: Seq<char>,
    value: Seq<char>,
)
    requires
        whole_lines(before),
        on_one_line(name),
        on_one_line(part),
        on_one_line(key),
        on_one_line(value),
    ensures
        whole_lines(before + fact(name, part, key, value)),
        lines_of(before + fact(name, part, key, value)) == lines_of(before).push(
            name + "::"@ + part + "::"@ + key + "::"@ + value,
        ),
{
    reveal(fact);
    reveal_strlit("::");
    assert(on_one_line("::"@));
    lemma_joined_on_one_line(name, "::"@);
    lemma_joined_on_one_line(name + "::"@, part);
    lemma_joined_on_one_line(name + "::"@ + part, "::"@);
    lemma_joined_on_one_line(name + "::"@ + part + "::"@, key);
    lemma_joined_on_one_line(name + "::"@ + part + "::"@ + key, "::"@);
    lemma_joined_on_one_line(name + "::"@ + part + "::"@ + key + "::"@, value);
    lemma_another_line(before, name + "::"@ + part + "::"@ + key + "::"@ + value);
}

proof fn lemma_first_fact(name: Seq<char>, part: Seq<char>, key: Seq<char>, value: Seq<char>)
    requires
        on_one_line(name),
        on_one_line(part),
        on_one_line(key),
        on_one_line(value),
    ensures
        whole_lines(fact(name, part, key, value)),
        lines_of(fact(name, part, key, value)) == seq![name + "::"@ + part + "::"@ + key + "::"@ + value],
{
    let none = Seq::<char>::empty();
    lemma_fact(none, name, part, key, value);
    assert(none + fact(name, part, key, value) =~= fact(name, part, key, value));
    assert(lines_of(none) =~= Seq::empty());
}

proof fn lemma_keys_on_one_line()
    ensures
        on_one_line("cx_active"@),
        on_one_line("cx_connect_fail"@),
        on_one_line("cx_total"@),
        on_one_line("rq_active"@),
        on_one_line("rq_error"@),
        on_one_line("rq_success"@),
        on_one_line("rq_timeout"@),
        on_one_line("rq_total"@),
        on_one_line("hostname"@),
        on_one_line("health_flags"@),
        on_one_line("weight"@),
        on_one_line("region"@),
        on_one_line("zone"@),
        on_one_line("sub_zone"@),
        on_one_line("canary"@),
        on_one_line("false"@),
        on_one_line("priority"@),
        on_one_line("healthy"@),
        on_one_line("/failed_active_hc"@),
        on_one_line("success_rate"@),
        on_one_line("local_origin_success_rate"@),
        on_one_line("-1"@),
        on_one_line("max_connections"@),
        on_one_line("max_pending_requests"@),
        on_one_line("max_requests"@),
        on_one_line("max_retries"@),
        on_one_line("default_priority"@),
        on_one_line("high_priority"@),
        on_one_line(""@),
{
    reveal_strlit("cx_active");
    reveal_strlit("cx_connect_fail");
    reveal_strlit("cx_total");
    reveal_strlit("rq_active");
    reveal_strlit("rq_error");
    reveal_strlit("rq_success");
    reveal_strlit("rq_timeout");
    reveal_strlit("rq_total");
    reveal_strlit("hostname");
    reveal_strlit("health_flags");
    reveal_strlit("weight");
    reveal_strlit("region");
    reveal_strlit("zone");
    reveal_strlit("sub_zone");
    reveal_strlit("canary");
    reveal_strlit("false");
    reveal_strlit("priority");
    reveal_strlit("healthy");
    reveal_strlit("/failed_active_hc");
    reveal_strlit("success_rate");
    reveal_strlit("local_origin_success_rate");
    reveal_strlit("-1");
    reveal_strlit("max_connections");
    reveal_strlit("max_pending_requests");
    reveal_strlit("max_requests");
    reveal_strlit("max_retries");
    reveal_strlit("default_priority");
    reveal_strlit("high_priority");
    reveal_strlit("");
}

/// The lines of the numbers of an endpoint.
proof fn lemma_counts(name: Seq<char>, part: Seq<char>, m: EndpointMetrics)
    requires
        on_one_line(name),
        on_one_line(part),
    ensures
        whole_lines(counts_text(name, part, m)),
        ({
            let start = name + "::"@ + part + "::"@;
            lines_of(counts_text(name, part, m)) == seq![
                start + "cx_active"@ + "::"@ + decimal(m.cx_active as nat),
            ].push(
                start + "cx_connect_fail"@ + "::"@ + decimal(m.cx_connect_fail as nat),
            ).push(start + "cx_total"@ + "::"@ + decimal(m.cx_total as nat)).push(
                start + "rq_active"@ + "::"@ + decimal(m.rq_active as nat),
            ).push(start + "rq_error"@ + "::"@ + decimal(m.rq_timeout as nat)).push(
                start + "rq_success"@ + "::"@ + decimal(successes(m)),
            ).push(start + "rq_timeout"@ + "::"@ + decimal(m.rq_timeout as nat)).push(
                start + "rq_total"@ + "::"@ + decimal(m.rq_total as nat),
            )
        }),
{
    reveal(counts_text);
    lemma_keys_on_one_line();
    lemma_number_on_one_line(m.cx_active as nat);
    lemma_number_on_one_line(m.cx_connect_fail as nat);
    lemma_number_on_one_line(m.cx_total as nat);
    lemma_number_on_one_line(m.rq_active as nat);
    lemma_number_on_one_line(m.rq_timeout as nat);
    lemma_number_on_one_line(m.rq_total as nat);
    lemma_number_on_one_line(successes(m));
    let a = fact(name, part, "cx_active"@, decimal(m.cx_active as nat));
    lemma_first_fact(name, part, "cx_active"@, decimal(m.cx_active as nat));
    lemma_fact(a, name, part, "cx_connect_fail"@, decimal(m.cx_connect_fail as nat));
    let b = a + fact(name, part, "cx_connect_fail"@, decimal(m.cx_connect_fail as nat));
    lemma_fact(b, name, part, "cx_total"@, decimal(m.cx_total as nat));
    let c = b + fact(name, part, "cx_total"@, decimal(m.cx_total as nat));
    lemma_fact(c, name, part, "rq_active"@, decimal(m.rq_active as nat));
    let d = c + fact(name, part, "rq_active"@, decimal(m.rq_active as nat));
    lemma_fact(d, name, part, "rq_error"@, decimal(m.rq_timeout as nat));
    let e = d + fact(name, part, "rq_error"@, decimal(m.rq_timeout as nat));
    lemma_fact(e, name, part, "rq_success"@, decimal(successes(m)));
    let f = e + fact(name, part, "rq_success"@, decimal(successes(m)));
    lemma_fact(f, name, part, "rq_timeout"@, decimal(m.rq_timeout as nat));
    let g = f + fact(name, part, "rq_timeout"@, decimal(m.rq_timeout as nat));
    lemma_fact(g, name, part, "rq_total"@, decimal(m.rq_total as nat));
}

/// The lines of the settings of an endpoint.
proof fn lemma_settings(name: Seq<char>, part: Seq<char>, endpoint: LbEndpoint, is_strict_dns: bool, priority: u32)
    requires
        on_one_line(name),
        on_one_line(part),
        on_one_line(hostname_of(endpoint.address, is_strict_dns)),
    ensures
        ({
            let start = name + "::"@ + part + "::"@;
            lines_of(setting_text(name, part, endpoint, is_strict_dns, priority)) == seq![
                start + "hostname"@ + "::"@ + hostname_of(endpoint.address, is_strict_dns),
            ].push(
                start + "health_flags"@ + "::"@ + health_text(endpoint.health_status),
            ).push(
                start + "weight"@ + "::"@ + decimal(endpoint.load_balancing_weight as nat),
            ).push(
                start + "region"@ + "::"@ + ""@,
            ).push(
                start + "zone"@ + "::"@ + ""@,
            ).push(
                start + "sub_zone"@ + "::"@ + ""@,
            ).push(
                start + "canary"@ + "::"@ + "false"@,
            ).push(
                start + "priority"@ + "::"@ + decimal(priority as nat),
            ).push(
                start + "success_rate"@ + "::"@ + "-1"@,
            ).push(
                start + "local_origin_success_rate"@ + "::"@ + "-1"@,
            )
        }),
{
    reveal(setting_text);
    lemma_keys_on_one_line();
    lemma_number_on_one_line(endpoint.load_balancing_weight as nat);
    lemma_number_on_one_line(priority as nat);
    let text0 = fact(name, part, "hostname"@, hostname_of(endpoint.address, is_strict_dns));
    lemma_first_fact(name, part, "hostname"@, hostname_of(endpoint.address, is_strict_dns));
    lemma_fact(text0, name, part, "health_flags"@, health_text(endpoint.health_status));
    let text1 = text0 + fact(name, part, "health_flags"@, health_text(endpoint.health_status));
    lemma_fact(text1, name, part, "weight"@, decimal(endpoint.load_balancing_weight as nat));
    let text2 = text1 + fact(name, part, "weight"@, decimal(endpoint.load_balancing_weight as nat));
    lemma_fact(text2, name, part, "region"@, ""@);
    let text3 = text2 + fact(name, part, "region"@, ""@);
    lemma_fact(text3, name, part, "zone"@, ""@);
    let text4 = text3 + fact(name, part, "zone"@, ""@);
    lemma_fact(text4, name, part, "sub_zone"@, ""@);
    let text5 = text4 + fact(name, part, "sub_zone"@, ""@);
    lemma_fact(text5, name, part, "canary"@, "false"@);
    let text6 = text5 + fact(name, part, "canary"@, "false"@);
    lemma_fact(text6, name, part, "priority"@, decimal(priority as nat));
    let text7 = text6 + fact(name, part, "priority"@, decimal(priority as nat));
    lemma_fact(text7, name, part, "success_rate"@, "-1"@);
    let text8 = text7 + fact(name, part, "success_rate"@, "-1"@);
    lemma_fact(text8, name, part, "local_origin_success_rate"@, "-1"@);
}

proof fn lemma_host_on_one_line(address: Address, is_strict_dns: bool)
    requires
        on_one_line(address_text(address)),
    ensures
        on_one_line(hostname_of(address, is_strict_dns)),
{
    lemma_keys_on_one_line();
    if address is Socket {
        let host = address->Socket_0@;
        if host.contains('\n') {
            let i = choose|i: int| 0 <= i < host.len() && host[i] == '\n';
            assert(address_text(address)[i] == '\n');
        }
    }
}

proof fn lemma_settings_are_whole(
    name: Seq<char>,
    part: Seq<char>,
    endpoint: LbEndpoint,
    is_strict_dns: bool,
    priority: u32,
)
    ensures
        whole_lines(setting_text(name, part, endpoint, is_strict_dns, priority)),
{
    reveal(fact);
    reveal(setting_text);
    reveal_strlit("\n");
    let text = setting_text(name, part, endpoint, is_strict_dns, priority);
    let end = fact(name, part, "local_origin_success_rate"@, "-1"@);
    assert(end.len() > 0 && end.last() == '\n');
    assert(text.last() == end.last());
}

proof fn lemma_counts_are_whole(name: Seq<char>, part: Seq<char>, m: EndpointMetrics)
    ensures
        whole_lines(counts_text(name, part, m)),
{
    reveal(fact);
    reveal(counts_text);
    reveal_strlit("\n");
    let end = fact(name, part, "rq_total"@, decimal(m.rq_total as nat));
    assert(end.len() > 0 && end.last() == '\n');
    assert(counts_text(name, part, m).last() == end.last());
}

proof fn lemma_endpoint_is_whole(
    name: Seq<char>,
    endpoint: LbEndpoint,
    is_strict_dns: bool,
    priority: u32,
    m: EndpointMetrics,
    line: Seq<char>,
)
    ensures
        whole_lines(endpoint_text(name, endpoint, is_strict_dns, priority, m)),
        lines_of(counts_text(name, address_text(endpoint.address), m)).contains(line) ==> lines_of(
            endpoint_text(name, endpoint, is_strict_dns, priority, m),
        ).contains(line),
        lines_of(setting_text(name, address_text(endpoint.address), endpoint, is_strict_dns, priority)).contains(line)
            ==> lines_of(endpoint_text(name, endpoint, is_strict_dns, priority, m)).contains(line),
{
    let part = address_text(endpoint.address);
    lemma_counts_are_whole(name, part, m);
    lemma_settings_are_whole(name, part, endpoint, is_strict_dns, priority);
    lemma_both(counts_text(name, part, m), setting_text(name, part, endpoint, is_strict_dns, priority), line);
}

proof fn lemma_locality(
    name: Seq<char>,
    locality: LocalityLbEndpoints,
    is_strict_dns: bool,
    m: EndpointMetrics,
    n: int,
    e: int,
    line: Seq<char>,
)
    requires
        n <= locality.lb_endpoints@.len(),
    ensures
        whole_lines(locality_text(name, locality, is_strict_dns, m, n)),
        0 <= e < n && lines_of(
            endpoint_text(name, locality.lb_endpoints@[e], is_strict_dns, locality.priority, m),
        ).contains(line) ==> lines_of(locality_text(name, locality, is_strict_dns, m, n)).contains(line),
    decreases n,
{
    if n > 0 {
        lemma_locality(name, locality, is_strict_dns, m, n - 1, e, line);
        let last = locality.lb_endpoints@[n - 1];
        lemma_endpoint_is_whole(name, last, is_strict_dns, locality.priority, m, line);
        lemma_both(
            locality_text(name, locality, is_strict_dns, m, n - 1),
            endpoint_text(name, last, is_strict_dns, locality.priority, m),
            line,
        );
    }
}

proof fn lemma_localities(
    name: Seq<char>,
    localities: Seq<LocalityLbEndpoints>,
    is_strict_dns: bool,
    m: EndpointMetrics,
    n: int,
    l: int,
    line: Seq<char>,
)
    requires
        n <= localities.len(),
    ensures
        whole_lines(localities_text(name, localities, is_strict_dns, m, n)),
        0 <= l < n && lines_of(
            locality_text(name, localities[l], is_strict_dns, m, localities[l].lb_endpoints@.len() as int),
        ).contains(line) ==> lines_of(localities_text(name, localities, is_strict_dns, m, n)).contains(line),
    decreases n,
{
    if n > 0 {
        let last = localities[n - 1];
        let len = last.lb_endpoints@.len() as int;
        lemma_localities(name, localities, is_strict_dns, m, n - 1, l, line);
        lemma_locality(name, last, is_strict_dns, m, len, 0, line);
        lemma_both(
            localities_text(name, localities, is_strict_dns, m, n - 1),
            locality_text(name, last, is_strict_dns, m, len),
            line,
        );
    }
}

proof fn lemma_head_is_whole(cluster: ClusterConfig)
    ensures
        whole_lines(cluster_head(cluster)),
{
    reveal(own_fact);
    reveal_strlit("\n");
    let end = own_fact(cluster.name@, "added_via_api"@, "false"@);
    assert(end.len() > 0 && end.last() == '\n');
    assert(cluster_head(cluster).last() == end.last());
}

proof fn lemma_cluster_is_whole(cluster: ClusterConfig, metrics: ClusterMetrics, l: int, line: Seq<char>)
    ensures
        whole_lines(cluster_text(cluster, metrics)),
        lines_of(cluster_head(cluster)).contains(line) ==> lines_of(cluster_text(cluster, metrics)).contains(line),
        endpoints_of(cluster) matches Some(localities) ==> (lines_of(
            localities_text(
                cluster.name@,
                localities,
                cluster.discovery_settings is StrictDns,
                metrics_of(metrics, cluster.name@),
                localities.len() as int,
            ),
        ).contains(line) ==> lines_of(cluster_text(cluster, metrics)).contains(line)),
{
    lemma_head_is_whole(cluster);
    if endpoints_of(cluster) is Some {
        let localities = endpoints_of(cluster)->0;
        let is_strict_dns = cluster.discovery_settings is StrictDns;
        let m = metrics_of(metrics, cluster.name@);
        lemma_localities(cluster.name@, localities, is_strict_dns, m, localities.len() as int, l, line);
        lemma_both(
            cluster_head(cluster),
            localities_text(cluster.name@, localities, is_strict_dns, m, localities.len() as int),
            line,
        );
    }
}

proof fn lemma_clusters(clusters: Seq<ClusterConfig>, metrics: ClusterMetrics, i: int, line: Seq<char>)
    ensures
        whole_lines(clusters_text(clusters, metrics)),
        0 <= i < clusters.len() && lines_of(cluster_text(clusters[i], metrics)).contains(line) ==> lines_of(
            clusters_text(clusters, metrics),
        ).contains(line),
    decreases clusters.len(),
{
    if clusters.len() > 0 {
        let front = clusters.drop_last();
        lemma_clusters(front, metrics, i, line);
        lemma_cluster_is_whole(clusters.last(), metrics, 0, line);
        lemma_both(clusters_text(front, metrics), cluster_text(clusters.last(), metrics), line);
        if 0 <= i < front.len() {
            assert(front[i] == clusters[i]);
        }
    }
}

/// A line of an endpoint is a line of the whole status.
proof fn lemma_line_of_endpoint(
    clusters: Seq<ClusterConfig>,
    metrics: ClusterMetrics,
    i: int,
    l: int,
    e: int,
    line: Seq<char>,
)
    requires
        0 <= i < clusters.len(),
        endpoints_of(clusters[i]) is Some,
        0 <= l < endpoints_of(clusters[i])->0.len(),
        0 <= e < endpoints_of(clusters[i])->0[l].lb_endpoints@.len(),
        lines_of(
            endpoint_text(
                clusters[i].name@,
                endpoints_of(clusters[i])->0[l].lb_endpoints@[e],
                clusters[i].discovery_settings is StrictDns,
                endpoints_of(clusters[i])->0[l].priority,
                metrics_of(metrics, clusters[i].name@),
            ),
        ).contains(line),
    ensures
        lines_of(clusters_text(clusters, metrics)).contains(line),
{
    let cluster = clusters[i];
    let localities = endpoints_of(cluster)->0;
    let is_strict_dns = cluster.discovery_settings is StrictDns;
    let m = metrics_of(metrics, cluster.name@);
    lemma_locality(
        cluster.name@,
        localities[l],
        is_strict_dns,
        m,
        localities[l].lb_endpoints@.len() as int,
        e,
        line,
    );
    lemma_localities(cluster.name@, localities, is_strict_dns, m, localities.len() as int, l, line);
    lemma_cluster_is_whole(cluster, metrics, l, line);
    lemma_clusters(clusters, metrics, i, line);
}

/// Each endpoint of each cluster shows what was counted for its cluster, every
/// number behind its own key: the connections and the requests there are, those
/// there were, and those that failed. The requests that went well are those
/// that did not run out of time.
pub proof fn law_endpoint_shows_what_was_counted(
    clusters: Seq<ClusterConfig>,
    metrics: ClusterMetrics,
    i: int,
    l: int,
    e: int,
    m: EndpointMetrics,
)
    requires
        0 <= i < clusters.len(),
        endpoints_of(clusters[i]) is Some,
        0 <= l < endpoints_of(clusters[i])->0.len(),
        0 <= e < endpoints_of(clusters[i])->0[l].lb_endpoints@.len(),
        on_one_line(clusters[i].name@),
        on_one_line(address_text(endpoints_of(clusters[i])->0[l].lb_endpoints@[e].address)),
        have_counted(metrics, clusters[i].name@, m),
    ensures
        ({
            let text = clusters_text(clusters, metrics);
            let name = clusters[i].name@;
            let part = address_text(endpoints_of(clusters[i])->0[l].lb_endpoints@[e].address);
            &&& says(text, name, part, "cx_active"@, decimal(m.cx_active as nat))
            &&& says(text, name, part, "cx_connect_fail"@, decimal(m.cx_connect_fail as nat))
            &&& says(text, name, part, "cx_total"@, decimal(m.cx_total as nat))
            &&& says(text, name, part, "rq_active"@, decimal(m.rq_active as nat))
            &&& says(text, name, part, "rq_error"@, decimal(m.rq_timeout as nat))
            &&& says(text, name, part, "rq_timeout"@, decimal(m.rq_timeout as nat))
            &&& says(text, name, part, "rq_total"@, decimal(m.rq_total as nat))
            &&& m.rq_timeout <= m.rq_total ==> says(
                text,
                name,
                part,
                "rq_success"@,
                decimal((m.rq_total - m.rq_timeout) as nat),
            )
        }),
{
    let name = clusters[i].name@;
    let locality = endpoints_of(clusters[i])->0[l];
    let endpoint = locality.lb_endpoints@[e];
    let part = address_text(endpoint.address);
    assert(metrics_of(metrics, name) == m);
    lemma_counts(name, part, m);
    let lines = lines_of(counts_text(name, part, m));
    assert forall|k: int| 0 <= k < lines.len() implies lines_of(clusters_text(clusters, metrics)).contains(
        #[trigger] lines[k],
    ) by {
        lemma_endpoint_is_whole(
            name,
            endpoint,
            clusters[i].discovery_settings is StrictDns,
            locality.priority,
            m,
            lines[k],
        );
        lemma_line_of_endpoint(clusters, metrics, i, l, e, lines[k]);
    }
    assert(lines.len() == 8);
    assert(lines_of(clusters_text(clusters, metrics)).contains(lines[0]));
    assert(lines_of(clusters_text(clusters, metrics)).contains(lines[1]));
    assert(lines_of(clusters_text(clusters, metrics)).contains(lines[2]));
    assert(lines_of(clusters_text(clusters, metrics)).contains(lines[3]));
    assert(lines_of(clusters_text(clusters, metrics)).contains(lines[4]));
    assert(lines_of(clusters_text(clusters, metrics)).contains(lines[5]));
    assert(lines_of(clusters_text(clusters, metrics)).contains(lines[6]));
    assert(lines_of(clusters_text(clusters, metrics)).contains(lines[7]));
}

/// Each endpoint of each cluster shows how it is set up: its weight, the
/// priority of its locality, whether it is healthy, and its host where the
/// cluster finds its endpoints by name.
pub proof fn law_endpoint_shows_its_settings(
    clusters: Seq<ClusterConfig>,
    metrics: ClusterMetrics,
    i: int,
    l: int,
    e: int,
)
    requires
        0 <= i < clusters.len(),
        endpoints_of(clusters[i]) is Some,
        0 <= l < endpoints_of(clusters[i])->0.len(),
        0 <= e < endpoints_of(clusters[i])->0[l].lb_endpoints@.len(),
        on_one_line(clusters[i].name@),
        on_one_line(address_text(endpoints_of(clusters[i])->0[l].lb_endpoints@[e].address)),
    ensures
        ({
            let text = clusters_text(clusters, metrics);
            let name = clusters[i].name@;
            let locality = endpoints_of(clusters[i])->0[l];
            let endpoint = locality.lb_endpoints@[e];
            let part = address_text(endpoint.address);
            &&& says(text, name, part, "weight"@, decimal(endpoint.load_balancing_weight as nat))
            &&& says(text, name, part, "priority"@, decimal(locality.priority as nat))
            &&& endpoint.health_status == HealthStatus::Healthy ==> says(text, name, part, "health_flags"@, "healthy"@)
            &&& endpoint.health_status == HealthStatus::Unhealthy ==> says(
                text,
                name,
                part,
                "health_flags"@,
                "/failed_active_hc"@,
            )
            &&& endpoint.address is Socket && clusters[i].discovery_settings is StrictDns ==> says(
                text,
                name,
                part,
                "hostname"@,
                endpoint.address->Socket_0@,
            )
            &&& !(clusters[i].discovery_settings is StrictDns) ==> says(text, name, part, "hostname"@, ""@)
        }),
{
    let name = clusters[i].name@;
    let locality = endpoints_of(clusters[i])->0[l];
    let endpoint = locality.lb_endpoints@[e];
    let part = address_text(endpoint.address);
    let is_strict_dns = clusters[i].discovery_settings is StrictDns;
    lemma_host_on_one_line(endpoint.address, is_strict_dns);
    lemma_settings(name, part, endpoint, is_strict_dns, locality.priority);
    let lines = lines_of(setting_text(name, part, endpoint, is_strict_dns, locality.priority));
    assert forall|k: int| 0 <= k < lines.len() implies lines_of(clusters_text(clusters, metrics)).contains(
        #[trigger] lines[k],
    ) by {
        lemma_endpoint_is_whole(
            name,
            endpoint,
            is_strict_dns,
            locality.priority,
            metrics_of(metrics, name),
            lines[k],
        );
        lemma_line_of_endpoint(clusters, metrics, i, l, e, lines[k]);
    }
    assert(lines.len() == 10);
    assert(lines_of(clusters_text(clusters, metrics)).contains(lines[0]));
    assert(lines_of(clusters_text(clusters, metrics)).contains(lines[1]));
    assert(lines_of(clusters_text(clusters, metrics)).contains(lines[2]));
    assert(lines_of(clusters_text(clusters, metrics)).contains(lines[7]));
}

/// The lines of the limits of a cluster.
proof fn lemma_limits(name: Seq<char>, label: Seq<char>, t: CircuitBreakerThresholds)
    requires
        on_one_line(name),
        on_one_line(label),
    ensures
        whole_lines(limits_text(name, label, t)),
        ({
            let start = name + "::"@ + label + "::"@;
            lines_of(limits_text(name, label, t)) == seq![
                start + "max_connections"@ + "::"@ + decimal(t.max_connections as nat),
            ].push(start + "max_pending_requests"@ + "::"@ + decimal(DEFAULT_MAX_REQUESTS as nat)).push(
                start + "max_requests"@ + "::"@ + decimal(t.max_requests as nat),
            ).push(start + "max_retries"@ + "::"@ + decimal(t.max_retries as nat))
        }),
{
    reveal(limits_text);
    lemma_keys_on_one_line();
    lemma_number_on_one_line(t.max_connections as nat);
    lemma_number_on_one_line(DEFAULT_MAX_REQUESTS as nat);
    lemma_number_on_one_line(t.max_requests as nat);
    lemma_number_on_one_line(t.max_retries as nat);
    let a = fact(name, label, "max_connections"@, decimal(t.max_connections as nat));
    lemma_first_fact(name, label, "max_connections"@, decimal(t.max_connections as nat));
    lemma_fact(a, name, label, "max_pending_requests"@, decimal(DEFAULT_MAX_REQUESTS as nat));
    let b = a + fact(name, label, "max_pending_requests"@, decimal(DEFAULT_MAX_REQUESTS as nat));
    lemma_fact(b, name, label, "max_requests"@, decimal(t.max_requests as nat));
    let c = b + fact(name, label, "max_requests"@, decimal(t.max_requests as nat));
    lemma_fact(c, name, label, "max_retries"@, decimal(t.max_retries as nat));
}

proof fn lemma_limits_in_head(cluster: ClusterConfig, line: Seq<char>)
    requires
        on_one_line(cluster.name@),
    ensures
        lines_of(
            limits_text(cluster.name@, "default_priority"@, spec_thresholds(cluster, RoutingPriority::Default)),
        ).contains(line) ==> lines_of(cluster_head(cluster)).contains(line),
        lines_of(
            limits_text(cluster.name@, "high_priority"@, spec_thresholds(cluster, RoutingPriority::High)),
        ).contains(line) ==> lines_of(cluster_head(cluster)).contains(line),
{
    reveal(own_fact);
    reveal_strlit("\n");
    let name = cluster.name@;
    let first = own_fact(name, "observability_name"@, name);
    let usual = limits_text(name, "default_priority"@, spec_thresholds(cluster, RoutingPriority::Default));
    let high = limits_text(name, "high_priority"@, spec_thresholds(cluster, RoutingPriority::High));
    let end = own_fact(name, "added_via_api"@, "false"@);
    assert(first.last() == '\n' && end.last() == '\n');
    lemma_keys_on_one_line();
    lemma_limits(name, "default_priority"@, spec_thresholds(cluster, RoutingPriority::Default));
    lemma_limits(name, "high_priority"@, spec_thresholds(cluster, RoutingPriority::High));
    lemma_both(first, usual, line);
    lemma_both(first + usual, high, line);
    lemma_both(first + usual + high, end, line);
}

/// Each cluster shows the limits that hold for it, for either priority: those
/// that were stated last for the priority.
pub proof fn law_cluster_shows_its_limits(
    clusters: Seq<ClusterConfig>,
    metrics: ClusterMetrics,
    i: int,
    k: int,
    stated: Seq<CircuitBreakerThresholds>,
)
    requires
        0 <= i < clusters.len(),
        on_one_line(clusters[i].name@),
        clusters[i].circuit_breakers is Some,
        clusters[i].circuit_breakers->0@ == stated,
        0 <= k < stated.len(),
        forall|j: int| k < j < stated.len() ==> (#[trigger] stated[j]).priority != stated[k].priority,
    ensures
        ({
            let text = clusters_text(clusters, metrics);
            let name = clusters[i].name@;
            let part = if stated[k].priority == RoutingPriority::High {
                "high_priority"@
            } else {
                "default_priority"@
            };
            &&& says(text, name, part, "max_connections"@, decimal(stated[k].max_connections as nat))
            &&& says(text, name, part, "max_requests"@, decimal(stated[k].max_requests as nat))
            &&& says(text, name, part, "max_retries"@, decimal(stated[k].max_retries as nat))
        }),
{
    let cluster = clusters[i];
    let name = cluster.name@;
    let priority = stated[k].priority;
    let part = if priority == RoutingPriority::High {
        "high_priority"@
    } else {
        "default_priority"@
    };
    lemma_last_for(stated, k);
    lemma_keys_on_one_line();
    lemma_limits(name, part, stated[k]);
    let lines = lines_of(limits_text(name, part, stated[k]));
    assert forall|n: int| 0 <= n < lines.len() implies lines_of(clusters_text(clusters, metrics)).contains(
        #[trigger] lines[n],
    ) by {
        lemma_limits_in_head(cluster, lines[n]);
        lemma_cluster_is_whole(cluster, metrics, 0, lines[n]);
        lemma_clusters(clusters, metrics, i, lines[n]);
    }
    assert(lines.len() == 4);
    assert(lines_of(clusters_text(clusters, metrics)).contains(lines[0]));
    assert(lines_of(clusters_text(clusters, metrics)).contains(lines[2]));
    assert(lines_of(clusters_text(clusters, metrics)).contains(lines[3]));
}

proof fn lemma_last_for(stated: Seq<CircuitBreakerThresholds>, k: int)
    requires
        0 <= k < stated.len(),
        forall|j: int| k < j < stated.len() ==> (#[trigger] stated[j]).priority != stated[k].priority,
    ensures
        last_for(stated, stated[k].priority) == stated[k],
    decreases stated.len(),
{
    if k < stated.len() - 1 {
        assert(stated[stated.len() - 1].priority != stated[k].priority);
        let front = stated.drop_last();
        assert(front[k] == stated[k]);
        assert forall|j: int| k < j < front.len() implies (#[trigger] front[j]).priority != front[k].priority by {
            assert(front[j] == stated[j]);
        }
        lemma_last_for(front, k);
    }
}

} // verus!
