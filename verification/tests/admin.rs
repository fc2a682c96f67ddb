//! What the administration interface shows.

use orion::admin::canonical::{build_canonical_output, render as render_canonical};
use orion::admin::clusters_status::{
    build_clusters_output, thresholds_for, CircuitBreakerThresholds, ClusterConfig, ClusterDiscoveryType, HealthStatus,
    LbEndpoint, LocalityLbEndpoints,
};
use orion::admin::config_dump::{
    build_listeners_output, collect_endpoints, config_dump_handler, redact_secrets, ConfigDump, DataSource,
    ListenerDump, MainFilter, Secret, SecretKind, TlsCertificateSecret,
};
use orion::admin::prometheus::{build_prometheus_output, escape_label_value, render as render_prometheus};
use orion::admin::snapshot::{counter_snapshot, gauge_snapshot, histogram_snapshot};
use orion::admin::{
    get_certs, get_help, post_reset_counters, ready_handler, server_info_handler, ConfigQuery, QueryAction,
    CONFIG_QUERY_TIMEOUT,
};
use orion::connector::Address;
use orion::http_channel::RoutingPriority;
use orion::metrics::{count_up, init_counter, init_histogram, record, GlobalMetrics, Metric};
use orion::sharded::{one_label, with_label, Gauge};
use orion::stats::{
    get_memory_allocated, get_memory_heap_size, get_memory_physical_size, get_proxy_state, get_startup_time, init_startup_time, memory_report, memory_report_of,
    server_uptime, set_proxy_state, ProxyState, ServerStats,
};

const MS: u128 = 1_000_000;

#[test]
fn ready_endpoint_response() {
    let mut stats = ServerStats::default();

    // Before the proxy reports itself live, the answer must be a failure.
    assert_eq!(ready_handler(&stats).0, 503);

    set_proxy_state(&mut stats, ProxyState::Live);

    let (status, text) = ready_handler(&stats);
    assert_eq!(status, 200);
    assert_eq!(text, "LIVE");

    set_proxy_state(&mut stats, ProxyState::Draining);
    assert_eq!(ready_handler(&stats), (503, "DRAINING".to_owned()));
    assert_eq!(get_proxy_state(&stats), Some(ProxyState::Draining));
}

/// Runtimes that answer a question, or keep silent until the time is up.
struct Runtimes {
    replies: Vec<bool>,
    seen: Vec<usize>,
    now: u128,
}

impl Runtimes {
    fn new(replies: &[bool]) -> Runtimes {
        Runtimes { replies: replies.to_vec(), seen: vec![0; replies.len()], now: 7 }
    }

    fn query_within(&mut self, budget: u128) -> bool {
        let mut query = ConfigQuery::within(self.replies.len(), self.now, budget);
        let mut answered = false;
        loop {
            match query.step(answered, self.now) {
                QueryAction::Ask { runtime, timeout } => {
                    self.seen[runtime] += 1;
                    answered = self.replies[runtime];
                    if !answered {
                        // The time that is left is shared among those still to be asked.
                        self.now += timeout / 2;
                    }
                },
                QueryAction::Answered => return true,
                QueryAction::GiveUp => return false,
            }
        }
    }
}

/// A runtime that is busy is only asked when the idle one before it keeps
/// silent, so a question does not disturb it.
#[test]
fn a_busy_runtime_survives_a_config_query() {
    let mut runtimes = Runtimes::new(&[true, false]);
    for _endpoint in ["/certs", "/listeners", "/config_dump"] {
        assert!(runtimes.query_within(CONFIG_QUERY_TIMEOUT));
    }
    assert_eq!(runtimes.seen, [3, 0]);
}

#[test]
fn a_config_query_reaches_only_one_runtime() {
    let mut runtimes = Runtimes::new(&[true, true]);
    assert!(runtimes.query_within(CONFIG_QUERY_TIMEOUT), "no runtime answered the configuration query");
    assert_eq!(runtimes.seen[0], 1, "the first runtime should have been queried once");
    assert_eq!(runtimes.seen[1], 0, "the second runtime should not have been queried");
}

#[test]
fn a_silent_runtime_falls_through_to_the_next() {
    let mut runtimes = Runtimes::new(&[false, true]);
    assert!(runtimes.query_within(500 * MS), "the healthy runtime should have answered");
    assert_eq!(runtimes.seen[0], 1, "the silent runtime should have been tried first");
    assert_eq!(runtimes.seen[1], 1, "the healthy runtime should have been tried next");
}

#[test]
fn all_runtimes_silent_gives_up_within_the_budget() {
    let mut runtimes = Runtimes::new(&[false, false]);
    let budget = 500 * MS;
    let start = runtimes.now;
    assert!(!runtimes.query_within(budget));
    let elapsed = runtimes.now - start;
    assert!(elapsed < budget * 3, "gave up after {elapsed:?}, well past the budget");
}

#[test]
fn a_question_out_of_time_asks_nobody() {
    let mut query = ConfigQuery::within(3, 100, 0);
    assert_eq!(query.step(false, 100), QueryAction::GiveUp);
    let mut query = ConfigQuery::within(0, 100, 10);
    assert_eq!(query.step(false, 100), QueryAction::GiveUp);
    assert_eq!(CONFIG_QUERY_TIMEOUT, 5_000 * MS);
}

fn make_cluster(name: &str, discovery_settings: ClusterDiscoveryType) -> ClusterConfig {
    ClusterConfig { name: name.to_owned(), discovery_settings, circuit_breakers: None }
}

fn endpoints(host: &str, port: u16, health_status: HealthStatus) -> Vec<LocalityLbEndpoints> {
    vec![LocalityLbEndpoints {
        priority: 0,
        lb_endpoints: vec![LbEndpoint {
            address: Address::Socket(host.to_owned(), port),
            health_status,
            load_balancing_weight: 1,
        }],
    }]
}

#[test]
fn clusters_handler_outputs_envoy_style_stats() {
    let cluster = make_cluster(
        "clusters_test_static",
        ClusterDiscoveryType::Static(endpoints("127.0.0.1", 8080, HealthStatus::Healthy)),
    );
    let body = build_clusters_output(&vec![cluster], &GlobalMetrics::default().clusters);

    assert!(body.contains("clusters_test_static::observability_name::clusters_test_static\n"));
    assert!(body.contains("clusters_test_static::default_priority::max_connections::1024\n"));
    assert!(body.contains("clusters_test_static::default_priority::max_pending_requests::1024\n"));
    assert!(body.contains("clusters_test_static::default_priority::max_requests::1024\n"));
    assert!(body.contains("clusters_test_static::default_priority::max_retries::3\n"));
    assert!(body.contains("clusters_test_static::high_priority::max_connections::1024\n"));
    assert!(body.contains("clusters_test_static::added_via_api::false\n"));
    assert!(body.contains("clusters_test_static::127.0.0.1:8080::health_flags::healthy\n"));
    assert!(body.contains("clusters_test_static::127.0.0.1:8080::weight::1\n"));
    assert!(body.contains("clusters_test_static::127.0.0.1:8080::hostname::\n"));
    assert!(body.contains("clusters_test_static::127.0.0.1:8080::priority::0\n"));
    assert!(body.contains("clusters_test_static::127.0.0.1:8080::canary::false\n"));
    assert!(body.contains("clusters_test_static::127.0.0.1:8080::success_rate::-1\n"));
}

#[test]
fn clusters_handler_strict_dns_sets_hostname_and_unhealthy_flag() {
    let cluster = make_cluster(
        "clusters_test_dns",
        ClusterDiscoveryType::StrictDns(endpoints("upstream.example", 443, HealthStatus::Unhealthy)),
    );
    let body = build_clusters_output(&vec![cluster], &GlobalMetrics::default().clusters);

    assert!(body.contains("clusters_test_dns::upstream.example:443::hostname::upstream.example\n"));
    assert!(body.contains("clusters_test_dns::upstream.example:443::health_flags::/failed_active_hc\n"));
}

#[test]
fn clusters_handler_original_dst_has_no_endpoint_lines() {
    let cluster = make_cluster("clusters_test_odst", ClusterDiscoveryType::OriginalDst);
    let body = build_clusters_output(&vec![cluster], &GlobalMetrics::default().clusters);

    assert!(body.contains("clusters_test_odst::observability_name::clusters_test_odst\n"));
    assert!(body.contains("clusters_test_odst::added_via_api::false\n"));
    assert!(!body.contains("clusters_test_odst::127.0.0.1"));
}

#[test]
fn the_counts_of_a_cluster_are_shown_for_its_endpoints() {
    let mut metrics = GlobalMetrics::default().clusters;
    init_counter(&mut metrics.upstream_rq_total, "cluster", "n", "");
    init_counter(&mut metrics.upstream_rq_timeout, "cluster", "n", "");
    let key = one_label("cluster", "c");
    count_up(&mut metrics.upstream_rq_total, 5, 0, &key);
    count_up(&mut metrics.upstream_rq_timeout, 2, 0, &key);
    let mut cluster =
        make_cluster("c", ClusterDiscoveryType::Eds(Some(endpoints("h", 1, HealthStatus::Healthy))));
    cluster.circuit_breakers = Some(vec![
        CircuitBreakerThresholds {
            priority: RoutingPriority::High,
            max_connections: 7,
            max_requests: 8,
            max_retries: 9,
        },
    ]);
    assert_eq!(thresholds_for(&cluster, RoutingPriority::High).max_retries, 9);
    assert_eq!(thresholds_for(&cluster, RoutingPriority::Default).max_retries, 3);
    let body = build_clusters_output(&vec![cluster], &metrics);
    assert!(body.contains("c::high_priority::max_connections::7\n"));
    assert!(body.contains("c::h:1::rq_total::5\n"));
    assert!(body.contains("c::h:1::rq_timeout::2\n"));
    assert!(body.contains("c::h:1::cx_total::0\n"));
}

fn tls_secret(name: &str, chain: &str, key: &str) -> Secret {
    Secret {
        name: name.to_owned(),
        kind: SecretKind::TlsCertificate(TlsCertificateSecret {
            certificate_chain: DataSource::InlineString(chain.to_owned()),
            private_key: DataSource::InlineString(key.to_owned()),
        }),
    }
}

fn ca_secret(name: &str, ca: &str) -> Secret {
    Secret {
        name: name.to_owned(),
        kind: SecretKind::ValidationContext { trusted_ca: DataSource::InlineString(ca.to_owned()) },
    }
}

fn inline(source: &DataSource) -> &str {
    match source {
        DataSource::InlineString(text) => text,
        _ => panic!("no inline text"),
    }
}

fn certificate(secret: &Secret) -> &TlsCertificateSecret {
    match &secret.kind {
        SecretKind::TlsCertificate(certificate) => certificate,
        SecretKind::ValidationContext { .. } => panic!("no certificate"),
    }
}

fn trusted_ca(secret: &Secret) -> &str {
    match &secret.kind {
        SecretKind::ValidationContext { trusted_ca } => inline(trusted_ca),
        SecretKind::TlsCertificate(_) => panic!("no validation context"),
    }
}

fn empty_dump() -> ConfigDump {
    config_dump_handler(vec![], None, vec![], vec![])
}

#[test]
fn config_dump_bootstrap_secrets_redacted() {
    let secrets = vec![tls_secret("test_tls", "cert_data", "private_data"), ca_secret("test_validation", "ca_data")];
    let value = config_dump_handler(secrets, None, vec![], vec![]);
    let secrets = &value.bootstrap_secrets;
    assert_eq!(inline(&certificate(&secrets[0]).private_key), "[redacted]");
    assert_eq!(inline(&certificate(&secrets[0]).certificate_chain), "cert_data");
    assert_eq!(trusted_ca(&secrets[1]), "ca_data");
}

#[test]
fn redacting_twice_is_redacting_once() {
    let once = redact_secrets(vec![tls_secret("t", "cert_data", "private_data"), ca_secret("v", "ca_data")]);
    let twice = redact_secrets(redact_secrets(vec![
        tls_secret("t", "cert_data", "private_data"),
        ca_secret("v", "ca_data"),
    ]));
    assert_eq!(format!("{once:?}"), format!("{twice:?}"));
    assert_eq!(inline(&certificate(&twice[0]).private_key), "[redacted]");
}

#[test]
fn config_dump_listeners_and_routes() {
    let listener = ListenerDump {
        name: "listener1".to_owned(),
        address: Some("127.0.0.1:8080".to_owned()),
        filter_chains: vec![MainFilter::Tcp, MainFilter::Http { route_specifier: 41 }],
    };
    let value = config_dump_handler(vec![], Some(vec![listener]), vec![], vec![]);
    assert_eq!(value.listeners.as_ref().unwrap()[0].name, "listener1");
    assert_eq!(value.routes.unwrap()[0], 41);
    assert!(empty_dump().listeners.is_none());
    assert!(empty_dump().routes.is_none());
}

#[test]
fn config_dump_clusters() {
    let cluster =
        make_cluster("cluster1", ClusterDiscoveryType::Static(endpoints("127.0.0.1", 9000, HealthStatus::Healthy)));
    let value = config_dump_handler(vec![], None, vec![cluster], vec![]);
    assert_eq!(value.clusters.unwrap()[0].name, "cluster1");
    assert!(empty_dump().clusters.is_none());
}

#[test]
fn config_dump_endpoints() {
    let cluster =
        make_cluster("cluster1", ClusterDiscoveryType::Static(endpoints("127.0.0.1", 9000, HealthStatus::Healthy)));
    let value = config_dump_handler(vec![], None, vec![cluster], vec![]);
    let (cluster, place) = value.endpoints.unwrap()[0];
    let clusters = value.clusters.unwrap();
    let ClusterDiscoveryType::Static(endpoints) = &clusters[cluster].discovery_settings else {
        panic!("not static");
    };
    assert!(matches!(&endpoints[place].lb_endpoints[0].address, Address::Socket(h, 9000) if h == "127.0.0.1"));
    assert!(empty_dump().endpoints.is_none());
    assert!(collect_endpoints(&vec![make_cluster("o", ClusterDiscoveryType::OriginalDst)]).is_none());
}

#[test]
fn config_dump_secrets() {
    let ca_pem = "a chain of certificates";
    let secrets =
        vec![tls_secret("beefcake_dublin", "a certificate", "a key"), ca_secret("beefcake_ca", ca_pem)];
    let value = config_dump_handler(vec![], None, vec![], secrets);
    let secrets = value.secrets.unwrap();
    assert_eq!(secrets[0].name, "beefcake_dublin");
    assert_eq!(secrets[1].name, "beefcake_ca");
    // Check redaction
    assert_eq!(inline(&certificate(&secrets[0]).private_key), "[redacted]");
    assert_eq!(trusted_ca(&secrets[1]), ca_pem);
    assert!(empty_dump().secrets.is_none());
}

#[test]
fn listeners_are_shown_with_their_addresses() {
    let listeners = vec![
        ListenerDump { name: "a".to_owned(), address: Some("0.0.0.0:80".to_owned()), filter_chains: vec![] },
        ListenerDump { name: "b".to_owned(), address: None, filter_chains: vec![] },
    ];
    assert_eq!(build_listeners_output(&listeners), "a::0.0.0.0:80\nb::\n");
}

#[test]
fn the_help_names_what_is_there() {
    let all = get_help(true, true, true);
    assert!(all.contains("/config_dump") && all.contains("/ready"));
    assert!(!get_help(false, true, true).contains("/config_dump"));
}

#[test]
fn certificates_are_printed_without_their_keys() {
    let mut secrets = vec![tls_secret("t", "cert_data", "private_data"), ca_secret("v", "ca_data")];
    assert_eq!(get_certs(&secrets), "t::certificate_chain::cert_data\nv::trusted_ca::ca_data\n");
    secrets[1].kind = SecretKind::ValidationContext { trusted_ca: DataSource::Path("/etc/ca.pem".to_owned()) };
    secrets.push(Secret {
        name: "b".to_owned(),
        kind: SecretKind::ValidationContext { trusted_ca: DataSource::InlineBytes(vec![77, 97, 110]) },
    });
    assert_eq!(
        get_certs(&secrets),
        "t::certificate_chain::cert_data\nv::trusted_ca::/etc/ca.pem\nb::trusted_ca::TWFu\n"
    );
    assert_eq!(get_certs(&redact_secrets(secrets)).lines().count(), 3);
    assert_eq!(get_certs(&vec![]), "");
}

#[test]
fn the_server_tells_its_version_and_status() {
    let mut stats = ServerStats::default();
    assert_eq!(
        server_info_handler("1.2.3", &stats, 9),
        "version: 1.2.3\nstate: INITIALIZING\nuptime_seconds: 0\n"
    );
    init_startup_time(&mut stats, 1_000_000_000);
    set_proxy_state(&mut stats, ProxyState::Live);
    assert_eq!(
        server_info_handler("1.2.3", &stats, 8_500_000_000),
        "version: 1.2.3\nstate: LIVE\nuptime_seconds: 7\n"
    );
}

#[test]
fn counters_can_be_reset() {
    let mut metrics = GlobalMetrics::default();
    init_counter(&mut metrics.tcp.cx_tx_bytes_sent, "tcp", "n", "");
    let key = one_label("listener", "l");
    count_up(&mut metrics.tcp.cx_tx_bytes_sent, 5, 0, &key);
    init_counter(&mut metrics.mcp.tool_rq_total, "mcp", "n", "");
    count_up(&mut metrics.mcp.tool_rq_total, 5, 0, &key);
    assert_eq!(post_reset_counters(&mut metrics), "OK");
    assert_eq!(metrics.mcp.tool_rq_total.as_ref().unwrap().value.load(&key), None);
    assert_eq!(metrics.tcp.cx_tx_bytes_sent.unwrap().value.load(&key), None);
}

#[test]
fn metrics_are_shown_in_both_forms() {
    let mut counter = None;
    init_counter(&mut counter, "http", "requests", "All requests");
    let labels = with_label(&one_label("listener", "l"), "path", "a\"b\\c\nd");
    count_up(&mut counter, 3, 0, &labels);
    let mut histogram = None;
    init_histogram(&mut histogram, "http", "length", "Length", &vec![10, 20, u64::MAX]);
    record(&mut histogram, 15, 0, &one_label("listener", "l"));
    let mut gauge = Some(Metric::new("http", "level", "Level", Gauge::new()));
    gauge.as_mut().unwrap().value.record(4, &vec![]);

    let shots = vec![
        counter_snapshot(&counter, false),
        histogram_snapshot(&histogram),
        gauge_snapshot(&gauge),
        counter_snapshot(&None, false),
    ];
    let prometheus = render_prometheus(&shots);
    println!("{prometheus}");
    assert!(prometheus.contains("# TYPE"));
    assert!(prometheus.contains(r#"path="a\"b\\c\nd""#));
    assert!(prometheus.contains("le=\"20\""));
    assert!(prometheus.contains("le=\"+Inf\""));
    let canonical = render_canonical(&shots);
    println!("{canonical}");
    assert!(canonical.contains("requests"));
    assert!(canonical.contains(": 3"));
    assert!(canonical.contains(": 4"));
    assert_eq!(escape_label_value("a\"\\\n"), "a\\\"\\\\\\n");
    assert_eq!(escape_label_value("plain text, {}"), "plain text, {}");

    // Metrics that are not set up are not shown.
    let nothing = GlobalMetrics::default();
    assert_eq!(build_canonical_output(&nothing), "");
    assert_eq!(build_prometheus_output(&nothing), "");
}

#[test]
fn the_startup_time_is_kept() {
    let mut stats = ServerStats::default();
    assert_eq!(server_uptime(&stats, 5), 0);
    init_startup_time(&mut stats, 1_000_000_000);
    init_startup_time(&mut stats, 9_000_000_000);
    assert_eq!(get_startup_time(&stats), Some(1_000_000_000));
    assert_eq!(server_uptime(&stats, 3_999_999_999), 2);
    assert_eq!(server_uptime(&stats, 0), 0);
}

#[test]
fn memory_is_reported() {
    let report = memory_report_of(Some(7), None, Some(3));
    assert_eq!((report.physical, report.heap_size, report.allocated), (7, 7, 3));
    let report = memory_report_of(None, None, None);
    assert_eq!((report.physical, report.heap_size, report.allocated), (0, 0, 0));
    let physical = get_memory_physical_size();
    assert!(physical.unwrap_or(1) > 0);
    // The pages of the heap hold at least what is allocated on it.
    let (heap_size, allocated) = (get_memory_heap_size(), get_memory_allocated());
    assert!(heap_size.zip(allocated).is_none_or(|(pages, bytes)| pages >= bytes));
    let report = memory_report();
    assert_eq!(report.physical > 0, get_memory_physical_size().is_some());
}
