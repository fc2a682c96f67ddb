//! Listeners and the choice of a filter chain.

use orion::address::{IpAddr, IpNet, SocketAddr};
use orion::connector::BindDevice;
use orion::filter_chain::{select_filterchain, FilterChainMatch, ServerNameMatch};
use orion::internal_registry::InternalRegistry;
use orion::listener::{
    connection_closed, ConnectionAction, ConnectionEvent, ConnectionFailure, ConnectionHandler, ConnectionPhase,
    ConnectionRun, ConnectionSource, FilterchainType, HttpManager, InspectorResult, ListenerAction, ListenerBinding,
    ListenerConfig, ListenerContexts, ListenerEvent, ListenerFactory, RouteConfigurationChange, StartAction,
};
use orion::local_rate_limiter::TokenBucketConfig;
use orion::metadata::{ConnMeta, DownstreamConnectionMetadata, DownstreamMetadata, ProxyTransport};
use orion::metrics::{count_up, init_counter, init_histogram, GlobalMetrics};
use orion::sharded::{one_label, with_label};

const LOCALHOST: IpAddr = IpAddr::V4(0x7f00_0001);
const START: u128 = 1_000_000_000_000;
const MS: u128 = 1_000_000;

fn local(port: u16) -> SocketAddr {
    SocketAddr { ip: LOCALHOST, port }
}

fn from_socket(peer: u16, own: u16) -> DownstreamConnectionMetadata {
    DownstreamConnectionMetadata::FromSocket { peer_address: local(peer), local_address: local(own) }
}

fn named(names: &[&str]) -> FilterChainMatch {
    FilterChainMatch {
        server_names: names.iter().map(|n| ServerNameMatch::from_text(n)).collect(),
        ..FilterChainMatch::default()
    }
}

fn http_chain(name: &str, route_id: Option<&str>) -> FilterchainType {
    FilterchainType {
        name: name.to_owned(),
        tls_configurator: None,
        handler: ConnectionHandler::Http(HttpManager { route_id: route_id.map(|r| r.to_owned()), route: None }),
    }
}

fn config(binding: ListenerBinding, chains: Vec<(FilterChainMatch, FilterchainType)>) -> ListenerConfig {
    ListenerConfig {
        name: "listener_https".to_owned(),
        binding,
        filter_chains: chains,
        with_tls_inspector: false,
        with_proxy_protocol: false,
        rate_limit: None,
    }
}

fn on_port_8443(bind_device: Option<BindDevice>) -> ListenerBinding {
    let address = SocketAddr { ip: IpAddr::V4(0), port: 8443 };
    ListenerBinding::Socket { address, bind_device, tcp_backlog_size: 128 }
}

#[test]
fn listener_bind_device() {
    let chains = vec![(FilterChainMatch::default(), http_chain("filter_chain", None))];
    let binding = on_port_8443(Some(BindDevice { interface: "virt1".to_owned() }));
    let factory = ListenerFactory::new(config(binding, chains)).unwrap();
    match &factory.listener.binding {
        ListenerBinding::Socket { bind_device, .. } => {
            assert_eq!(bind_device.as_ref().unwrap().interface, "virt1");
        },
        ListenerBinding::Internal => panic!("Expected socket listener"),
    }
    let listener = factory.into_listener(1, START);
    match listener.start() {
        StartAction::Listen { address, bind_device, tcp_backlog_size } => {
            assert_eq!(address.port, 8443);
            assert_eq!(bind_device.unwrap().interface, "virt1");
            assert_eq!(tcp_backlog_size, 128);
        },
        StartAction::Register(_) => panic!("Expected socket listener"),
    }
    let (address, device) = listener.get_socket().unwrap();
    assert_eq!((address.port, device.unwrap().interface.as_str()), (8443, "virt1"));
}

#[test]
fn match_fallback_sni() {
    let chains = vec![(named(&["host1.test", "host2.test"]), 0), (FilterChainMatch::default(), 1)];
    let selected = select_filterchain(&chains, &from_socket(33000, 8443), None).unwrap();
    assert_eq!(selected.copied(), Some(1));
}

#[test]
fn sni_match_without_inspector_fails() {
    let chains = vec![(named(&["hostname.example"]), http_chain("filter_chain_https1", None))];
    let err = ListenerFactory::new(config(on_port_8443(None), chains)).unwrap_err();
    assert!(err
        .message()
        .contains("has server_names in filter_chain_match, but no TLS inspector so matches would always fail"));
}

#[test]
fn server_names_with_an_inspector_are_fine() {
    let chains = vec![(named(&["hostname.example"]), http_chain("c", None))];
    let mut config = config(on_port_8443(None), chains);
    config.with_tls_inspector = true;
    assert!(ListenerFactory::new(config).is_ok());
}

#[test]
fn filter_chain_multiple() {
    let mut rules = named(&["host.test", "*.wildcard"]);
    rules.destination_port = Some(443);
    rules.source_ports = vec![3300];
    rules.destination_prefix_ranges = vec![IpNet { addr: LOCALHOST, prefix_len: 32 }];
    let chains = vec![(rules, ())];
    let metadata = from_socket(3300, 443);

    assert!(matches!(select_filterchain(&chains, &metadata, Some("host.test")), Ok(Some(()))));
    assert!(matches!(select_filterchain(&chains, &metadata, Some("a.wildcard")), Ok(Some(()))));
    assert!(matches!(select_filterchain(&chains, &metadata, None), Ok(None)));
}

#[test]
fn most_specific_wins() {
    let chains = vec![
        (named(&["this.is.more.specific"]), 0),
        (named(&["*.more.specific"]), 1),
        (named(&["*.specific"]), 2),
        (named(&[]), 3),
    ];
    let metadata = from_socket(33000, 8443);
    let select = |name| select_filterchain(&chains, &metadata, name).unwrap().copied();
    assert_eq!(select(None), Some(3));
    assert_eq!(select(Some("this.is.more.specific")), Some(0));
    assert_eq!(select(Some("not.this.is.more.specific")), Some(1));
    assert_eq!(select(Some("is.more.specific")), Some(1));
    assert_eq!(select(Some("more.specific")), Some(2));
    assert_eq!(select(Some("this.is.less.specific")), Some(2));
    assert_eq!(select(Some("hello.world")), Some(3));

    // The order of the chains does not matter.
    let reversed: Vec<(FilterChainMatch, i32)> = chains.into_iter().rev().collect();
    let again = |name| select_filterchain(&reversed, &metadata, name).unwrap().copied();
    assert_eq!(again(Some("is.more.specific")), Some(1));
    assert_eq!(again(Some("more.specific")), Some(2));
}

#[test]
fn equally_specific_chains_are_ambiguous() {
    let chains = vec![(named(&["a.test"]), 0), (named(&["a.test"]), 1)];
    let err = select_filterchain(&chains, &from_socket(1, 2), Some("a.test")).unwrap_err();
    assert_eq!(err.message(), "multiple filterchains matched a single connection. This is a bug in orion!");
}

#[test]
fn longer_prefixes_and_ports_decide() {
    let wide = FilterChainMatch {
        destination_prefix_ranges: vec![IpNet { addr: LOCALHOST, prefix_len: 8 }],
        ..FilterChainMatch::default()
    };
    let narrow = FilterChainMatch {
        destination_prefix_ranges: vec![IpNet { addr: LOCALHOST, prefix_len: 24 }],
        ..FilterChainMatch::default()
    };
    let port = FilterChainMatch { destination_port: Some(9), ..FilterChainMatch::default() };
    let chains = vec![(wide, "wide"), (narrow, "narrow"), (port, "port")];
    assert_eq!(select_filterchain(&chains, &from_socket(1, 8), None).unwrap().copied(), Some("narrow"));
    // The port is looked at first.
    assert_eq!(select_filterchain(&chains, &from_socket(1, 9), None).unwrap().copied(), Some("port"));
    let elsewhere = DownstreamConnectionMetadata::FromSocket {
        peer_address: local(1),
        local_address: SocketAddr { ip: IpAddr::V4(0x7f01_0001), port: 8 },
    };
    assert_eq!(select_filterchain(&chains, &elsewhere, None).unwrap().copied(), Some("wide"));
    let other_family = DownstreamConnectionMetadata::FromSocket {
        peer_address: local(1),
        local_address: SocketAddr { ip: IpAddr::V6(1), port: 8 },
    };
    assert_eq!(select_filterchain(&chains, &other_family, None).unwrap(), None);
}

#[test]
fn a_full_prefix_is_one_address() {
    let one = IpNet { addr: IpAddr::V6(7), prefix_len: 128 };
    assert!(one.contains(IpAddr::V6(7)));
    assert!(!one.contains(IpAddr::V6(6)));
    let all = IpNet { addr: IpAddr::V4(7), prefix_len: 0 };
    assert!(all.contains(IpAddr::V4(u32::MAX)));
    assert!(!all.contains(IpAddr::V6(7)));
}

#[test]
fn the_addresses_of_a_proxy_header_win() {
    let connection = DownstreamConnectionMetadata::FromProxyProtocol {
        original_peer_address: local(1),
        original_destination_address: local(2),
        protocol: ProxyTransport::Stream,
        tlv_data: vec![],
        proxy_peer_address: local(3),
        proxy_local_address: local(4),
    };
    let meta = ConnMeta::new(DownstreamMetadata::new(connection, None, "l".to_owned()));
    assert_eq!(meta.downstream_peer_address(), local(1));
    assert_eq!(meta.downstream_local_address(), local(2));
    assert_eq!(meta.listener_name(), "l");
    let context = meta.downstream_socket_addr_context();
    assert_eq!(context.downstream_peer_addr, Some(local(1)));
    assert_eq!(context.downstream_local_addr, Some(local(2)));
    assert_eq!(context.upstream_peer_addr, None);
}

fn metrics() -> GlobalMetrics {
    let mut metrics = GlobalMetrics::default();
    let listeners = &mut metrics.listeners;
    init_counter(&mut listeners.downstream_cx_total, "listener", "total", "");
    init_counter(&mut listeners.downstream_cx_active, "listener", "active", "");
    init_counter(&mut listeners.downstream_cx_destroy, "listener", "destroy", "");
    init_histogram(&mut listeners.downstream_cx_length_ms, "listener", "length", "", &vec![10]);
    init_counter(&mut listeners.no_filter_chain_match, "listener", "no_match", "");
    init_counter(&mut metrics.filters.connection_rate_limit, "filter", "rate", "");
    init_counter(&mut metrics.http.downstream_cx_ssl_total, "http", "ssl_total", "");
    init_counter(&mut metrics.http.downstream_cx_ssl_active, "http", "ssl_active", "");
    init_counter(&mut metrics.tcp.cx_rx_bytes_received, "tcp", "rx", "");
    init_counter(&mut metrics.tcp.cx_tx_bytes_sent, "tcp", "tx", "");
    metrics
}

#[test]
fn a_listener_over_its_rate_turns_connections_away() {
    let mut limited = config(on_port_8443(None), vec![]);
    limited.with_proxy_protocol = true;
    limited.rate_limit =
        Some(("prefix".to_owned(), TokenBucketConfig { max_tokens: 1, tokens_per_fill: 1, fill_interval: 10 * MS }));
    // Two runtimes share the limit, so a token comes every twenty milliseconds.
    let mut listener = ListenerFactory::new(limited).unwrap().into_listener(2, START);
    let mut metrics = metrics();
    let mut accept = |now: u128, metrics: &mut GlobalMetrics| {
        let event = ListenerEvent::Accepted { peer_addr: local(5), local_address: None };
        listener.on_event(event, now, metrics, 0)
    };
    match accept(START, &mut metrics) {
        ListenerAction::Serve(ConnectionSource::Socket { local_address, peer_addr, has_proxy_protocol }) => {
            assert_eq!(local_address.port, 8443);
            assert_eq!(peer_addr, local(5));
            assert!(has_proxy_protocol);
        },
        other => panic!("{other:?}"),
    }
    assert!(matches!(accept(START + 10 * MS, &mut metrics), ListenerAction::Refuse));
    assert!(matches!(accept(START + 20 * MS, &mut metrics), ListenerAction::Serve(_)));

    let own = one_label("listener", "listener_https");
    let limit = with_label(&own, "filter", "prefix");
    let filters = metrics.filters.connection_rate_limit.as_ref().unwrap();
    assert_eq!(filters.value.load(&with_label(&limit, "result", "ok")), Some(2));
    assert_eq!(filters.value.load(&with_label(&limit, "result", "rate_limited")), Some(1));
    assert_eq!(metrics.listeners.downstream_cx_total.as_ref().unwrap().value.load(&own), Some(2));
}

#[test]
fn a_listener_stops_when_its_sources_end() {
    let mut listener = ListenerFactory::new(config(ListenerBinding::Internal, vec![])).unwrap().into_listener(1, START);
    assert!(matches!(listener.start(), StartAction::Register(name) if name == "listener_https"));
    assert!(listener.get_socket().is_none());
    let mut metrics = metrics();
    let stop = listener.on_event(ListenerEvent::InternalConnection(None), START, &mut metrics, 0);
    assert!(matches!(stop, ListenerAction::Stop(why) if why == "Internal listener channel closed"));
    let stop = listener.on_event(ListenerEvent::RouteUpdate(Err("closed".to_owned())), START, &mut metrics, 0);
    assert!(matches!(stop, ListenerAction::Stop(why) if why == "closed"));
    let stop = listener.on_event(ListenerEvent::SecretUpdate(Err("gone".to_owned())), START, &mut metrics, 0);
    assert!(matches!(stop, ListenerAction::Stop(why) if why == "gone"));
    let on = listener.on_event(ListenerEvent::AcceptFailed, START, &mut metrics, 0);
    assert!(matches!(on, ListenerAction::Continue));
}

#[test]
fn a_change_of_routes_reaches_the_chains_of_that_name() {
    let chains = vec![
        (FilterChainMatch::default(), http_chain("a", Some("r1"))),
        (FilterChainMatch::default(), http_chain("b", Some("r2"))),
    ];
    let mut listener = ListenerFactory::new(config(on_port_8443(None), chains)).unwrap().into_listener(1, START);
    let mut metrics = metrics();
    let change = RouteConfigurationChange::Added { id: "r1".to_owned(), route: 7, awaited: true };
    let action = listener.on_event(ListenerEvent::RouteUpdate(Ok(change)), START, &mut metrics, 0);
    assert!(matches!(action, ListenerAction::Notify));
    let route = |at: usize, l: &orion::listener::Listener| match &l.filter_chains[at].1.handler {
        ConnectionHandler::Http(manager) => manager.route,
        ConnectionHandler::Tcp => None,
    };
    assert_eq!(route(0, &listener), Some(7));
    assert_eq!(route(1, &listener), None);
    let change = RouteConfigurationChange::Removed { id: "r1".to_owned(), awaited: false };
    let action = listener.on_event(ListenerEvent::RouteUpdate(Ok(change)), START, &mut metrics, 0);
    assert!(matches!(action, ListenerAction::Continue));
    assert_eq!(route(0, &listener), None);
    let change = RouteConfigurationChange::Added { id: "other".to_owned(), route: 8, awaited: true };
    let action = listener.on_event(ListenerEvent::RouteUpdate(Ok(change)), START, &mut metrics, 0);
    assert!(matches!(action, ListenerAction::Continue));
}

#[test]
fn a_connection_goes_through_all_checks() {
    let chains = vec![(named(&["a.test"]), ()), (FilterChainMatch::default(), ())];
    let mut metrics = metrics();
    let source =
        ConnectionSource::Socket { local_address: local(443), peer_addr: local(999), has_proxy_protocol: true };
    let (mut run, action) =
        ConnectionRun::process_connection("l".to_owned(), &chains, true, source, &mut metrics, 0);
    assert!(matches!(action, ConnectionAction::Inspect));
    let found = ConnectionEvent::Inspected(InspectorResult::Success("a.test".to_owned()));
    let action = run.step(&chains, found, &mut metrics, 0);
    assert!(matches!(action, ConnectionAction::ReadProxyHeader { .. }));
    let action = run.step(&chains, ConnectionEvent::HeaderRead(Ok(from_socket(1, 2))), &mut metrics, 0);
    assert!(matches!(action, ConnectionAction::ApplyRateLimit { chain: 0 }));
    let action = run.step(&chains, ConnectionEvent::RateLimitChecked(Ok(())), &mut metrics, 0);
    assert!(matches!(action, ConnectionAction::ApplyRbac { chain: 0 }));
    match run.step(&chains, ConnectionEvent::RbacChecked(true), &mut metrics, 0) {
        ConnectionAction::StartChain { chain, metadata } => {
            assert_eq!(chain, 0);
            assert_eq!(metadata.sni.as_deref(), Some("a.test"));
            assert_eq!(metadata.connection.peer_address(), local(1));
        },
        other => panic!("{other:?}"),
    }
    let action = run.step(&chains, ConnectionEvent::ChainEnded(Ok(())), &mut metrics, 0);
    assert!(matches!(action, ConnectionAction::Return(Ok(()))));
    assert!(run.phase == ConnectionPhase::Done);

    let own = one_label("listener", "l");
    assert_eq!(metrics.http.downstream_cx_ssl_active.as_ref().unwrap().value.load(&own), Some(1));
    run.finish(12, &mut metrics, 0);
    assert_eq!(metrics.http.downstream_cx_ssl_active.as_ref().unwrap().value.load(&own), Some(0));
    assert_eq!(metrics.http.downstream_cx_ssl_total.as_ref().unwrap().value.load(&own), Some(1));
    assert_eq!(metrics.listeners.downstream_cx_destroy.as_ref().unwrap().value.load(&own), Some(1));
    assert_eq!(metrics.listeners.downstream_cx_length_ms.as_ref().unwrap().value.sum().load(&own), Some(12));

    let log =
        connection_closed("l", 3, 4, Some("reset".to_owned()), local(999), Some(local(443)), &mut metrics.tcp, 0);
    assert_eq!((log.wire_bytes_received, log.wire_bytes_sent), (3, 4));
    assert_eq!(log.termination_details.as_deref(), Some("reset"));
    assert_eq!(log.socket_address.downstream_peer_addr, Some(local(999)));
    assert_eq!(metrics.tcp.cx_rx_bytes_received.as_ref().unwrap().value.load(&own), Some(3));
    assert_eq!(metrics.tcp.cx_tx_bytes_sent.as_ref().unwrap().value.load(&own), Some(4));
}

#[test]
fn a_connection_can_fail_at_every_check() {
    let chains = vec![(FilterChainMatch { destination_port: Some(443), ..FilterChainMatch::default() }, ())];
    let mut metrics = metrics();
    let mut begin = |port: u16, header: bool| {
        let source =
            ConnectionSource::Socket { local_address: local(port), peer_addr: local(9), has_proxy_protocol: header };
        let begun = ConnectionRun::process_connection("l".to_owned(), &chains, false, source, &mut metrics, 0);
        begun
    };
    let (_, action) = begin(80, false);
    assert!(matches!(action, ConnectionAction::Return(Ok(()))));
    let (mut run, _) = begin(443, true);
    let (mut limited, _) = begin(443, false);
    let (mut denied, _) = begin(443, false);
    let own = one_label("listener", "l");
    assert_eq!(metrics.listeners.no_filter_chain_match.as_ref().unwrap().value.load(&own), Some(1));

    let action = run.step(&chains, ConnectionEvent::HeaderRead(Err("bad".to_owned())), &mut metrics, 0);
    assert!(matches!(action, ConnectionAction::Return(Err(ConnectionFailure::ProxyHeader(why))) if why == "bad"));
    let action =
        limited.step(&chains, ConnectionEvent::RateLimitChecked(Err("limit".to_owned())), &mut metrics, 0);
    assert!(matches!(action, ConnectionAction::Return(Err(ConnectionFailure::RateLimit(why))) if why == "limit"));
    denied.step(&chains, ConnectionEvent::RateLimitChecked(Ok(())), &mut metrics, 0);
    let action = denied.step(&chains, ConnectionEvent::RbacChecked(false), &mut metrics, 0);
    assert!(matches!(action, ConnectionAction::Return(Ok(()))));

    let twice = vec![(FilterChainMatch::default(), ()), (FilterChainMatch::default(), ())];
    let source = ConnectionSource::Internal { metadata: from_socket(1, 2) };
    let (_, action) = ConnectionRun::process_connection("l".to_owned(), &twice, false, source, &mut metrics, 0);
    assert!(matches!(action, ConnectionAction::Return(Err(ConnectionFailure::Ambiguous(_)))));
}

#[test]
fn a_listener_keeps_its_context() {
    let mut contexts = ListenerContexts::new();
    let a = contexts.get_listener_context("a").mcp.id;
    let b = contexts.get_listener_context("b").mcp.id;
    assert_ne!(a, b);
    assert_eq!(contexts.get_listener_context("a").mcp.id, a);
}

#[test]
fn an_internal_listener_is_registered_while_it_runs() {
    let mut registry = InternalRegistry::new();
    let mut metrics = GlobalMetrics::default();
    let mut listener = ListenerFactory::new(config(ListenerBinding::Internal, vec![])).unwrap().into_listener(1, START);
    let name = listener.get_name().to_owned();
    assert_eq!(listener.begin_run(Ok(()), &mut registry, 3, 9), None);
    assert_eq!(registry.get_connection_sender_for_listener(3, &name), Some(9));
    let on = listener.run_step(ListenerEvent::AcceptFailed, START, &mut metrics, 0, &mut registry, 3);
    assert!(matches!(on, ListenerAction::Continue));
    let event = ListenerEvent::InternalConnection(Some(from_socket(1, 2)));
    let on = listener.run_step(event, START, &mut metrics, 0, &mut registry, 3);
    assert!(matches!(on, ListenerAction::Serve(_)));
    assert_eq!(registry.get_connection_sender_for_listener(3, &name), Some(9));
    let end = listener.run_step(ListenerEvent::InternalConnection(None), START, &mut metrics, 0, &mut registry, 3);
    assert!(matches!(end, ListenerAction::Stop(why) if why == "Internal listener channel closed"));
    assert_eq!(registry.get_connection_sender_for_listener(3, &name), None);
    let socket = ListenerBinding::Socket { address: local(80), bind_device: None, tcp_backlog_size: 1 };
    let listener = ListenerFactory::new(config(socket, vec![])).unwrap().into_listener(1, START);
    let stopped = listener.begin_run(Err("address in use".to_owned()), &mut registry, 3, 9);
    assert_eq!(stopped.as_deref(), Some("address in use"));
    assert_eq!(registry.get_connection_sender_for_listener(3, &name), None);
}

#[test]
fn a_connection_with_tls_leaves_the_gauges_as_they_were() {
    let mut metrics = GlobalMetrics::default();
    init_counter(&mut metrics.http.downstream_cx_ssl_total, "http", "ssl_total", "");
    init_counter(&mut metrics.http.downstream_cx_ssl_active, "http", "ssl_active", "");
    init_counter(&mut metrics.listeners.downstream_cx_active, "listeners", "active", "");
    init_counter(&mut metrics.listeners.downstream_cx_destroy, "listeners", "destroy", "");
    let key = one_label("listener", "l");
    count_up(&mut metrics.listeners.downstream_cx_active, 2, 0, &key);
    count_up(&mut metrics.http.downstream_cx_ssl_active, 4, 0, &key);
    let chains = vec![(FilterChainMatch::default(), http_chain("a", None))];
    let source = ConnectionSource::Internal { metadata: from_socket(1, 2) };
    let (mut run, _) = ConnectionRun::process_connection("l".to_owned(), &chains, true, source, &mut metrics, 0);
    let events = vec![
        ConnectionEvent::Inspected(InspectorResult::SuccessNoSni),
        ConnectionEvent::RateLimitChecked(Ok(())),
        ConnectionEvent::RbacChecked(true),
        ConnectionEvent::ChainEnded(Err("reset".to_owned())),
    ];
    for event in events {
        run.step(&chains, event, &mut metrics, 0);
    }
    assert!(run.phase == ConnectionPhase::Done);
    assert_eq!(metrics.http.downstream_cx_ssl_active.as_ref().unwrap().value.load(&key), Some(5));
    run.finish(7, &mut metrics, 0);
    assert_eq!(metrics.http.downstream_cx_ssl_active.as_ref().unwrap().value.load(&key), Some(4));
    assert_eq!(metrics.http.downstream_cx_ssl_total.as_ref().unwrap().value.load(&key), Some(1));
    assert_eq!(metrics.listeners.downstream_cx_active.as_ref().unwrap().value.load(&key), Some(1));
    assert_eq!(metrics.listeners.downstream_cx_destroy.as_ref().unwrap().value.load(&key), Some(1));
}

#[test]
fn an_internal_listener_is_found_while_it_is_registered() {
    let mut registry = InternalRegistry::new();
    assert!(!registry.register(1, "l", 10));
    assert_eq!(registry.get_connection_sender_for_listener(1, "l"), Some(10));
    assert_eq!(registry.get_connection_sender_for_listener(2, "l"), None);
    assert!(registry.register(1, "l", 11));
    assert_eq!(registry.get_connection_sender_for_listener(1, "l"), Some(11));
    assert!(registry.unregister(1, "l"));
    assert!(!registry.unregister(1, "l"));
    assert_eq!(registry.get_connection_sender_for_listener(1, "l"), None);
}
