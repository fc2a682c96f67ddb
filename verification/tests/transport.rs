//! Connections to upstreams, the pools that keep them, and what goes over them.

use orion::address::{IpAddr, SocketAddr};
use orion::authority::Authority;
use orion::connector::{
    Address, BindDevice, ConnectAction, ConnectError, ConnectEvent, ConnectPhase, ConnectUsing, EventError,
    InternalConnector, IoFailure, LocalConnectorWithDNSResolver, UnifiedConnector,
};
use orion::headers::{FieldName, FieldValue, Headers};
use orion::http1_pool::{
    after_look, attach_permit, dst_uri, CheckoutStep, ConnState, ConnUse, Http1Permit, Http1PoolInner,
};
use orion::http2_pool::{
    attach_stream_permit, handshake_settings, send_failed, Http2PoolInner, Http2ProtocolOptions,
};
use orion::http_channel::{
    count_outcome, map_upstream_result, prepare_http1_request, prepare_http2_request, within_route_timeout,
    CircuitBreakerDenial, Codec, FailoverAction, FailoverState, HttpChannel, HttpChannelBuilder, HttpChannels,
    HttpProtocolOptions, PrepareError, ReplayRequest, Retries, RetryAction, RetryCircuitBreakerPermit, RetryCondition,
    RetryEvent, RetryPhase, RetryPlan, RoutingPriority, UpstreamCallOpts, UpstreamError, UpstreamReply,
    UpstreamRequest, Uri,
};
use orion::http_filters::{EventFailure, HttpVersion, ResponseFlags, UPSTREAM_CONNECTION_FAILURE};
use orion::instrumented_stream::{
    CallbackQueue, InstrumentedStream, IoError, IoErrorKind, PollResult, StreamMetrics,
};
use orion::internal_registry::InternalRegistry;
use orion::metadata::{DownstreamConnectionMetadata, DownstreamMetadata};
use orion::metrics::custom::{CustomMetric, CustomMetrics, CustomMetricsConfig};
use orion::metrics::{count_up, init_counter, GlobalMetrics};
use orion::partition_key::{PartitionKey, SourceHeaderName, SourceHeaderNameOrSni};
use orion::sharded::one_label;
use orion::tcp_channel::{PingoraTimer, TcpChannelConnector, UpstreamTransportSocketConfigurator};
use orion::tcp_proxy::{
    ByteCounts, Channel, StreamFault, TcpAction, TcpEvent, TcpOutcome, TcpPhase, TcpProxy, TcpProxyBuilder,
    TcpProxyConfig, UpstreamUnreachable,
};
use orion::tls_builder::{ClientPlan, RootCertStore, TrustChainVerification, WantsToBuildClient};
use orion::tls_configurator::TlsConfigurator;
use orion::tracked_stream::{ErrorSource, PollOutcome, TrackedStream};
use orion::truncated_debug::TruncatedDebug;
use std::sync::Arc;

const SECOND: u64 = 1_000_000_000;

fn authority(text: &str) -> Authority {
    Authority::parse(text.to_owned()).unwrap()
}

fn headers(fields: &[(&str, &str)]) -> Headers {
    let mut headers = Headers::new();
    for (name, value) in fields {
        let name = FieldName::parse(name).unwrap();
        headers.append(&name, &FieldValue::from_bytes(value.as_bytes().to_vec()).unwrap()).unwrap();
    }
    headers
}

fn at(port: u16) -> SocketAddr {
    SocketAddr { ip: IpAddr::V4(0x0a00_0001), port }
}

fn tls(sni: &str) -> TlsConfigurator<ClientPlan, WantsToBuildClient> {
    TlsConfigurator::new_client(
        vec![],
        None,
        Some(Arc::new(RootCertStore { roots: vec![vec![1]] })),
        None,
        None,
        sni.to_owned(),
        TrustChainVerification::VerifyTrustChain,
        &Ok(1),
    )
    .unwrap()
}

// Addresses and connectors

#[test]
fn an_authority_has_a_host_and_perhaps_a_port() {
    let full = authority("user@Host.test:8080");
    assert_eq!(full.as_str(), "user@Host.test:8080");
    assert_eq!(full.host(), "Host.test");
    assert_eq!(full.port(), Some(8080));
    assert_eq!(authority("[::1]").host(), "[::1]");
    assert_eq!(authority("h").port(), None);
    assert!(full.same(&full.copy()));
    assert!(!full.same(&authority("h")));
    assert!(!Authority::parse("a b".to_owned()).unwrap_err().is_empty());
    assert!(Authority::parse(String::new()).is_err());
}

#[test]
fn an_address_leads_somewhere() {
    let device = || Some(BindDevice { interface: "eth0".to_owned() });
    let way = ConnectUsing::from_address(&Address::Socket("h.test".to_owned(), 81), device(), Some(5)).unwrap();
    assert_eq!(way.authority().as_str(), "h.test:81");
    let way = way.with_timeout(Some(6)).with_bind_device(None);
    assert!(matches!(&way, ConnectUsing::Socket { bind_device: None, timeout: Some(6), .. }));
    let inside = ConnectUsing::from_address(&Address::Internal("l".to_owned()), None, None).unwrap();
    assert!(UnifiedConnector::new(&inside, "c", false).is_internal());
    assert!(!UnifiedConnector::new(&way, "c", false).is_internal());
    let pipe = ConnectUsing::from_address(&Address::Pipe("/p".to_owned()), None, None).unwrap_err();
    assert_eq!(pipe.message(), "Pipe addresses are not supported for upstream connections: /p");
    assert!(ConnectUsing::from_address(&Address::Socket("a b".to_owned(), 1), None, None).is_err());
}

fn connector(addr: &str, device: Option<&str>) -> LocalConnectorWithDNSResolver {
    LocalConnectorWithDNSResolver {
        addr: authority(addr),
        cluster_name: "c".to_owned(),
        bind_device: device.map(|d| BindDevice { interface: d.to_owned() }),
        timeout: Some(7),
    }
}

#[test]
fn a_connection_is_made_step_by_step() {
    let connector = connector("h.test:443", Some("eth0"));
    let (phase, action) = connector.connect();
    assert!(matches!(action, ConnectAction::Resolve { host, port: 443 } if host == "h.test"));
    let (phase, action) = connector.step(phase, ConnectEvent::Resolved(Ok(at(443))));
    assert!(matches!(action, ConnectAction::MakeSocket));
    let (phase, action) = connector.step(phase, ConnectEvent::SocketMade(Ok(())));
    assert!(matches!(action, ConnectAction::Bind(d) if d.interface == "eth0"));
    let (phase, action) = connector.step(phase, ConnectEvent::Bound(Ok(())));
    assert!(matches!(action, ConnectAction::Connect { addr, timeout: Some(7) } if addr == at(443)));
    let (phase, action) = connector.step(phase, ConnectEvent::Connected(Some(Ok(()))));
    assert!(matches!(action, ConnectAction::Finish));
    assert!(phase == ConnectPhase::Done);
}

#[test]
fn a_connection_can_fail_at_each_step() {
    let connector = connector("h.test:443", None);
    let (phase, _) = connector.connect();
    let no_host = IoFailure { kind: IoErrorKind::Numbered(40), text: "no such host".to_owned() };
    let (_, action) = connector.step(phase, ConnectEvent::Resolved(Err(no_host)));
    let ConnectAction::Fail(failure) = action else { panic!("no failure") };
    let ConnectError::Io(why) = &failure.error else { panic!("another error") };
    assert_eq!((why.kind, why.text.as_str()), (IoErrorKind::Numbered(40), "no such host"));
    assert_eq!(failure.context.upstream_addr.port, 443);
    assert_eq!(failure.context.cluster_name, "c");
    let (_, action) =
        connector.step(ConnectPhase::Connecting { addr: at(1) }, ConnectEvent::Connected(None));
    let ConnectAction::Fail(failure) = action else { panic!("no failure") };
    assert!(matches!(failure.error, ConnectError::Event(EventError::ConnectTimeout)));
    assert_eq!(failure.context.upstream_addr, at(1));
}

#[test]
fn a_target_without_a_port_is_refused_before_it_is_looked_up() {
    let (phase, action) = connector("example.com", None).connect();
    assert!(phase == ConnectPhase::Done);
    let ConnectAction::Fail(failure) = action else { panic!("no failure") };
    let ConnectError::Io(why) = &failure.error else { panic!("another error") };
    assert_eq!(why.kind, IoErrorKind::AddrNotAvailable);
    assert_eq!(why.text, "Port has to be set example.com");
    assert_eq!(failure.context.upstream_addr, SocketAddr::unspecified());
    assert_eq!(failure.context.response_flags.bits, UPSTREAM_CONNECTION_FAILURE);
    assert_eq!(failure.context.cluster_name, "c");
}

#[test]
fn a_listener_inside_is_reached_by_name() {
    let mut registry = InternalRegistry::new();
    let inside = InternalConnector { listener_name: "l".to_owned(), cluster_name: "c".to_owned(), is_http2: false };
    let missing = inside.connect(&registry, 1, None).unwrap_err();
    assert_eq!(missing.text, "Internal listener 'l' not found or not ready");
    assert_eq!(missing.kind, IoErrorKind::ConnectionRefused);
    assert_eq!(inside.not_sent("closed").text, "Failed to send connection to internal listener 'l': closed");
    registry.register(1, "l", 9);
    let (channel, metadata) = inside.connect(&registry, 1, None).unwrap();
    assert_eq!(channel, 9);
    assert_eq!(metadata.peer_address(), SocketAddr::loopback());
}

#[test]
fn a_fresh_connection_speaks_what_is_configured() {
    let outside = ConnectUsing::from_address(&Address::Socket("h".to_owned(), 1), None, None).unwrap();
    let plan = |socket, known| TcpChannelConnector::new(&outside, "c", socket).connect(known);
    let plain = plan(UpstreamTransportSocketConfigurator::Plain, true);
    assert!(!plain.write_proxy_header && plain.tls_server_name.is_none());
    let secure = plan(UpstreamTransportSocketConfigurator::Tls(tls("sni.test")), true);
    assert_eq!(secure.tls_server_name, Some(Ok("sni.test".to_owned())));
    let wrong = plan(UpstreamTransportSocketConfigurator::Tls(tls("no name")), true);
    assert_eq!(wrong.tls_server_name, Some(Err("no name".to_owned())));
    let proxied = || UpstreamTransportSocketConfigurator::ProxyProtocol { inner_tls_configurator: None };
    assert!(plan(proxied(), true).write_proxy_header);
    assert!(!plan(proxied(), false).write_proxy_header);
    let inside = ConnectUsing::from_address(&Address::Internal("l".to_owned()), None, None).unwrap();
    assert!(!TcpChannelConnector::new(&inside, "c", proxied()).connect(true).write_proxy_header);
    assert_eq!(PingoraTimer.sleep_until(9, 4), 5);
    assert_eq!(PingoraTimer.sleep_until(4, 9), 0);
}

// Pools

#[test]
fn the_last_idle_connection_is_used_first() {
    let mut pool = Http1PoolInner::new(10);
    assert!(matches!(pool.checkout(), CheckoutStep::Connect));
    pool.release(1, false, 100);
    pool.release(2, false, 105);
    pool.release(3, true, 105);
    assert_eq!(pool.len(), 2);
    pool.cleanup_expired(&vec![false, false], 111);
    assert_eq!(pool.len(), 1);
    assert!(matches!(pool.checkout(), CheckoutStep::Look(2)));
    assert!(matches!(after_look(ConnState::Closed), ConnUse::TryNext));
    assert!(matches!(after_look(ConnState::Busy), ConnUse::AwaitReady));
    assert!(matches!(after_look(ConnState::Ready), ConnUse::Use));
    pool.release(5, false, 0);
    assert_eq!(pool.pop(), Some(5));
    assert_eq!(pool.pop(), None);
}

#[test]
fn a_connection_is_free_when_its_response_ends() {
    let mut pool = Http1PoolInner::new(10);
    assert!(attach_permit(&mut pool, 1, 101, true, false, 0).is_none());
    assert_eq!(pool.len(), 0);
    assert!(attach_permit(&mut pool, 1, 200, true, false, 0).is_none());
    assert_eq!(pool.len(), 1);
    let permit = attach_permit(&mut pool, 2, 200, false, false, 0).unwrap();
    assert_eq!(pool.len(), 1);
    permit.on_body_end(&mut pool, true, false, false, 5);
    assert_eq!(pool.len(), 2);
    Http1Permit::new(3).on_body_end(&mut pool, false, false, false, 5);
    Http1Permit::new(3).on_body_end(&mut pool, true, true, true, 5);
    assert_eq!(pool.len(), 2);
    assert_eq!(dst_uri(&authority("h:1"), false), "http://h:1/");
    assert_eq!(dst_uri(&authority("h:1"), true), "https://h:1/");
}

#[test]
fn streams_share_a_connection_up_to_a_limit() {
    let mut pool = Http2PoolInner::new(10, Some(2));
    assert_eq!(pool.checkout(&vec![], 0), None);
    pool.insert(7, 0);
    // The stream that the connection was made for counts.
    assert_eq!(pool.checkout(&vec![false], 1), Some(7));
    assert_eq!(pool.checkout(&vec![false], 1), None);
    let permit = attach_stream_permit(&mut pool, 7, false).unwrap();
    permit.on_body_end(&mut pool, true);
    assert_eq!(pool.checkout(&vec![false], 2), Some(7));
    assert!(attach_stream_permit(&mut pool, 7, true).is_none());
    assert_eq!(pool.checkout(&vec![false], 3), Some(7));
    send_failed(&mut pool, 7);
    assert_eq!(pool.checkout(&vec![true], 4), None);
    pool.cleanup_expired(&vec![true], 4);
    assert_eq!(pool.len(), 0);
}

#[test]
fn a_busy_connection_outlives_its_idle_time() {
    let mut pool = Http2PoolInner::new(10, None);
    pool.insert(1, 0);
    pool.cleanup_expired(&vec![false], 100);
    assert_eq!(pool.len(), 1);
    send_failed(&mut pool, 1);
    pool.cleanup_expired(&vec![false], 200);
    assert_eq!(pool.len(), 0);
}

fn http2_options() -> Http2ProtocolOptions {
    Http2ProtocolOptions {
        keep_alive_interval: Some(SECOND),
        keep_alive_timeout: None,
        initial_stream_window_size: Some(70_000),
        initial_connection_window_size: None,
        max_concurrent_streams: Some(u64::MAX),
    }
}

#[test]
fn a_handshake_follows_the_options() {
    let settings = handshake_settings(&http2_options());
    assert_eq!(settings.keep_alive_interval, Some(SECOND));
    assert_eq!(settings.initial_stream_window_size, Some(70_000));
    assert_eq!(settings.initial_max_send_streams, Some(u64::MAX));
    assert_eq!(settings.max_concurrent_reset_streams, Some(u64::MAX));
    // More than the protocol can state is no limit.
    assert_eq!(settings.max_concurrent_streams, None);
    assert!(settings.keep_alive_while_idle && !settings.adaptive_window);
    let plain = Http2ProtocolOptions {
        keep_alive_interval: None,
        keep_alive_timeout: None,
        initial_stream_window_size: None,
        initial_connection_window_size: None,
        max_concurrent_streams: Some(8),
    };
    let settings = handshake_settings(&plain);
    assert_eq!(settings.max_concurrent_streams, Some(8));
    assert!(settings.adaptive_window && !settings.keep_alive_while_idle);
}

// Requests to upstreams

fn request(version: HttpVersion, scheme: Option<&str>, host: Option<&str>, fields: &[(&str, &str)]) -> UpstreamRequest {
    UpstreamRequest {
        version,
        uri: Uri {
            scheme: scheme.map(|s| s.to_owned()),
            authority: host.map(authority),
            path_and_query: Some("/p?q".to_owned()),
        },
        headers: headers(fields),
    }
}

#[test]
fn a_request_is_made_ready_for_http1() {
    let mut r = request(HttpVersion::Http2, Some("https"), Some("h.test"), &[]);
    prepare_http1_request(&mut r).unwrap();
    assert_eq!(r.headers.get("host"), Some(b"h.test".to_vec()));
    assert!(r.version == HttpVersion::Http11);
    assert!(r.uri.scheme.is_none() && r.uri.authority.is_none());
    assert_eq!(r.uri.path_and_query.as_deref(), Some("/p?q"));
    let mut r = request(HttpVersion::Http11, None, None, &[("host", "")]);
    assert!(matches!(prepare_http1_request(&mut r), Err(PrepareError::EmptyHost)));
}

#[test]
fn a_request_is_made_ready_for_http2() {
    let mut r = request(HttpVersion::Http11, None, None, &[("host", "h.test:1")]);
    prepare_http2_request(&mut r, true).unwrap();
    assert_eq!(r.uri.scheme.as_deref(), Some("https"));
    assert_eq!(r.uri.authority.as_ref().unwrap().as_str(), "h.test:1");
    assert!(r.headers.get("host").is_none());
    let refused = |fields: &[(&str, &str)], path: Option<&str>| {
        let mut r = request(HttpVersion::Http11, None, None, fields);
        r.uri.path_and_query = path.map(|p| p.to_owned());
        prepare_http2_request(&mut r, false).unwrap_err()
    };
    assert_eq!(refused(&[], Some("/")).message(), "Can't normalize uri: authority missing");
    assert_eq!(refused(&[("host", "h")], None).message(), "Can't normalize uri: path missing");
    assert!(matches!(refused(&[("host", "a b")], Some("/")), PrepareError::UnparsableAuthority(_)));
    assert!(matches!(refused(&[("host", "\u{e9}")], Some("/")), PrepareError::UnreadableHost));
}

fn options(codec: Codec) -> HttpProtocolOptions {
    HttpProtocolOptions { codec, enable_trailers: true, idle_timeout: None, http2_options: http2_options() }
}

fn channel(host: &str, codec: Codec) -> HttpChannel {
    let way = ConnectUsing::from_address(&Address::Socket(host.to_owned(), 80), None, None).unwrap();
    HttpChannelBuilder::new(way)
        .with_cluster_name("c".to_owned())
        .with_http_protocol_options(options(codec))
        .build()
        .unwrap()
}

#[test]
fn a_channel_is_built_as_configured() {
    let plain = channel("h.test", Codec::Http1);
    assert!(!plain.is_https());
    assert!(plain.http_version() == Codec::Http1);
    assert!(plain.enable_trailers);
    assert_eq!(plain.upstream_authority.as_str(), "h.test:80");
    assert!(!channel("h", Codec::Http2).enable_trailers);
    assert_eq!(plain.load(3), 3);

    let way = ConnectUsing::from_address(&Address::Socket("h.test".to_owned(), 443), None, None).unwrap();
    let secure = HttpChannelBuilder::new(way)
        .with_tls(Some(tls("ignored")))
        .with_server_name("name.test".to_owned())
        .with_http_protocol_options(options(Codec::Http2))
        .build()
        .unwrap();
    assert!(secure.is_https());

    let plan = plain.send_request(&mut request(HttpVersion::Http11, None, None, &[]), Some(9), true).unwrap();
    assert!(plan.with_retry && !plan.strip_trailers);
    assert_eq!(plan.timeout, Some(9));
    assert!(channel("h", Codec::Http2).send_with_policy(None, false).strip_trailers);
}

fn replay_request() -> ReplayRequest {
    ReplayRequest {
        method: "GET".to_owned(),
        parts: request(HttpVersion::Http11, None, None, &[("x-a", "1")]),
        body: Some(b"body".to_vec()),
    }
}

#[test]
fn retries_are_bounded_and_need_one_permit() {
    let sent = replay_request();
    let plan = RetryPlan { num_retries: 2, back_offs: vec![Some(5), None, None] };
    let again = || RetryEvent::Attempted(Some(RetryCondition { is_per_try_timeout: true, should_retry: true }));
    let (state, action) = plan.send_with_retry(&sent);
    assert!(matches!(action, RetryAction::Send(r) if r.method == "GET"));
    let (state, action) = plan.step(&sent, state, again());
    assert!(matches!(action, RetryAction::AskPermit));
    let (state, action) = plan.step(&sent, state, RetryEvent::Permit(true));
    assert!(matches!(action, RetryAction::Sleep(5)));
    let (state, action) = plan.step(&sent, state, RetryEvent::Slept);
    assert!(matches!(action, RetryAction::Send(r) if r.method == "GET"));
    let (state, action) = plan.step(&sent, state, again());
    assert!(matches!(action, RetryAction::Sleep(_)));
    let (state, _) = plan.step(&sent, state, RetryEvent::Slept);
    let (state, action) = plan.step(&sent, state, again());
    assert!(matches!(action, RetryAction::Return { release_permit: true }));
    assert!(state.phase == RetryPhase::Done);
    assert_eq!((state.retries.requests, state.retries.timeouts), (2, 3));

    let (state, _) = plan.send_with_retry(&sent);
    let (state, _) = plan.step(&sent, state, again());
    let (state, action) = plan.step(&sent, state, RetryEvent::Permit(false));
    assert!(matches!(action, RetryAction::ReturnOverflow));
    assert_eq!((state.retries.requests, state.retries.timeouts), (0, 1));
    let (state, _) = plan.send_with_retry(&sent);
    let (state, action) = plan.step(&sent, state, RetryEvent::Attempted(None));
    assert!(matches!(action, RetryAction::Return { release_permit: false }));
    assert_eq!((state.retries.requests, state.retries.timeouts), (0, 0));
    let (_, action) = RetryPlan { num_retries: 2, back_offs: vec![] }.send_with_retry(&sent);
    assert!(matches!(action, RetryAction::NoResult));

    assert!(RetryCircuitBreakerPermit::try_acquire("c", RoutingPriority::High, Ok(())).is_ok());
    assert!(RetryCircuitBreakerPermit::try_acquire("c", RoutingPriority::High, Err(CircuitBreakerDenial)).is_err());
}

#[test]
fn outcomes_become_answers() {
    assert!(matches!(within_route_timeout(None), Err(Some(UpstreamError::RouteTimeout))));
    let counts = count_outcome(&Err(Some(UpstreamError::RouteTimeout)), Retries { requests: 2, timeouts: 1 });
    assert_eq!((counts.total, counts.retry, counts.per_try_timeout, counts.timeout), (0, 2, 1, 1));
    let map = |outcome| map_upstream_result(outcome, ResponseFlags::empty(), 3, Some(10), HttpVersion::Http11);
    assert!(matches!(map(Ok(())), Some(UpstreamReply::Forward { body_timeout: Some(7) })));
    assert!(map(Err(None)).is_none());
    let status = |error| match map(Err(Some(error))) {
        Some(UpstreamReply::Synthetic(response)) => {
            assert!(matches!(response.failure, Some(EventFailure::Upstream(_))));
            (response.status, String::from_utf8(response.body).unwrap())
        },
        _ => panic!("no response"),
    };
    assert_eq!(status(UpstreamError::RefusedStream).0, 503);
    assert_eq!(status(UpstreamError::Io("x".to_owned())).0, 503);
    assert_eq!(status(UpstreamError::ConnectTimeout("x".to_owned())).0, 503);
    assert_eq!(status(UpstreamError::PerTryTimeout).0, 504);
    assert_eq!(status(UpstreamError::RouteTimeout).0, 504);
    assert_eq!(status(UpstreamError::Reset).0, 502);
    assert_eq!(status(UpstreamError::Http3PostConnectFailure).0, 502);
    assert_eq!(status(UpstreamError::Error("x".to_owned())), (500, "internal server error".to_owned()));
}

#[test]
fn the_next_channel_answers_when_one_fails() {
    let sent = replay_request();
    let plan = RetryPlan { num_retries: 2, back_offs: vec![None, None, None] };
    let opts = UpstreamCallOpts {
        route_timeout: Some(9),
        retry_policy: Some(&plan),
        priority: RoutingPriority::High,
    };
    let first = FailoverState { attempt: 0 };
    let single = HttpChannels::Single(channel("a", Codec::Http1));
    assert!(!single.replays());
    let (_, call) = single.first_call(&sent, opts);
    assert!(call.opts.retry_policy.is_some());
    assert!(matches!(single.to_response(first, &sent, opts, Ok(500)).1, FailoverAction::Return));

    let many = HttpChannels::MultiWithFailover {
        channel: channel("a", Codec::Http1),
        failover_channels: vec![channel("b", Codec::Http1)],
    };
    assert!(many.replays());
    assert_eq!(many.upstream_authority().as_str(), "a:80");
    assert_eq!(many.cluster_name(), "c");
    let (state, call) = many.first_call(&sent, opts);
    assert_eq!(call.channel.upstream_authority.as_str(), "a:80");
    assert!(call.opts.retry_policy.is_none());
    let (second, action) = many.to_response(state, &sent, opts, Ok(503));
    let FailoverAction::TryNext(call) = action else { panic!("no other channel") };
    assert_eq!(call.channel.upstream_authority.as_str(), "b:80");
    assert_eq!(call.request.method, "GET");
    assert_eq!(call.request.body.as_deref(), Some(b"body".as_slice()));
    assert_eq!(call.request.parts.headers.get("x-a"), Some(b"1".to_vec()));
    assert!(call.opts.retry_policy.is_none());
    assert_eq!(call.opts.route_timeout, Some(9));
    assert!(call.opts.priority == RoutingPriority::High);
    assert!(matches!(many.to_response(second, &sent, opts, Ok(503)).1, FailoverAction::Return));
    assert!(matches!(many.to_response(first, &sent, opts, Err(())).1, FailoverAction::TryNext(_)));
    assert!(matches!(many.to_response(first, &sent, opts, Ok(404)).1, FailoverAction::Return));
}

#[test]
fn an_exchange_is_counted() {
    let channel = channel("h", Codec::Http1);
    let mut clusters = GlobalMetrics::default().clusters;
    init_counter(&mut clusters.upstream_rq_active, "cluster", "active", "");
    init_counter(&mut clusters.upstream_rq_total, "cluster", "total", "");
    init_counter(&mut clusters.upstream_rq_retry, "cluster", "retry", "");
    init_counter(&mut clusters.upstream_rq_retry_overflow, "cluster", "overflow", "");
    let mut custom = Some(CustomMetrics::new(&CustomMetricsConfig {
        incoming_request: vec![],
        upstream_request: vec![CustomMetric::Counter {
            name: "n".to_owned(),
            description: String::new(),
            header_name: FieldName::parse("x-kind").unwrap(),
            attribute_name: None,
        }],
        incoming_response: vec![],
        downstream_response: vec![],
    }));
    let mut key: PartitionKey<SourceHeaderName> = PartitionKey::new();
    key.set_source(SourceHeaderName::HeaderName(FieldName::parse("x-tenant").unwrap()));
    let fields = headers(&[("x-kind", "a"), ("x-tenant", "t")]);
    channel.begin_request(&fields, &vec![key], &mut custom, &mut clusters, 0);
    let labels = one_label("cluster", "c");
    assert_eq!(clusters.upstream_rq_active.as_ref().unwrap().value.load(&labels), Some(1));
    let seen = custom.as_ref().unwrap().upstream_request.counters()[0].metric.value.load_all();
    assert!(seen[0].0.contains(&("custom".to_owned(), "t".to_owned())));

    let reply = channel.to_response(
        Ok(()),
        Retries { requests: 0, timeouts: 0 },
        ResponseFlags::empty(),
        1,
        None,
        HttpVersion::Http11,
        &mut clusters,
        0,
    );
    assert!(matches!(reply, Some(UpstreamReply::Forward { body_timeout: None })));
    assert_eq!(clusters.upstream_rq_active.as_ref().unwrap().value.load(&labels), Some(0));
    assert_eq!(clusters.upstream_rq_total.as_ref().unwrap().value.load(&labels), Some(1));
    assert_eq!(clusters.upstream_rq_retry.as_ref().unwrap().value.load(&labels), None);
    channel.count_retry_overflow(&mut clusters, 0);
    assert_eq!(clusters.upstream_rq_retry_overflow.as_ref().unwrap().value.load(&labels), Some(1));
}

// Streams

#[test]
fn bytes_are_counted_per_transaction() {
    let mut stream: InstrumentedStream<(), u64> = InstrumentedStream::new((), 10);
    stream.poll_read(&PollResult::Ready(5), 11);
    stream.poll_write(&PollResult::Ready(7), 12);
    stream.poll_read(&PollResult::Pending, 99);
    assert_eq!((stream.metrics().bytes_read(), stream.metrics().bytes_written()), (5, 7));
    stream.poll_write(&PollResult::Failed(IoError::Os(32)), 13);
    assert!(matches!(stream.error(), Some(IoError::Os(32))));
    assert!(stream.before_read().is_none());
    assert!(stream.poll_flush(&PollResult::Ready(())).is_none());
    let custom = IoError::Custom(IoErrorKind::Numbered(1), "x".to_owned());
    assert!(matches!(custom.clone_io_error(), IoError::Custom(IoErrorKind::Numbered(1), t) if t == "x"));
    stream.into_inner();
}

#[test]
fn a_transaction_counts_all_of_its_bytes_and_no_others() {
    let mut metrics: StreamMetrics<u64> = StreamMetrics::new(10);
    assert_eq!(metrics.txn_take_metrics(), (0, 0));
    let mut stream: InstrumentedStream<(), u64> = InstrumentedStream::new((), 10);
    assert_eq!((stream.metrics().txn_bytes_read(), stream.metrics().txn_bytes_written()), (0, 0));
    for bytes in [5, 0, 7, 11] {
        stream.poll_read(&PollResult::Ready(bytes), 11);
        stream.poll_write(&PollResult::Ready(2 * bytes), 12);
        stream.poll_read(&PollResult::Pending, 13);
    }
    assert_eq!((stream.metrics().txn_bytes_read(), stream.metrics().txn_bytes_written()), (23, 46));
}

#[test]
fn a_stream_keeps_the_error_that_came_last() {
    let mut stream: InstrumentedStream<(), u64> = InstrumentedStream::new((), 10);
    stream.poll_flush(&PollResult::Pending);
    assert!(stream.error().is_none());
    stream.poll_write(&PollResult::Failed(IoError::Os(32)), 11);
    stream.poll_read(&PollResult::Failed(IoError::Os(104)), 12);
    stream.poll_read(&PollResult::Ready(3), 13);
    stream.poll_write(&PollResult::Pending, 14);
    assert!(matches!(stream.error(), Some(IoError::Os(104))));
    stream.poll_flush(&PollResult::Failed(IoError::Os(5)));
    assert!(matches!(stream.error(), Some(IoError::Os(5))));
}

#[test]
fn a_transaction_takes_its_bytes() {
    let mut metrics = orion::instrumented_stream::StreamMetrics::<u64>::new(100);
    metrics.add_flush_callback(3);
    metrics.set_user_partition_key("u".to_owned());
    assert_eq!(metrics.inc_requests(), 0);
    assert_eq!(metrics.requests_counter(), 1);
    assert_eq!(metrics.txn_take_metrics(), (0, 0));
    let mut users = GlobalMetrics::default().user;
    init_counter(&mut users.connections_active, "user", "n", "");
    count_up(&mut users.connections_active, 1, 0, &one_label("user", "u"));
    let end = metrics.finish(150, &mut users, "user", 0);
    assert_eq!(end.callbacks, Some(vec![3]));
    assert_eq!(end.idle, 50);
    assert_eq!(users.connections_active.unwrap().value.load(&one_label("user", "u")), Some(0));
    let mut queue = CallbackQueue::new();
    queue.push(1);
    queue.push(2);
    assert_eq!(queue.drain(), Some(vec![1, 2]));
    assert_eq!(queue.drain(), None);
}

#[test]
fn the_side_of_an_error_is_remembered() {
    let mut stream = TrackedStream::new(());
    stream.poll_read(PollOutcome::Ready);
    assert!(stream.error_source == ErrorSource::NoError);
    stream.poll_write(PollOutcome::Failed);
    assert!(stream.error_source == ErrorSource::Write);
    stream.poll_read(PollOutcome::Failed);
    assert!(stream.error_source == ErrorSource::Read);
}

#[test]
fn long_texts_are_cut() {
    let pieces = |texts: &[&str]| texts.iter().map(|t| (*t).to_owned()).collect::<Vec<String>>();
    let short: TruncatedDebug<(), 5> = TruncatedDebug(&());
    assert_eq!(short.render(&pieces(&["ab", "cde"])), "abcde");
    assert!(short.render(&pieces(&["ab", "cdef"])).starts_with("abcde"));
    assert_ne!(short.render(&pieces(&["ab", "cdef"])), "abcde");
    assert!(short.render(&pieces(&["\u{e4}\u{e4}\u{e4}", "\u{e4}\u{e4}x"])).starts_with("\u{e4}\u{e4}\u{e4}\u{e4}\u{e4}"));
}

// The TCP proxy

fn tcp_proxy() -> TcpProxy {
    TcpProxyBuilder::new(TcpProxyConfig { cluster_specifier: "c".to_owned(), access_log: vec![] }).build()
}

#[test]
fn a_tcp_connection_goes_step_by_step() {
    let proxy = tcp_proxy();
    let (phase, action) = proxy.serve_connection();
    assert!(matches!(action, TcpAction::ResolveCluster(name) if name == "c"));
    let (phase, action) = proxy.step(phase, TcpEvent::Resolved(Some("c1".to_owned())));
    assert!(matches!(action, TcpAction::GetConnector(cluster) if cluster == "c1"));
    let (phase, action) = proxy.step(phase, TcpEvent::Chosen(Ok(())));
    assert!(matches!(action, TcpAction::Connect));
    let channel = Channel {
        cluster_name: "c1".to_owned(),
        upstream_local_addr: None,
        upstream_peer_addr: Some(at(4)),
    };
    let (phase, action) = proxy.step(phase, TcpEvent::Connected(Ok(channel)));
    assert!(matches!(action, TcpAction::Copy));
    let bytes = ByteCounts { received_down: 1, sent_down: 2, received_up: 3, sent_up: 4 };
    let event = TcpEvent::Copied { bytes, fault: None, downstream_failed: false, upstream_failed: true };
    let (phase, action) = proxy.step(phase, event);
    assert!(matches!(phase, TcpPhase::Done));
    let TcpAction::Finish(TcpOutcome::Copied { channel, bytes, fault, upstream_failed, .. }) = action else {
        panic!("nothing was copied")
    };
    assert_eq!(channel.upstream_peer_addr, Some(at(4)));
    assert_eq!((bytes.sent_up, fault.is_none(), upstream_failed), (4, true, true));
}

#[test]
fn a_tcp_connection_ends_where_it_fails() {
    let proxy = tcp_proxy();
    let (phase, _) = proxy.serve_connection();
    let (phase, action) = proxy.step(phase, TcpEvent::Resolved(None));
    assert!(matches!(phase, TcpPhase::Done));
    let TcpAction::Unresolved(unresolved) = action else { panic!("it was resolved") };
    assert_eq!(unresolved.message(), "Failed to resolve cluster from specifier");

    let (_, action) = proxy.step(TcpPhase::Choosing, TcpEvent::Chosen(Err(None)));
    assert!(matches!(action, TcpAction::Finish(TcpOutcome::NoConnector { fault: None })));
    let fault = StreamFault {
        transport_failure: "f".to_owned(),
        response_code: "r".to_owned(),
        termination: "t".to_owned(),
    };
    let failed = UpstreamUnreachable { context: None, fault: Some(fault) };
    let (phase, action) = proxy.step(TcpPhase::Connecting, TcpEvent::Connected(Err(failed)));
    assert!(matches!(phase, TcpPhase::Done));
    assert!(matches!(action, TcpAction::Finish(TcpOutcome::ConnectFailed { context: None, fault: Some(f) })
        if f.response_code == "r"));
}

#[test]
fn a_tcp_connection_is_reported() {
    let proxy = TcpProxyBuilder::new(TcpProxyConfig { cluster_specifier: "c".to_owned(), access_log: vec![] })
        .with_listener_name("l".to_owned())
        .with_filterchain_id(4)
        .build();
    let connection = DownstreamConnectionMetadata::FromSocket { peer_address: at(1), local_address: at(2) };
    let metadata = DownstreamMetadata::new(connection, Some("sni".to_owned()), "l".to_owned());
    let fault = || StreamFault {
        transport_failure: "refused".to_owned(),
        response_code: "via".to_owned(),
        termination: "end".to_owned(),
    };
    let none = proxy.report(&metadata, &TcpOutcome::NoConnector { fault: Some(fault()) });
    assert!(!none.served);
    assert_eq!(none.upstream_transport_failure_reason.as_deref(), Some("refused"));
    let failed = proxy.report(&metadata, &TcpOutcome::ConnectFailed { context: None, fault: None });
    assert_eq!(failed.cluster_name, "-");
    let copied = TcpOutcome::Copied {
        channel: Channel {
            cluster_name: "c1".to_owned(),
            upstream_local_addr: Some(at(3)),
            upstream_peer_addr: Some(at(4)),
        },
        bytes: ByteCounts { received_down: 10, sent_down: 20, received_up: 30, sent_up: 40 },
        fault: None,
        downstream_failed: false,
        upstream_failed: false,
    };
    let report = proxy.report(&metadata, &copied);
    assert!(report.served);
    assert_eq!((report.bytes_received, report.bytes_sent), (10, 20));
    assert_eq!(report.socket_address.upstream_peer_addr, Some(at(4)));

    let mut metrics = GlobalMetrics::default();
    init_counter(&mut metrics.clusters.upstream_cx_rx_bytes_total, "cluster", "rx", "");
    init_counter(&mut metrics.user.bytes_tx, "user", "tx", "");
    let mut key = PartitionKey::new();
    key.set_source(SourceHeaderNameOrSni::Sni);
    proxy.count_bytes(&metadata, &copied, &key, &mut metrics.clusters, &mut metrics.user, 0);
    let rx = metrics.clusters.upstream_cx_rx_bytes_total.unwrap();
    assert_eq!(rx.value.load(&one_label("cluster", "c1")), Some(30));
    let tx = metrics.user.bytes_tx.unwrap().value.load_all();
    assert_eq!(tx[0].1, 20);
    assert!(tx[0].0.contains(&("user".to_owned(), "sni".to_owned())));
}
