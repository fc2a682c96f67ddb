//! Which requests are traced, and what upstreams are told.

use orion::headers::{FieldName, FieldValue, Headers};
use orion::http_filters::HttpVersion;
use orion::http_tracer::{
    get_host_from_request, should_sample, should_sample_with, Draws, HttpTracer, Inbound,
    ScopedClientSpan, SpanKind, SpanName, SpanRequest, Told, TraceContext, TraceInfo, TraceProvider, TracingConfig,
};

const TRACE_ID: u128 = 0x4bf9_2f35_77b3_4da6_a3ce_929d_0e0e_4736;
const SPAN_ID: u64 = 0x00f0_67aa_0ba9_02b7;

fn config(share: Option<u16>, spawn_upstream_span: bool) -> TracingConfig {
    TracingConfig {
        client_sampling: share,
        random_sampling: share,
        overall_sampling: share,
        spawn_upstream_span,
    }
}

fn recording_tracer_config() -> TracingConfig {
    config(Some(100), true)
}

fn headers(fields: &[(&str, &str)]) -> Headers {
    let mut headers = Headers::new();
    for (name, value) in fields {
        let name = FieldName::parse(name).unwrap();
        let value = FieldValue::from_bytes(value.as_bytes().to_vec()).unwrap();
        headers.append(&name, &value).unwrap();
    }
    headers
}

fn nothing_inbound() -> Inbound {
    Inbound { parent: None, client_number: None, request_number: None }
}

fn inbound(provider: TraceProvider, sampled: bool) -> Inbound {
    let parent = TraceInfo { trace_id: TRACE_ID, span_id: Some(SPAN_ID), sampled, provider };
    Inbound { parent: Some(parent), ..nothing_inbound() }
}

const TRACEPARENT_SAMPLED: (&str, &str) = ("traceparent", "00-4bf92f3577b34da6a3ce929d0e0e4736-00f067aa0ba902b7-01");

#[test]
fn build_no_tracer() {
    let no_tracer = HttpTracer::new();
    let context = no_tracer.try_build_trace_context(&headers(&[]), nothing_inbound(), None, 1);
    assert!(context.is_none());
}

#[test]
fn build_default_http_tracer() {
    let tracer = HttpTracer::new().with_config(config(None, false));
    let context = tracer.try_build_trace_context(&headers(&[]), nothing_inbound(), None, 1);
    let Some(ref ctx) = context else {
        panic!("context should be Some");
    };
    assert!(ctx.parent.is_none());
    assert!(ctx.child.is_none());
    assert!(ctx.is_root_node());
    assert!(!ctx.should_sample());
}

#[test]
fn http_tracer_and_req_with_invalid_x_request_id() {
    let tracer = HttpTracer::new().with_config(config(None, false));
    let fields = headers(&[("X-Request-ID", "12345")]);
    let context = tracer.try_build_trace_context(&fields, nothing_inbound(), None, 1);
    let Some(ref ctx) = context else {
        panic!("context should be Some");
    };
    assert!(ctx.parent.is_none());
    assert!(ctx.child.is_none());
    assert!(ctx.is_root_node());
    assert!(!ctx.should_sample());
}

#[test]
fn http_tracer_and_req_with_valid_x_request_id() {
    let tracer = HttpTracer::new().with_config(config(None, false));
    let id = "9b13f5d0-9c42-4d27-a34f-08b7a8a5601a";
    let fields = headers(&[("X-Request-ID", id)]);
    let inbound =
        Inbound { request_number: Some(0x9b13_f5d0_9c42_4d27_a34f_08b7_a8a5_601a), ..nothing_inbound() };
    let mut context = tracer.try_build_trace_context(&fields, inbound, Some(id.as_bytes().to_vec()), 1);

    let span = tracer.try_create_span(&mut context, false, SpanKind::Server, SpanName::Str("test"), 2);
    assert!(span.is_none()); // None because no tracer is set up. The child node is created anyway.

    let Some(ref ctx) = context else {
        panic!("context should be Some");
    };
    assert!(ctx.parent.is_none());
    assert!(ctx.child.is_some());
    assert!(ctx.is_root_node());
    assert_eq!(ctx.child.map(|child| child.sampled), Some(true));
    assert!(ctx.should_sample());
}

#[test]
fn http_tracer_and_req_with_traceparent_with_sampling_100_percent() {
    let tracer = HttpTracer::new().with_config(config(Some(100), false));
    let fields = headers(&[TRACEPARENT_SAMPLED]);
    let inbound = inbound(TraceProvider::W3CTraceContext, true);
    let mut context = tracer.try_build_trace_context(&fields, inbound, None, 1);

    let span = tracer.try_create_span(&mut context, false, SpanKind::Server, SpanName::Str("test"), 2);
    assert!(span.is_none()); // None because no tracer is set up. The child node is created anyway.

    let Some(ref ctx) = context else {
        panic!("context should be Some");
    };
    assert!(ctx.parent.is_some());
    assert!(ctx.child.is_some());
    assert!(!ctx.is_root_node());
    assert_eq!(ctx.child.map(|child| child.sampled), Some(true));
    assert!(ctx.should_sample());
}

#[test]
fn invalid_w3c_tracestate_is_not_retained_or_propagated() {
    let tracer = HttpTracer::new().with_config(recording_tracer_config());
    let fields = headers(&[TRACEPARENT_SAMPLED, ("tracestate", "Vendor=value")]);
    let inbound = inbound(TraceProvider::W3CTraceContext, true);
    let mut context = tracer.try_build_trace_context(&fields, inbound, None, 1);

    assert!(context.as_ref().unwrap().tracestate.is_none());
    assert!(tracer.try_create_span(&mut context, false, SpanKind::Server, SpanName::Str("server"), 2).is_none());

    let (guard, _) = HttpTracer::begin_scoped_client_span(&context, false, "upstream", 3);
    let (_, tracestate) = guard.inject_headers().unwrap();
    assert!(tracestate.is_none());
}

#[test]
fn forced_root_server_context_has_span_id() {
    let tracer = HttpTracer::new().with_config(recording_tracer_config());
    let fields = headers(&[("x-envoy-force-trace", "true")]);
    let mut context = tracer.try_build_trace_context(&fields, nothing_inbound(), None, 77);

    assert!(tracer.try_create_span(&mut context, false, SpanKind::Server, SpanName::Str("server"), 2).is_none());

    let server =
        context.unwrap().child.expect("forced tracing must create a server propagation context");
    assert_ne!(server.trace_id, 0);
    assert!(server.span_id.is_some());
    assert_eq!((server.trace_id, server.span_id), (77, Some(2)));
}

#[test]
fn http_tracer_and_req_with_traceparent_and_sampling_0_percent() {
    let tracer = HttpTracer::new().with_config(config(Some(0), false));
    let fields = headers(&[TRACEPARENT_SAMPLED]);
    let inbound = inbound(TraceProvider::W3CTraceContext, true);
    let mut context = tracer.try_build_trace_context(&fields, inbound, None, 1);

    let span = tracer.try_create_span(&mut context, false, SpanKind::Server, SpanName::Str("test"), 2);
    assert!(span.is_none()); // None because no tracer is set up. The child node is created anyway.

    let Some(ref ctx) = context else {
        panic!("context should be Some");
    };
    assert!(ctx.parent.is_some());
    assert!(ctx.child.is_some());
    assert!(!ctx.is_root_node());
    assert!(ctx.should_sample());
}

#[test]
fn http_tracer_and_req_with_traceparent_with_sampled_false() {
    let tracer = HttpTracer::new().with_config(config(Some(100), false));
    let inbound = inbound(TraceProvider::W3CTraceContext, false);
    let mut context = tracer.try_build_trace_context(&headers(&[]), inbound, None, 1);

    let span = tracer.try_create_span(&mut context, false, SpanKind::Server, SpanName::Str("test"), 2);
    assert!(span.is_none()); // Unsampled contexts propagate but do not create a local span.

    let Some(ref ctx) = context else {
        panic!("context should be Some");
    };
    assert!(ctx.parent.is_some());
    assert!(ctx.child.is_some());
    assert_eq!(ctx.child.map(|child| child.sampled), Some(false));
    assert!(!ctx.is_root_node());
    assert!(!ctx.should_sample());
}

#[test]
fn build_no_tracer_create_span() {
    let no_tracer = HttpTracer::new();
    let mut context = no_tracer.try_build_trace_context(&headers(&[]), nothing_inbound(), None, 1);
    assert!(context.is_none());
    let span = no_tracer.try_create_span(&mut context, false, SpanKind::Server, SpanName::Str("test"), 2);
    assert!(span.is_none());
}

#[test]
fn build_tracer_no_sample_create_none_span() {
    let tracer = HttpTracer::new().with_config(config(Some(100), false));
    let inbound = inbound(TraceProvider::W3CTraceContext, false);
    let mut context = tracer.try_build_trace_context(&headers(&[]), inbound, None, 1);
    assert!(context.is_some());

    let span = tracer.try_create_span(&mut context, true, SpanKind::Server, SpanName::Str("test"), 2);
    assert!(span.is_none());
    assert!(context.as_ref().and_then(|ctx| ctx.parent).is_some());
    assert!(context.as_ref().and_then(|ctx| ctx.child).is_some());
    assert_eq!(context.as_ref().and_then(|ctx| ctx.child).map(|child| child.sampled), Some(false));
}

#[test]
fn scoped_client_without_recording_propagates_server_context_and_tracestate() {
    let tracer = HttpTracer::new().with_config(config(Some(100), false));
    let fields = headers(&[TRACEPARENT_SAMPLED, ("tracestate", "vendor=value")]);
    let inbound = inbound(TraceProvider::W3CTraceContext, true);
    let mut context = tracer.try_build_trace_context(&fields, inbound, None, 1);
    assert!(tracer.try_create_span(&mut context, false, SpanKind::Server, SpanName::Str("server"), 2).is_none());
    let server = context.as_ref().unwrap().child.unwrap();

    let (guard, plan) = HttpTracer::begin_scoped_client_span(&context, false, "upstream", 3);
    assert!(plan.is_none());
    let (propagated, tracestate) = guard.inject_headers().unwrap();
    assert_eq!(propagated.trace_id, server.trace_id);
    assert_eq!(propagated.span_id, server.span_id);
    assert_eq!(propagated.provider, server.provider);
    assert_eq!(propagated.sampled, server.sampled);
    assert_eq!(tracestate.unwrap().as_slice(), b"vendor=value");
    assert_eq!(context.unwrap().child, Some(server));
}

#[test]
fn scoped_client_preserves_inbound_propagation_provider() {
    let tracer = HttpTracer::new().with_config(config(Some(100), false));
    for provider in [TraceProvider::W3CTraceContext, TraceProvider::B3Multi] {
        let mut context =
            tracer.try_build_trace_context(&headers(&[]), inbound(provider, true), None, 1);
        assert!(tracer.try_create_span(&mut context, false, SpanKind::Server, SpanName::Str("server"), 2).is_none());
        let (guard, _) = HttpTracer::begin_scoped_client_span(&context, false, "upstream", 3);
        let (propagated, _) = guard.inject_headers().unwrap();
        assert_eq!(propagated.provider, provider);
        assert_eq!(propagated.trace_id, context.unwrap().child.unwrap().trace_id);
    }
}

#[test]
fn scoped_client_propagates_unsampled_inbound_context_without_recording() {
    let tracer = HttpTracer::new().with_config(config(Some(100), true));
    let inbound = inbound(TraceProvider::W3CTraceContext, false);
    let mut context = tracer.try_build_trace_context(&headers(&[]), inbound, None, 1);
    assert!(tracer.try_create_span(&mut context, true, SpanKind::Server, SpanName::Str("server"), 2).is_none());

    let (guard, plan) = HttpTracer::begin_scoped_client_span(&context, true, "upstream", 3);
    assert!(plan.is_none());
    let (propagated, _) = guard.inject_headers().unwrap();
    assert!(!propagated.sampled);
    let server = context.unwrap().child.unwrap();
    assert_eq!(propagated.trace_id, server.trace_id);
    assert_eq!(propagated.span_id, server.span_id);
}

#[test]
fn disabled_scoped_client_does_not_modify_headers() {
    assert!(ScopedClientSpan::disabled().inject_headers().is_none());
}

#[test]
fn a_recorded_call_hangs_below_the_server_span() {
    let tracer = HttpTracer::new().with_config(config(Some(100), true));
    let fields = headers(&[("tracestate", "vendor=value")]);
    let inbound = inbound(TraceProvider::W3CTraceContext, true);
    let mut context = tracer.try_build_trace_context(&fields, inbound, None, 1);
    let server = tracer.try_create_span(&mut context, true, SpanKind::Server, SpanName::Str("server"), 2).unwrap();
    assert_eq!((server.trace_id, server.span_id), (TRACE_ID, 2));
    let caller = server.parent.unwrap();
    assert_eq!(caller.span_id, SPAN_ID);
    assert!(caller.is_remote);
    assert_eq!(caller.trace_state.as_deref(), Some("vendor=value"));

    let (mut guard, plan) = HttpTracer::begin_scoped_client_span(&context, true, "upstream", 3);
    let plan = plan.unwrap();
    assert_eq!((plan.name.as_str(), plan.span_id), ("upstream", 3));
    let parent = plan.parent.unwrap();
    assert_eq!(parent.span_id, 2);
    assert!(!parent.is_remote);
    assert_eq!(guard.inject_headers().unwrap().0.span_id, Some(3));
    let (place, state) = tracer.update_tracing_headers(context.as_ref().unwrap()).unwrap();
    assert_eq!((place.trace_id, place.span_id), (TRACE_ID, Some(2)));
    assert_eq!(state.map(|bytes| bytes.as_slice()), Some(b"vendor=value".as_slice()));

    guard.set_attributes(vec![("k".to_owned(), "v".to_owned())]);
    guard.set_endpoint("cluster", "host:80");
    guard.set_http_status(503);
    guard.set_error("reset");
    let request = SpanRequest {
        method: "GET".to_owned(),
        url: "/a?b".to_owned(),
        path: "/a".to_owned(),
        query: Some("b".to_owned()),
        scheme: None,
        version: HttpVersion::Http2,
        headers: headers(&[("user-agent", "curl")]),
    };
    guard.set_http_request(&request);
    let told = guard.complete().unwrap();
    let texts: Vec<(&str, &str)> = told
        .iter()
        .filter_map(|t| match t {
            Told::Text(k, v) => Some((k.as_str(), v.as_str())),
            _ => None,
        })
        .collect();
    assert!(texts.contains(&("upstream.cluster.name", "cluster")));
    assert!(texts.contains(&("upstream.address", "host:80")));
    assert!(texts.contains(&("error.type", "reset")));
    assert!(texts.contains(&("network.protocol.version", "HTTP/2.0")));
    assert!(texts.contains(&("user_agent.original", "curl")));
    assert!(texts.contains(&("url.query", "b")));
    assert!(!texts.iter().any(|(k, _)| *k == "url.scheme"));
    assert!(matches!(&told[3], Told::Number(k, 503) if k == "http.response.status_code"));
    assert!(matches!(&told[4], Told::Failed(why) if why == "503 Service Unavailable"));
    assert!(matches!(told.last(), Some(Told::End)));
}

#[test]
fn a_span_for_the_upstream_needs_leave() {
    let tracer = HttpTracer::new().with_config(config(Some(100), false));
    assert!(!tracer.upstream_spans_enabled());
    let inbound = inbound(TraceProvider::Other(3), true);
    let mut context = tracer.try_build_trace_context(&headers(&[("tracestate", "a=b")]), inbound, None, 1);
    // Only one format knows of the state of tracing systems.
    assert!(context.as_ref().unwrap().tracestate.is_none());
    assert!(tracer.try_create_span(&mut context, true, SpanKind::Client, SpanName::Str("c"), 2).is_none());
    assert!(context.as_ref().unwrap().child.is_none());
    let allowed = HttpTracer::new().with_config(config(Some(100), true));
    assert!(allowed.upstream_spans_enabled());
    assert_eq!(allowed.try_create_span(&mut context, true, SpanKind::Client, SpanName::Str("c"), 2).unwrap().span_id, 2);
}

#[test]
fn shares_decide_over_requests_with_a_number() {
    let tracer = HttpTracer::new().with_config(TracingConfig {
        client_sampling: Some(50),
        random_sampling: Some(10),
        overall_sampling: Some(30),
        spawn_upstream_span: false,
    });
    let fields = headers(&[("x-client-trace-id", "abc")]);
    let inbound = Inbound { client_number: Some(9), request_number: Some(8), parent: None };
    let build = |trigger: u16, overall: u16| -> TraceContext {
        let draws = Draws { trigger, overall, fresh_trace_id: 5 };
        tracer.build_trace_context_with(&fields, inbound, Some(b"id".to_vec()), draws).unwrap()
    };
    assert_eq!(build(49, 29).trace_id, Some(9));
    assert_eq!(build(50, 29).trace_id, None);
    assert_eq!(build(49, 30).trace_id, None);
    assert!(!build(49, 30).should_sample());
    assert_eq!(build(0, 0).client_trace_id.as_deref(), Some(b"abc".as_slice()));

    let draws = Draws { trigger: 9, overall: 29, fresh_trace_id: 5 };
    let by_request = tracer.build_trace_context_with(&headers(&[]), inbound, Some(b"id".to_vec()), draws).unwrap();
    assert_eq!(by_request.trace_id, Some(8));
    let forced = headers(&[("x-envoy-force-trace", "true")]);
    let draws = Draws { trigger: 99, overall: 99, fresh_trace_id: 5 };
    let traced = tracer.build_trace_context_with(&forced, inbound, Some(b"id".to_vec()), draws).unwrap();
    assert_eq!(traced.trace_id, Some(8));
    assert!(traced.should_sample());
}

#[test]
fn all_or_nothing_needs_no_chance() {
    for _ in 0..200 {
        assert!(should_sample(None));
        assert!(should_sample(Some(100)));
        assert!(!should_sample(Some(0)));
    }
    // Of many draws some fall on either side of one half.
    let drawn: Vec<bool> = (0..200).map(|_| should_sample(Some(50))).collect();
    assert!(drawn.contains(&true) && drawn.contains(&false));
    assert!(should_sample_with(Some(5), 4));
    assert!(!should_sample_with(Some(5), 5));
}

#[test]
fn the_host_of_a_request_is_found() {
    let fields = headers(&[("host", "a.test")]);
    assert_eq!(get_host_from_request(&fields, Some("b.test")).as_deref(), Some("a.test"));
    assert_eq!(get_host_from_request(&headers(&[]), Some("b.test")).as_deref(), Some("b.test"));
    assert_eq!(get_host_from_request(&headers(&[]), None), None);
    assert_eq!(SpanName::Host(&fields, None).text(), "a.test");
    assert_eq!(SpanName::Host(&headers(&[]), None).text(), "no-host");
    assert_eq!(SpanName::Str("proxy").text(), "proxy");
}
