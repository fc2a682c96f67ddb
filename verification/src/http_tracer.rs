//! Which requests are traced, and how their spans hang together.
//!
//! New identifiers are random; the caller draws them and hands them in.

use crate::headers::{
    bytes_of, first_value_under, header_text, is_readable, readable_text, text_of, to_text, FieldName, Fields, Headers,
};
use crate::hostcalls::valid_status;
use crate::http_filters::HttpVersion;
use vstd::prelude::*;

verus! {

/// Whether a text is a list of the states of tracing systems.
pub uninterp spec fn is_trace_state(text: Seq<char>) -> bool;

/// `opentelemetry::trace::TraceState::from_str`: whether it accepts the text.
#[verifier::external_body]
fn trace_state_is_valid(text: &str) -> (valid: bool)
    ensures
        valid == is_trace_state(text@),
{
    text.parse::<opentelemetry::trace::TraceState>().is_ok()
}

/// `rand::Rng::random_range`, on the range from zero: a number below the
/// bound, by chance. An empty range makes it panic.
#[verifier::external_body]
fn random_below(bound: u16) -> (n: u16)
    requires
        bound > 0,
    ensures
        n < bound,
{
    rand::Rng::random_range(&mut rand::rng(), 0..bound)
}

/// The number of a status and its reason, in words.
pub uninterp spec fn status_words(code: u16) -> Seq<char>;

/// `http::StatusCode::from_u16` and the `Display` of what it gives: the
/// number of a status and its reason, in words.
#[verifier::external_body]
fn show_status(code: u16) -> (text: String)
    requires
        valid_status(code as int),
    ensures
        text@ == status_words(code),
{
    http::StatusCode::from_u16(code).unwrap().to_string()
}

/// The format in which a trace is handed on.
#[derive(Debug, Clone, Copy, PartialEq, Eq, Structural)]
pub enum TraceProvider {
    W3CTraceContext,
    B3Multi,
    Other(u32),
}

/// A place in a trace.
#[derive(Debug, Clone, Copy, PartialEq, Eq, Structural)]
pub struct TraceInfo {
    pub trace_id: u128,
    pub span_id: Option<u64>,
    pub sampled: bool,
    pub provider: TraceProvider,
}

impl TraceInfo {
    /// The place below this one, with a new span.
    #[verifier::allow_in_spec]
    pub fn into_child(self, span_id: u64) -> TraceInfo
        returns
            (TraceInfo {
                trace_id: self.trace_id,
                span_id: Some(span_id),
                sampled: self.sampled,
                provider: self.provider,
            }),
    {
        TraceInfo {
            trace_id: self.trace_id,
            span_id: Some(span_id),
            sampled: self.sampled,
            provider: self.provider,
        }
    }
}

/// The configuration of tracing. Shares are in percent.
#[derive(Debug, Clone, Copy, PartialEq, Eq, Structural)]
pub struct TracingConfig {
    pub client_sampling: Option<u16>,
    pub random_sampling: Option<u16>,
    pub overall_sampling: Option<u16>,
    pub spawn_upstream_span: bool,
}

/// How a request is traced.
#[derive(Debug)]
pub struct TraceContext {
    pub trace_id: Option<u128>,
    pub parent: Option<TraceInfo>,
    pub child: Option<TraceInfo>,
    pub request_id: Option<Vec<u8>>,
    pub client_trace_id: Option<Vec<u8>>,
    pub sample: bool,
    pub tracestate: Option<Vec<u8>>,
}

/// How a request is traced, as it is described.
#[verifier::ext_equal]
pub ghost struct ContextView {
    pub trace_id: Option<u128>,
    pub parent: Option<TraceInfo>,
    pub child: Option<TraceInfo>,
    pub request_id: Option<Seq<u8>>,
    pub client_trace_id: Option<Seq<u8>>,
    pub sample: bool,
    pub tracestate: Option<Seq<u8>>,
}

impl View for TraceContext {
    type V = ContextView;

    open spec fn view(&self) -> ContextView {
        ContextView {
            trace_id: self.trace_id,
            parent: self.parent,
            child: self.child,
            request_id: bytes_of(self.request_id),
            client_trace_id: bytes_of(self.client_trace_id),
            sample: self.sample,
            tracestate: bytes_of(self.tracestate),
        }
    }
}

/// Whether spans of a context are recorded: as the caller does, or as was decided here.
pub open spec fn samples(context: ContextView) -> bool {
    match context.parent {
        Some(parent) => parent.sampled,
        None => context.sample,
    }
}

/// The place below a context, with a new span.
pub open spec fn spawned(context: ContextView, span_id: u64) -> Option<TraceInfo> {
    match context.parent {
        Some(parent) => Some(parent.into_child(span_id)),
        None => match context.child {
            Some(child) => Some(child.into_child(span_id)),
            None => match context.trace_id {
                Some(trace_id) => Some(
                    TraceInfo {
                        trace_id,
                        span_id: Some(span_id),
                        sampled: context.sample,
                        provider: TraceProvider::W3CTraceContext,
                    },
                ),
                None => None,
            },
        },
    }
}

impl TraceContext {
    pub fn should_sample(&self) -> (yes: bool)
        ensures
            yes == samples(self@),
    {
        match self.parent {
            Some(parent) => parent.sampled,
            None => self.sample,
        }
    }

    /// Whether the trace begins here.
    pub fn is_root_node(&self) -> (yes: bool)
        ensures
            yes == (self.parent is None),
    {
        self.parent.is_none()
    }

    /// Puts a new span below the context.
    pub fn spawn_child(&mut self, span_id: u64)
        ensures
            final(self)@ == (ContextView { child: spawned(old(self)@, span_id), ..old(self)@ }),
    {
        let child: Option<TraceInfo> = match self.parent {
            Some(parent) => Some(parent.into_child(span_id)),
            None => match self.child {
                Some(child) => Some(child.into_child(span_id)),
                None => match self.trace_id {
                    Some(trace_id) => Some(
                        TraceInfo {
                            trace_id,
                            span_id: Some(span_id),
                            sampled: self.sample,
                            provider: TraceProvider::W3CTraceContext,
                        },
                    ),
                    None => None,
                },
            },
        };
        self.child = child;
    }
}

/// Whether a draw falls into a share. No share is all.
pub open spec fn falls_into(sampling: Option<u16>, draw: u16) -> bool {
    match sampling {
        Some(share) => draw < share,
        None => true,
    }
}

/// Whether a draw falls into a share.
pub fn should_sample_with(sampling: Option<u16>, draw: u16) -> (yes: bool)
    ensures
        yes == falls_into(sampling, draw),
{
    match sampling {
        Some(share) => draw < share,
        None => true,
    }
}

/// Decides by chance whether a request is among those that are traced.
pub fn should_sample(sampling: Option<u16>) -> (yes: bool)
    ensures
        sampling is None ==> yes,
        sampling matches Some(share) ==> (share >= 100 ==> yes) && (share == 0 ==> !yes),
{
    should_sample_with(sampling, random_below(100))
}

/// The state that tracing systems handed on, where it can be handed on: only
/// beside the format that knows of it, and only where it is a list of states.
pub open spec fn kept_tracestate(fields: Fields, parent: TraceInfo) -> Option<Seq<u8>> {
    match first_value_under(fields, "tracestate"@) {
        Some(bytes) => if parent.provider == TraceProvider::W3CTraceContext && is_readable(bytes) && is_trace_state(
            readable_text(bytes),
        ) {
            Some(bytes)
        } else {
            None
        },
        None => None,
    }
}

/// What a request brings with it for its trace.
#[derive(Debug, Clone, Copy, PartialEq, Eq, Structural)]
pub struct Inbound {
    /// The place in a trace that the request came from.
    pub parent: Option<TraceInfo>,
    /// The number in its `x-client-trace-id` field, where that holds one.
    pub client_number: Option<u128>,
    /// The number in its identifier, where that holds one.
    pub request_number: Option<u128>,
}

/// What is decided by chance.
#[derive(Debug, Clone, Copy, PartialEq, Eq, Structural)]
pub struct Draws {
    /// For the share of the trigger.
    pub trigger: u16,
    /// For the overall share.
    pub overall: u16,
    /// A trace that begins here.
    pub fresh_trace_id: u128,
}

/// How a request is traced under a configuration.
pub open spec fn context_for(
    tracing: TracingConfig,
    fields: Fields,
    inbound: Inbound,
    request_id: Option<Seq<u8>>,
    draws: Draws,
) -> ContextView {
    let client_trace_id = first_value_under(fields, "x-client-trace-id"@);
    let forced = first_value_under(fields, "x-envoy-force-trace"@) is Some;
    let untraced = ContextView {
        trace_id: None,
        parent: None,
        child: None,
        request_id,
        client_trace_id,
        sample: false,
        tracestate: None,
    };
    let overall = falls_into(tracing.overall_sampling, draws.overall);
    if inbound.parent is Some {
        ContextView {
            parent: inbound.parent,
            tracestate: kept_tracestate(fields, inbound.parent->0),
            ..untraced
        }
    } else if client_trace_id is Some && inbound.client_number is Some {
        if forced || falls_into(tracing.client_sampling, draws.trigger) && overall {
            ContextView { trace_id: inbound.client_number, sample: true, ..untraced }
        } else {
            untraced
        }
    } else if request_id is Some && inbound.request_number is Some {
        if forced || falls_into(tracing.random_sampling, draws.trigger) && overall {
            ContextView { trace_id: inbound.request_number, sample: true, ..untraced }
        } else {
            untraced
        }
    } else if forced {
        ContextView {
            child: Some(
                TraceInfo {
                    trace_id: draws.fresh_trace_id,
                    span_id: None,
                    sampled: true,
                    provider: TraceProvider::W3CTraceContext,
                },
            ),
            sample: true,
            ..untraced
        }
    } else {
        untraced
    }
}

/// Decides which requests are traced.
#[derive(Debug, Clone, Copy, PartialEq, Eq, Structural)]
pub struct HttpTracer {
    tracing: Option<TracingConfig>,
}

#[derive(Debug, Clone, Copy, PartialEq, Eq, Structural)]
pub enum SpanKind {
    Server,
    Client,
}

/// What a span is called: after the host that a request is for, by its
/// fields and the host of its address, or by a text.
#[derive(Debug)]
pub enum SpanName<'a> {
    Host(&'a Headers, Option<&'a str>),
    Str(&'a str),
}

impl<'a> SpanName<'a> {
    /// The name of the span.
    pub open spec fn spec_text(&self) -> Seq<char> {
        match self {
            SpanName::Host(headers, uri_host) => match host_of_request(headers@, str_of(*uri_host)) {
                Some(host) => host,
                None => "no-host"@,
            },
            SpanName::Str(text) => text@,
        }
    }

    pub fn text(&self) -> (text: String)
        ensures
            text@ == self.spec_text(),
    {
        match self {
            SpanName::Host(headers, uri_host) => match get_host_from_request(headers, *uri_host) {
                Some(host) => host,
                None => "no-host".to_owned(),
            },
            SpanName::Str(text) => (*text).to_owned(),
        }
    }
}

/// A text that may be missing, as it is read.
pub open spec fn str_of(text: Option<&str>) -> Option<Seq<char>> {
    match text {
        Some(t) => Some(t@),
        None => None,
    }
}

/// The span that another hangs below.
#[derive(Debug)]
pub struct ParentSpan {
    pub trace_id: u128,
    pub span_id: u64,
    pub sampled: bool,
    pub is_remote: bool,
    /// The state that tracing systems handed on.
    pub trace_state: Option<String>,
}

/// A span to start.
#[derive(Debug)]
pub struct SpanPlan {
    pub name: String,
    pub trace_id: u128,
    pub span_id: u64,
    pub kind: SpanKind,
    pub parent: Option<ParentSpan>,
}

/// The number of a span, or none.
pub open spec fn span_number(info: TraceInfo) -> u64 {
    match info.span_id {
        Some(id) => id,
        None => 0,
    }
}

/// Whether a span hangs below a place in a trace.
pub open spec fn hangs_below(parent: ParentSpan, info: TraceInfo, tracestate: Option<Seq<u8>>, is_remote: bool) -> bool {
    &&& parent.trace_id == info.trace_id
    &&& parent.span_id == span_number(info)
    &&& parent.sampled == info.sampled
    &&& parent.is_remote == is_remote
    &&& text_of(parent.trace_state) == (match tracestate {
        Some(bytes) => if is_readable(bytes) && is_trace_state(readable_text(bytes)) {
            Some(readable_text(bytes))
        } else {
            None
        },
        None => None,
    })
}

fn context_from_trace_info(info: TraceInfo, tracestate: &Option<Vec<u8>>, is_remote: bool) -> (parent: ParentSpan)
    ensures
        hangs_below(parent, info, bytes_of(*tracestate), is_remote),
{
    let trace_state: Option<String> = match tracestate {
        Some(bytes) => match to_text(bytes) {
            Some(text) => {
                if trace_state_is_valid(text.as_str()) {
                    Some(text)
                } else {
                    None
                }
            },
            None => None,
        },
        None => None,
    };
    ParentSpan {
        trace_id: info.trace_id,
        span_id: match info.span_id {
            Some(id) => id,
            None => 0,
        },
        sampled: info.sampled,
        is_remote,
        trace_state,
    }
}

impl HttpTracer {
    pub closed spec fn config(&self) -> Option<TracingConfig> {
        self.tracing
    }

    pub fn new() -> (tracer: HttpTracer)
        ensures
            tracer.config() is None,
    {
        HttpTracer { tracing: None }
    }

    pub fn with_config(self, tracing: TracingConfig) -> (tracer: HttpTracer)
        ensures
            tracer.config() == Some(tracing),
    {
        HttpTracer { tracing: Some(tracing) }
    }

    pub fn upstream_spans_enabled(&self) -> (yes: bool)
        ensures
            yes == (self.config() matches Some(tracing) && tracing.spawn_upstream_span),
    {
        match self.tracing {
            Some(tracing) => tracing.spawn_upstream_span,
            None => false,
        }
    }

    /// How a request is traced, given what is decided by chance. Without a
    /// configuration it is not.
    pub fn build_trace_context_with(
        &self,
        headers: &Headers,
        inbound: Inbound,
        request_id: Option<Vec<u8>>,
        draws: Draws,
    ) -> (context: Option<TraceContext>)
        ensures
            match self.config() {
                None => context is None,
                Some(tracing) => context is Some && context->0@ == context_for(
                    tracing,
                    headers@,
                    inbound,
                    bytes_of(request_id),
                    draws,
                ),
            },
    {
        let tracing: TracingConfig = match self.tracing {
            Some(tracing) => tracing,
            None => {
                return None;
            },
        };
        let client_trace_id: Option<Vec<u8>> = headers.get("x-client-trace-id");
        let forced: bool = headers.get("x-envoy-force-trace").is_some();
        let has_client: bool = client_trace_id.is_some();
        let has_request: bool = request_id.is_some();
        let mut context = TraceContext {
            trace_id: None,
            parent: None,
            child: None,
            request_id,
            client_trace_id,
            sample: false,
            tracestate: None,
        };
        if inbound.parent.is_some() {
            let parent: TraceInfo = inbound.parent.unwrap();
            context.parent = Some(parent);
            if parent.provider == TraceProvider::W3CTraceContext {
                match headers.get("tracestate") {
                    Some(bytes) => match to_text(&bytes) {
                        Some(text) => {
                            if trace_state_is_valid(text.as_str()) {
                                context.tracestate = Some(bytes);
                            }
                        },
                        None => {},
                    },
                    None => {},
                }
            }
            return Some(context);
        }
        let overall: bool = should_sample_with(tracing.overall_sampling, draws.overall);
        if has_client && inbound.client_number.is_some() {
            if forced || should_sample_with(tracing.client_sampling, draws.trigger) && overall {
                context.trace_id = inbound.client_number;
                context.sample = true;
            }
        } else if has_request && inbound.request_number.is_some() {
            if forced || should_sample_with(tracing.random_sampling, draws.trigger) && overall {
                context.trace_id = inbound.request_number;
                context.sample = true;
            }
        } else if forced {
            context.child = Some(
                TraceInfo {
                    trace_id: draws.fresh_trace_id,
                    span_id: None,
                    sampled: true,
                    provider: TraceProvider::W3CTraceContext,
                },
            );
            context.sample = true;
        }
        Some(context)
    }

    /// How a request is traced.
    pub fn try_build_trace_context(
        &self,
        headers: &Headers,
        inbound: Inbound,
        request_id: Option<Vec<u8>>,
        fresh_trace_id: u128,
    ) -> (context: Option<TraceContext>)
        ensures
            self.config() is None ==> context is None,
            self.config() matches Some(tracing) ==> context is Some && exists|trigger: u16, overall: u16|
                trigger < 100 && overall < 100 && context->0@ == #[trigger] context_for(
                    tracing,
                    headers@,
                    inbound,
                    bytes_of(request_id),
                    (Draws { trigger, overall, fresh_trace_id }),
                ),
    {
        let draws = Draws { trigger: random_below(100), overall: random_below(100), fresh_trace_id };
        self.build_trace_context_with(headers, inbound, request_id, draws)
    }

    /// The span of a request, where one is recorded. A span of the server gets
    /// its place in the trace even where it is not recorded, so that calls to
    /// upstreams stay attached to the trace.
    pub fn try_create_span(
        &self,
        context: &mut Option<TraceContext>,
        has_tracer: bool,
        span_kind: SpanKind,
        span_name: SpanName<'_>,
        span_id: u64,
    ) -> (plan: Option<SpanPlan>)
        ensures
            match *old(context) {
                None => plan is None && *final(context) is None,
                Some(before) => {
                    &&& *final(context) is Some
                    &&& match self.config() {
                        None => plan is None && (*final(context))->0@ == before@,
                        Some(tracing) => {
                            let spawns = if span_kind == SpanKind::Server {
                                samples(before@) || before@.parent is Some
                            } else {
                                samples(before@) && tracing.spawn_upstream_span
                            };
                            let after = ContextView {
                                child: if spawns {
                                    spawned(before@, span_id)
                                } else {
                                    before@.child
                                },
                                ..before@
                            };
                            let records = samples(before@) && has_tracer && after.child is Some && (span_kind
                                == SpanKind::Server || tracing.spawn_upstream_span);
                            &&& (*final(context))->0@ == after
                            &&& plan is Some == records
                            &&& plan matches Some(p) ==> {
                                &&& p.name@ == span_name.spec_text()
                                &&& p.kind == span_kind
                                &&& p.trace_id == after.child->0.trace_id
                                &&& p.span_id == span_number(after.child->0)
                                &&& p.parent is Some == before@.parent is Some
                                &&& before@.parent matches Some(info) ==> hangs_below(
                                    p.parent->0,
                                    info,
                                    before@.tracestate,
                                    true,
                                )
                            }
                        },
                    }
                },
            },
    {
        let tracing: TracingConfig = match self.tracing {
            Some(tracing) => tracing,
            None => {
                return None;
            },
        };
        match context {
            None => None,
            Some(context) => {
                let samples: bool = context.should_sample();
                if span_kind == SpanKind::Server && (samples || context.parent.is_some()) {
                    context.spawn_child(span_id);
                }
                if !samples {
                    return None;
                }
                if span_kind == SpanKind::Client {
                    if !tracing.spawn_upstream_span {
                        return None;
                    }
                    context.spawn_child(span_id);
                }
                if !has_tracer {
                    return None;
                }
                match context.child {
                    None => None,
                    Some(child) => Some(
                        SpanPlan {
                            name: span_name.text(),
                            trace_id: child.trace_id,
                            span_id: match child.span_id {
                                Some(id) => id,
                                None => 0,
                            },
                            kind: span_kind,
                            parent: match context.parent {
                                Some(info) => Some(context_from_trace_info(info, &context.tracestate, true)),
                                None => None,
                            },
                        },
                    ),
                }
            },
        }
    }

    /// What is put into the fields of a request, where anything is: its place
    /// in the trace, with the state of tracing systems.
    pub fn update_tracing_headers<'a>(&self, context: &'a TraceContext) -> (put: Option<(TraceInfo, Option<&'a Vec<u8>>)>)
        ensures
            match put {
                Some(p) => context@.child == Some(p.0) && context@.tracestate == (match p.1 {
                    Some(bytes) => Some(bytes@),
                    None => None,
                }),
                None => context@.child is None,
            },
    {
        match context.child {
            Some(child) => Some(
                (
                    child,
                    match &context.tracestate {
                        Some(bytes) => Some(bytes),
                        None => None,
                    },
                ),
            ),
            None => None,
        }
    }

    /// The span of one call to an upstream, below that of the server. Where it
    /// is not recorded, the place of the server is handed on in its stead.
    pub fn begin_scoped_client_span(
        context: &Option<TraceContext>,
        has_tracer: bool,
        span_name: &str,
        span_id: u64,
    ) -> (begun: (ScopedClientSpan, Option<SpanPlan>))
        ensures
            match context {
                None => begun.0.hands_on() is None && begun.1 is None && !begun.0.records(),
                Some(c) => match c@.child {
                    None => begun.0.hands_on() is None && begun.1 is None && !begun.0.records(),
                    Some(server) => {
                        let records = samples(c@) && has_tracer;
                        &&& begun.0.hands_on() == Some(
                            (
                                if records {
                                    server.into_child(span_id)
                                } else {
                                    server
                                },
                                c@.tracestate,
                            ),
                        )
                        &&& begun.0.records() == records
                        &&& begun.1 is Some == records
                        &&& begun.1 matches Some(p) ==> {
                            &&& p.name@ == span_name@
                            &&& p.kind == SpanKind::Client
                            &&& p.trace_id == server.trace_id
                            &&& p.span_id == span_id
                            &&& p.parent is Some
                            &&& hangs_below(p.parent->0, server, c@.tracestate, false)
                        }
                    },
                },
            },
            begun.0.told() == Seq::<Told>::empty(),
    {
        match context {
            None => (ScopedClientSpan::disabled(), None),
            Some(c) => match c.child {
                None => (ScopedClientSpan::disabled(), None),
                Some(server) => {
                    let tracestate: Option<Vec<u8>> = match &c.tracestate {
                        Some(bytes) => {
                            let copied: Vec<u8> = bytes.clone();
                            assert(copied@ =~= bytes@);
                            Some(copied)
                        },
                        None => None,
                    };
                    if !c.should_sample() || !has_tracer {
                        return (
                            ScopedClientSpan { propagation: Some(server), tracestate, span: None },
                            None,
                        );
                    }
                    let client: TraceInfo = server.into_child(span_id);
                    let plan = SpanPlan {
                        name: span_name.to_owned(),
                        trace_id: client.trace_id,
                        span_id,
                        kind: SpanKind::Client,
                        parent: Some(context_from_trace_info(server, &c.tracestate, false)),
                    };
                    (
                        ScopedClientSpan { propagation: Some(client), tracestate, span: Some(Vec::new()) },
                        Some(plan),
                    )
                },
            },
        }
    }
}

/// Something that a span is told.
#[derive(Debug)]
pub enum Told {
    Text(String, String),
    Number(String, i64),
    /// It failed, for a reason.
    Failed(String),
    End,
}

/// The span of one call to an upstream. It takes down what it is told where it
/// is recorded.
#[derive(Debug)]
pub struct ScopedClientSpan {
    propagation: Option<TraceInfo>,
    tracestate: Option<Vec<u8>>,
    span: Option<Vec<Told>>,
}

/// What of a request a span is told.
#[derive(Debug)]
pub struct SpanRequest {
    pub method: String,
    pub url: String,
    pub path: String,
    pub query: Option<String>,
    pub scheme: Option<String>,
    pub version: HttpVersion,
    pub headers: Headers,
}

/// The text of a version.
pub open spec fn version_text(version: HttpVersion) -> Seq<char> {
    match version {
        HttpVersion::Http09 => "HTTP/0.9"@,
        HttpVersion::Http10 => "HTTP/1.0"@,
        HttpVersion::Http11 => "HTTP/1.1"@,
        HttpVersion::Http2 => "HTTP/2.0"@,
        HttpVersion::Http3 => "HTTP/3.0"@,
    }
}

fn show_version(version: HttpVersion) -> (text: &'static str)
    ensures
        text@ == version_text(version),
{
    match version {
        HttpVersion::Http09 => "HTTP/0.9",
        HttpVersion::Http10 => "HTTP/1.0",
        HttpVersion::Http11 => "HTTP/1.1",
        HttpVersion::Http2 => "HTTP/2.0",
        HttpVersion::Http3 => "HTTP/3.0",
    }
}

/// Whether a span was told a text.
pub open spec fn is_text(told: Told, key: Seq<char>, value: Seq<char>) -> bool {
    told matches Told::Text(k, v) && k@ == key && v@ == value
}

/// The program that sent a request.
pub open spec fn agent_of(fields: Fields) -> Seq<char> {
    match first_value_under(fields, "user-agent"@) {
        Some(bytes) => if is_readable(bytes) {
            readable_text(bytes)
        } else {
            "unknown"@
        },
        None => "unknown"@,
    }
}

/// Whether a span was told of a request.
pub open spec fn tells_request(told: Seq<Told>, request: SpanRequest) -> bool {
    let queries: int = if request.query is Some {
        1
    } else {
        0
    };
    let schemes: int = if request.scheme is Some {
        1
    } else {
        0
    };
    &&& told.len() == 6 + queries + schemes
    &&& is_text(told[0], "http.request.method"@, request.method@)
    &&& is_text(told[1], "url.full"@, request.url@)
    &&& is_text(told[2], "url.path"@, request.path@)
    &&& is_text(told[3], "network.protocol.name"@, "http"@)
    &&& is_text(told[4], "network.protocol.version"@, version_text(request.version))
    &&& is_text(told[5], "user_agent.original"@, agent_of(request.headers@))
    &&& request.query matches Some(query) ==> is_text(told[6], "url.query"@, query@)
    &&& request.scheme matches Some(scheme) ==> is_text(told[6 + queries], "url.scheme"@, scheme@)
}

impl ScopedClientSpan {
    /// The place in the trace that the upstream is told, with the state of
    /// tracing systems.
    pub closed spec fn hands_on(&self) -> Option<(TraceInfo, Option<Seq<u8>>)> {
        match self.propagation {
            Some(info) => Some((info, bytes_of(self.tracestate))),
            None => None,
        }
    }

    /// Whether the span is recorded.
    pub closed spec fn records(&self) -> bool {
        self.span is Some
    }

    /// What the span was told so far.
    pub closed spec fn told(&self) -> Seq<Told> {
        match self.span {
            Some(told) => told@,
            None => Seq::empty(),
        }
    }

    /// A span that is neither recorded nor handed on.
    pub fn disabled() -> (span: ScopedClientSpan)
        ensures
            span.hands_on() is None,
            !span.records(),
            span.told() == Seq::<Told>::empty(),
    {
        ScopedClientSpan { propagation: None, tracestate: None, span: None }
    }

    /// What is put into the fields of the call, where anything is.
    pub fn inject_headers(&self) -> (injected: Option<(TraceInfo, Option<&Vec<u8>>)>)
        ensures
            match injected {
                Some(i) => self.hands_on() == Some(
                    (
                        i.0,
                        match i.1 {
                            Some(bytes) => Some(bytes@),
                            None => None,
                        },
                    ),
                ),
                None => self.hands_on() is None,
            },
    {
        match self.propagation {
            Some(info) => Some(
                (
                    info,
                    match &self.tracestate {
                        Some(bytes) => Some(bytes),
                        None => None,
                    },
                ),
            ),
            None => None,
        }
    }

    /// Tells the span a text.
    pub fn set_attribute(&mut self, key: &str, value: &str)
        ensures
            final(self).hands_on() == old(self).hands_on(),
            final(self).records() == old(self).records(),
            !old(self).records() ==> final(self).told() == old(self).told(),
            old(self).records() ==> {
                &&& final(self).told().len() == old(self).told().len() + 1
                &&& final(self).told().drop_last() == old(self).told()
                &&& is_text(final(self).told().last(), key@, value@)
            },
    {
        match &mut self.span {
            Some(told) => {
                let ghost before = told@;
                told.push(Told::Text(key.to_owned(), value.to_owned()));
                assert(told@.drop_last() =~= before);
            },
            None => {},
        }
    }

    /// Tells the span some texts.
    pub fn set_attributes(&mut self, attributes: Vec<(String, String)>)
        ensures
            final(self).hands_on() == old(self).hands_on(),
            final(self).records() == old(self).records(),
            !old(self).records() ==> final(self).told() == old(self).told(),
            old(self).records() ==> {
                let n = old(self).told().len() as int;
                &&& final(self).told().len() == n + attributes@.len()
                &&& final(self).told().take(n) == old(self).told()
                &&& forall|i: int|
                    0 <= i < attributes@.len() ==> is_text(
                        #[trigger] final(self).told()[n + i],
                        attributes@[i].0@,
                        attributes@[i].1@,
                    )
            },
    {
        let ghost n = self.told().len() as int;
        let mut i: usize = 0;
        while i < attributes.len()
            invariant
                i <= attributes@.len(),
                n == old(self).told().len(),
                self.hands_on() == old(self).hands_on(),
                self.records() == old(self).records(),
                !old(self).records() ==> self.told() == old(self).told(),
                old(self).records() ==> self.told().len() == n + i && self.told().take(n) == old(self).told(),
                old(self).records() ==> forall|k: int|
                    0 <= k < i ==> is_text(#[trigger] self.told()[n + k], attributes@[k].0@, attributes@[k].1@),
            decreases attributes@.len() - i,
        {
            let ghost before = self.told();
            self.set_attribute(attributes[i].0.as_str(), attributes[i].1.as_str());
            proof {
                if old(self).records() {
                    let after = self.told();
                    assert forall|k: int| 0 <= k < n + i implies #[trigger] after[k] == before[k] by {
                        assert(after.drop_last()[k] == before[k]);
                    }
                    assert(after.take(n) =~= before.take(n));
                    assert forall|k: int| 0 <= k < i + 1 implies is_text(
                        #[trigger] after[n + k],
                        attributes@[k].0@,
                        attributes@[k].1@,
                    ) by {
                        if k < i {
                            assert(after[n + k] == before[n + k]);
                        }
                    }
                }
            }
            i = i + 1;
        }
        assert(old(self).records() && attributes@.len() == 0 ==> self.told().take(n) =~= old(self).told());
    }

    /// Tells the span of a request.
    pub fn set_http_request(&mut self, request: &SpanRequest)
        ensures
            final(self).hands_on() == old(self).hands_on(),
            final(self).records() == old(self).records(),
            !old(self).records() ==> final(self).told() == old(self).told(),
            old(self).records() ==> {
                &&& final(self).told().len() >= old(self).told().len()
                &&& final(self).told().take(old(self).told().len() as int) == old(self).told()
                &&& tells_request(final(self).told().skip(old(self).told().len() as int), *request)
            },
    {
        match &mut self.span {
            Some(told) => {
                let ghost before = told@;
                let agent: String = match request.headers.get("user-agent") {
                    Some(bytes) => match to_text(&bytes) {
                        Some(text) => text,
                        None => "unknown".to_owned(),
                    },
                    None => "unknown".to_owned(),
                };
                told.push(Told::Text("http.request.method".to_owned(), request.method.clone()));
                told.push(Told::Text("url.full".to_owned(), request.url.clone()));
                told.push(Told::Text("url.path".to_owned(), request.path.clone()));
                told.push(Told::Text("network.protocol.name".to_owned(), "http".to_owned()));
                told.push(Told::Text("network.protocol.version".to_owned(), show_version(request.version).to_owned()));
                told.push(Told::Text("user_agent.original".to_owned(), agent));
                match &request.query {
                    Some(query) => {
                        told.push(Told::Text("url.query".to_owned(), query.clone()));
                    },
                    None => {},
                }
                match &request.scheme {
                    Some(scheme) => {
                        told.push(Told::Text("url.scheme".to_owned(), scheme.clone()));
                    },
                    None => {},
                }
                assert(told@.take(before.len() as int) =~= before);
            },
            None => {},
        }
    }

    /// Tells the span where the call goes.
    pub fn set_endpoint(&mut self, cluster_name: &str, authority: &str)
        ensures
            final(self).hands_on() == old(self).hands_on(),
            final(self).records() == old(self).records(),
            !old(self).records() ==> final(self).told() == old(self).told(),
            old(self).records() ==> {
                let n = old(self).told().len() as int;
                &&& final(self).told().len() == n + 2
                &&& final(self).told().take(n) == old(self).told()
                &&& is_text(final(self).told()[n], "upstream.cluster.name"@, cluster_name@)
                &&& is_text(final(self).told()[n + 1], "upstream.address"@, authority@)
            },
    {
        match &mut self.span {
            Some(told) => {
                let ghost before = told@;
                told.push(Told::Text("upstream.cluster.name".to_owned(), cluster_name.to_owned()));
                told.push(Told::Text("upstream.address".to_owned(), authority.to_owned()));
                assert(told@.take(before.len() as int) =~= before);
            },
            None => {},
        }
    }

    /// Tells the span the status of the answer. One that is no success counts
    /// as a failure, with the words of the status for a reason.
    pub fn set_http_status(&mut self, status: u16)
        requires
            valid_status(status as int),
        ensures
            final(self).hands_on() == old(self).hands_on(),
            final(self).records() == old(self).records(),
            !old(self).records() ==> final(self).told() == old(self).told(),
            old(self).records() ==> {
                let n = old(self).told().len() as int;
                let success = 200 <= status < 300;
                &&& final(self).told().len() == n + (if success {
                    1int
                } else {
                    2
                })
                &&& final(self).told().take(n) == old(self).told()
                &&& final(self).told()[n] matches Told::Number(key, value) && key@ == "http.response.status_code"@
                    && value == status
                &&& !success ==> (final(self).told()[n + 1] matches Told::Failed(why) && why@ == status_words(status))
            },
    {
        match &mut self.span {
            Some(told) => {
                let ghost before = told@;
                told.push(Told::Number("http.response.status_code".to_owned(), status as i64));
                if !(status >= 200 && status < 300) {
                    told.push(Told::Failed(show_status(status)));
                }
                assert(told@.take(before.len() as int) =~= before);
            },
            None => {},
        }
    }

    /// Tells the span that the call failed.
    pub fn set_error(&mut self, error_type: &str)
        ensures
            final(self).hands_on() == old(self).hands_on(),
            final(self).records() == old(self).records(),
            !old(self).records() ==> final(self).told() == old(self).told(),
            old(self).records() ==> {
                let n = old(self).told().len() as int;
                &&& final(self).told().len() == n + 2
                &&& final(self).told().take(n) == old(self).told()
                &&& is_text(final(self).told()[n], "error.type"@, error_type@)
                &&& final(self).told()[n + 1] matches Told::Failed(why) && why@ == error_type@
            },
    {
        match &mut self.span {
            Some(told) => {
                let ghost before = told@;
                told.push(Told::Text("error.type".to_owned(), error_type.to_owned()));
                told.push(Told::Failed(error_type.to_owned()));
                assert(told@.take(before.len() as int) =~= before);
            },
            None => {},
        }
    }

    /// Ends the span: all it was told, where it was recorded, with its end.
    pub fn complete(self) -> (told: Option<Vec<Told>>)
        ensures
            match told {
                Some(t) => {
                    &&& self.records()
                    &&& t@.len() == self.told().len() + 1
                    &&& t@.drop_last() == self.told()
                    &&& t@.last() is End
                },
                None => !self.records(),
            },
    {
        match self.span {
            Some(told) => {
                let mut told: Vec<Told> = told;
                let ghost before = told@;
                told.push(Told::End);
                assert(told@.drop_last() =~= before);
                Some(told)
            },
            None => None,
        }
    }
}

/// The host that a request is for, where it tells.
pub open spec fn host_of_request(fields: Fields, uri_host: Option<Seq<char>>) -> Option<Seq<char>> {
    let authority = match first_value_under(fields, ":authority"@) {
        Some(bytes) => if is_readable(bytes) {
            Some(readable_text(bytes))
        } else {
            None
        },
        None => None,
    };
    match authority {
        Some(host) => Some(host),
        None => match header_text(fields, "host"@) {
            Some(host) => Some(host),
            None => uri_host,
        },
    }
}

/// The host that a request is for: from its `:authority` field, else from its
/// `host` field, else from its address.
pub fn get_host_from_request(headers: &Headers, uri_host: Option<&str>) -> (host: Option<String>)
    ensures
        text_of(host) == host_of_request(headers@, str_of(uri_host)),
{
    match headers.get(":authority") {
        Some(bytes) => match to_text(&bytes) {
            Some(host) => {
                return Some(host);
            },
            None => {},
        },
        None => {},
    }
    match headers.get_text(&FieldName::host()) {
        Some(host) => Some(host),
        None => match uri_host {
            Some(host) => Some(host.to_owned()),
            None => None,
        },
    }
}

/// A request that comes from within a trace stays in it, and chance has no
/// part in whether it is recorded.
pub proof fn law_inbound_trace_goes_on(
    tracing: TracingConfig,
    fields: Fields,
    inbound: Inbound,
    request_id: Option<Seq<u8>>,
    draws: Draws,
    other: Draws,
    span_id: u64,
)
    requires
        inbound.parent is Some,
    ensures
        context_for(tracing, fields, inbound, request_id, draws) == context_for(
            tracing,
            fields,
            inbound,
            request_id,
            other,
        ),
        samples(context_for(tracing, fields, inbound, request_id, draws)) == inbound.parent->0.sampled,
        spawned(context_for(tracing, fields, inbound, request_id, draws), span_id) == Some(
            inbound.parent->0.into_child(span_id),
        ),
{
}

/// A request that asks for it is always traced.
pub proof fn law_forced_requests_are_traced(
    tracing: TracingConfig,
    fields: Fields,
    inbound: Inbound,
    request_id: Option<Seq<u8>>,
    draws: Draws,
    span_id: u64,
)
    requires
        inbound.parent is None,
        first_value_under(fields, "x-envoy-force-trace"@) is Some,
    ensures
        samples(context_for(tracing, fields, inbound, request_id, draws)),
        spawned(context_for(tracing, fields, inbound, request_id, draws), span_id) is Some,
{
}

/// Nothing is traced unasked where the overall share is nought.
pub proof fn law_no_share_no_trace(
    tracing: TracingConfig,
    fields: Fields,
    inbound: Inbound,
    request_id: Option<Seq<u8>>,
    draws: Draws,
)
    requires
        tracing.overall_sampling == Some(0u16),
        inbound.parent is None,
        first_value_under(fields, "x-envoy-force-trace"@) is None,
    ensures
        !samples(context_for(tracing, fields, inbound, request_id, draws)),
{
}

/// Whether a draw out of a hundred falls into a share; without a share, any does.
pub open spec fn in_share(share: Option<u16>, draw: u16) -> bool {
    share is None || draw < share->0
}

/// A request that brings no trace and does not ask for one is traced exactly
/// where it brings a number to trace it by and the draws fall both into the
/// share for that number and into the overall share. The number of the client
/// counts before that of the request, and is the trace.
pub proof fn law_traced_by_both_shares(
    tracing: TracingConfig,
    fields: Fields,
    inbound: Inbound,
    request_id: Option<Seq<u8>>,
    draws: Draws,
    span_id: u64,
)
    requires
        inbound.parent is None,
        first_value_under(fields, "x-envoy-force-trace"@) is None,
    ensures
        ({
            let context = context_for(tracing, fields, inbound, request_id, draws);
            let of_client = first_value_under(fields, "x-client-trace-id"@) is Some && inbound.client_number is Some;
            let of_request = request_id is Some && inbound.request_number is Some;
            let overall = in_share(tracing.overall_sampling, draws.overall);
            &&& of_client ==> (samples(context) <==> in_share(tracing.client_sampling, draws.trigger) && overall)
            &&& !of_client && of_request ==> (samples(context) <==> in_share(tracing.random_sampling, draws.trigger)
                && overall)
            &&& !of_client && !of_request ==> !samples(context)
            &&& samples(context) ==> {
                &&& spawned(context, span_id) is Some
                &&& spawned(context, span_id)->0.trace_id == (if of_client {
                    inbound.client_number->0
                } else {
                    inbound.request_number->0
                })
                &&& spawned(context, span_id)->0.span_id == Some(span_id)
                &&& spawned(context, span_id)->0.sampled
            }
            &&& !samples(context) ==> spawned(context, span_id) is None
            &&& context.request_id == request_id
            &&& context.client_trace_id == first_value_under(fields, "x-client-trace-id"@)
        }),
{
}

/// A span below another belongs to the same trace, is recorded where that one
/// is, and has its own number.
pub proof fn law_child_stays_in_its_trace(parent: TraceInfo, span_id: u64)
    ensures
        parent.into_child(span_id).trace_id == parent.trace_id,
        parent.into_child(span_id).sampled == parent.sampled,
        parent.into_child(span_id).provider == parent.provider,
        parent.into_child(span_id).span_id == Some(span_id),
{
}

/// The state of other tracing systems is handed on unchanged or not at all,
/// and only beside the format that knows of it.
pub proof fn law_tracestate_goes_on_unchanged(fields: Fields, parent: TraceInfo)
    ensures
        kept_tracestate(fields, parent) is Some ==> kept_tracestate(fields, parent) == first_value_under(
            fields,
            "tracestate"@,
        ) && parent.provider == TraceProvider::W3CTraceContext,
        ({
            let stated = first_value_under(fields, "tracestate"@);
            parent.provider == TraceProvider::W3CTraceContext && stated is Some && is_readable(stated->0)
                && is_trace_state(readable_text(stated->0)) ==> kept_tracestate(fields, parent) == stated
        }),
{
}

} // verus!
