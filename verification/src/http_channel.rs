//! A channel to an upstream that speaks HTTP: how a request is made ready for
//! it, how often it is tried, and what the client gets in the end.

use crate::authority::{authority_error, authority_host, is_authority, Authority};
use crate::connector::{ConnectUsing, UnifiedConnector};
use crate::headers::{
    first_value, has_room, is_readable, readable_text, to_text, valid_header_value, FieldName, FieldValue, Fields,
    Headers,
};
use crate::http1_pool::{dst_uri, pool_uri};
use crate::http2_pool::Http2ProtocolOptions;
use crate::http_filters::{is_synthetic, EventFailure, HttpResponse, HttpVersion, ResponseFlags};
use crate::sni_resolver::{is_server_name, server_name_is_valid};
use crate::tls_builder::{ClientPlan, WantsToBuildClient};
use crate::tls_configurator::TlsConfigurator;
use vstd::prelude::*;
use vstd::utf8::encode_utf8;

verus! {

/// How long a connection may be idle where nothing is configured, in nanoseconds.
pub const DEFAULT_IDLE_TIMEOUT: u64 = 30_000_000_000;

/// How long to wait before another attempt where the policy does not say.
pub const DEFAULT_BACK_OFF: u128 = 1_000_000_000;

/// The address of a request, in its parts.
#[derive(Debug)]
pub struct Uri {
    pub scheme: Option<String>,
    pub authority: Option<Authority>,
    pub path_and_query: Option<String>,
}

/// The address of a request as it is described.
#[verifier::ext_equal]
pub ghost struct UriView {
    pub scheme: Option<Seq<char>>,
    pub authority: Option<Seq<char>>,
    pub path_and_query: Option<Seq<char>>,
}

impl View for Uri {
    type V = UriView;

    open spec fn view(&self) -> UriView {
        UriView {
            scheme: match self.scheme {
                Some(s) => Some(s@),
                None => None,
            },
            authority: match self.authority {
                Some(a) => Some(a@),
                None => None,
            },
            path_and_query: match self.path_and_query {
                Some(p) => Some(p@),
                None => None,
            },
        }
    }
}

/// A request on its way to an upstream.
#[derive(Debug)]
pub struct UpstreamRequest {
    pub version: HttpVersion,
    pub uri: Uri,
    pub headers: Headers,
}

/// Why a request cannot be sent.
#[derive(Debug)]
pub enum PrepareError {
    EmptyHost,
    InvalidAuthority,
    UnreadableHost,
    /// What is wrong with the authority.
    UnparsableAuthority(String),
    AuthorityMissing,
    PathMissing,
    TooManyHeaders,
}

impl PrepareError {
    pub open spec fn spec_message(&self) -> Seq<char> {
        match self {
            PrepareError::EmptyHost => "Empty Host header"@,
            PrepareError::InvalidAuthority => "Invalid authority for Host header: failed to parse header value"@,
            PrepareError::UnreadableHost => "Can't parse Host header: failed to convert header to a str"@,
            PrepareError::UnparsableAuthority(fault) => "Can't parse authority: "@ + fault@,
            PrepareError::AuthorityMissing => "Can't normalize uri: authority missing"@,
            PrepareError::PathMissing => "Can't normalize uri: path missing"@,
            PrepareError::TooManyHeaders => "Too many headers"@,
        }
    }

    /// The text shown to an operator.
    pub fn message(&self) -> (text: String)
        ensures
            text@ == self.spec_message(),
    {
        match self {
            PrepareError::EmptyHost => "Empty Host header".to_owned(),
            PrepareError::InvalidAuthority =>
                "Invalid authority for Host header: failed to parse header value".to_owned(),
            PrepareError::UnreadableHost => "Can't parse Host header: failed to convert header to a str".to_owned(),
            PrepareError::UnparsableAuthority(fault) => {
                let mut text = "Can't parse authority: ".to_owned();
                text.append(fault.as_str());
                text
            },
            PrepareError::AuthorityMissing => "Can't normalize uri: authority missing".to_owned(),
            PrepareError::PathMissing => "Can't normalize uri: path missing".to_owned(),
            PrepareError::TooManyHeaders => "Too many headers".to_owned(),
        }
    }
}

/// The value of the `host` field.
pub open spec fn host_of(fields: Fields) -> Option<Seq<u8>> {
    first_value(fields, "host"@)
}

/// The path of an address in the form that HTTP/1 servers expect.
pub open spec fn origin_form(uri: UriView) -> UriView {
    UriView {
        scheme: None,
        authority: None,
        path_and_query: match uri.path_and_query {
            Some(p) => Some(p),
            None => Some("/"@),
        },
    }
}

/// Whether a request can go to an HTTP/1 server as it is.
pub open spec fn is_plain_http1(version: HttpVersion, uri: UriView) -> bool {
    version == HttpVersion::Http11 && uri.scheme is None && uri.authority is None
}

/// The fields of a request with a `host` field, from the authority where it was missing.
pub open spec fn with_host(fields: Fields, uri: UriView) -> Fields {
    if host_of(fields) is None && uri.authority is Some {
        fields.insert("host"@, seq![encode_utf8(uri.authority->0)])
    } else {
        fields
    }
}

/// What making a request ready for an HTTP/1 server does to it, and on which
/// requests it fails.
pub open spec fn prepared_http1(before: UpstreamRequest, after: UpstreamRequest, res: Result<(), PrepareError>) -> bool {
    let version = before.version;
    let uri = before.uri@;
    let fields = before.headers@;
    match res {
        Ok(_) => {
            &&& host_of(fields) != Some(Seq::<u8>::empty())
            &&& if is_plain_http1(version, uri) {
                after == before
            } else {
                &&& host_of(fields) is None && uri.authority is Some ==> valid_header_value(
                    encode_utf8(uri.authority->0),
                )
                &&& after.headers@ == with_host(fields, uri)
                &&& after.uri@ == origin_form(uri)
                &&& after.version == (if version == HttpVersion::Http2 {
                    HttpVersion::Http11
                } else {
                    version
                })
            }
        },
        Err(PrepareError::EmptyHost) => host_of(fields) == Some(Seq::<u8>::empty()) && after == before,
        Err(PrepareError::InvalidAuthority) => {
            &&& !is_plain_http1(version, uri) && host_of(fields) is None && uri.authority is Some
            &&& !valid_header_value(encode_utf8(uri.authority->0))
            &&& after == before
        },
        Err(PrepareError::TooManyHeaders) => {
            &&& !is_plain_http1(version, uri) && host_of(fields) is None && uri.authority is Some
            &&& !has_room(fields)
            &&& after.headers@ == fields
        },
        Err(_) => false,
    }
}

/// Makes a request ready for an HTTP/1 server: its host stands in the `host`
/// field, and its address is a path.
pub fn prepare_http1_request(request: &mut UpstreamRequest) -> (res: Result<(), PrepareError>)
    ensures
        prepared_http1(*old(request), *final(request), res),
{
    let host_name = FieldName::host();
    let host: Option<Vec<u8>> = request.headers.get(host_name.as_str());
    match &host {
        Some(value) => {
            if value.len() == 0 {
                assert(value@ =~= Seq::<u8>::empty());
                return Err(PrepareError::EmptyHost);
            }
        },
        None => {},
    }
    let absolute: bool = request.uri.scheme.is_some() || request.uri.authority.is_some();
    if request.version == HttpVersion::Http11 && !absolute {
        return Ok(());
    }
    if host.is_none() {
        match &request.uri.authority {
            Some(authority) => {
                let bytes: Vec<u8> = authority.as_str().as_bytes_vec();
                match FieldValue::from_bytes(bytes) {
                    Some(value) => {
                        if request.headers.insert(&host_name, &value).is_err() {
                            return Err(PrepareError::TooManyHeaders);
                        }
                    },
                    None => {
                        return Err(PrepareError::InvalidAuthority);
                    },
                }
            },
            None => {},
        }
    }
    if request.version == HttpVersion::Http2 {
        request.version = HttpVersion::Http11;
    }
    request.uri.scheme = None;
    request.uri.authority = None;
    if request.uri.path_and_query.is_none() {
        request.uri.path_and_query = Some("/".to_owned());
    }
    Ok(())
}

/// The scheme of requests to an upstream.
pub open spec fn default_scheme(is_tls: bool) -> Seq<char> {
    if is_tls {
        "https"@
    } else {
        "http"@
    }
}

/// The authority that a request is for: from its address, or else from its `host` field.
pub open spec fn target_authority(uri: UriView, fields: Fields) -> Option<Seq<char>> {
    match uri.authority {
        Some(a) => Some(a),
        None => match host_of(fields) {
            Some(host) => Some(readable_text(host)),
            None => None,
        },
    }
}

/// The address of a request with all its parts.
pub open spec fn absolute_form(uri: UriView, fields: Fields, is_tls: bool) -> UriView {
    UriView {
        scheme: match uri.scheme {
            Some(s) => Some(s),
            None => Some(default_scheme(is_tls)),
        },
        authority: target_authority(uri, fields),
        path_and_query: uri.path_and_query,
    }
}

/// The address that stands in for one that could not be completed.
pub open spec fn root_uri() -> UriView {
    UriView { scheme: None, authority: None, path_and_query: Some("/"@) }
}

/// What making a request ready for an HTTP/2 server does to it, and on which
/// requests it fails.
pub open spec fn prepared_http2(
    before: UpstreamRequest,
    is_tls: bool,
    after: UpstreamRequest,
    res: Result<(), PrepareError>,
) -> bool {
    let uri = before.uri@;
    let fields = before.headers@;
    let host = host_of(fields);
    let complete = uri.scheme is Some && uri.authority is Some;
    let asks_host = uri.authority is None && host is Some;
    &&& after.version == HttpVersion::Http2
    &&& match res {
        Ok(_) => {
            &&& after.headers@ == fields.remove("host"@)
            &&& after.uri@ == (if complete {
                uri
            } else {
                absolute_form(uri, fields, is_tls)
            })
            &&& asks_host ==> is_readable(host->0) && is_authority(readable_text(host->0))
            &&& !complete ==> target_authority(uri, fields) is Some && uri.path_and_query is Some
        },
        Err(PrepareError::UnreadableHost) => {
            &&& asks_host && !is_readable(host->0)
            &&& after.uri == before.uri && after.headers@ == fields
        },
        Err(PrepareError::UnparsableAuthority(fault)) => {
            &&& asks_host && is_readable(host->0)
            &&& authority_error(readable_text(host->0)) == Some(fault@)
            &&& after.uri == before.uri && after.headers@ == fields
        },
        Err(PrepareError::AuthorityMissing) => {
            &&& uri.authority is None && host is None
            &&& after.uri@ == root_uri() && after.headers@ == fields
        },
        Err(PrepareError::PathMissing) => {
            &&& !complete && uri.path_and_query is None
            &&& asks_host ==> is_readable(host->0) && is_authority(readable_text(host->0))
            &&& target_authority(uri, fields) is Some
            &&& after.uri@ == root_uri() && after.headers@ == fields
        },
        Err(_) => false,
    }
}

/// Makes a request ready for an HTTP/2 server: its address has a scheme and
/// an authority, and it has no `host` field.
pub fn prepare_http2_request(request: &mut UpstreamRequest, is_tls: bool) -> (res: Result<(), PrepareError>)
    ensures
        prepared_http2(*old(request), is_tls, *final(request), res),
{
    let host_name = FieldName::host();
    request.version = HttpVersion::Http2;
    if request.uri.scheme.is_none() || request.uri.authority.is_none() {
        if request.uri.authority.is_none() {
            match request.headers.get(host_name.as_str()) {
                Some(host) => match to_text(&host) {
                    Some(text) => match Authority::parse(text) {
                        Ok(authority) => {
                            request.uri.authority = Some(authority);
                        },
                        Err(fault) => {
                            return Err(PrepareError::UnparsableAuthority(fault));
                        },
                    },
                    None => {
                        return Err(PrepareError::UnreadableHost);
                    },
                },
                None => {},
            }
        }
        let fault: Option<PrepareError> = if request.uri.authority.is_none() {
            Some(PrepareError::AuthorityMissing)
        } else if request.uri.path_and_query.is_none() {
            Some(PrepareError::PathMissing)
        } else {
            None
        };
        match fault {
            Some(fault) => {
                request.uri = Uri { scheme: None, authority: None, path_and_query: Some("/".to_owned()) };
                return Err(fault);
            },
            None => {},
        }
        if request.uri.scheme.is_none() {
            request.uri.scheme = Some(
                if is_tls {
                    "https".to_owned()
                } else {
                    "http".to_owned()
                },
            );
        }
    }
    request.headers.remove(&host_name);
    Ok(())
}

/// The protocol that an upstream speaks.
#[derive(Debug, Clone, Copy, PartialEq, Eq, Structural)]
pub enum Codec {
    Http1,
    Http2,
}

/// The options of a channel.
#[derive(Debug, Clone, Copy, PartialEq, Eq, Structural)]
pub struct HttpProtocolOptions {
    pub codec: Codec,
    /// Whether trailers go to an HTTP/1 server.
    pub enable_trailers: bool,
    /// How long a connection may be idle, in nanoseconds.
    pub idle_timeout: Option<u64>,
    pub http2_options: Http2ProtocolOptions,
}

impl Default for HttpProtocolOptions {
    fn default() -> (options: HttpProtocolOptions)
        ensures
            options.codec == Codec::Http1,
            !options.enable_trailers,
            options.idle_timeout is None,
            options.http2_options == (Http2ProtocolOptions {
                keep_alive_interval: None,
                keep_alive_timeout: None,
                initial_stream_window_size: None,
                initial_connection_window_size: None,
                max_concurrent_streams: None,
            }),
    {
        HttpProtocolOptions {
            codec: Codec::Http1,
            enable_trailers: false,
            idle_timeout: None,
            http2_options: Http2ProtocolOptions {
                keep_alive_interval: None,
                keep_alive_timeout: None,
                initial_stream_window_size: None,
                initial_connection_window_size: None,
                max_concurrent_streams: None,
            },
        }
    }
}

/// A client for one endpoint: how it connects, and how long it keeps idle connections.
#[derive(Debug)]
pub struct ClientExt {
    pub connector: UnifiedConnector,
    pub dst: String,
    pub idle_timeout: u64,
}

#[derive(Debug)]
pub enum PlainChannelClient {
    Http1(ClientExt),
    Http2(ClientExt, Http2ProtocolOptions),
}

/// A client that speaks TLS, with the name that it asks for.
#[derive(Debug)]
pub enum TlsChannelClient {
    Http1(ClientExt, String),
    Http2(ClientExt, Http2ProtocolOptions, String),
}

#[derive(Debug)]
pub enum HttpChannelClient {
    Plain(PlainChannelClient),
    Tls(TlsChannelClient),
}

impl HttpChannelClient {
    pub fn is_tls(&self) -> (yes: bool)
        ensures
            yes == (self is Tls),
    {
        match self {
            HttpChannelClient::Tls(_) => true,
            HttpChannelClient::Plain(_) => false,
        }
    }
}

/// A channel to an upstream.
#[derive(Debug)]
pub struct HttpChannel {
    pub channel_client: HttpChannelClient,
    pub http_version: Codec,
    pub enable_trailers: bool,
    pub upstream_authority: Authority,
    pub cluster_name: String,
}

/// Puts a channel together.
#[derive(Debug)]
pub struct HttpChannelBuilder {
    pub connect_using: ConnectUsing,
    pub tls: Option<TlsConfigurator<ClientPlan, WantsToBuildClient>>,
    pub server_name: Option<String>,
    pub http_protocol_options: HttpProtocolOptions,
    pub cluster_name: Option<String>,
}

/// A host that no server can have as its name.
#[derive(Debug)]
pub struct InvalidServerName {
    pub host: String,
}

impl HttpChannelBuilder {
    pub fn new(connect_using: ConnectUsing) -> (builder: HttpChannelBuilder)
        ensures
            builder.connect_using == connect_using,
            builder.tls is None,
            builder.server_name is None,
            builder.http_protocol_options.codec == Codec::Http1,
            !builder.http_protocol_options.enable_trailers,
            builder.http_protocol_options.idle_timeout is None,
            builder.cluster_name is None,
    {
        HttpChannelBuilder {
            connect_using,
            tls: None,
            server_name: None,
            http_protocol_options: HttpProtocolOptions::default(),
            cluster_name: None,
        }
    }

    pub fn with_tls(self, tls: Option<TlsConfigurator<ClientPlan, WantsToBuildClient>>) -> (builder: HttpChannelBuilder)
        ensures
            builder == (HttpChannelBuilder { tls, ..self }),
    {
        HttpChannelBuilder { tls, ..self }
    }

    pub fn with_cluster_name(self, cluster_name: String) -> (builder: HttpChannelBuilder)
        ensures
            builder == (HttpChannelBuilder { cluster_name: Some(cluster_name), ..self }),
    {
        HttpChannelBuilder { cluster_name: Some(cluster_name), ..self }
    }

    pub fn with_server_name(self, server_name: String) -> (builder: HttpChannelBuilder)
        ensures
            builder == (HttpChannelBuilder { server_name: Some(server_name), ..self }),
    {
        HttpChannelBuilder { server_name: Some(server_name), ..self }
    }

    pub fn with_http_protocol_options(self, http_protocol_options: HttpProtocolOptions) -> (builder: HttpChannelBuilder)
        ensures
            builder == (HttpChannelBuilder { http_protocol_options, ..self }),
    {
        HttpChannelBuilder { http_protocol_options, ..self }
    }

    /// The name that a channel with TLS asks for.
    pub open spec fn asked_name(self) -> Seq<char> {
        match self.server_name {
            Some(name) => name@,
            None => authority_host(self.connect_using.spec_authority()),
        }
    }

    /// The name of the cluster, or nothing.
    pub open spec fn named_cluster(self) -> Seq<char> {
        match self.cluster_name {
            Some(name) => name@,
            None => Seq::empty(),
        }
    }

    /// Whether a client connects as the builder says.
    pub open spec fn connects(self, ext: ClientExt) -> bool {
        let options = self.http_protocol_options;
        &&& ext.connector.leads_to(&self.connect_using, self.named_cluster(), options.codec == Codec::Http2)
        &&& ext.dst@ == pool_uri(self.connect_using.spec_authority(), self.tls is Some)
        &&& ext.idle_timeout == (match options.idle_timeout {
            Some(t) => t,
            None => DEFAULT_IDLE_TIMEOUT,
        })
    }

    /// Builds the channel. Where no server name is configured, TLS asks for
    /// the host of the endpoint, which has to be one a server can have.
    pub fn build(self) -> (res: Result<HttpChannel, InvalidServerName>)
        ensures
            match res {
                Ok(channel) => {
                    let options = self.http_protocol_options;
                    &&& channel.http_version == options.codec
                    &&& channel.enable_trailers == (options.codec == Codec::Http1 && options.enable_trailers)
                    &&& channel.upstream_authority@ == self.connect_using.spec_authority()
                    &&& channel.cluster_name@ == self.named_cluster()
                    &&& self.tls is Some && self.server_name is None ==> is_server_name(self.asked_name())
                    &&& match channel.channel_client {
                        HttpChannelClient::Plain(PlainChannelClient::Http1(ext)) => {
                            &&& self.tls is None && options.codec == Codec::Http1
                            &&& self.connects(ext)
                        },
                        HttpChannelClient::Plain(PlainChannelClient::Http2(ext, http2)) => {
                            &&& self.tls is None && options.codec == Codec::Http2
                            &&& self.connects(ext) && http2 == options.http2_options
                        },
                        HttpChannelClient::Tls(TlsChannelClient::Http1(ext, name)) => {
                            &&& self.tls is Some && options.codec == Codec::Http1
                            &&& self.connects(ext) && name@ == self.asked_name()
                        },
                        HttpChannelClient::Tls(TlsChannelClient::Http2(ext, http2, name)) => {
                            &&& self.tls is Some && options.codec == Codec::Http2
                            &&& self.connects(ext) && name@ == self.asked_name() && http2 == options.http2_options
                        },
                    }
                },
                Err(e) => {
                    &&& self.tls is Some && self.server_name is None
                    &&& !is_server_name(self.asked_name())
                    &&& e.host@ == self.asked_name()
                },
            },
    {
        let options: HttpProtocolOptions = self.http_protocol_options;
        let authority: Authority = self.connect_using.authority().copy();
        let is_http2: bool = options.codec == Codec::Http2;
        let is_tls: bool = self.tls.is_some();
        let cluster_name: String = match &self.cluster_name {
            Some(name) => name.clone(),
            None => String::new(),
        };
        let ext = ClientExt {
            connector: UnifiedConnector::new(&self.connect_using, cluster_name.as_str(), is_http2),
            dst: dst_uri(&authority, is_tls),
            idle_timeout: match options.idle_timeout {
                Some(t) => t,
                None => DEFAULT_IDLE_TIMEOUT,
            },
        };
        let channel_client: HttpChannelClient = if is_tls {
            let name: String = match &self.server_name {
                Some(name) => name.clone(),
                None => {
                    let host: String = authority.host();
                    if !server_name_is_valid(host.as_str()) {
                        return Err(InvalidServerName { host });
                    }
                    host
                },
            };
            HttpChannelClient::Tls(
                if is_http2 {
                    TlsChannelClient::Http2(ext, options.http2_options, name)
                } else {
                    TlsChannelClient::Http1(ext, name)
                },
            )
        } else {
            HttpChannelClient::Plain(
                if is_http2 {
                    PlainChannelClient::Http2(ext, options.http2_options)
                } else {
                    PlainChannelClient::Http1(ext)
                },
            )
        };
        Ok(
            HttpChannel {
                channel_client,
                http_version: options.codec,
                enable_trailers: !is_http2 && options.enable_trailers,
                upstream_authority: authority,
                cluster_name,
            },
        )
    }
}

/// How a request is sent.
#[derive(Debug, Clone, Copy, PartialEq, Eq, Structural)]
pub struct SendPlan {
    /// Whether the fields that announce trailers are taken out first.
    pub strip_trailers: bool,
    /// Whether the request may be tried again.
    pub with_retry: bool,
    /// How long all of it may take, in nanoseconds.
    pub timeout: Option<u128>,
}

impl HttpChannel {
    pub fn is_https(&self) -> (yes: bool)
        ensures
            yes == (self.channel_client is Tls),
    {
        self.channel_client.is_tls()
    }

    pub fn http_version(&self) -> (codec: Codec)
        ensures
            codec == self.http_version,
    {
        self.http_version
    }

    /// How busy the channel is, by how many requests share it.
    pub fn load(&self, strong_count: usize) -> (load: u32)
        ensures
            load == (if strong_count <= u32::MAX {
                strong_count as u32
            } else {
                u32::MAX
            }),
    {
        if strong_count as u64 <= u32::MAX as u64 {
            strong_count as u32
        } else {
            u32::MAX
        }
    }

    /// How a request is sent. `retriable` tells whether there is a policy
    /// under which this request may be tried again.
    pub fn send_with_policy(&self, timeout: Option<u128>, retriable: bool) -> (plan: SendPlan)
        ensures
            plan == (SendPlan { strip_trailers: !self.enable_trailers, with_retry: retriable, timeout }),
    {
        SendPlan { strip_trailers: !self.enable_trailers, with_retry: retriable, timeout }
    }

    /// Whether the client of the channel speaks HTTP/2.
    pub open spec fn speaks_http2(&self) -> bool {
        match self.channel_client {
            HttpChannelClient::Plain(PlainChannelClient::Http2(_, _)) => true,
            HttpChannelClient::Tls(TlsChannelClient::Http2(_, _, _)) => true,
            _ => false,
        }
    }

    /// Makes a request ready for the upstream and says how it is sent.
    pub fn send_request(&self, request: &mut UpstreamRequest, timeout: Option<u128>, retriable: bool) -> (res: Result<
        SendPlan,
        PrepareError,
    >)
        ensures
            res matches Ok(plan) ==> plan == (SendPlan {
                strip_trailers: !self.enable_trailers,
                with_retry: retriable,
                timeout,
            }),
            ({
                let prepared = match res {
                    Ok(_) => Ok::<(), PrepareError>(()),
                    Err(e) => Err(e),
                };
                if self.speaks_http2() {
                    prepared_http2(*old(request), self.channel_client is Tls, *final(request), prepared)
                } else {
                    prepared_http1(*old(request), *final(request), prepared)
                }
            }),
    {
        let prepared: Result<(), PrepareError> = match &self.channel_client {
            HttpChannelClient::Plain(PlainChannelClient::Http1(_)) => prepare_http1_request(request),
            HttpChannelClient::Plain(PlainChannelClient::Http2(_, _)) => prepare_http2_request(request, false),
            HttpChannelClient::Tls(TlsChannelClient::Http1(_, _)) => prepare_http1_request(request),
            HttpChannelClient::Tls(TlsChannelClient::Http2(_, _, _)) => prepare_http2_request(request, true),
        };
        match prepared {
            Ok(_) => Ok(self.send_with_policy(timeout, retriable)),
            Err(e) => Err(e),
        }
    }
}

/// How important a request is.
#[derive(Debug, Clone, Copy, PartialEq, Eq, Structural)]
pub enum RoutingPriority {
    Default,
    High,
}

/// A circuit breaker let a retry not pass.
#[derive(Debug, Clone, Copy, PartialEq, Eq, Structural)]
pub struct CircuitBreakerDenial;

/// A slot among the retries of a cluster. It has to be given back.
#[derive(Debug)]
pub struct RetryCircuitBreakerPermit {
    pub cluster_name: String,
    pub priority: RoutingPriority,
}

impl RetryCircuitBreakerPermit {
    /// The permit that a circuit breaker gave, where it gave one.
    pub fn try_acquire(cluster_name: &str, priority: RoutingPriority, breaker: Result<(), CircuitBreakerDenial>) -> (res:
        Result<RetryCircuitBreakerPermit, CircuitBreakerDenial>)
        ensures
            match res {
                Ok(permit) => breaker is Ok && permit.cluster_name@ == cluster_name@ && permit.priority == priority,
                Err(denial) => breaker == Err::<(), CircuitBreakerDenial>(denial),
            },
    {
        match breaker {
            Ok(_) => Ok(RetryCircuitBreakerPermit { cluster_name: cluster_name.to_owned(), priority }),
            Err(denial) => Err(denial),
        }
    }
}

/// How often a request was tried again, and how often a try took too long.
#[derive(Debug, Clone, Copy, PartialEq, Eq, Structural)]
pub struct Retries {
    pub requests: u32,
    pub timeouts: u32,
}

impl Default for Retries {
    fn default() -> (retries: Retries)
        ensures
            retries == (Retries { requests: 0, timeouts: 0 }),
    {
        Retries { requests: 0, timeouts: 0 }
    }
}

/// How a request is tried again.
#[derive(Debug)]
pub struct RetryPlan {
    pub num_retries: u32,
    /// How long to wait after each attempt, in nanoseconds. There are as many
    /// attempts as entries.
    pub back_offs: Vec<Option<u128>>,
}

impl RetryPlan {
    /// Whether there is at most one attempt and its retries.
    pub open spec fn wf(&self) -> bool {
        self.back_offs@.len() <= self.num_retries + 1 && self.num_retries < u32::MAX
    }
}

/// What an attempt's outcome means for the next one.
#[derive(Debug, Clone, Copy, PartialEq, Eq, Structural)]
pub struct RetryCondition {
    pub is_per_try_timeout: bool,
    pub should_retry: bool,
}

/// Where a request with retries is.
#[derive(Debug, Clone, Copy, PartialEq, Eq, Structural)]
pub enum RetryPhase {
    Sending,
    AskingPermit,
    Sleeping,
    Done,
}

/// How far a request with retries has come.
#[derive(Debug, Clone, Copy, PartialEq, Eq, Structural)]
pub struct RetryState {
    pub phase: RetryPhase,
    pub index: u64,
    pub has_permit: bool,
    pub retries: Retries,
}

/// A request that can be sent more than once.
#[derive(Debug)]
pub struct ReplayRequest {
    pub method: String,
    pub parts: UpstreamRequest,
    /// The collected body. The body of a request that is sent only once need
    /// not be collected.
    pub body: Option<Vec<u8>>,
}

/// What the caller is asked to do.
#[derive(Debug, Clone, Copy)]
pub enum RetryAction<'a> {
    /// Send this request.
    Send(&'a ReplayRequest),
    /// Ask the circuit breaker for a permit.
    AskPermit,
    /// Wait, in nanoseconds.
    Sleep(u128),
    /// Return what the last attempt gave, and give back the permit where there is one.
    Return { release_permit: bool },
    /// As `Return`, and count that the circuit breaker stopped a retry.
    ReturnOverflow,
    /// There was no attempt: fail with invalid data.
    NoResult,
}

/// What the caller hands back.
#[derive(Debug, Clone, Copy, PartialEq, Eq, Structural)]
pub enum RetryEvent {
    /// An attempt came to an end that asks for another, or does not (`None`).
    Attempted(Option<RetryCondition>),
    /// Whether the circuit breaker gave a permit.
    Permit(bool),
    Slept,
}

impl RetryState {
    /// Whether an event can come in this state.
    pub open spec fn expects(self, event: RetryEvent) -> bool {
        match self.phase {
            RetryPhase::Sending => event is Attempted,
            RetryPhase::AskingPermit => event is Permit,
            RetryPhase::Sleeping => event is Slept,
            RetryPhase::Done => false,
        }
    }

    /// Whether a state can come up under a plan.
    pub open spec fn wf(self, plan: &RetryPlan) -> bool {
        &&& self.index <= plan.num_retries
        &&& self.retries.timeouts <= self.index + 1
        &&& self.retries.requests == self.index
        &&& self.phase == RetryPhase::Sending ==> self.index < plan.back_offs@.len() && self.retries.timeouts
            <= self.index
        &&& self.phase == RetryPhase::AskingPermit ==> self.index < plan.back_offs@.len() && self.index
            < plan.num_retries && !self.has_permit
        &&& self.phase == RetryPhase::Sleeping ==> self.index < plan.back_offs@.len() && self.index < plan.num_retries
            && self.has_permit
    }
}

/// How long to wait after an attempt.
pub open spec fn back_off_of(plan: RetryPlan, index: u64) -> u128 {
    match plan.back_offs@[index as int] {
        Some(t) => t,
        None => DEFAULT_BACK_OFF,
    }
}

/// What follows an attempt after which there may be another. Where there is,
/// it counts as a retry.
pub open spec fn next_attempt<'a>(plan: RetryPlan, request: &'a ReplayRequest, state: RetryState) -> (
    RetryState,
    RetryAction<'a>,
) {
    if state.index + 1 < plan.back_offs@.len() {
        (
            RetryState {
                phase: RetryPhase::Sending,
                index: (state.index + 1) as u64,
                retries: Retries { requests: (state.retries.requests + 1) as u32, ..state.retries },
                ..state
            },
            RetryAction::Send(request),
        )
    } else {
        (
            RetryState { phase: RetryPhase::Done, ..state },
            RetryAction::Return { release_permit: state.has_permit },
        )
    }
}

/// What follows from an event.
pub open spec fn retry_follows<'a>(
    plan: RetryPlan,
    request: &'a ReplayRequest,
    state: RetryState,
    event: RetryEvent,
) -> (RetryState, RetryAction<'a>) {
    let done = RetryState { phase: RetryPhase::Done, ..state };
    match event {
        RetryEvent::Attempted(None) => (done, RetryAction::Return { release_permit: state.has_permit }),
        RetryEvent::Attempted(Some(condition)) => {
            let timeouts = if condition.is_per_try_timeout {
                (state.retries.timeouts + 1) as u32
            } else {
                state.retries.timeouts
            };
            if !condition.should_retry {
                (
                    RetryState { retries: Retries { timeouts, ..state.retries }, ..done },
                    RetryAction::Return { release_permit: state.has_permit },
                )
            } else {
                let counted = RetryState { retries: Retries { timeouts, ..state.retries }, ..state };
                if state.index >= plan.num_retries {
                    next_attempt(plan, request, counted)
                } else if !state.has_permit {
                    (RetryState { phase: RetryPhase::AskingPermit, ..counted }, RetryAction::AskPermit)
                } else {
                    (
                        RetryState { phase: RetryPhase::Sleeping, ..counted },
                        RetryAction::Sleep(back_off_of(plan, state.index)),
                    )
                }
            }
        },
        RetryEvent::Permit(true) => (
            RetryState { phase: RetryPhase::Sleeping, has_permit: true, ..state },
            RetryAction::Sleep(back_off_of(plan, state.index)),
        ),
        RetryEvent::Permit(false) => (done, RetryAction::ReturnOverflow),
        RetryEvent::Slept => next_attempt(plan, request, state),
    }
}

/// How a request with retries begins: it is sent, unless no attempt is allowed.
pub open spec fn retry_begins<'a>(plan: RetryPlan, request: &'a ReplayRequest) -> (RetryState, RetryAction<'a>) {
    let fresh = RetryState {
        phase: RetryPhase::Sending,
        index: 0,
        has_permit: false,
        retries: Retries { requests: 0, timeouts: 0 },
    };
    if plan.back_offs@.len() == 0 {
        (RetryState { phase: RetryPhase::Done, ..fresh }, RetryAction::NoResult)
    } else {
        (fresh, RetryAction::Send(request))
    }
}

impl RetryPlan {
    /// Begins a request with retries.
    pub fn send_with_retry<'a>(&self, request: &'a ReplayRequest) -> (begun: (RetryState, RetryAction<'a>))
        requires
            self.wf(),
        ensures
            begun == retry_begins(*self, request),
            begun.0.wf(self),
    {
        let fresh = RetryState {
            phase: RetryPhase::Sending,
            index: 0,
            has_permit: false,
            retries: Retries { requests: 0, timeouts: 0 },
        };
        if self.back_offs.len() == 0 {
            (RetryState { phase: RetryPhase::Done, ..fresh }, RetryAction::NoResult)
        } else {
            (fresh, RetryAction::Send(request))
        }
    }

    fn back_off(&self, index: u64) -> (duration: u128)
        requires
            index < self.back_offs@.len(),
            self.wf(),
        ensures
            duration == back_off_of(*self, index),
    {
        match self.back_offs[index as usize] {
            Some(t) => t,
            None => DEFAULT_BACK_OFF,
        }
    }

    fn go_on<'a>(&self, request: &'a ReplayRequest, state: RetryState) -> (next: (RetryState, RetryAction<'a>))
        requires
            self.wf(),
            state.index < self.back_offs@.len(),
            state.retries.requests == state.index,
        ensures
            next == next_attempt(*self, request, state),
    {
        if state.index + 1 < self.back_offs.len() as u64 {
            (
                RetryState {
                    phase: RetryPhase::Sending,
                    index: state.index + 1,
                    retries: Retries { requests: state.retries.requests + 1, ..state.retries },
                    ..state
                },
                RetryAction::Send(request),
            )
        } else {
            (
                RetryState { phase: RetryPhase::Done, ..state },
                RetryAction::Return { release_permit: state.has_permit },
            )
        }
    }

    /// Goes on with what came of the last action.
    pub fn step<'a>(&self, request: &'a ReplayRequest, state: RetryState, event: RetryEvent) -> (next: (
        RetryState,
        RetryAction<'a>,
    ))
        requires
            self.wf(),
            state.wf(self),
            state.expects(event),
        ensures
            next == retry_follows(*self, request, state, event),
            next.0.wf(self),
    {
        let done = RetryState { phase: RetryPhase::Done, ..state };
        match event {
            RetryEvent::Attempted(None) => (done, RetryAction::Return { release_permit: state.has_permit }),
            RetryEvent::Attempted(Some(condition)) => {
                let timeouts: u32 = if condition.is_per_try_timeout {
                    state.retries.timeouts + 1
                } else {
                    state.retries.timeouts
                };
                if !condition.should_retry {
                    return (
                        RetryState { retries: Retries { timeouts, ..state.retries }, ..done },
                        RetryAction::Return { release_permit: state.has_permit },
                    );
                }
                let counted = RetryState { retries: Retries { timeouts, ..state.retries }, ..state };
                if state.index >= self.num_retries as u64 {
                    self.go_on(request, counted)
                } else if !state.has_permit {
                    (RetryState { phase: RetryPhase::AskingPermit, ..counted }, RetryAction::AskPermit)
                } else {
                    (
                        RetryState { phase: RetryPhase::Sleeping, ..counted },
                        RetryAction::Sleep(self.back_off(state.index)),
                    )
                }
            },
            RetryEvent::Permit(true) => (
                RetryState { phase: RetryPhase::Sleeping, has_permit: true, ..state },
                RetryAction::Sleep(self.back_off(state.index)),
            ),
            RetryEvent::Permit(false) => (done, RetryAction::ReturnOverflow),
            RetryEvent::Slept => self.go_on(request, state),
        }
    }
}

/// How far a request with retries is from its end at most.
pub open spec fn retry_steps_left(plan: RetryPlan, state: RetryState) -> int {
    match state.phase {
        RetryPhase::Done => 0,
        RetryPhase::Sending => 3 * (plan.back_offs@.len() - state.index),
        RetryPhase::AskingPermit => 3 * (plan.back_offs@.len() - state.index) - 1,
        RetryPhase::Sleeping => 3 * (plan.back_offs@.len() - state.index) - 2,
    }
}

/// A request with retries comes to an end: each event brings it nearer.
pub proof fn law_retries_end(plan: RetryPlan, request: &ReplayRequest, state: RetryState, event: RetryEvent)
    requires
        plan.wf(),
        state.wf(&plan),
        state.expects(event),
    ensures
        0 <= retry_steps_left(plan, retry_follows(plan, request, state, event).0) < retry_steps_left(plan, state),
{
}

/// Where a request with retries is after some events, and what was asked last.
pub open spec fn retry_run<'a>(plan: RetryPlan, request: &'a ReplayRequest, events: Seq<RetryEvent>) -> (
    RetryState,
    RetryAction<'a>,
)
    decreases events.len(),
{
    if events.len() == 0 {
        retry_begins(plan, request)
    } else {
        retry_follows(plan, request, retry_run(plan, request, events.drop_last()).0, events.last())
    }
}

/// Whether each event answers what was asked before it.
pub open spec fn is_retry_run(plan: RetryPlan, request: &ReplayRequest, events: Seq<RetryEvent>) -> bool
    decreases events.len(),
{
    events.len() > 0 ==> {
        &&& is_retry_run(plan, request, events.drop_last())
        &&& retry_run(plan, request, events.drop_last()).0.expects(events.last())
    }
}

/// How often the request was to be sent by then.
pub open spec fn sends(plan: RetryPlan, request: &ReplayRequest, events: Seq<RetryEvent>) -> nat
    decreases events.len(),
{
    let earlier = if events.len() == 0 {
        0
    } else {
        sends(plan, request, events.drop_last())
    };
    if retry_run(plan, request, events).1 is Send {
        earlier + 1
    } else {
        earlier
    }
}

/// Over a whole run a request is sent at most once more than there are
/// retries, it is always the same request that is sent, and the retries
/// counted are the times it was sent after the first.
pub proof fn law_retries_count_resends(plan: RetryPlan, request: &ReplayRequest, events: Seq<RetryEvent>)
    requires
        plan.wf(),
        is_retry_run(plan, request, events),
    ensures
        ({
            let (state, action) = retry_run(plan, request, events);
            let sent = sends(plan, request, events);
            &&& sent <= plan.num_retries + 1
            &&& plan.back_offs@.len() > 0 ==> sent >= 1 && state.retries.requests == sent - 1
            &&& plan.back_offs@.len() == 0 ==> sent == 0 && state.retries.requests == 0
            &&& action matches RetryAction::Send(again) ==> *again == *request
        }),
{
    lemma_retry_run(plan, request, events);
}

proof fn lemma_retry_run(plan: RetryPlan, request: &ReplayRequest, events: Seq<RetryEvent>)
    requires
        plan.wf(),
        is_retry_run(plan, request, events),
    ensures
        ({
            let (state, action) = retry_run(plan, request, events);
            &&& state.wf(&plan)
            &&& action matches RetryAction::Send(again) ==> *again == *request
            &&& sends(plan, request, events) == (if plan.back_offs@.len() == 0 {
                0
            } else {
                state.index + 1
            })
            &&& plan.back_offs@.len() == 0 ==> state.phase == RetryPhase::Done && state.index == 0
        }),
    decreases events.len(),
{
    if events.len() > 0 {
        lemma_retry_run(plan, request, events.drop_last());
    }
}

/// Whether another attempt is left after the one that is under way.
pub open spec fn retry_left(plan: RetryPlan, state: RetryState) -> bool {
    state.index < plan.num_retries && state.index + 1 < plan.back_offs@.len()
}

/// How long a plan waits after an attempt: as long as it says, and a second
/// where it does not say.
pub open spec fn waits(plan: RetryPlan, attempt: int, nanos: u128) -> bool {
    match plan.back_offs@[attempt] {
        Some(t) => nanos == t,
        None => nanos == 1_000_000_000,
    }
}

/// An attempt whose outcome should be retried leads to another, whatever kind
/// of failure it was, as long as a retry is left: a permit is asked for where
/// there is none yet, the plan's time is waited for once there is one, and
/// then the same request is sent once more, which counts as one retry.
pub proof fn law_retriable_attempt_is_sent_again(
    plan: RetryPlan,
    request: &ReplayRequest,
    state: RetryState,
    condition: RetryCondition,
)
    requires
        plan.wf(),
        state.wf(&plan),
        state.phase == RetryPhase::Sending,
        retry_left(plan, state),
        condition.should_retry,
    ensures
        ({
            let failed = retry_follows(plan, request, state, RetryEvent::Attempted(Some(condition)));
            let allowed = retry_follows(plan, request, failed.0, RetryEvent::Permit(true));
            let waiting = if state.has_permit {
                failed
            } else {
                allowed
            };
            let again = retry_follows(plan, request, waiting.0, RetryEvent::Slept);
            &&& !state.has_permit ==> failed.1 == RetryAction::AskPermit && failed.0.expects(RetryEvent::Permit(true))
            &&& waiting.1 matches RetryAction::Sleep(nanos)
            &&& waits(plan, state.index as int, nanos)
            &&& waiting.0.expects(RetryEvent::Slept)
            &&& again.1 matches RetryAction::Send(sent)
            &&& *sent == *request
            &&& again.0.phase == RetryPhase::Sending
            &&& again.0.has_permit
            &&& again.0.retries.requests == state.retries.requests + 1
        }),
{
}

/// A run goes on until it has a reason to end: an outcome that is not to be
/// retried, a permit that was denied, or no retry left. Only the denied permit
/// is reported as such.
pub proof fn law_run_ends_only_for_a_reason(
    plan: RetryPlan,
    request: &ReplayRequest,
    state: RetryState,
    event: RetryEvent,
)
    requires
        plan.wf(),
        state.wf(&plan),
        state.expects(event),
    ensures
        ({
            let (after, action) = retry_follows(plan, request, state, event);
            let reason = match event {
                RetryEvent::Attempted(None) => true,
                RetryEvent::Attempted(Some(condition)) => !condition.should_retry || state.index >= plan.num_retries,
                RetryEvent::Permit(granted) => !granted,
                RetryEvent::Slept => state.index + 1 >= plan.back_offs@.len(),
            };
            &&& after.phase == RetryPhase::Done <==> reason
            &&& action is Return || action is ReturnOverflow <==> reason
            &&& action == RetryAction::ReturnOverflow <==> event == RetryEvent::Permit(false)
            &&& action != RetryAction::NoResult
        }),
{
}

/// How many attempts took too long, among some events.
pub open spec fn timeouts_in(events: Seq<RetryEvent>) -> nat
    decreases events.len(),
{
    if events.len() == 0 {
        0
    } else {
        timeouts_in(events.drop_last()) + match events.last() {
            RetryEvent::Attempted(Some(condition)) => if condition.is_per_try_timeout {
                1nat
            } else {
                0
            },
            _ => 0,
        }
    }
}

/// Over a whole run, the timeouts counted are the attempts that took too long,
/// retried or not.
pub proof fn law_timeouts_are_counted(plan: RetryPlan, request: &ReplayRequest, events: Seq<RetryEvent>)
    requires
        plan.wf(),
        is_retry_run(plan, request, events),
    ensures
        retry_run(plan, request, events).0.retries.timeouts == timeouts_in(events),
    decreases events.len(),
{
    if events.len() > 0 {
        law_timeouts_are_counted(plan, request, events.drop_last());
        lemma_retry_run(plan, request, events.drop_last());
    }
}

/// An attempt whose outcome asks for no other ends the run: its result is
/// returned, and nothing is sent after it.
pub proof fn law_sound_attempt_ends_the_run(
    plan: RetryPlan,
    request: &ReplayRequest,
    state: RetryState,
    condition: Option<RetryCondition>,
    later: RetryEvent,
)
    requires
        condition matches Some(c) ==> !c.should_retry,
    ensures
        ({
            let (after, action) = retry_follows(plan, request, state, RetryEvent::Attempted(condition));
            &&& action == (RetryAction::Return { release_permit: state.has_permit })
            &&& after.index == state.index
            &&& !after.expects(later)
        }),
{
}

/// The circuit breaker is asked for at most one permit, every retry waits
/// under it, and it is given back at the end.
pub proof fn law_one_permit(plan: RetryPlan, request: &ReplayRequest, state: RetryState, event: RetryEvent)
    requires
        plan.wf(),
        state.wf(&plan),
        state.expects(event),
    ensures
        ({
            let (after, action) = retry_follows(plan, request, state, event);
            &&& action == RetryAction::AskPermit ==> !state.has_permit
            &&& state.has_permit ==> after.has_permit
            &&& action is Sleep ==> after.has_permit
            &&& action matches RetryAction::Return { release_permit } ==> release_permit == after.has_permit
            &&& action == RetryAction::ReturnOverflow ==> !after.has_permit
        }),
{
}

/// What went wrong with an upstream.
#[derive(Debug)]
pub enum UpstreamError {
    RefusedStream,
    Io(String),
    ConnectTimeout(String),
    PerTryTimeout,
    RouteTimeout,
    Reset,
    Http3PostConnectFailure,
    Error(String),
}

/// What an outcome counts for.
#[derive(Debug, Clone, Copy, PartialEq, Eq, Structural)]
pub struct RequestCounts {
    pub total: u64,
    pub retry: u64,
    pub per_try_timeout: u64,
    pub timeout: u64,
}

/// What becomes of the answer of an upstream.
#[derive(Debug)]
pub enum UpstreamReply {
    /// It goes to the client; its body may take this long, in nanoseconds.
    Forward { body_timeout: Option<u128> },
    /// The client gets this response instead.
    Synthetic(HttpResponse),
}

/// The outcome of a request: an answer, an error that is understood, or any
/// other (`Err(None)`).
pub type UpstreamOutcome = Result<(), Option<UpstreamError>>;

/// A request that took longer than its route allows has failed for that reason.
pub fn within_route_timeout(outcome: Option<UpstreamOutcome>) -> (res: UpstreamOutcome)
    ensures
        match outcome {
            Some(o) => res == o,
            None => res matches Err(Some(UpstreamError::RouteTimeout)),
        },
{
    match outcome {
        Some(o) => o,
        None => Err(Some(UpstreamError::RouteTimeout)),
    }
}

/// What an outcome counts for.
pub fn count_outcome(outcome: &UpstreamOutcome, retries: Retries) -> (counts: RequestCounts)
    ensures
        counts.total == (if outcome is Ok {
            1int
        } else {
            0
        }),
        counts.retry == retries.requests,
        counts.per_try_timeout == retries.timeouts,
        counts.timeout == (if outcome matches Err(Some(UpstreamError::RouteTimeout)) {
            1int
        } else {
            0
        }),
{
    RequestCounts {
        total: match outcome {
            Ok(_) => 1,
            Err(_) => 0,
        },
        retry: retries.requests as u64,
        per_try_timeout: retries.timeouts as u64,
        timeout: match outcome {
            Err(Some(UpstreamError::RouteTimeout)) => 1,
            _ => 0,
        },
    }
}

/// The status that stands for an error of an upstream.
pub open spec fn status_of(error: UpstreamError) -> u16 {
    match error {
        UpstreamError::RefusedStream | UpstreamError::Io(_) | UpstreamError::ConnectTimeout(_) => 503,
        UpstreamError::PerTryTimeout | UpstreamError::RouteTimeout => 504,
        UpstreamError::Reset | UpstreamError::Http3PostConnectFailure => 502,
        UpstreamError::Error(_) => 500,
    }
}

/// The text that stands for an error of an upstream.
pub open spec fn body_of(error: UpstreamError) -> Seq<char> {
    if error is Error {
        "internal server error"@
    } else {
        ""@
    }
}

/// What the client gets. An answer goes on with what is left of the time that
/// the route allows; an error that is understood becomes a response with its
/// flags; any other error is passed on (`None`).
pub fn map_upstream_result(
    outcome: UpstreamOutcome,
    flags: ResponseFlags,
    elapsed: u128,
    route_timeout: Option<u128>,
    version: HttpVersion,
) -> (reply: Option<UpstreamReply>)
    ensures
        match outcome {
            Ok(_) => reply matches Some(UpstreamReply::Forward { body_timeout }) && body_timeout == (
            match route_timeout {
                Some(t) => if t >= elapsed {
                    Some((t - elapsed) as u128)
                } else {
                    Some(0u128)
                },
                None => None,
            }),
            Err(Some(error)) => reply matches Some(UpstreamReply::Synthetic(response)) && is_synthetic(
                response,
                status_of(error),
                body_of(error),
                version,
                flags,
            ) && response.failure == Some(EventFailure::Upstream(error)),
            Err(None) => reply is None,
        },
{
    match outcome {
        Ok(_) => Some(
            UpstreamReply::Forward {
                body_timeout: match route_timeout {
                    Some(t) => Some(
                        if t >= elapsed {
                            t - elapsed
                        } else {
                            0
                        },
                    ),
                    None => None,
                },
            },
        ),
        Err(Some(error)) => {
            let status: u16 = match &error {
                UpstreamError::RefusedStream => 503,
                UpstreamError::Io(_) => 503,
                UpstreamError::ConnectTimeout(_) => 503,
                UpstreamError::PerTryTimeout => 504,
                UpstreamError::RouteTimeout => 504,
                UpstreamError::Reset => 502,
                UpstreamError::Http3PostConnectFailure => 502,
                UpstreamError::Error(_) => 500,
            };
            let text: &str = match &error {
                UpstreamError::Error(_) => "internal server error",
                _ => "",
            };
            Some(
                UpstreamReply::Synthetic(
                    HttpResponse {
                        status,
                        version,
                        headers: Headers::new(),
                        body: text.as_bytes_vec(),
                        failure: Some(EventFailure::Upstream(error)),
                        flags,
                    },
                ),
            )
        },
        Err(None) => None,
    }
}

/// A channel, and those to turn to when it fails.
#[derive(Debug)]
pub enum HttpChannels {
    Single(HttpChannel),
    MultiWithFailover { channel: HttpChannel, failover_channels: Vec<HttpChannel> },
}

/// Where a request with failover is: how many channels it tried before this one.
#[derive(Debug, Clone, Copy, PartialEq, Eq, Structural)]
pub struct FailoverState {
    pub attempt: usize,
}

/// What a request is sent under: how long it may take, in nanoseconds, how it
/// is tried again, and how important it is.
#[derive(Debug, Clone, Copy)]
pub struct UpstreamCallOpts<'a> {
    pub route_timeout: Option<u128>,
    pub retry_policy: Option<&'a RetryPlan>,
    pub priority: RoutingPriority,
}

/// A request for one channel.
#[derive(Debug, Clone, Copy)]
pub struct UpstreamCall<'a> {
    pub channel: &'a HttpChannel,
    pub request: &'a ReplayRequest,
    pub opts: UpstreamCallOpts<'a>,
}

/// What to do after a channel was tried.
#[derive(Debug, Clone, Copy)]
pub enum FailoverAction<'a> {
    /// Make this call to the next channel.
    TryNext(UpstreamCall<'a>),
    /// Return what this channel gave.
    Return,
}

/// Whether an outcome sends a request to the next channel: an error, or the
/// status of a failing server.
pub open spec fn is_failing(outcome: Result<u16, ()>) -> bool {
    match outcome {
        Ok(status) => 500 <= status <= 599,
        Err(_) => true,
    }
}

impl HttpChannels {
    pub open spec fn first(&self) -> HttpChannel {
        match self {
            HttpChannels::Single(channel) => *channel,
            HttpChannels::MultiWithFailover { channel, .. } => *channel,
        }
    }

    /// The channels, in the order in which they are tried.
    pub open spec fn all(&self) -> Seq<HttpChannel> {
        match self {
            HttpChannels::Single(channel) => seq![*channel],
            HttpChannels::MultiWithFailover { channel, failover_channels } => seq![*channel] + failover_channels@,
        }
    }

    pub fn channel(&self) -> (channel: &HttpChannel)
        ensures
            *channel == self.first(),
    {
        match self {
            HttpChannels::Single(channel) => channel,
            HttpChannels::MultiWithFailover { channel, .. } => channel,
        }
    }

    pub fn upstream_authority(&self) -> (authority: &Authority)
        ensures
            *authority == self.first().upstream_authority,
    {
        &self.channel().upstream_authority
    }

    pub fn cluster_name(&self) -> (name: &str)
        ensures
            name@ == self.first().cluster_name@,
    {
        self.channel().cluster_name.as_str()
    }

    pub fn http_version(&self) -> (codec: Codec)
        ensures
            codec == self.first().http_version,
    {
        self.channel().http_version
    }

    /// Whether a call is the one for an attempt: it goes to the channel of that
    /// number with the request as it came. Where there are channels to turn
    /// to, that is the only way to try again: no retry policy applies.
    pub open spec fn is_call(
        &self,
        call: UpstreamCall,
        attempt: int,
        request: &ReplayRequest,
        opts: UpstreamCallOpts,
    ) -> bool {
        &&& *call.channel == self.all()[attempt]
        &&& *call.request == *request
        &&& call.opts.route_timeout == opts.route_timeout
        &&& call.opts.priority == opts.priority
        &&& call.opts.retry_policy == (if self is Single {
            opts.retry_policy
        } else {
            None
        })
    }

    /// Whether the body of a request has to be collected, so that it can be
    /// sent on more than one channel.
    pub fn replays(&self) -> (yes: bool)
        ensures
            yes == (self is MultiWithFailover),
    {
        match self {
            HttpChannels::Single(_) => false,
            HttpChannels::MultiWithFailover { .. } => true,
        }
    }

    fn call<'a>(&'a self, state: FailoverState, request: &'a ReplayRequest, opts: UpstreamCallOpts<'a>) -> (call:
        UpstreamCall<'a>)
        requires
            state.attempt < self.all().len(),
        ensures
            self.is_call(call, state.attempt as int, request, opts),
    {
        match self {
            HttpChannels::Single(channel) => UpstreamCall { channel, request, opts },
            HttpChannels::MultiWithFailover { channel, failover_channels } => {
                let opts = UpstreamCallOpts { retry_policy: None, ..opts };
                if state.attempt == 0 {
                    UpstreamCall { channel, request, opts }
                } else {
                    UpstreamCall { channel: &failover_channels[state.attempt - 1], request, opts }
                }
            },
        }
    }

    /// The call to begin with: the one to the first channel.
    pub fn first_call<'a>(&'a self, request: &'a ReplayRequest, opts: UpstreamCallOpts<'a>) -> (begun: (
        FailoverState,
        UpstreamCall<'a>,
    ))
        ensures
            begun.0.attempt == 0,
            self.is_call(begun.1, 0, request, opts),
    {
        let state = FailoverState { attempt: 0 };
        (state, self.call(state, request, opts))
    }

    /// What to do after a channel gave a status or an error. The last channel
    /// has the last word, and a single one the only word.
    pub fn to_response<'a>(
        &'a self,
        state: FailoverState,
        request: &'a ReplayRequest,
        opts: UpstreamCallOpts<'a>,
        outcome: Result<u16, ()>,
    ) -> (next: (FailoverState, FailoverAction<'a>))
        requires
            state.attempt < self.all().len(),
        ensures
            match next.1 {
                FailoverAction::TryNext(call) => {
                    &&& tries_next(outcome, state.attempt as int, self.all().len() as int)
                    &&& next.0.attempt == state.attempt + 1
                    &&& self.is_call(call, state.attempt + 1, request, opts)
                },
                FailoverAction::Return => {
                    &&& !tries_next(outcome, state.attempt as int, self.all().len() as int)
                    &&& next.0 == state
                },
            },
            next.0.attempt < self.all().len(),
    {
        let failing: bool = match outcome {
            Ok(status) => status >= 500 && status <= 599,
            Err(_) => true,
        };
        let failovers: usize = match self {
            HttpChannels::Single(_) => 0,
            HttpChannels::MultiWithFailover { failover_channels, .. } => failover_channels.len(),
        };
        if failing && state.attempt < failovers {
            let next = FailoverState { attempt: state.attempt + 1 };
            (next, FailoverAction::TryNext(self.call(next, request, opts)))
        } else {
            (state, FailoverAction::Return)
        }
    }
}

/// Whether another channel is tried after the outcome of one.
pub open spec fn tries_next(outcome: Result<u16, ()>, attempt: int, channels: int) -> bool {
    is_failing(outcome) && attempt + 1 < channels
}

/// The attempt whose outcome is returned, given the outcome of each channel.
pub open spec fn deciding_attempt(outcomes: Seq<Result<u16, ()>>, from: int) -> int
    decreases outcomes.len() - from,
{
    if tries_next(outcomes[from], from, outcomes.len() as int) {
        deciding_attempt(outcomes, from + 1)
    } else {
        from
    }
}

/// With failover, the client gets the answer of the first channel that does
/// not fail, and that of the last channel where all fail.
pub proof fn law_first_sound_channel_answers(outcomes: Seq<Result<u16, ()>>, from: int)
    requires
        0 <= from < outcomes.len(),
    ensures
        ({
            let at = deciding_attempt(outcomes, from);
            &&& from <= at < outcomes.len()
            &&& is_failing(outcomes[at]) ==> at == outcomes.len() - 1
            &&& forall|i: int| from <= i < at ==> is_failing(#[trigger] outcomes[i])
        }),
    decreases outcomes.len() - from,
{
    if tries_next(outcomes[from], from, outcomes.len() as int) {
        law_first_sound_channel_answers(outcomes, from + 1);
    }
}

/// A request made ready for an HTTP/1 server names no host in its address,
/// and one with an authority or a host keeps saying which host it is for.
pub proof fn law_host_survives(fields: Fields, uri: UriView)
    requires
        uri.authority is Some || host_of(fields) is Some,
    ensures
        origin_form(uri).authority is None,
        host_of(with_host(fields, uri)) is Some,
        host_of(fields) is Some ==> host_of(with_host(fields, uri)) == host_of(fields),
{
}

/// Making a request ready for HTTP/1 and then for HTTP/2 keeps the authority
/// that its address had, where it had no other host.
pub proof fn law_authority_survives_http1(fields: Fields, uri: UriView, is_tls: bool)
    requires
        uri.authority is Some,
        host_of(fields) is None,
        vstd::utf8::is_ascii_chars(uri.authority->0),
    ensures
        absolute_form(origin_form(uri), with_host(fields, uri), is_tls).authority == uri.authority,
{
    let chars = uri.authority->0;
    vstd::utf8::is_ascii_chars_encode_utf8(chars);
    assert(readable_text(encode_utf8(chars)) =~= chars) by {
        assert forall|i: int| 0 <= i < chars.len() implies readable_text(encode_utf8(chars))[i] == chars[i] by {
            assert('\0' <= chars[i] <= '\u{7f}');
            assert(encode_utf8(chars)[i] == chars[i] as u8);
        }
    }
}

/// A request made ready for an HTTP/1 server asks for the same path, or for
/// the root where it names none, speaks HTTP/1, and keeps all of its fields:
/// only a host that stood in its address alone moves to a field. It fails only
/// for a host that is empty, that is no value of a field, or that finds no room.
pub proof fn law_http1_request_keeps_what_is_asked(
    before: UpstreamRequest,
    after: UpstreamRequest,
    res: Result<(), PrepareError>,
    other: Seq<char>,
)
    requires
        prepared_http1(before, after, res),
        other != "host"@,
    ensures
        match res {
            Ok(_) => {
                &&& after.uri@.scheme is None && after.uri@.authority is None
                &&& before.uri@.path_and_query is Some ==> after.uri@.path_and_query == before.uri@.path_and_query
                &&& before.uri@.path_and_query is None && after.uri@ != before.uri@ ==> after.uri@.path_and_query
                    == Some("/"@)
                &&& after.version != HttpVersion::Http2
                &&& before.version != HttpVersion::Http2 ==> after.version == before.version
                &&& before.version == HttpVersion::Http2 ==> after.version == HttpVersion::Http11
                &&& after.headers@.contains_key(other) == before.headers@.contains_key(other)
                &&& after.headers@.contains_key(other) ==> after.headers@[other] == before.headers@[other]
                &&& match first_value(before.headers@, "host"@) {
                    Some(host) => host.len() > 0 && first_value(after.headers@, "host"@) == Some(host),
                    None => match before.uri@.authority {
                        Some(authority) => first_value(after.headers@, "host"@) == Some(encode_utf8(authority)),
                        None => first_value(after.headers@, "host"@) is None,
                    },
                }
            },
            Err(_) => {
                ||| first_value(before.headers@, "host"@) == Some(Seq::<u8>::empty())
                ||| first_value(before.headers@, "host"@) is None && before.uri@.authority is Some && !(
                valid_header_value(encode_utf8(before.uri@.authority->0)) && has_room(before.headers@))
            },
        },
{
    if res is Ok && first_value(before.headers@, "host"@) is Some {
        let host = first_value(before.headers@, "host"@)->0;
        if host.len() == 0 {
            assert(host =~= Seq::<u8>::empty());
        }
    }
}

/// A request made ready for an HTTP/2 server is for the authority of its
/// address, or else for the host of its field, asks for the same path under a
/// scheme that fits the connection where it states none, and keeps all fields
/// but that of the host, which is gone.
pub proof fn law_http2_request_keeps_what_is_asked(
    before: UpstreamRequest,
    is_tls: bool,
    after: UpstreamRequest,
    other: Seq<char>,
)
    requires
        prepared_http2(before, is_tls, after, Ok(())),
        other != "host"@,
    ensures
        after.version == HttpVersion::Http2,
        after.uri@.path_and_query == before.uri@.path_and_query,
        after.uri@.scheme == (match before.uri@.scheme {
            Some(scheme) => Some(scheme),
            None => if is_tls {
                Some("https"@)
            } else {
                Some("http"@)
            },
        }),
        match before.uri@.authority {
            Some(authority) => after.uri@.authority == Some(authority),
            None => {
                &&& first_value(before.headers@, "host"@) is Some
                &&& after.uri@.authority is Some
                &&& after.uri@.authority->0.len() == first_value(before.headers@, "host"@)->0.len()
                &&& forall|i: int|
                    0 <= i < after.uri@.authority->0.len() ==> #[trigger] after.uri@.authority->0[i] as int
                        == first_value(before.headers@, "host"@)->0[i] as int
            },
        },
        !after.headers@.contains_key("host"@),
        after.headers@.contains_key(other) == before.headers@.contains_key(other),
        after.headers@.contains_key(other) ==> after.headers@[other] == before.headers@[other],
{
}

/// A request can be made ready for an HTTP/2 server exactly where it can be
/// told which host it is for, and where it names a path unless its address is
/// whole already.
pub proof fn law_http2_request_needs_a_target(
    before: UpstreamRequest,
    is_tls: bool,
    after: UpstreamRequest,
    res: Result<(), PrepareError>,
)
    requires
        prepared_http2(before, is_tls, after, res),
    ensures
        res is Ok <==> {
            let host = first_value(before.headers@, "host"@);
            let whole = before.uri@.scheme is Some && before.uri@.authority is Some;
            &&& before.uri@.authority is Some || host is Some && is_readable(host->0) && authority_error(
                readable_text(host->0),
            ) is None
            &&& whole || before.uri@.path_and_query is Some
        },
{
}

/// What a client is answered for an error of an upstream is an error of the
/// server: unavailable where the upstream could not be reached, timed out
/// where a time ran out, a bad gateway where the connection broke, and else an
/// internal error, which alone has a text.
pub proof fn law_upstream_errors_are_server_errors(error: UpstreamError)
    ensures
        500 <= status_of(error) <= 504,
        status_of(error) == 503 <==> error is RefusedStream || error is Io || error is ConnectTimeout,
        status_of(error) == 504 <==> error is PerTryTimeout || error is RouteTimeout,
        status_of(error) == 502 <==> error is Reset || error is Http3PostConnectFailure,
        status_of(error) == 500 <==> error is Error,
        body_of(error).len() > 0 <==> status_of(error) == 500,
        body_of(error).len() > 0 ==> body_of(error) == "internal server error"@,
{
    reveal_strlit("");
    reveal_strlit("internal server error");
}

/// A request goes on to the next channel exactly after an error, or after a
/// status whose first digit is five, and only while a channel is left.
pub proof fn law_failing_channel_is_left(outcome: Result<u16, ()>, attempt: int, channels: int)
    requires
        0 <= attempt < channels,
    ensures
        tries_next(outcome, attempt, channels) <==> attempt != channels - 1 && (match outcome {
            Ok(status) => status / 100 == 5,
            Err(_) => true,
        }),
{
}

} // verus!
