//! A filter that passes the bytes of a connection on to a cluster.

use crate::address::SocketAddr;
use crate::connector::TcpErrorContext;
use crate::headers::{no_fields, text_of, Headers};
use crate::http_filters::{ResponseFlags, NO_ROUTE_FOUND, UPSTREAM_CONNECTION_FAILURE};
use crate::metadata::{DownstreamMetadata, SocketAddrContext};
use crate::metrics::clusters::ClusterMetrics;
use crate::metrics::user::UserMetrics;
use crate::metrics::{count_up, counter_added};
use crate::partition_key::{extract_user_partition_key, user_of, PartitionKey, SourceHeaderNameOrSni};
use crate::sharded::{one_label, with_label};
use vstd::prelude::*;

verus! {

/// The configuration of the filter.
#[derive(Debug)]
pub struct TcpProxyConfig {
    /// The name by which the cluster is chosen.
    pub cluster_specifier: String,
    /// The formats of the access log, by number.
    pub access_log: Vec<u64>,
}

/// The filter.
#[derive(Debug)]
pub struct TcpProxy {
    pub listener_name: String,
    pub filterchain_id: u64,
    pub cluster: String,
    pub access_log: Vec<u64>,
}

/// Puts the filter together.
#[derive(Debug)]
pub struct TcpProxyBuilder {
    pub listener_name: Option<String>,
    pub filterchain_id: Option<u64>,
    pub tcp_proxy_config: TcpProxyConfig,
}

impl TcpProxyBuilder {
    pub fn new(tcp_proxy_config: TcpProxyConfig) -> (builder: TcpProxyBuilder)
        ensures
            builder == (TcpProxyBuilder { listener_name: None, filterchain_id: None, tcp_proxy_config }),
    {
        TcpProxyBuilder { listener_name: None, filterchain_id: None, tcp_proxy_config }
    }

    pub fn with_listener_name(self, name: String) -> (builder: TcpProxyBuilder)
        ensures
            builder == (TcpProxyBuilder { listener_name: Some(name), ..self }),
    {
        TcpProxyBuilder { listener_name: Some(name), ..self }
    }

    pub fn with_filterchain_id(self, value: u64) -> (builder: TcpProxyBuilder)
        ensures
            builder == (TcpProxyBuilder { filterchain_id: Some(value), ..self }),
    {
        TcpProxyBuilder { filterchain_id: Some(value), ..self }
    }

    pub fn build(self) -> (proxy: TcpProxy)
        ensures
            proxy.listener_name@ == (match self.listener_name {
                Some(name) => name@,
                None => "listener name is not set"@,
            }),
            proxy.filterchain_id == (match self.filterchain_id {
                Some(id) => id,
                None => 0,
            }),
            proxy.cluster == self.tcp_proxy_config.cluster_specifier,
            proxy.access_log == self.tcp_proxy_config.access_log,
    {
        TcpProxy {
            listener_name: match self.listener_name {
                Some(name) => name,
                None => "listener name is not set".to_owned(),
            },
            filterchain_id: match self.filterchain_id {
                Some(id) => id,
                None => 0,
            },
            cluster: self.tcp_proxy_config.cluster_specifier,
            access_log: self.tcp_proxy_config.access_log,
        }
    }
}

/// An error of a stream, in the words for each place in the access log.
#[derive(Debug)]
pub struct StreamFault {
    pub transport_failure: String,
    pub response_code: String,
    pub termination: String,
}

/// The channel to the upstream.
#[derive(Debug)]
pub struct Channel {
    pub cluster_name: String,
    pub upstream_local_addr: Option<SocketAddr>,
    pub upstream_peer_addr: Option<SocketAddr>,
}

/// The bytes that went through both sides of a connection.
#[derive(Debug, Clone, Copy, PartialEq, Eq, Structural)]
pub struct ByteCounts {
    pub received_down: u64,
    pub sent_down: u64,
    pub received_up: u64,
    pub sent_up: u64,
}

/// What came of a connection.
#[derive(Debug)]
pub enum TcpOutcome {
    /// The cluster has no way to an upstream.
    NoConnector { fault: Option<StreamFault> },
    /// The upstream could not be reached.
    ConnectFailed { context: Option<TcpErrorContext>, fault: Option<StreamFault> },
    /// Bytes were passed on until the connection ended, perhaps with an error
    /// on one of its sides.
    Copied { channel: Channel, bytes: ByteCounts, fault: Option<StreamFault>, downstream_failed: bool, upstream_failed: bool },
}

/// What the access log is told of a connection.
#[derive(Debug)]
pub struct TcpReport {
    pub socket_address: SocketAddrContext,
    pub cluster_name: String,
    pub bytes_received: u64,
    pub bytes_sent: u64,
    pub response_flags: ResponseFlags,
    pub upstream_transport_failure_reason: Option<String>,
    pub response_code_details: Option<String>,
    pub connection_termination_details: Option<String>,
    /// Whether the connection was served. One that was cut off counts as served.
    pub served: bool,
}

/// The addresses of a connection with those of its upstream.
pub open spec fn addresses(
    metadata: DownstreamMetadata,
    upstream_local_addr: Option<SocketAddr>,
    upstream_peer_addr: Option<SocketAddr>,
) -> SocketAddrContext {
    SocketAddrContext {
        downstream_local_addr: Some(metadata.connection.spec_local_address()),
        downstream_peer_addr: Some(metadata.connection.spec_peer_address()),
        upstream_local_addr,
        upstream_peer_addr,
    }
}

/// The words of a fault for the upstream's side.
pub open spec fn transport_words(fault: Option<StreamFault>) -> Option<Seq<char>> {
    match fault {
        Some(f) => Some(f.transport_failure@),
        None => None,
    }
}

/// The words of a fault for the response code.
pub open spec fn code_words(fault: Option<StreamFault>) -> Option<Seq<char>> {
    match fault {
        Some(f) => Some(f.response_code@),
        None => None,
    }
}

/// The words of a fault for the end of the connection.
pub open spec fn termination_words(fault: Option<StreamFault>) -> Option<Seq<char>> {
    match fault {
        Some(f) => Some(f.termination@),
        None => None,
    }
}

/// Whether a report tells what came of a connection.
pub open spec fn tells(report: TcpReport, proxy: TcpProxy, metadata: DownstreamMetadata, outcome: TcpOutcome) -> bool {
    match outcome {
        TcpOutcome::NoConnector { fault } => {
            &&& !report.served
            &&& report.socket_address == addresses(metadata, None, None)
            &&& report.cluster_name@ == proxy.cluster@
            &&& report.bytes_received == 0 && report.bytes_sent == 0
            &&& report.response_flags.bits == NO_ROUTE_FOUND
            &&& text_of(report.upstream_transport_failure_reason) == transport_words(fault)
            &&& text_of(report.response_code_details) == code_words(fault)
            &&& report.connection_termination_details is None
        },
        TcpOutcome::ConnectFailed { context, fault } => {
            &&& !report.served
            &&& report.socket_address == addresses(
                metadata,
                None,
                match context {
                    Some(c) => Some(c.upstream_addr),
                    None => None,
                },
            )
            &&& report.cluster_name@ == (match context {
                Some(c) => c.cluster_name@,
                None => "-"@,
            })
            &&& report.bytes_received == 0 && report.bytes_sent == 0
            &&& report.response_flags.bits == (match context {
                Some(c) => c.response_flags.bits,
                None => UPSTREAM_CONNECTION_FAILURE,
            })
            &&& text_of(report.upstream_transport_failure_reason) == transport_words(fault)
            &&& text_of(report.response_code_details) == code_words(fault)
            &&& report.connection_termination_details is None
        },
        TcpOutcome::Copied { channel, bytes, fault, downstream_failed, upstream_failed } => {
            &&& report.served
            &&& report.socket_address == addresses(metadata, channel.upstream_local_addr, channel.upstream_peer_addr)
            &&& report.cluster_name@ == channel.cluster_name@
            &&& report.bytes_received == bytes.received_down && report.bytes_sent == bytes.sent_down
            &&& report.response_flags.bits == (if fault is Some {
                UPSTREAM_CONNECTION_FAILURE
            } else {
                0
            })
            &&& text_of(report.connection_termination_details) == (if downstream_failed {
                termination_words(fault)
            } else {
                None
            })
            &&& text_of(report.upstream_transport_failure_reason) == (if !downstream_failed && upstream_failed {
                transport_words(fault)
            } else {
                None
            })
            &&& text_of(report.response_code_details) == code_words(fault)
        },
    }
}

fn transport_text(fault: &Option<StreamFault>) -> (text: Option<String>)
    ensures
        text_of(text) == transport_words(*fault),
{
    match fault {
        Some(f) => Some(f.transport_failure.clone()),
        None => None,
    }
}

fn code_text(fault: &Option<StreamFault>) -> (text: Option<String>)
    ensures
        text_of(text) == code_words(*fault),
{
    match fault {
        Some(f) => Some(f.response_code.clone()),
        None => None,
    }
}

fn termination_text(fault: &Option<StreamFault>) -> (text: Option<String>)
    ensures
        text_of(text) == termination_words(*fault),
{
    match fault {
        Some(f) => Some(f.termination.clone()),
        None => None,
    }
}

/// The cluster of a connection is not known.
#[derive(Debug, Clone, Copy, PartialEq, Eq, Structural)]
pub struct UnresolvedCluster;

impl UnresolvedCluster {
    /// The text shown to an operator.
    pub fn message(&self) -> (text: String)
        ensures
            text@ == "Failed to resolve cluster from specifier"@,
    {
        "Failed to resolve cluster from specifier".to_owned()
    }
}

/// Where a connection is on its way.
#[derive(Debug)]
pub enum TcpPhase {
    /// The cluster is looked up.
    Resolving,
    /// The cluster chooses the way to one of its upstreams.
    Choosing,
    Connecting,
    /// Bytes are passed on over a channel.
    Copying(Channel),
    Done,
}

/// What is to do with a connection.
#[derive(Debug)]
pub enum TcpAction {
    /// Look up the cluster of a name.
    ResolveCluster(String),
    /// Ask a cluster for the way to one of its upstreams.
    GetConnector(String),
    /// Connect to the upstream, and tell it of the client.
    Connect,
    /// Pass bytes on in both directions until the connection ends.
    Copy,
    /// Fail: there is no such cluster. The access log is told nothing.
    Unresolved(UnresolvedCluster),
    /// Count and report what came of the connection. One that bytes were
    /// passed on for was served; any other has failed.
    Finish(TcpOutcome),
}

/// Why an upstream could not be reached, as far as that is known.
#[derive(Debug)]
pub struct UpstreamUnreachable {
    pub context: Option<TcpErrorContext>,
    pub fault: Option<StreamFault>,
}

/// What came of the last action.
#[derive(Debug)]
pub enum TcpEvent {
    Resolved(Option<String>),
    /// A way to an upstream was chosen, or there is none, perhaps for an error of the system.
    Chosen(Result<(), Option<StreamFault>>),
    Connected(Result<Channel, UpstreamUnreachable>),
    /// The connection ended, perhaps with an error on one of its sides.
    Copied { bytes: ByteCounts, fault: Option<StreamFault>, downstream_failed: bool, upstream_failed: bool },
}

impl TcpPhase {
    /// Whether an event can come in this phase.
    pub open spec fn expects(self, event: TcpEvent) -> bool {
        match self {
            TcpPhase::Resolving => event is Resolved,
            TcpPhase::Choosing => event is Chosen,
            TcpPhase::Connecting => event is Connected,
            TcpPhase::Copying(_) => event is Copied,
            TcpPhase::Done => false,
        }
    }
}

/// What follows from an event: one step after the other as long as they
/// succeed, and the outcome of the step that ended the connection.
pub open spec fn tcp_follows(phase: TcpPhase, event: TcpEvent) -> (TcpPhase, TcpAction) {
    match event {
        TcpEvent::Resolved(Some(cluster)) => (TcpPhase::Choosing, TcpAction::GetConnector(cluster)),
        TcpEvent::Resolved(None) => (TcpPhase::Done, TcpAction::Unresolved(UnresolvedCluster)),
        TcpEvent::Chosen(Ok(_)) => (TcpPhase::Connecting, TcpAction::Connect),
        TcpEvent::Chosen(Err(fault)) => (TcpPhase::Done, TcpAction::Finish(TcpOutcome::NoConnector { fault })),
        TcpEvent::Connected(Ok(channel)) => (TcpPhase::Copying(channel), TcpAction::Copy),
        TcpEvent::Connected(Err(failed)) => (
            TcpPhase::Done,
            TcpAction::Finish(TcpOutcome::ConnectFailed { context: failed.context, fault: failed.fault }),
        ),
        TcpEvent::Copied { bytes, fault, downstream_failed, upstream_failed } => (
            TcpPhase::Done,
            TcpAction::Finish(
                TcpOutcome::Copied { channel: phase->Copying_0, bytes, fault, downstream_failed, upstream_failed },
            ),
        ),
    }
}

/// A connection after some events, from its beginning.
pub open spec fn tcp_run(specifier: String, events: Seq<TcpEvent>) -> (TcpPhase, TcpAction)
    decreases events.len(),
{
    if events.len() == 0 {
        (TcpPhase::Resolving, TcpAction::ResolveCluster(specifier))
    } else {
        tcp_follows(tcp_run(specifier, events.drop_last()).0, events.last())
    }
}

/// Whether each event answers what was to do before it.
pub open spec fn is_tcp_run(specifier: String, events: Seq<TcpEvent>) -> bool
    decreases events.len(),
{
    events.len() > 0 ==> {
        &&& is_tcp_run(specifier, events.drop_last())
        &&& tcp_run(specifier, events.drop_last()).0.expects(events.last())
    }
}

/// Whose bytes a connection carries, where that is told apart.
pub open spec fn user_of_connection(metadata: DownstreamMetadata, key: PartitionKey<SourceHeaderNameOrSni>) -> Option<
    Seq<char>,
> {
    user_of(no_fields(), text_of(metadata.sni), key.spec_source())
}

impl TcpProxy {
    /// Begins to serve a connection: the cluster is looked up by the name that
    /// the filter is for.
    pub fn serve_connection(&self) -> (begun: (TcpPhase, TcpAction))
        ensures
            begun.0 is Resolving,
            begun.1 matches TcpAction::ResolveCluster(specifier) && specifier@ == self.cluster@,
    {
        (TcpPhase::Resolving, TcpAction::ResolveCluster(self.cluster.clone()))
    }

    /// Goes on with what came of the last action.
    pub fn step(&self, phase: TcpPhase, event: TcpEvent) -> (next: (TcpPhase, TcpAction))
        requires
            phase.expects(event),
        ensures
            next == tcp_follows(phase, event),
    {
        match event {
            TcpEvent::Resolved(Some(cluster)) => (TcpPhase::Choosing, TcpAction::GetConnector(cluster)),
            TcpEvent::Resolved(None) => (TcpPhase::Done, TcpAction::Unresolved(UnresolvedCluster)),
            TcpEvent::Chosen(Ok(_)) => (TcpPhase::Connecting, TcpAction::Connect),
            TcpEvent::Chosen(Err(fault)) => (TcpPhase::Done, TcpAction::Finish(TcpOutcome::NoConnector { fault })),
            TcpEvent::Connected(Ok(channel)) => (TcpPhase::Copying(channel), TcpAction::Copy),
            TcpEvent::Connected(Err(failed)) => (
                TcpPhase::Done,
                TcpAction::Finish(TcpOutcome::ConnectFailed { context: failed.context, fault: failed.fault }),
            ),
            TcpEvent::Copied { bytes, fault, downstream_failed, upstream_failed } => match phase {
                TcpPhase::Copying(channel) => (
                    TcpPhase::Done,
                    TcpAction::Finish(
                        TcpOutcome::Copied { channel, bytes, fault, downstream_failed, upstream_failed },
                    ),
                ),
                other => (other, TcpAction::Copy),
            },
        }
    }

    /// What the access log is told of a connection that came to its end.
    pub fn report(&self, metadata: &DownstreamMetadata, outcome: &TcpOutcome) -> (report: TcpReport)
        ensures
            tells(report, *self, *metadata, *outcome),
    {
        let local: Option<SocketAddr> = Some(metadata.connection.local_address());
        let peer: Option<SocketAddr> = Some(metadata.connection.peer_address());
        match outcome {
            TcpOutcome::NoConnector { fault } => TcpReport {
                socket_address: SocketAddrContext {
                    downstream_local_addr: local,
                    downstream_peer_addr: peer,
                    upstream_local_addr: None,
                    upstream_peer_addr: None,
                },
                cluster_name: self.cluster.clone(),
                bytes_received: 0,
                bytes_sent: 0,
                response_flags: ResponseFlags { bits: NO_ROUTE_FOUND },
                upstream_transport_failure_reason: transport_text(fault),
                response_code_details: code_text(fault),
                connection_termination_details: None,
                served: false,
            },
            TcpOutcome::ConnectFailed { context, fault } => {
                let upstream_peer_addr: Option<SocketAddr> = match context {
                    Some(c) => Some(c.upstream_addr),
                    None => None,
                };
                let bits: u32 = match context {
                    Some(c) => c.response_flags.bits,
                    None => UPSTREAM_CONNECTION_FAILURE,
                };
                TcpReport {
                    socket_address: SocketAddrContext {
                        downstream_local_addr: local,
                        downstream_peer_addr: peer,
                        upstream_local_addr: None,
                        upstream_peer_addr,
                    },
                    cluster_name: match context {
                        Some(c) => c.cluster_name.clone(),
                        None => "-".to_owned(),
                    },
                    bytes_received: 0,
                    bytes_sent: 0,
                    response_flags: ResponseFlags { bits },
                    upstream_transport_failure_reason: transport_text(fault),
                    response_code_details: code_text(fault),
                    connection_termination_details: None,
                    served: false,
                }
            },
            TcpOutcome::Copied { channel, bytes, fault, downstream_failed, upstream_failed } => TcpReport {
                socket_address: SocketAddrContext {
                    downstream_local_addr: local,
                    downstream_peer_addr: peer,
                    upstream_local_addr: channel.upstream_local_addr,
                    upstream_peer_addr: channel.upstream_peer_addr,
                },
                cluster_name: channel.cluster_name.clone(),
                bytes_received: bytes.received_down,
                bytes_sent: bytes.sent_down,
                response_flags: ResponseFlags {
                    bits: if fault.is_some() {
                        UPSTREAM_CONNECTION_FAILURE
                    } else {
                        0
                    },
                },
                upstream_transport_failure_reason: if !*downstream_failed && *upstream_failed {
                    transport_text(fault)
                } else {
                    None
                },
                response_code_details: code_text(fault),
                connection_termination_details: if *downstream_failed {
                    termination_text(fault)
                } else {
                    None
                },
                served: true,
            },
        }
    }

    /// Counts the bytes that were passed on, for the cluster and for the user.
    /// A connection that never got that far counts for nothing.
    pub fn count_bytes(
        &self,
        metadata: &DownstreamMetadata,
        outcome: &TcpOutcome,
        user_key: &PartitionKey<SourceHeaderNameOrSni>,
        clusters: &mut ClusterMetrics,
        users: &mut UserMetrics,
        shard: u64,
    )
        ensures
            match outcome {
                TcpOutcome::Copied { channel, bytes, .. } => {
                    let user = user_of_connection(*metadata, *user_key);
                    let attribute = match user_key.spec_attribute() {
                        Some(name) => name,
                        None => "user"@,
                    };
                    let user_labels = seq![(attribute, user->0)].push(("listener"@, metadata.listener_name@));
                    &&& counter_added(
                        old(clusters).upstream_cx_rx_bytes_total,
                        final(clusters).upstream_cx_rx_bytes_total,
                        bytes.received_up,
                        shard,
                        seq![("cluster"@, channel.cluster_name@)],
                    )
                    &&& counter_added(
                        old(clusters).upstream_cx_tx_bytes_total,
                        final(clusters).upstream_cx_tx_bytes_total,
                        bytes.sent_up,
                        shard,
                        seq![("cluster"@, channel.cluster_name@)],
                    )
                    &&& *final(clusters) == (ClusterMetrics {
                        upstream_cx_rx_bytes_total: final(clusters).upstream_cx_rx_bytes_total,
                        upstream_cx_tx_bytes_total: final(clusters).upstream_cx_tx_bytes_total,
                        ..*old(clusters)
                    })
                    &&& if user is Some {
                        &&& counter_added(
                            old(users).bytes_rx,
                            final(users).bytes_rx,
                            bytes.received_down,
                            shard,
                            user_labels,
                        )
                        &&& counter_added(
                            old(users).bytes_tx,
                            final(users).bytes_tx,
                            bytes.sent_down,
                            shard,
                            user_labels,
                        )
                        &&& *final(users) == (UserMetrics {
                            bytes_rx: final(users).bytes_rx,
                            bytes_tx: final(users).bytes_tx,
                            ..*old(users)
                        })
                    } else {
                        *final(users) == *old(users)
                    }
                },
                _ => *final(clusters) == *old(clusters) && *final(users) == *old(users),
            },
    {
        match outcome {
            TcpOutcome::Copied { channel, bytes, .. } => {
                let labels: Vec<(String, String)> = one_label("cluster", channel.cluster_name.as_str());
                count_up(&mut clusters.upstream_cx_rx_bytes_total, bytes.received_up, shard, &labels);
                count_up(&mut clusters.upstream_cx_tx_bytes_total, bytes.sent_up, shard, &labels);
                match extract_user_partition_key(&Headers::new(), &metadata.sni, user_key.source()) {
                    Some(user) => {
                        let attribute: String = user_key.attribute_or("user");
                        let own: Vec<(String, String)> = one_label(attribute.as_str(), user.as_str());
                        let all: Vec<(String, String)> = with_label(&own, "listener", metadata.listener_name.as_str());
                        count_up(&mut users.bytes_rx, bytes.received_down, shard, &all);
                        count_up(&mut users.bytes_tx, bytes.sent_down, shard, &all);
                    },
                    None => {},
                }
            },
            _ => {},
        }
    }
}

/// The course of a whole connection: the cluster is looked up, it chooses a
/// way, the way is connected, bytes are passed on, in this order and each at
/// most once. A connection ends after the first of these that fails, with the
/// outcome of that one, and bytes are passed on over the channel that was made.
pub proof fn law_course_of_a_connection(specifier: String, events: Seq<TcpEvent>)
    requires
        is_tcp_run(specifier, events),
    ensures
        events.len() <= 4,
        events.len() > 0 ==> events[0] is Resolved,
        events.len() > 1 ==> events[0]->Resolved_0 is Some && events[1] is Chosen,
        events.len() > 2 ==> events[1]->Chosen_0 is Ok && events[2] is Connected,
        events.len() > 3 ==> events[2]->Connected_0 is Ok && events[3] is Copied,
        match tcp_run(specifier, events).1 {
            TcpAction::ResolveCluster(name) => events.len() == 0 && name == specifier,
            TcpAction::GetConnector(cluster) => events.len() == 1 && events[0] == TcpEvent::Resolved(Some(cluster)),
            TcpAction::Connect => events.len() == 2 && events[1] is Chosen && events[1]->Chosen_0 is Ok,
            TcpAction::Copy => events.len() == 3 && events[2]->Connected_0 is Ok,
            TcpAction::Unresolved(_) => events.len() == 1 && events[0] == TcpEvent::Resolved(None),
            TcpAction::Finish(TcpOutcome::NoConnector { fault }) => {
                events.len() == 2 && events[1] == TcpEvent::Chosen(Err(fault))
            },
            TcpAction::Finish(TcpOutcome::ConnectFailed { context, fault }) => {
                events.len() == 3 && events[2] == TcpEvent::Connected(Err(UpstreamUnreachable { context, fault }))
            },
            TcpAction::Finish(
                TcpOutcome::Copied { channel, bytes, fault, downstream_failed, upstream_failed },
            ) => {
                &&& events.len() == 4
                &&& events[2] == TcpEvent::Connected(Ok(channel))
                &&& events[3] == (TcpEvent::Copied { bytes, fault, downstream_failed, upstream_failed })
            },
        },
    decreases events.len(),
{
    lemma_tcp_phase(specifier, events);
    if events.len() > 0 {
        let earlier = events.drop_last();
        law_course_of_a_connection(specifier, earlier);
        lemma_tcp_phase(specifier, earlier);
    }
}

/// Which phase a connection is in tells how many events came, and the channel
/// is the one that was made.
proof fn lemma_tcp_phase(specifier: String, events: Seq<TcpEvent>)
    requires
        is_tcp_run(specifier, events),
    ensures
        match tcp_run(specifier, events).0 {
            TcpPhase::Resolving => events.len() == 0,
            TcpPhase::Choosing => events.len() == 1 && events[0] is Resolved && events[0]->Resolved_0 is Some,
            TcpPhase::Connecting => events.len() == 2 && events[1] is Chosen && events[1]->Chosen_0 is Ok,
            TcpPhase::Copying(channel) => events.len() == 3 && events[2] == TcpEvent::Connected(Ok(channel)),
            TcpPhase::Done => events.len() > 0,
        },
    decreases events.len(),
{
    if events.len() > 0 {
        lemma_tcp_phase(specifier, events.drop_last());
    }
}

/// A connection counts as served exactly when bytes could be passed on, and
/// only then does the access log hear of any.
pub proof fn law_only_served_connections_carry_bytes(
    report: TcpReport,
    proxy: TcpProxy,
    metadata: DownstreamMetadata,
    outcome: TcpOutcome,
)
    requires
        tells(report, proxy, metadata, outcome),
    ensures
        report.served <==> outcome is Copied,
        !report.served ==> report.bytes_received == 0 && report.bytes_sent == 0,
        !report.served && (outcome matches TcpOutcome::ConnectFailed { context: Some(c), fault }
            ==> c.response_flags.bits != 0) ==> report.response_flags.bits != 0,
{
}

/// What is told of a connection that was served is what happened on it: the
/// bytes that went either way, a mark exactly where it broke, and the words
/// for it on the side where it broke, that of the client first.
pub proof fn law_served_connection_is_told_as_it_was(
    report: TcpReport,
    proxy: TcpProxy,
    metadata: DownstreamMetadata,
    channel: Channel,
    bytes: ByteCounts,
    fault: Option<StreamFault>,
    downstream_failed: bool,
    upstream_failed: bool,
)
    requires
        tells(
            report,
            proxy,
            metadata,
            (TcpOutcome::Copied { channel, bytes, fault, downstream_failed, upstream_failed }),
        ),
    ensures
        report.bytes_received == bytes.received_down,
        report.bytes_sent == bytes.sent_down,
        report.response_flags.bits == 0 <==> fault is None,
        fault is None ==> report.connection_termination_details is None && report.upstream_transport_failure_reason
            is None && report.response_code_details is None,
        report.connection_termination_details is Some <==> fault is Some && downstream_failed,
        report.upstream_transport_failure_reason is Some <==> fault is Some && upstream_failed && !downstream_failed,
        fault is Some && downstream_failed ==> report.connection_termination_details->0@ == fault->0.termination@,
        report.response_code_details is Some ==> report.response_code_details->0@ == fault->0.response_code@,
        report.socket_address.upstream_local_addr == channel.upstream_local_addr,
        report.socket_address.upstream_peer_addr == channel.upstream_peer_addr,
        report.socket_address.downstream_local_addr == Some(metadata.connection.spec_local_address()),
        report.socket_address.downstream_peer_addr == Some(metadata.connection.spec_peer_address()),
{
}

/// What is told of a connection that was not served names the cluster that was
/// asked, as far as it is known, and the address that was tried.
pub proof fn law_unserved_connection_is_told_as_it_was(
    report: TcpReport,
    proxy: TcpProxy,
    metadata: DownstreamMetadata,
    outcome: TcpOutcome,
)
    requires
        tells(report, proxy, metadata, outcome),
        !(outcome is Copied),
    ensures
        outcome is NoConnector ==> report.cluster_name@ == proxy.cluster@ && report.socket_address.upstream_peer_addr
            is None && report.response_flags.bits == NO_ROUTE_FOUND,
        outcome matches TcpOutcome::ConnectFailed { context: Some(context), fault } ==> {
            &&& report.cluster_name@ == context.cluster_name@
            &&& report.socket_address.upstream_peer_addr == Some(context.upstream_addr)
            &&& report.response_flags.bits == context.response_flags.bits
        },
        outcome matches TcpOutcome::ConnectFailed { context: None, fault } ==> {
            &&& report.socket_address.upstream_peer_addr is None
            &&& report.response_flags.bits == UPSTREAM_CONNECTION_FAILURE
        },
        report.socket_address.upstream_local_addr is None,
        report.socket_address.downstream_local_addr == Some(metadata.connection.spec_local_address()),
        report.socket_address.downstream_peer_addr == Some(metadata.connection.spec_peer_address()),
{
}

} // verus!
