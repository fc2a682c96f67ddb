//! The way to an upstream: over a socket, or to a listener inside the process.

use crate::address::SocketAddr;
use crate::authority::{authority_error, authority_host, authority_port, is_authority, Authority};
use crate::http_filters::{
    ResponseFlags, DNS_RESOLUTION_FAILED, NO_HEALTHY_UPSTREAM, UPSTREAM_CONNECTION_FAILURE,
};
use crate::instrumented_stream::IoErrorKind;
use crate::internal_registry::InternalRegistry;
use crate::metadata::DownstreamConnectionMetadata;
use crate::text::{append_decimal, decimal};
use vstd::prelude::*;

verus! {

/// The network interface that a socket is bound to.
#[derive(Debug)]
pub struct BindDevice {
    pub interface: String,
}

impl BindDevice {
    pub fn copy(&self) -> (copied: BindDevice)
        ensures
            copied == *self,
    {
        BindDevice { interface: self.interface.clone() }
    }
}

fn copy_device(device: &Option<BindDevice>) -> (copied: Option<BindDevice>)
    ensures
        copied == *device,
{
    match device {
        Some(d) => Some(d.copy()),
        None => None,
    }
}

/// An error of the system on the way to an upstream.
#[derive(Debug)]
pub struct IoFailure {
    pub kind: IoErrorKind,
    pub text: String,
}

/// Something that happened to a connection attempt.
#[derive(Debug)]
pub enum EventError {
    ConnectTimeout,
    IoError(IoFailure),
}

/// Why a connection could not be made.
#[derive(Debug)]
pub enum ConnectError {
    Io(IoFailure),
    Event(EventError),
}

/// Where an upstream is.
#[derive(Debug)]
pub enum Address {
    Socket(String, u16),
    Internal(String),
    Pipe(String),
}

/// Why there is no way to an address.
#[derive(Debug)]
pub enum AddressError {
    /// What is wrong with the authority.
    InvalidAuthority(String),
    PipeUnsupported(String),
}

impl AddressError {
    pub open spec fn spec_message(&self) -> Seq<char> {
        match self {
            AddressError::InvalidAuthority(fault) => fault@,
            AddressError::PipeUnsupported(path) =>
                "Pipe addresses are not supported for upstream connections: "@ + path@,
        }
    }

    /// The text shown to an operator.
    pub fn message(&self) -> (text: String)
        ensures
            text@ == self.spec_message(),
    {
        match self {
            AddressError::InvalidAuthority(fault) => fault.clone(),
            AddressError::PipeUnsupported(path) => {
                let mut text = "Pipe addresses are not supported for upstream connections: ".to_owned();
                text.append(path.as_str());
                text
            },
        }
    }
}

/// The way to an upstream.
#[derive(Debug)]
pub enum ConnectUsing {
    Socket { authority: Authority, bind_device: Option<BindDevice>, timeout: Option<u64> },
    InternalListener { listener_name: String, synthetic_authority: Authority },
}

/// The authority of a socket address.
pub open spec fn socket_authority(host: Seq<char>, port: u16) -> Seq<char> {
    host + ":"@ + decimal(port as nat)
}

/// The authority that stands for a listener inside the process.
pub open spec fn internal_authority(listener_name: Seq<char>) -> Seq<char> {
    listener_name + ".listener.internal:80"@
}

impl ConnectUsing {
    pub open spec fn spec_authority(&self) -> Seq<char> {
        match self {
            ConnectUsing::Socket { authority, .. } => authority@,
            ConnectUsing::InternalListener { synthetic_authority, .. } => synthetic_authority@,
        }
    }

    pub fn authority(&self) -> (authority: &Authority)
        ensures
            authority@ == self.spec_authority(),
    {
        match self {
            ConnectUsing::Socket { authority, .. } => authority,
            ConnectUsing::InternalListener { synthetic_authority, .. } => synthetic_authority,
        }
    }

    /// Binds the socket to a network interface. A listener inside the process has none.
    pub fn with_bind_device(self, device: Option<BindDevice>) -> (target: ConnectUsing)
        ensures
            target == (match self {
                ConnectUsing::Socket { authority, bind_device, timeout } => ConnectUsing::Socket {
                    authority,
                    bind_device: device,
                    timeout,
                },
                internal => internal,
            }),
    {
        match self {
            ConnectUsing::Socket { authority, timeout, .. } => ConnectUsing::Socket {
                authority,
                bind_device: device,
                timeout,
            },
            ConnectUsing::InternalListener { listener_name, synthetic_authority } => ConnectUsing::InternalListener {
                listener_name,
                synthetic_authority,
            },
        }
    }

    /// Limits the time a connection attempt takes. A listener inside the
    /// process is reached at once.
    pub fn with_timeout(self, timeout: Option<u64>) -> (target: ConnectUsing)
        ensures
            target == (match self {
                ConnectUsing::Socket { authority, bind_device, timeout: before } => ConnectUsing::Socket {
                    authority,
                    bind_device,
                    timeout,
                },
                internal => internal,
            }),
    {
        match self {
            ConnectUsing::Socket { authority, bind_device, .. } => ConnectUsing::Socket {
                authority,
                bind_device,
                timeout,
            },
            ConnectUsing::InternalListener { listener_name, synthetic_authority } => ConnectUsing::InternalListener {
                listener_name,
                synthetic_authority,
            },
        }
    }

    /// The way to an address.
    pub fn from_address(address: &Address, bind_device: Option<BindDevice>, timeout: Option<u64>) -> (res: Result<
        ConnectUsing,
        AddressError,
    >)
        ensures
            match address {
                Address::Socket(host, port) => if is_authority(socket_authority(host@, *port)) {
                    res matches Ok(target) && target is Socket && target.spec_authority() == socket_authority(
                        host@,
                        *port,
                    ) && target->bind_device == bind_device && target->timeout == timeout
                } else {
                    res matches Err(AddressError::InvalidAuthority(fault)) && Some(fault@) == authority_error(
                        socket_authority(host@, *port),
                    )
                },
                Address::Internal(name) => if is_authority(internal_authority(name@)) {
                    res matches Ok(target) && target is InternalListener && target.spec_authority()
                        == internal_authority(name@) && target->listener_name@ == name@
                } else {
                    res matches Err(AddressError::InvalidAuthority(fault)) && Some(fault@) == authority_error(
                        internal_authority(name@),
                    )
                },
                Address::Pipe(path) => res matches Err(AddressError::PipeUnsupported(p)) && p@ == path@,
            },
    {
        match address {
            Address::Socket(host, port) => {
                let mut text: String = host.clone();
                text.append(":");
                append_decimal(&mut text, *port as u64);
                match Authority::parse(text) {
                    Ok(authority) => Ok(ConnectUsing::Socket { authority, bind_device, timeout }),
                    Err(fault) => Err(AddressError::InvalidAuthority(fault)),
                }
            },
            Address::Internal(name) => {
                let mut text: String = name.clone();
                text.append(".listener.internal:80");
                match Authority::parse(text) {
                    Ok(synthetic_authority) => Ok(
                        ConnectUsing::InternalListener { listener_name: name.clone(), synthetic_authority },
                    ),
                    Err(fault) => Err(AddressError::InvalidAuthority(fault)),
                }
            },
            Address::Pipe(path) => Err(AddressError::PipeUnsupported(path.clone())),
        }
    }
}

/// What is known of a connection attempt that failed.
#[derive(Debug)]
pub struct TcpErrorContext {
    pub upstream_addr: SocketAddr,
    pub response_flags: ResponseFlags,
    pub cluster_name: String,
}

/// A connection attempt that failed.
#[derive(Debug)]
pub struct ConnectFailure {
    pub error: ConnectError,
    pub context: TcpErrorContext,
}

/// The way over a socket.
#[derive(Debug)]
pub struct LocalConnectorWithDNSResolver {
    pub addr: Authority,
    pub cluster_name: String,
    pub bind_device: Option<BindDevice>,
    /// How long a connection attempt may take, in nanoseconds.
    pub timeout: Option<u64>,
}

/// Where a connection attempt is.
#[derive(Debug, Clone, Copy, PartialEq, Eq, Structural)]
pub enum ConnectPhase {
    Resolving { port: u16 },
    MakingSocket { addr: SocketAddr },
    Binding { addr: SocketAddr },
    Connecting { addr: SocketAddr },
    Done,
}

/// What the caller is asked to do.
#[derive(Debug)]
pub enum ConnectAction {
    /// Look up the address of a host.
    Resolve { host: String, port: u16 },
    /// Make a socket of the IPv4 family.
    MakeSocket,
    /// Bind the socket to a network interface.
    Bind(BindDevice),
    /// Connect the socket, within a time where one is given.
    Connect { addr: SocketAddr, timeout: Option<u64> },
    /// The socket is connected.
    Finish,
    Fail(ConnectFailure),
}

/// What the caller hands back. A failure comes with its reason.
#[derive(Debug)]
pub enum ConnectEvent {
    Resolved(Result<SocketAddr, IoFailure>),
    SocketMade(Result<(), IoFailure>),
    Bound(Result<(), IoFailure>),
    /// `None` when the time ran out.
    Connected(Option<Result<(), IoFailure>>),
}

impl ConnectPhase {
    /// Whether an event can come in this phase.
    pub open spec fn expects(self, event: ConnectEvent) -> bool {
        match self {
            ConnectPhase::Resolving { .. } => event is Resolved,
            ConnectPhase::MakingSocket { .. } => event is SocketMade,
            ConnectPhase::Binding { .. } => event is Bound,
            ConnectPhase::Connecting { .. } => event is Connected,
            ConnectPhase::Done => false,
        }
    }
}

/// Whether an action gives up, with what is known of the failure.
pub open spec fn gives_up(
    action: ConnectAction,
    error: ConnectError,
    addr: SocketAddr,
    flags: u32,
    cluster_name: Seq<char>,
) -> bool {
    &&& action matches ConnectAction::Fail(failure)
    &&& failure.error == error
    &&& failure.context.upstream_addr == addr
    &&& failure.context.response_flags.bits == flags
    &&& failure.context.cluster_name@ == cluster_name
}

/// Whether `action` and `after` follow from an event.
pub open spec fn connect_follows(
    connector: LocalConnectorWithDNSResolver,
    phase: ConnectPhase,
    event: ConnectEvent,
    after: ConnectPhase,
    action: ConnectAction,
) -> bool {
    match (phase, event) {
        (ConnectPhase::Resolving { port }, ConnectEvent::Resolved(Ok(addr))) => {
            action is MakeSocket && after == (ConnectPhase::MakingSocket { addr })
        },
        (ConnectPhase::Resolving { port }, ConnectEvent::Resolved(Err(reason))) => {
            &&& after == ConnectPhase::Done
            &&& gives_up(
                action,
                ConnectError::Io(reason),
                (SocketAddr { ip: crate::address::IpAddr::V4(0), port }),
                DNS_RESOLUTION_FAILED,
                connector.cluster_name@,
            )
        },
        (ConnectPhase::MakingSocket { addr }, ConnectEvent::SocketMade(Ok(_))) => {
            if connector.bind_device is Some {
                &&& action == ConnectAction::Bind(connector.bind_device->0)
                &&& after == (ConnectPhase::Binding { addr })
            } else {
                &&& action == (ConnectAction::Connect { addr, timeout: connector.timeout })
                &&& after == (ConnectPhase::Connecting { addr })
            }
        },
        (ConnectPhase::MakingSocket { addr }, ConnectEvent::SocketMade(Err(reason))) => {
            &&& after == ConnectPhase::Done
            &&& gives_up(
                action,
                ConnectError::Io(reason),
                addr,
                NO_HEALTHY_UPSTREAM | UPSTREAM_CONNECTION_FAILURE,
                connector.cluster_name@,
            )
        },
        (ConnectPhase::Binding { addr }, ConnectEvent::Bound(Ok(_))) => {
            &&& action == (ConnectAction::Connect { addr, timeout: connector.timeout })
            &&& after == (ConnectPhase::Connecting { addr })
        },
        (ConnectPhase::Binding { addr }, ConnectEvent::Bound(Err(reason))) => {
            &&& after == ConnectPhase::Done
            &&& gives_up(
                action,
                ConnectError::Io(reason),
                addr,
                UPSTREAM_CONNECTION_FAILURE,
                connector.cluster_name@,
            )
        },
        (ConnectPhase::Connecting { addr }, ConnectEvent::Connected(outcome)) => {
            &&& after == ConnectPhase::Done
            &&& match outcome {
                Some(Ok(_)) => action is Finish,
                Some(Err(reason)) => gives_up(
                    action,
                    ConnectError::Event(EventError::IoError(reason)),
                    addr,
                    UPSTREAM_CONNECTION_FAILURE,
                    connector.cluster_name@,
                ),
                None => gives_up(
                    action,
                    ConnectError::Event(EventError::ConnectTimeout),
                    addr,
                    UPSTREAM_CONNECTION_FAILURE,
                    connector.cluster_name@,
                ),
            }
        },
        _ => false,
    }
}

impl LocalConnectorWithDNSResolver {
    fn failure(&self, error: ConnectError, addr: SocketAddr, flags: u32) -> (action: ConnectAction)
        ensures
            gives_up(action, error, addr, flags, self.cluster_name@),
    {
        ConnectAction::Fail(
            ConnectFailure {
                error,
                context: TcpErrorContext {
                    upstream_addr: addr,
                    response_flags: ResponseFlags { bits: flags },
                    cluster_name: self.cluster_name.clone(),
                },
            },
        )
    }

    /// Begins a connection attempt. An authority without a port leads nowhere.
    pub fn connect(&self) -> (begun: (ConnectPhase, ConnectAction))
        ensures
            match authority_port(self.addr@) {
                Some(port) => {
                    &&& begun.0 == (ConnectPhase::Resolving { port })
                    &&& begun.1 matches ConnectAction::Resolve { host, port: p }
                    &&& host@ == authority_host(self.addr@)
                    &&& p == port
                },
                None => {
                    &&& begun.0 == ConnectPhase::Done
                    &&& begun.1 matches ConnectAction::Fail(failure)
                    &&& failure.error matches ConnectError::Io(reason)
                    &&& reason.kind == IoErrorKind::AddrNotAvailable
                    &&& reason.text@ == "Port has to be set "@ + self.addr@
                    &&& failure.context.upstream_addr == SocketAddr::unspecified()
                    &&& failure.context.response_flags.bits == UPSTREAM_CONNECTION_FAILURE
                    &&& failure.context.cluster_name@ == self.cluster_name@
                },
            },
    {
        match self.addr.port() {
            Some(port) => (ConnectPhase::Resolving { port }, ConnectAction::Resolve { host: self.addr.host(), port }),
            None => {
                let mut text = "Port has to be set ".to_owned();
                text.append(self.addr.as_str());
                (
                    ConnectPhase::Done,
                    self.failure(
                        ConnectError::Io(IoFailure { kind: IoErrorKind::AddrNotAvailable, text }),
                        SocketAddr::unspecified(),
                        UPSTREAM_CONNECTION_FAILURE,
                    ),
                )
            },
        }
    }

    /// Goes on with what came of the last action.
    pub fn step(&self, phase: ConnectPhase, event: ConnectEvent) -> (next: (ConnectPhase, ConnectAction))
        requires
            phase.expects(event),
        ensures
            connect_follows(*self, phase, event, next.0, next.1),
    {
        match event {
            ConnectEvent::Resolved(resolved) => {
                let port: u16 = match phase {
                    ConnectPhase::Resolving { port } => port,
                    _ => 0,
                };
                match resolved {
                    Ok(addr) => (ConnectPhase::MakingSocket { addr }, ConnectAction::MakeSocket),
                    Err(reason) => (
                        ConnectPhase::Done,
                        self.failure(
                            ConnectError::Io(reason),
                            SocketAddr { ip: crate::address::IpAddr::V4(0), port },
                            DNS_RESOLUTION_FAILED,
                        ),
                    ),
                }
            },
            ConnectEvent::SocketMade(made) => {
                let addr: SocketAddr = match phase {
                    ConnectPhase::MakingSocket { addr } => addr,
                    _ => SocketAddr::unspecified(),
                };
                match made {
                    Ok(_) => match &self.bind_device {
                        Some(device) => (ConnectPhase::Binding { addr }, ConnectAction::Bind(device.copy())),
                        None => (
                            ConnectPhase::Connecting { addr },
                            ConnectAction::Connect { addr, timeout: self.timeout },
                        ),
                    },
                    Err(reason) => (
                        ConnectPhase::Done,
                        self.failure(
                            ConnectError::Io(reason),
                            addr,
                            NO_HEALTHY_UPSTREAM | UPSTREAM_CONNECTION_FAILURE,
                        ),
                    ),
                }
            },
            ConnectEvent::Bound(bound) => {
                let addr: SocketAddr = match phase {
                    ConnectPhase::Binding { addr } => addr,
                    _ => SocketAddr::unspecified(),
                };
                match bound {
                    Ok(_) => (
                        ConnectPhase::Connecting { addr },
                        ConnectAction::Connect { addr, timeout: self.timeout },
                    ),
                    Err(reason) => (
                        ConnectPhase::Done,
                        self.failure(ConnectError::Io(reason), addr, UPSTREAM_CONNECTION_FAILURE),
                    ),
                }
            },
            ConnectEvent::Connected(outcome) => {
                let addr: SocketAddr = match phase {
                    ConnectPhase::Connecting { addr } => addr,
                    _ => SocketAddr::unspecified(),
                };
                match outcome {
                    Some(Ok(_)) => (ConnectPhase::Done, ConnectAction::Finish),
                    Some(Err(reason)) => (
                        ConnectPhase::Done,
                        self.failure(
                            ConnectError::Event(EventError::IoError(reason)),
                            addr,
                            UPSTREAM_CONNECTION_FAILURE,
                        ),
                    ),
                    None => (
                        ConnectPhase::Done,
                        self.failure(
                            ConnectError::Event(EventError::ConnectTimeout),
                            addr,
                            UPSTREAM_CONNECTION_FAILURE,
                        ),
                    ),
                }
            },
        }
    }
}

/// The way to a listener inside the process.
#[derive(Debug)]
pub struct InternalConnector {
    pub listener_name: String,
    pub cluster_name: String,
    pub is_http2: bool,
}

impl InternalConnector {
    /// The channel of the listener, and what it is told of the client. A
    /// connection that no client caused counts as one from the host itself.
    pub fn connect(
        &self,
        registry: &InternalRegistry,
        runtime_id: usize,
        downstream: Option<DownstreamConnectionMetadata>,
    ) -> (res: Result<(u64, DownstreamConnectionMetadata), IoFailure>)
        ensures
            if registry@.contains_key((runtime_id, self.listener_name@)) {
                &&& res matches Ok(found)
                &&& found.0 == registry@[(runtime_id, self.listener_name@)]
                &&& found.1 == (match downstream {
                    Some(metadata) => metadata,
                    None => DownstreamConnectionMetadata::FromSocket {
                        peer_address: SocketAddr::loopback(),
                        local_address: SocketAddr::loopback(),
                    },
                })
            } else {
                &&& res matches Err(failure)
                &&& failure.kind == IoErrorKind::ConnectionRefused
                &&& failure.text@ == "Internal listener '"@ + self.listener_name@ + "' not found or not ready"@
            },
    {
        match registry.get_connection_sender_for_listener(runtime_id, self.listener_name.as_str()) {
            None => {
                let mut text = "Internal listener '".to_owned();
                text.append(self.listener_name.as_str());
                text.append("' not found or not ready");
                Err(IoFailure { kind: IoErrorKind::ConnectionRefused, text })
            },
            Some(channel) => {
                let metadata = match downstream {
                    Some(metadata) => metadata,
                    None => DownstreamConnectionMetadata::FromSocket {
                        peer_address: SocketAddr::loopback(),
                        local_address: SocketAddr::loopback(),
                    },
                };
                Ok((channel, metadata))
            },
        }
    }

    /// The failure of a connection that the channel of the listener did not take.
    pub fn not_sent(&self, why: &str) -> (failure: IoFailure)
        ensures
            failure.kind == IoErrorKind::ConnectionRefused,
            failure.text@ == "Failed to send connection to internal listener '"@ + self.listener_name@ + "': "@ + why@,
    {
        let mut text = "Failed to send connection to internal listener '".to_owned();
        text.append(self.listener_name.as_str());
        text.append("': ");
        text.append(why);
        IoFailure { kind: IoErrorKind::ConnectionRefused, text }
    }
}

/// The way to an upstream of a cluster.
#[derive(Debug)]
pub enum UnifiedConnector {
    Socket(LocalConnectorWithDNSResolver),
    Internal(InternalConnector),
}

impl UnifiedConnector {
    /// Whether this connector leads where a target says, for a cluster.
    pub open spec fn leads_to(&self, target: &ConnectUsing, cluster_name: Seq<char>, http2: bool) -> bool {
        match target {
            ConnectUsing::Socket { authority, bind_device, timeout } => {
                &&& self matches UnifiedConnector::Socket(connector)
                &&& connector.addr@ == authority@
                &&& connector.cluster_name@ == cluster_name
                &&& connector.bind_device == *bind_device
                &&& connector.timeout == *timeout
            },
            ConnectUsing::InternalListener { listener_name, synthetic_authority } => {
                &&& self matches UnifiedConnector::Internal(connector)
                &&& connector.listener_name@ == listener_name@
                &&& connector.cluster_name@ == cluster_name
                &&& connector.is_http2 == http2
            },
        }
    }

    /// The connector of a target, for connections that speak HTTP/2 or not.
    pub fn new(target: &ConnectUsing, cluster_name: &str, is_http2: bool) -> (connector: UnifiedConnector)
        ensures
            connector.leads_to(target, cluster_name@, is_http2),
    {
        match target {
            ConnectUsing::Socket { authority, bind_device, timeout } => UnifiedConnector::Socket(
                LocalConnectorWithDNSResolver {
                    addr: authority.copy(),
                    cluster_name: cluster_name.to_owned(),
                    bind_device: copy_device(bind_device),
                    timeout: *timeout,
                },
            ),
            ConnectUsing::InternalListener { listener_name, .. } => UnifiedConnector::Internal(
                InternalConnector {
                    listener_name: listener_name.clone(),
                    cluster_name: cluster_name.to_owned(),
                    is_http2,
                },
            ),
        }
    }

    pub fn is_internal(&self) -> (yes: bool)
        ensures
            yes == (self is Internal),
    {
        match self {
            UnifiedConnector::Internal(_) => true,
            UnifiedConnector::Socket(_) => false,
        }
    }
}

/// Choosing an interface or a time limit never changes where a connection goes.
pub proof fn law_options_keep_authority(
    authority: Authority,
    bind_device: Option<BindDevice>,
    timeout: Option<u64>,
    other_device: Option<BindDevice>,
    other_timeout: Option<u64>,
)
    ensures
        (ConnectUsing::Socket { authority, bind_device, timeout }).spec_authority() == (ConnectUsing::Socket {
            authority,
            bind_device: other_device,
            timeout: other_timeout,
        }).spec_authority(),
{
}

/// How far a connection attempt is from its end at most.
pub open spec fn connect_steps_left(phase: ConnectPhase) -> nat {
    match phase {
        ConnectPhase::Resolving { .. } => 4,
        ConnectPhase::MakingSocket { .. } => 3,
        ConnectPhase::Binding { .. } => 2,
        ConnectPhase::Connecting { .. } => 1,
        ConnectPhase::Done => 0,
    }
}

/// Every event brings a connection attempt nearer to its end, and every
/// failure names the cluster it was for.
pub proof fn law_attempt_ends(
    connector: LocalConnectorWithDNSResolver,
    phase: ConnectPhase,
    event: ConnectEvent,
    after: ConnectPhase,
    action: ConnectAction,
)
    requires
        connect_follows(connector, phase, event, after, action),
    ensures
        connect_steps_left(after) < connect_steps_left(phase),
        action matches ConnectAction::Fail(failure) ==> failure.context.cluster_name@ == connector.cluster_name@
            && after == ConnectPhase::Done,
{
}

/// A connection attempt asks for one thing after the other: a socket once the
/// host is resolved, the interface where one is configured, and then the
/// connection, to the address that was found and within the configured time.
/// It ends well only after the connection was made.
pub proof fn law_attempt_goes_step_by_step(
    connector: LocalConnectorWithDNSResolver,
    phase: ConnectPhase,
    event: ConnectEvent,
    after: ConnectPhase,
    action: ConnectAction,
)
    requires
        connect_follows(connector, phase, event, after, action),
    ensures
        action is MakeSocket <==> event is Resolved && event->Resolved_0 is Ok,
        action is MakeSocket ==> after == (ConnectPhase::MakingSocket { addr: event->Resolved_0->Ok_0 }),
        action matches ConnectAction::Bind(device) ==> {
            &&& connector.bind_device == Some(device)
            &&& phase matches ConnectPhase::MakingSocket { addr } && after == (ConnectPhase::Binding { addr })
        },
        action matches ConnectAction::Connect { addr, timeout } ==> {
            &&& timeout == connector.timeout
            &&& after == (ConnectPhase::Connecting { addr })
            &&& phase == (ConnectPhase::Binding { addr }) || phase == (ConnectPhase::MakingSocket { addr })
                && connector.bind_device is None
        },
        action is Finish <==> event is Connected && event->Connected_0 is Some && event->Connected_0->0 is Ok,
        !(action is Resolve),
{
}

/// An attempt fails exactly where one of its steps does. The failure names the
/// address as far as it is known, and its marks tell where it happened: in the
/// look-up alone, or on the way to the upstream, where making a socket also
/// means that the upstream cannot be used.
pub proof fn law_failure_tells_where_it_happened(
    connector: LocalConnectorWithDNSResolver,
    phase: ConnectPhase,
    event: ConnectEvent,
    after: ConnectPhase,
    action: ConnectAction,
)
    requires
        connect_follows(connector, phase, event, after, action),
    ensures
        action is Fail <==> match event {
            ConnectEvent::Resolved(res) => res is Err,
            ConnectEvent::SocketMade(res) => res is Err,
            ConnectEvent::Bound(res) => res is Err,
            ConnectEvent::Connected(outcome) => outcome is None || outcome->0 is Err,
        },
        action matches ConnectAction::Fail(failure) ==> {
            let marks = failure.context.response_flags.bits;
            &&& match phase {
                ConnectPhase::Resolving { port } => marks == 16 && failure.context.upstream_addr == (SocketAddr {
                    ip: crate::address::IpAddr::V4(0),
                    port,
                }),
                ConnectPhase::MakingSocket { addr } => marks == 3 && failure.context.upstream_addr == addr,
                ConnectPhase::Binding { addr } => marks == 2 && failure.context.upstream_addr == addr,
                ConnectPhase::Connecting { addr } => marks == 2 && failure.context.upstream_addr == addr,
                ConnectPhase::Done => false,
            }
            &&& failure.error is Event <==> phase is Connecting
            &&& failure.error matches ConnectError::Event(error) ==> (error is ConnectTimeout
                <==> event->Connected_0 is None)
        },
{
    assert(1u32 | 2u32 == 3u32) by (bit_vector);
}

} // verus!
