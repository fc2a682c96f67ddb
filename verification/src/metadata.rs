//! What is known of a downstream connection.

use crate::address::SocketAddr;
use vstd::prelude::*;

verus! {

/// The transport that a proxy protocol header names.
#[derive(Debug, Clone, Copy, PartialEq, Eq, Structural)]
pub enum ProxyTransport {
    Unspecified,
    Stream,
    Datagram,
}

/// The addresses of a connection: those of its socket, or those that the peer
/// stated in a proxy protocol header.
#[derive(Debug, Clone)]
pub enum DownstreamConnectionMetadata {
    FromSocket { peer_address: SocketAddr, local_address: SocketAddr },
    FromProxyProtocol {
        original_peer_address: SocketAddr,
        original_destination_address: SocketAddr,
        protocol: ProxyTransport,
        tlv_data: Vec<(u8, Vec<u8>)>,
        proxy_peer_address: SocketAddr,
        proxy_local_address: SocketAddr,
    },
}

impl DownstreamConnectionMetadata {
    pub open spec fn spec_peer_address(&self) -> SocketAddr {
        match self {
            DownstreamConnectionMetadata::FromSocket { peer_address, .. } => *peer_address,
            DownstreamConnectionMetadata::FromProxyProtocol { original_peer_address, .. } => *original_peer_address,
        }
    }

    pub open spec fn spec_local_address(&self) -> SocketAddr {
        match self {
            DownstreamConnectionMetadata::FromSocket { local_address, .. } => *local_address,
            DownstreamConnectionMetadata::FromProxyProtocol { original_destination_address, .. } =>
                *original_destination_address,
        }
    }

    /// The address of the client.
    pub fn peer_address(&self) -> (address: SocketAddr)
        ensures
            address == self.spec_peer_address(),
    {
        match self {
            DownstreamConnectionMetadata::FromSocket { peer_address, .. } => *peer_address,
            DownstreamConnectionMetadata::FromProxyProtocol { original_peer_address, .. } => *original_peer_address,
        }
    }

    /// The address the client connected to.
    pub fn local_address(&self) -> (address: SocketAddr)
        ensures
            address == self.spec_local_address(),
    {
        match self {
            DownstreamConnectionMetadata::FromSocket { local_address, .. } => *local_address,
            DownstreamConnectionMetadata::FromProxyProtocol { original_destination_address, .. } =>
                *original_destination_address,
        }
    }
}

/// What is known of a connection once its filter chain is chosen.
#[derive(Debug, Clone)]
pub struct DownstreamMetadata {
    pub connection: DownstreamConnectionMetadata,
    pub sni: Option<String>,
    pub listener_name: String,
}

impl DownstreamMetadata {
    pub fn new(connection: DownstreamConnectionMetadata, sni: Option<String>, listener_name: String) -> (metadata:
        DownstreamMetadata)
        ensures
            metadata.connection == connection,
            metadata.sni == sni,
            metadata.listener_name == listener_name,
    {
        DownstreamMetadata { connection, sni, listener_name }
    }
}

/// The socket addresses that log and header formatters show.
#[derive(Debug, Clone, Copy, PartialEq, Eq, Structural)]
pub struct SocketAddrContext {
    pub downstream_local_addr: Option<SocketAddr>,
    pub downstream_peer_addr: Option<SocketAddr>,
    pub upstream_local_addr: Option<SocketAddr>,
    pub upstream_peer_addr: Option<SocketAddr>,
}

/// Metadata shared for the lifetime of a downstream stream.
#[derive(Debug, Clone)]
pub struct ConnMeta {
    pub downstream: DownstreamMetadata,
}

impl ConnMeta {
    pub fn new(downstream: DownstreamMetadata) -> (meta: ConnMeta)
        ensures
            meta.downstream == downstream,
    {
        ConnMeta { downstream }
    }

    pub fn downstream_peer_address(&self) -> (address: SocketAddr)
        ensures
            address == self.downstream.connection.spec_peer_address(),
    {
        self.downstream.connection.peer_address()
    }

    pub fn downstream_local_address(&self) -> (address: SocketAddr)
        ensures
            address == self.downstream.connection.spec_local_address(),
    {
        self.downstream.connection.local_address()
    }

    pub fn listener_name(&self) -> (name: &str)
        ensures
            name@ == self.downstream.listener_name@,
    {
        self.downstream.listener_name.as_str()
    }

    /// The addresses for formatters, before an upstream is chosen.
    pub fn downstream_socket_addr_context(&self) -> (context: SocketAddrContext)
        ensures
            context == (SocketAddrContext {
                downstream_local_addr: Some(self.downstream.connection.spec_local_address()),
                downstream_peer_addr: Some(self.downstream.connection.spec_peer_address()),
                upstream_local_addr: None,
                upstream_peer_addr: None,
            }),
    {
        SocketAddrContext {
            downstream_local_addr: Some(self.downstream_local_address()),
            downstream_peer_addr: Some(self.downstream_peer_address()),
            upstream_local_addr: None,
            upstream_peer_addr: None,
        }
    }
}

impl Default for ConnMeta {
    /// The metadata of a stream that no client opened.
    fn default() -> (meta: ConnMeta)
        ensures
            meta.downstream.connection == (DownstreamConnectionMetadata::FromSocket {
                peer_address: SocketAddr::unspecified(),
                local_address: SocketAddr::unspecified(),
            }),
            meta.downstream.sni is None,
            meta.downstream.listener_name@ == "synthetic"@,
    {
        ConnMeta::new(
            DownstreamMetadata::new(
                DownstreamConnectionMetadata::FromSocket { peer_address: SocketAddr::unspecified(), local_address: SocketAddr::unspecified() },
                None,
                "synthetic".to_owned(),
            ),
        )
    }
}

/// The addresses a proxy protocol header states replace those of the socket
/// the connection arrived on.
pub proof fn law_proxy_protocol_addresses_win(
    client: SocketAddr,
    destination: SocketAddr,
    protocol: ProxyTransport,
    tlv_data: Vec<(u8, Vec<u8>)>,
    proxy_peer: SocketAddr,
    proxy_local: SocketAddr,
)
    ensures
        ({
            let connection = DownstreamConnectionMetadata::FromProxyProtocol {
                original_peer_address: client,
                original_destination_address: destination,
                protocol,
                tlv_data,
                proxy_peer_address: proxy_peer,
                proxy_local_address: proxy_local,
            };
            connection.spec_peer_address() == client && connection.spec_local_address() == destination
        }),
{
}

} // verus!
