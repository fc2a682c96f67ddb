//! A raw channel to an upstream, with what is spoken on it before any data.

use crate::connector::{ConnectUsing, UnifiedConnector};
use crate::sni_resolver::{is_server_name, server_name_is_valid};
use crate::tls_builder::{ClientPlan, WantsToBuildClient};
use crate::tls_configurator::TlsConfigurator;
use vstd::prelude::*;

verus! {

/// What is spoken on a channel before any data.
#[derive(Debug)]
pub enum UpstreamTransportSocketConfigurator {
    Tls(TlsConfigurator<ClientPlan, WantsToBuildClient>),
    ProxyProtocol { inner_tls_configurator: Option<TlsConfigurator<ClientPlan, WantsToBuildClient>> },
    Plain,
}

/// The way a channel is made.
#[derive(Debug)]
pub struct TcpChannelConnector {
    pub connector: UnifiedConnector,
    pub transport_socket: UpstreamTransportSocketConfigurator,
}

/// What to do on a fresh connection, in this order.
#[derive(Debug)]
pub struct ChannelPlan {
    /// Whether to state the client's addresses in a proxy protocol header.
    pub write_proxy_header: bool,
    /// The name to ask for in a TLS handshake, where there is one: `Err` when
    /// it is none that a server can have.
    pub tls_server_name: Option<Result<String, String>>,
}

/// Whether a name is what a TLS context asks for, or refused as none that a server can have.
pub open spec fn names_server(
    planned: Result<String, String>,
    tls: TlsConfigurator<ClientPlan, WantsToBuildClient>,
) -> bool {
    let sni = tls.context_builder.state.sni@;
    match planned {
        Ok(name) => is_server_name(sni) && name@ == sni,
        Err(name) => !is_server_name(sni) && name@ == sni,
    }
}

fn server_name_of(tls: &TlsConfigurator<ClientPlan, WantsToBuildClient>) -> (planned: Result<String, String>)
    ensures
        names_server(planned, *tls),
{
    let sni: &str = tls.sni();
    if server_name_is_valid(sni) {
        Ok(sni.to_owned())
    } else {
        Err(sni.to_owned())
    }
}

impl TcpChannelConnector {
    pub fn new(target: &ConnectUsing, cluster_name: &str, transport_socket: UpstreamTransportSocketConfigurator) -> (connector:
        TcpChannelConnector)
        ensures
            connector.connector.leads_to(target, cluster_name@, false),
            connector.transport_socket == transport_socket,
    {
        TcpChannelConnector { connector: UnifiedConnector::new(target, cluster_name, false), transport_socket }
    }

    /// What is spoken on a fresh connection. A listener inside the process is
    /// told of the client in another way, so it gets no proxy protocol header.
    pub fn connect(&self, has_metadata: bool) -> (plan: ChannelPlan)
        ensures
            match self.transport_socket {
                UpstreamTransportSocketConfigurator::Tls(tls) => {
                    &&& !plan.write_proxy_header
                    &&& plan.tls_server_name matches Some(name)
                    &&& names_server(name, tls)
                },
                UpstreamTransportSocketConfigurator::ProxyProtocol { inner_tls_configurator } => {
                    &&& plan.write_proxy_header == (!(self.connector is Internal) && has_metadata)
                    &&& plan.tls_server_name is Some == inner_tls_configurator is Some
                    &&& inner_tls_configurator matches Some(tls) ==> names_server(plan.tls_server_name->0, tls)
                },
                UpstreamTransportSocketConfigurator::Plain => !plan.write_proxy_header && plan.tls_server_name is None,
            },
    {
        match &self.transport_socket {
            UpstreamTransportSocketConfigurator::Tls(tls) => ChannelPlan {
                write_proxy_header: false,
                tls_server_name: Some(server_name_of(tls)),
            },
            UpstreamTransportSocketConfigurator::ProxyProtocol { inner_tls_configurator } => ChannelPlan {
                write_proxy_header: !self.connector.is_internal() && has_metadata,
                tls_server_name: match inner_tls_configurator {
                    Some(tls) => Some(server_name_of(tls)),
                    None => None,
                },
            },
            UpstreamTransportSocketConfigurator::Plain => ChannelPlan {
                write_proxy_header: false,
                tls_server_name: None,
            },
        }
    }
}

/// A timer that counts from instants to durations.
#[derive(Debug, Clone, Copy, PartialEq, Eq, Structural)]
pub struct PingoraTimer;

impl PingoraTimer {
    /// How long to sleep until a deadline; not at all once it has passed.
    pub fn sleep_until(&self, deadline: u128, now: u128) -> (duration: u128)
        ensures
            duration == (if deadline > now {
                deadline - now
            } else {
                0
            }),
    {
        if deadline > now {
            deadline - now
        } else {
            0
        }
    }
}

} // verus!
