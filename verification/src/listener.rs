//! A listener: what it does with new connections and with changes of its
//! configuration, and how a connection finds its filter chain.

use crate::address::SocketAddr;
use crate::connector::BindDevice;
use crate::filter_chain::{
    is_choice, law_choice_meets_every_rule, meets_rules, select_index, stages, survives, AmbiguousFilterChains, Criteria,
    FilterChainMatch,
};
use crate::headers::text_of;
use crate::local_rate_limiter::{grants_one, ready, ListenerLocalRateLimit, TokenBucketConfig};
use crate::metadata::{DownstreamConnectionMetadata, DownstreamMetadata, SocketAddrContext};
use crate::metrics::filters::FilterMetrics;
use crate::metrics::http::HttpMetrics;
use crate::metrics::listeners::ListenerMetrics;
use crate::metrics::tcp::TcpMetrics;
use crate::metrics::{
    count_down, count_up, counter_added, counter_subtracted, histogram_recorded, record, GlobalMetrics, Metric,
};
use crate::sharded::{
    added, counted, law_adding_counts_once, law_subtracting_stops_at_zero, law_subtracting_undoes_adding, one_label,
    subtracted, total, well_sharded, with_label, CounterView, LabelsView, ShardedU64,
};
use crate::text::str_eq;
use crate::tls_builder::{plan_built, BuildError, LoadedKey, ServerPlan, WantsToBuildServer};
use crate::tls_configurator::{state_kept, state_updated, update_refused, TlsConfigurator, TlsError, TransportSecret};
use crate::token_bucket::{law_asked_bucket_grants_what_it_has, tokens_at, MAX_INSTANT};
use vstd::prelude::*;

verus! {

/// Where a listener takes connections from.
#[derive(Debug)]
pub enum ListenerBinding {
    Socket { address: SocketAddr, bind_device: Option<BindDevice>, tcp_backlog_size: u32 },
    Internal,
}

/// A route configuration, by number, and the name under which it changes.
#[derive(Debug)]
pub struct HttpManager {
    pub route_id: Option<String>,
    pub route: Option<u64>,
}

/// What a filter chain does with a connection.
#[derive(Debug)]
pub enum ConnectionHandler {
    Http(HttpManager),
    Tcp,
}

/// A filter chain.
#[derive(Debug)]
pub struct FilterchainType {
    pub name: String,
    pub tls_configurator: Option<TlsConfigurator<ServerPlan, WantsToBuildServer>>,
    pub handler: ConnectionHandler,
}

/// The configuration of a listener.
#[derive(Debug)]
pub struct ListenerConfig {
    pub name: String,
    pub binding: ListenerBinding,
    pub filter_chains: Vec<(FilterChainMatch, FilterchainType)>,
    pub with_tls_inspector: bool,
    pub with_proxy_protocol: bool,
    /// The prefix of its metrics and the rate, where connections are limited.
    pub rate_limit: Option<(String, TokenBucketConfig)>,
}

/// Makes a listener.
#[derive(Debug)]
pub struct ListenerFactory {
    pub listener: ListenerConfig,
}

/// A listener that could never find the chains it has.
#[derive(Debug)]
pub struct UnmatchableServerNames {
    pub listener_name: String,
}

impl UnmatchableServerNames {
    /// The text shown to an operator.
    pub fn message(&self) -> (text: String)
        ensures
            text@ == "Listener '"@ + self.listener_name@
                + "' has server_names in filter_chain_match, but no TLS inspector so matches would always fail"@,
    {
        let mut text = "Listener '".to_owned();
        text.append(self.listener_name.as_str());
        text.append("' has server_names in filter_chain_match, but no TLS inspector so matches would always fail");
        text
    }
}

/// Whether some chain is for certain server names.
pub open spec fn has_server_names<T>(chains: Seq<(FilterChainMatch, T)>) -> bool {
    exists|i: int| 0 <= i < chains.len() && (#[trigger] chains[i]).0.server_names@.len() > 0
}

impl ListenerFactory {
    /// Takes a configuration on. Chains that are for certain server names need
    /// a listener that looks for the name.
    pub fn new(config: ListenerConfig) -> (res: Result<ListenerFactory, UnmatchableServerNames>)
        ensures
            match res {
                Ok(factory) => {
                    &&& factory.listener == config
                    &&& config.with_tls_inspector || !has_server_names(config.filter_chains@)
                },
                Err(e) => {
                    &&& !config.with_tls_inspector && has_server_names(config.filter_chains@)
                    &&& e.listener_name@ == config.name@
                },
            },
    {
        if !config.with_tls_inspector {
            let mut i: usize = 0;
            while i < config.filter_chains.len()
                invariant
                    i <= config.filter_chains@.len(),
                    !config.with_tls_inspector,
                    forall|k: int| 0 <= k < i ==> (#[trigger] config.filter_chains@[k]).0.server_names@.len() == 0,
                decreases config.filter_chains@.len() - i,
            {
                if config.filter_chains[i].0.server_names.len() > 0 {
                    assert(config.filter_chains@[i as int].0.server_names@.len() > 0);
                    return Err(UnmatchableServerNames { listener_name: config.name.clone() });
                }
                i = i + 1;
            }
        }
        Ok(ListenerFactory { listener: config })
    }

    /// The listener, with its own share of the rate where connections are limited.
    pub fn into_listener(self, num_runtimes: u32, now: u128) -> (listener: Listener)
        requires
            self.listener.rate_limit matches Some(limit) ==> limit.1.feasible(num_runtimes),
            now <= MAX_INSTANT,
        ensures
            listener.name == self.listener.name,
            listener.binding == self.listener.binding,
            listener.filter_chains == self.listener.filter_chains,
            listener.with_tls_inspector == self.listener.with_tls_inspector,
            listener.with_proxy_protocol == self.listener.with_proxy_protocol,
            listener.rate_limit is Some == self.listener.rate_limit is Some,
            self.listener.rate_limit matches Some(limit) ==> {
                &&& listener.rate_limit->0.stat_prefix == limit.0
                &&& listener.rate_limit->0.token_bucket.is_fresh(
                    limit.1.max_tokens as int,
                    limit.1.tokens_per_fill as int,
                    limit.1.adjusted_interval(num_runtimes),
                    now as int,
                )
            },
    {
        let config: ListenerConfig = self.listener;
        Listener {
            name: config.name,
            binding: config.binding,
            filter_chains: config.filter_chains,
            with_tls_inspector: config.with_tls_inspector,
            with_proxy_protocol: config.with_proxy_protocol,
            rate_limit: match config.rate_limit {
                Some(limit) => Some(ListenerLocalRateLimit::new(limit.0, &limit.1, num_runtimes, now)),
                None => None,
            },
        }
    }
}

/// The map of contexts by the name of their listener.
#[verifier::external_type_specification]
#[verifier::external_body]
#[verifier::reject_recursive_types(K)]
#[verifier::reject_recursive_types(V)]
#[verifier::reject_recursive_types(S)]
pub struct ExDashMap<K, V, S>(dashmap::DashMap<K, V, S>);

/// What a map of contexts holds: a context's number by the listener's name.
pub uninterp spec fn context_contents(map: dashmap::DashMap<String, u64>) -> Map<Seq<char>, u64>;

/// The contexts of a proxy without listeners.
pub open spec fn no_contexts() -> Map<Seq<char>, u64> {
    Map::empty()
}

/// `dashmap::DashMap::new`: an empty map.
#[verifier::external_body]
fn contexts_new() -> (map: dashmap::DashMap<String, u64>)
    ensures
        context_contents(map) == no_contexts(),
{
    dashmap::DashMap::new()
}

/// `dashmap::DashMap::entry` with `or_insert`: the value under a key, which is
/// put there first where there is none. The map is borrowed mutably, so no
/// other thread holds a part of it.
#[verifier::external_body]
fn contexts_entry(map: &mut dashmap::DashMap<String, u64>, name: String, fresh: u64) -> (context: u64)
    ensures
        context == (if context_contents(*old(map)).contains_key(name@) {
            context_contents(*old(map))[name@]
        } else {
            fresh
        }),
        context_contents(*final(map)) == context_contents(*old(map)).insert(name@, context),
{
    *map.entry(name).or_insert(fresh).value()
}

/// What the gateway for tools keeps of a listener, by number.
#[derive(Debug, Clone, Copy, PartialEq, Eq, Structural)]
pub struct McpGatewayListenerContext {
    pub id: u64,
}

/// What filters keep of a listener beyond one connection.
#[derive(Debug, Clone, Copy, PartialEq, Eq, Structural)]
pub struct ListenerContext {
    pub mcp: McpGatewayListenerContext,
}

/// The contexts of all listeners.
pub struct ListenerContexts {
    map: dashmap::DashMap<String, u64>,
    next: u64,
}

impl View for ListenerContexts {
    type V = Map<Seq<char>, u64>;

    closed spec fn view(&self) -> Map<Seq<char>, u64> {
        context_contents(self.map)
    }
}

impl ListenerContexts {
    /// The number that the next new context gets. It is above all others.
    pub closed spec fn next_id(&self) -> u64 {
        self.next
    }

    /// Whether every context has a number below the next one, and one of its own.
    pub open spec fn wf(&self) -> bool {
        &&& forall|name: Seq<char>| #[trigger] self@.contains_key(name) ==> self@[name] < self.next_id()
        &&& forall|a: Seq<char>, b: Seq<char>| #[trigger]
            self@.contains_key(a) && #[trigger] self@.contains_key(b) && a != b ==> self@[a] != self@[b]
    }

    pub fn new() -> (contexts: ListenerContexts)
        ensures
            contexts@ == no_contexts(),
            contexts.next_id() == 0,
            contexts.wf(),
    {
        ListenerContexts { map: contexts_new(), next: 0 }
    }

    /// The context of a listener, which is made where there is none.
    pub fn get_listener_context(&mut self, listener_name: &str) -> (context: ListenerContext)
        requires
            old(self).wf(),
            old(self).next_id() < u64::MAX,
        ensures
            final(self).wf(),
            final(self)@ == old(self)@.insert(listener_name@, context.mcp.id),
            context.mcp.id == (if old(self)@.contains_key(listener_name@) {
                old(self)@[listener_name@]
            } else {
                old(self).next_id()
            }),
            final(self).next_id() == (if old(self)@.contains_key(listener_name@) {
                old(self).next_id() as int
            } else {
                old(self).next_id() + 1
            }),
    {
        let id: u64 = contexts_entry(&mut self.map, listener_name.to_owned(), self.next);
        if id == self.next {
            self.next = self.next + 1;
        }
        proof {
            let before = old(self)@;
            assert forall|a: Seq<char>, b: Seq<char>| #[trigger]
                self@.contains_key(a) && #[trigger] self@.contains_key(b) && a != b implies self@[a] != self@[b] by {
                assert(a != listener_name@ ==> before.contains_key(a));
                assert(b != listener_name@ ==> before.contains_key(b));
            }
            assert forall|name: Seq<char>| #[trigger] self@.contains_key(name) implies self@[name] < self.next by {
                assert(name != listener_name@ ==> before.contains_key(name));
            }
        }
        ListenerContext { mcp: McpGatewayListenerContext { id } }
    }
}

/// A listener has one context, and shares it with no other.
pub proof fn law_listener_keeps_its_context(contexts: Map<Seq<char>, u64>, name: Seq<char>, other: Seq<char>, next: u64)
    requires
        forall|n: Seq<char>| #[trigger] contexts.contains_key(n) ==> contexts[n] < next,
        contexts.contains_key(other),
        !contexts.contains_key(name),
    ensures
        contexts.insert(name, next)[name] != contexts.insert(name, next)[other],
        contexts.insert(name, next).insert(name, contexts.insert(name, next)[name]) == contexts.insert(name, next),
{
    assert(contexts.insert(name, next).insert(name, next) =~= contexts.insert(name, next));
}

/// A listener.
#[derive(Debug)]
pub struct Listener {
    pub name: String,
    pub binding: ListenerBinding,
    pub filter_chains: Vec<(FilterChainMatch, FilterchainType)>,
    pub with_tls_inspector: bool,
    pub with_proxy_protocol: bool,
    pub rate_limit: Option<ListenerLocalRateLimit>,
}

/// A change of a route configuration. A change can be waited for.
#[derive(Debug)]
pub enum RouteConfigurationChange {
    Added { id: String, route: u64, awaited: bool },
    Removed { id: String, awaited: bool },
}

/// Where a connection came from.
#[derive(Debug)]
pub enum ConnectionSource {
    Socket { local_address: SocketAddr, peer_addr: SocketAddr, has_proxy_protocol: bool },
    Internal { metadata: DownstreamConnectionMetadata },
}

/// What happens to a listener.
#[derive(Debug)]
pub enum ListenerEvent {
    /// A client connected. The local address is missing where the system does not tell.
    Accepted { peer_addr: SocketAddr, local_address: Option<SocketAddr> },
    AcceptFailed,
    /// A connection from inside the process, or the end of them.
    InternalConnection(Option<DownstreamConnectionMetadata>),
    /// A change of the routes, or the end of such changes, with its reason.
    RouteUpdate(Result<RouteConfigurationChange, String>),
    /// A change of a secret with, for each chain, the private keys that could
    /// be loaded for its certificates, or the end of such changes.
    SecretUpdate(Result<(String, TransportSecret, Vec<Vec<LoadedKey>>), String>),
}

/// What a listener does.
#[derive(Debug)]
pub enum ListenerAction {
    /// Go on.
    Continue,
    /// Turn the connection away.
    Refuse,
    /// Serve the connection.
    Serve(ConnectionSource),
    /// Tell whoever waits that the routes have changed.
    Notify,
    /// Stop, with a reason.
    Stop(String),
}

/// How a listener starts.
#[derive(Debug)]
pub enum StartAction {
    /// Listen on a socket.
    Listen { address: SocketAddr, bind_device: Option<BindDevice>, tcp_backlog_size: u32 },
    /// Take connections from inside the process under this name, until it stops.
    Register(String),
}

/// The labels of the metrics of a listener.
pub open spec fn listener_labels(name: Seq<char>) -> LabelsView {
    seq![("listener"@, name)]
}

/// The labels of the metric on the rate limit of a listener.
pub open spec fn limit_labels(name: Seq<char>, filter: Seq<char>, result: Seq<char>) -> LabelsView {
    seq![("listener"@, name)].push(("filter"@, filter)).push(("result"@, result))
}

/// Whether a connection was counted in.
pub open spec fn counted_in(before: ListenerMetrics, after: ListenerMetrics, name: Seq<char>, shard: u64) -> bool {
    &&& counter_added(before.downstream_cx_total, after.downstream_cx_total, 1, shard, listener_labels(name))
    &&& counter_added(before.downstream_cx_active, after.downstream_cx_active, 1, shard, listener_labels(name))
    &&& after == (ListenerMetrics {
        downstream_cx_total: after.downstream_cx_total,
        downstream_cx_active: after.downstream_cx_active,
        ..before
    })
}

/// Whether a limit has been asked once.
pub open spec fn limit_asked(
    before: Option<ListenerLocalRateLimit>,
    after: Option<ListenerLocalRateLimit>,
    now: u128,
) -> bool {
    match before {
        None => after is None,
        Some(b) => {
            &&& after is Some
            &&& after->0.stat_prefix == b.stat_prefix
            &&& ready(after->0.token_bucket)
            &&& after->0.token_bucket.was_asked(&b.token_bucket, now as int, 1)
        },
    }
}

/// Whether a chain serves the routes of a name.
pub open spec fn serves_route(chain: FilterchainType, id: Seq<char>) -> bool {
    chain.handler matches ConnectionHandler::Http(manager) && manager.route_id matches Some(route_id) && route_id@ == id
}

/// Whether a chain has followed a change of the routes.
pub open spec fn followed_route(before: FilterchainType, after: FilterchainType, id: Seq<char>, route: Option<u64>) -> bool {
    if serves_route(before, id) {
        &&& after.name == before.name
        &&& after.tls_configurator == before.tls_configurator
        &&& after.handler == ConnectionHandler::Http(
            HttpManager { route_id: before.handler->Http_0.route_id, route },
        )
    } else {
        after == before
    }
}

/// Whether the chains have followed a change of the routes.
pub open spec fn all_followed_route(
    before: Seq<(FilterChainMatch, FilterchainType)>,
    after: Seq<(FilterChainMatch, FilterchainType)>,
    id: Seq<char>,
    route: Option<u64>,
) -> bool {
    &&& after.len() == before.len()
    &&& forall|i: int|
        0 <= i < before.len() ==> (#[trigger] after[i]).0 == before[i].0 && followed_route(
            before[i].1,
            after[i].1,
            id,
            route,
        )
}

/// Whether some chain serves the routes of a name.
pub open spec fn any_serves(chains: Seq<(FilterChainMatch, FilterchainType)>, id: Seq<char>) -> bool {
    exists|i: int| 0 <= i < chains.len() && serves_route((#[trigger] chains[i]).1, id)
}

/// Whether a TLS context cannot follow a changed secret: it was not made from
/// it, the secret is of no use, or no context can be built with it.
pub open spec fn cannot_follow(
    before: WantsToBuildServer,
    secret_id: Seq<char>,
    secret: TransportSecret,
    loaded: Seq<LoadedKey>,
) -> bool {
    ||| exists|why: TlsError| #[trigger] update_refused(before, secret_id, secret, why)
    ||| exists|after: WantsToBuildServer, why: BuildError| #[trigger]
        state_updated(before, secret_id, secret, after) && #[trigger] plan_built(after, loaded, Err(why))
}

/// Whether a TLS context has followed a changed secret, or stayed as it was
/// because it cannot follow it.
pub open spec fn followed_secret(
    before: TlsConfigurator<ServerPlan, WantsToBuildServer>,
    after: TlsConfigurator<ServerPlan, WantsToBuildServer>,
    secret_id: Seq<char>,
    secret: TransportSecret,
    loaded: Seq<LoadedKey>,
    failed: bool,
) -> bool {
    if failed {
        &&& cannot_follow(before.context_builder.state, secret_id, secret, loaded)
        &&& state_kept(before.context_builder.state, after.context_builder.state)
        &&& after.config == before.config
    } else {
        &&& state_updated(before.context_builder.state, secret_id, secret, after.context_builder.state)
        &&& plan_built(after.context_builder.state, loaded, Ok(after.config))
    }
}

/// Whether a chain has followed a changed secret, or stayed as it was.
pub open spec fn chain_followed_secret(
    before: FilterchainType,
    after: FilterchainType,
    secret_id: Seq<char>,
    secret: TransportSecret,
    loaded: Seq<LoadedKey>,
    failed: bool,
) -> bool {
    &&& after.name == before.name
    &&& after.handler == before.handler
    &&& match before.tls_configurator {
        None => after.tls_configurator is None && !failed,
        Some(tls) => {
            &&& after.tls_configurator is Some
            &&& followed_secret(tls, after.tls_configurator->0, secret_id, secret, loaded, failed)
        },
    }
}

/// Whether the keys that were loaded are those of the certificates of each chain.
pub open spec fn keys_fit(chains: Seq<(FilterChainMatch, FilterchainType)>, loaded: Seq<Vec<LoadedKey>>) -> bool {
    &&& loaded.len() == chains.len()
    &&& forall|i: int|
        0 <= i < chains.len() ==> ((#[trigger] chains[i]).1.tls_configurator matches Some(tls) ==> loaded[i]@.len()
            == tls.context_builder.state.server_ids_and_certificates@.len())
}

impl Listener {
    pub fn get_name(&self) -> (name: &str)
        ensures
            name@ == self.name@,
    {
        self.name.as_str()
    }

    /// The address of a listener on a socket, and the interface it is bound to.
    pub fn get_socket(&self) -> (socket: Option<(SocketAddr, Option<&BindDevice>)>)
        ensures
            match self.binding {
                ListenerBinding::Socket { address, bind_device, .. } => {
                    &&& socket is Some
                    &&& (socket->0).0 == address
                    &&& (socket->0).1 == (match bind_device {
                        Some(device) => Some(&device),
                        None => None::<&BindDevice>,
                    })
                },
                ListenerBinding::Internal => socket is None,
            },
    {
        match &self.binding {
            ListenerBinding::Socket { address, bind_device, .. } => Some(
                (
                    *address,
                    match bind_device {
                        Some(device) => Some(device),
                        None => None,
                    },
                ),
            ),
            ListenerBinding::Internal => None,
        }
    }

    /// How the listener starts.
    pub fn start(&self) -> (action: StartAction)
        ensures
            match self.binding {
                ListenerBinding::Socket { address, bind_device, tcp_backlog_size } => action == (StartAction::Listen {
                    address,
                    bind_device,
                    tcp_backlog_size,
                }),
                ListenerBinding::Internal => action matches StartAction::Register(name) && name@ == self.name@,
            },
    {
        match &self.binding {
            ListenerBinding::Socket { address, bind_device, tcp_backlog_size } => StartAction::Listen {
                address: *address,
                bind_device: match bind_device {
                    Some(device) => Some(device.copy()),
                    None => None,
                },
                tcp_backlog_size: *tcp_backlog_size,
            },
            ListenerBinding::Internal => StartAction::Register(self.name.clone()),
        }
    }

    fn count_in(&self, metrics: &mut ListenerMetrics, shard: u64)
        ensures
            counted_in(*old(metrics), *final(metrics), self.name@, shard),
    {
        let labels: Vec<(String, String)> = one_label("listener", self.name.as_str());
        count_up(&mut metrics.downstream_cx_total, 1, shard, &labels);
        count_up(&mut metrics.downstream_cx_active, 1, shard, &labels);
    }

    /// What becomes of a new connection: it is turned away where the rate of
    /// connections is too high, else it is counted in and served. Where the
    /// system does not tell the local address, it is the one of the listener.
    fn accept(
        &mut self,
        address: SocketAddr,
        peer_addr: SocketAddr,
        local_address: Option<SocketAddr>,
        now: u128,
        metrics: &mut GlobalMetrics,
        shard: u64,
    ) -> (action: ListenerAction)
        requires
            old(self).rate_limit matches Some(limit) ==> ready(limit.token_bucket),
            now <= MAX_INSTANT,
        ensures
            accepted(*old(self), *final(self), address, peer_addr, local_address, now, *old(metrics), *final(metrics), shard, action),
    {
        match &mut self.rate_limit {
            Some(limit) => {
                let allowed: bool = limit.allow(now);
                let result: &str = if allowed {
                    "ok"
                } else {
                    "rate_limited"
                };
                let own: Vec<(String, String)> = one_label("listener", self.name.as_str());
                let filter: Vec<(String, String)> = with_label(&own, "filter", limit.stat_prefix.as_str());
                let labels: Vec<(String, String)> = with_label(&filter, "result", result);
                count_up(&mut metrics.filters.connection_rate_limit, 1, shard, &labels);
                if !allowed {
                    return ListenerAction::Refuse;
                }
            },
            None => {},
        }
        self.count_in(&mut metrics.listeners, shard);
        ListenerAction::Serve(
            ConnectionSource::Socket {
                local_address: match local_address {
                    Some(local) => local,
                    None => address,
                },
                peer_addr,
                has_proxy_protocol: self.with_proxy_protocol,
            },
        )
    }

    /// What the listener does about something that happened.
    pub fn on_event(&mut self, event: ListenerEvent, now: u128, metrics: &mut GlobalMetrics, shard: u64) -> (action:
        ListenerAction)
        requires
            old(self).rate_limit matches Some(limit) ==> ready(limit.token_bucket),
            now <= MAX_INSTANT,
            event is Accepted ==> old(self).binding is Socket,
            event matches ListenerEvent::SecretUpdate(Ok(update)) ==> keys_fit(
                old(self).filter_chains@,
                update.2@,
            ),
        ensures
            event_handled(*old(self), *final(self), event, now, *old(metrics), *final(metrics), shard, action),
    {
        match event {
            ListenerEvent::Accepted { peer_addr, local_address } => {
                let address: SocketAddr = match &self.binding {
                    ListenerBinding::Socket { address, .. } => *address,
                    ListenerBinding::Internal => SocketAddr::unspecified(),
                };
                self.accept(address, peer_addr, local_address, now, metrics, shard)
            },
            ListenerEvent::AcceptFailed => ListenerAction::Continue,
            ListenerEvent::InternalConnection(Some(metadata)) => {
                self.count_in(&mut metrics.listeners, shard);
                ListenerAction::Serve(ConnectionSource::Internal { metadata })
            },
            ListenerEvent::InternalConnection(None) => ListenerAction::Stop(
                "Internal listener channel closed".to_owned(),
            ),
            ListenerEvent::RouteUpdate(Ok(change)) => {
                if process_route_update(&mut self.filter_chains, &change) {
                    ListenerAction::Notify
                } else {
                    ListenerAction::Continue
                }
            },
            ListenerEvent::RouteUpdate(Err(why)) => ListenerAction::Stop(why),
            ListenerEvent::SecretUpdate(Ok(update)) => {
                let failed: Vec<bool> = process_secret_update(
                    &mut self.filter_chains,
                    update.0.as_str(),
                    &update.1,
                    &update.2,
                );
                assert(all_followed_secret(
                    old(self).filter_chains@,
                    self.filter_chains@,
                    update.0@,
                    update.1,
                    update.2@,
                    failed@,
                ));
                ListenerAction::Continue
            },
            ListenerEvent::SecretUpdate(Err(why)) => ListenerAction::Stop(why),
        }
    }
}

/// Whether a listener dealt with something that happened.
pub open spec fn event_handled(
    before: Listener,
    after: Listener,
    event: ListenerEvent,
    now: u128,
    metrics: GlobalMetrics,
    metrics_after: GlobalMetrics,
    shard: u64,
    action: ListenerAction,
) -> bool {
    match event {
        ListenerEvent::Accepted { peer_addr, local_address } => accepted(
            before,
            after,
            before.binding->address,
            peer_addr,
            local_address,
            now,
            metrics,
            metrics_after,
            shard,
            action,
        ),
        ListenerEvent::AcceptFailed => {
            action is Continue && after == before && metrics_after == metrics
        },
        ListenerEvent::InternalConnection(Some(metadata)) => {
            &&& action == ListenerAction::Serve(ConnectionSource::Internal { metadata })
            &&& after == before
            &&& counted_in(metrics.listeners, metrics_after.listeners, before.name@, shard)
            &&& metrics_after == (GlobalMetrics { listeners: metrics_after.listeners, ..metrics })
        },
        ListenerEvent::InternalConnection(None) => {
            &&& action matches ListenerAction::Stop(why) && why@ == "Internal listener channel closed"@
            &&& after == before && metrics_after == metrics
        },
        ListenerEvent::RouteUpdate(Ok(change)) => {
            &&& metrics_after == metrics
            &&& after == (Listener { filter_chains: after.filter_chains, ..before })
            &&& route_changed(before.filter_chains@, after.filter_chains@, change, action is Notify)
            &&& action is Notify || action is Continue
        },
        ListenerEvent::RouteUpdate(Err(why)) => {
            &&& action == ListenerAction::Stop(why)
            &&& after == before && metrics_after == metrics
        },
        ListenerEvent::SecretUpdate(Ok(update)) => {
            &&& metrics_after == metrics
            &&& action is Continue
            &&& after == (Listener { filter_chains: after.filter_chains, ..before })
            &&& exists|failed: Seq<bool>| #[trigger]
                all_followed_secret(
                    before.filter_chains@,
                    after.filter_chains@,
                    update.0@,
                    update.1,
                    update.2@,
                    failed,
                )
        },
        ListenerEvent::SecretUpdate(Err(why)) => {
            &&& action == ListenerAction::Stop(why)
            &&& after == before && metrics_after == metrics
        },
    }
}

/// Whether a new connection was dealt with.
pub open spec fn accepted(
    before: Listener,
    after: Listener,
    address: SocketAddr,
    peer_addr: SocketAddr,
    local_address: Option<SocketAddr>,
    now: u128,
    metrics: GlobalMetrics,
    metrics_after: GlobalMetrics,
    shard: u64,
    action: ListenerAction,
) -> bool {
    let allowed = before.rate_limit is None || grants_one(before.rate_limit->0.token_bucket, now);
    &&& after == (Listener { rate_limit: after.rate_limit, ..before })
    &&& limit_asked(before.rate_limit, after.rate_limit, now)
    &&& match before.rate_limit {
        Some(limit) => {
            &&& counter_added(
                metrics.filters.connection_rate_limit,
                metrics_after.filters.connection_rate_limit,
                1,
                shard,
                limit_labels(
                    before.name@,
                    limit.stat_prefix@,
                    if allowed {
                        "ok"@
                    } else {
                        "rate_limited"@
                    },
                ),
            )
            &&& metrics_after.filters == (FilterMetrics {
                connection_rate_limit: metrics_after.filters.connection_rate_limit,
                ..metrics.filters
            })
        },
        None => metrics_after.filters == metrics.filters,
    }
    &&& if allowed {
        &&& action == ListenerAction::Serve(
            ConnectionSource::Socket {
                local_address: match local_address {
                    Some(local) => local,
                    None => address,
                },
                peer_addr,
                has_proxy_protocol: before.with_proxy_protocol,
            },
        )
        &&& counted_in(metrics.listeners, metrics_after.listeners, before.name@, shard)
    } else {
        action is Refuse && metrics_after.listeners == metrics.listeners
    }
    &&& metrics_after == (GlobalMetrics {
        filters: metrics_after.filters,
        listeners: metrics_after.listeners,
        ..metrics
    })
}

/// Whether the chains have followed a change of the routes, and whether
/// whoever waits for it is told: where there is anyone, and some chain was concerned.
pub open spec fn route_changed(
    before: Seq<(FilterChainMatch, FilterchainType)>,
    after: Seq<(FilterChainMatch, FilterchainType)>,
    change: RouteConfigurationChange,
    notify: bool,
) -> bool {
    match change {
        RouteConfigurationChange::Added { id, route, awaited } => {
            &&& all_followed_route(before, after, id@, Some(route))
            &&& notify == (awaited && any_serves(before, id@))
        },
        RouteConfigurationChange::Removed { id, awaited } => {
            &&& all_followed_route(before, after, id@, None)
            &&& notify == (awaited && any_serves(before, id@))
        },
    }
}

/// Whether the chains have followed a changed secret, but for those where that failed.
pub open spec fn all_followed_secret(
    before: Seq<(FilterChainMatch, FilterchainType)>,
    after: Seq<(FilterChainMatch, FilterchainType)>,
    secret_id: Seq<char>,
    secret: TransportSecret,
    loaded: Seq<Vec<LoadedKey>>,
    failed: Seq<bool>,
) -> bool {
    &&& after.len() == before.len()
    &&& failed.len() == before.len()
    &&& forall|i: int|
        0 <= i < before.len() ==> (#[trigger] after[i]).0 == before[i].0 && chain_followed_secret(
            before[i].1,
            after[i].1,
            secret_id,
            secret,
            loaded[i]@,
            failed[i],
        )
}

fn set_route(chains: &mut Vec<(FilterChainMatch, FilterchainType)>, id: &str, route: Option<u64>) -> (applied: bool)
    ensures
        all_followed_route(old(chains)@, final(chains)@, id@, route),
        applied == any_serves(old(chains)@, id@),
{
    let mut applied: bool = false;
    let mut i: usize = 0;
    while i < chains.len()
        invariant
            i <= chains@.len(),
            chains@.len() == old(chains)@.len(),
            applied <==> exists|k: int| 0 <= k < i && serves_route((#[trigger] old(chains)@[k]).1, id@),
            forall|k: int|
                0 <= k < i ==> (#[trigger] chains@[k]).0 == old(chains)@[k].0 && followed_route(
                    old(chains)@[k].1,
                    chains@[k].1,
                    id@,
                    route,
                ),
            forall|k: int| i <= k < chains@.len() ==> #[trigger] chains@[k] == old(chains)@[k],
        decreases chains@.len() - i,
    {
        let concerned: bool = match &chains[i].1.handler {
            ConnectionHandler::Http(manager) => match &manager.route_id {
                Some(route_id) => str_eq(route_id.as_str(), id),
                None => false,
            },
            ConnectionHandler::Tcp => false,
        };
        assert(chains@[i as int] == old(chains)@[i as int]);
        assert(concerned == serves_route(old(chains)@[i as int].1, id@));
        if concerned {
            match &mut chains[i].1.handler {
                ConnectionHandler::Http(manager) => {
                    manager.route = route;
                },
                ConnectionHandler::Tcp => {},
            }
            applied = true;
        }
        i = i + 1;
    }
    applied
}

/// Follows a change of the routes. Returns whether someone is to be told.
pub fn process_route_update(
    filter_chains: &mut Vec<(FilterChainMatch, FilterchainType)>,
    route_update: &RouteConfigurationChange,
) -> (notify: bool)
    ensures
        route_changed(old(filter_chains)@, final(filter_chains)@, *route_update, notify),
{
    match route_update {
        RouteConfigurationChange::Added { id, route, awaited } => {
            let applied: bool = set_route(filter_chains, id.as_str(), Some(*route));
            applied && *awaited
        },
        RouteConfigurationChange::Removed { id, awaited } => {
            let applied: bool = set_route(filter_chains, id.as_str(), None);
            applied && *awaited
        },
    }
}

/// Follows a changed secret in every chain with TLS. Returns for which chains
/// that failed; those stay as they were.
pub fn process_secret_update(
    filter_chains: &mut Vec<(FilterChainMatch, FilterchainType)>,
    secret_id: &str,
    secret: &TransportSecret,
    loaded: &Vec<Vec<LoadedKey>>,
) -> (failed: Vec<bool>)
    requires
        keys_fit(old(filter_chains)@, loaded@),
    ensures
        all_followed_secret(old(filter_chains)@, final(filter_chains)@, secret_id@, *secret, loaded@, failed@),
{
    let mut failed: Vec<bool> = Vec::new();
    let mut i: usize = 0;
    while i < filter_chains.len()
        invariant
            i <= filter_chains@.len(),
            filter_chains@.len() == old(filter_chains)@.len(),
            failed@.len() == i,
            keys_fit(old(filter_chains)@, loaded@),
            forall|k: int|
                0 <= k < i ==> (#[trigger] filter_chains@[k]).0 == old(filter_chains)@[k].0 && chain_followed_secret(
                    old(filter_chains)@[k].1,
                    filter_chains@[k].1,
                    secret_id@,
                    *secret,
                    loaded@[k]@,
                    failed@[k],
                ),
            forall|k: int| i <= k < filter_chains@.len() ==> #[trigger] filter_chains@[k] == old(filter_chains)@[k],
        decreases filter_chains@.len() - i,
    {
        assert(filter_chains@[i as int] == old(filter_chains)@[i as int]);
        let mut refused: bool = false;
        match &mut filter_chains[i].1.tls_configurator {
            Some(tls) => {
                let ghost state = tls.context_builder.state;
                match tls.try_update(secret_id, secret, &loaded[i]) {
                    Ok(_) => {},
                    Err(why) => {
                        refused = true;
                        assert(cannot_follow(state, secret_id@, *secret, loaded@[i as int]@)) by {
                            match why {
                                TlsError::Build(fault) => {
                                    let after = choose|after: WantsToBuildServer|
                                        #[trigger] state_updated(state, secret_id@, *secret, after) && plan_built(
                                            after,
                                            loaded@[i as int]@,
                                            Err(fault),
                                        );
                                    assert(state_updated(state, secret_id@, *secret, after) && plan_built(
                                        after,
                                        loaded@[i as int]@,
                                        Err(fault),
                                    ));
                                },
                                _ => {
                                    assert(update_refused(state, secret_id@, *secret, why));
                                },
                            }
                        }
                    },
                }
            },
            None => {},
        }
        failed.push(refused);
        i = i + 1;
    }
    failed
}

/// What the look at the first bytes of a connection found.
#[derive(Debug)]
pub enum InspectorResult {
    /// A TLS handshake that asks for a server name.
    Success(String),
    SuccessNoSni,
    /// No TLS handshake.
    TlsError,
}

/// Where a connection is on its way to a filter chain.
#[derive(Debug, Clone, Copy, PartialEq, Eq, Structural)]
pub enum ConnectionPhase {
    Inspecting,
    ReadingHeader,
    Limiting { chain: usize },
    Checking { chain: usize },
    Serving,
    Done,
}

/// A connection on its way to a filter chain.
#[derive(Debug)]
pub struct ConnectionRun {
    pub listener_name: String,
    /// Where it came from, until that is looked at.
    pub source: ConnectionSource,
    /// The addresses, once they are known.
    pub located: Option<DownstreamConnectionMetadata>,
    pub sni: Option<String>,
    pub ssl: bool,
    pub phase: ConnectionPhase,
}

/// Why a connection failed.
#[derive(Debug)]
pub enum ConnectionFailure {
    ProxyHeader(String),
    Ambiguous(AmbiguousFilterChains),
    RateLimit(String),
    Chain(String),
}

/// What is to do with a connection.
#[derive(Debug)]
pub enum ConnectionAction {
    /// Look at the first bytes.
    Inspect,
    ReadProxyHeader { local_address: SocketAddr, peer_addr: SocketAddr },
    ApplyRateLimit { chain: usize },
    ApplyRbac { chain: usize },
    StartChain { chain: usize, metadata: DownstreamMetadata },
    Return(Result<(), ConnectionFailure>),
}

/// What came of the last action.
#[derive(Debug)]
pub enum ConnectionEvent {
    Inspected(InspectorResult),
    HeaderRead(Result<DownstreamConnectionMetadata, String>),
    RateLimitChecked(Result<(), String>),
    /// Whether the connection may pass.
    RbacChecked(bool),
    ChainEnded(Result<(), String>),
}

impl ConnectionRun {
    /// Whether an event can come now.
    pub open spec fn expects(self, event: ConnectionEvent) -> bool {
        match self.phase {
            ConnectionPhase::Inspecting => event is Inspected,
            ConnectionPhase::ReadingHeader => event is HeaderRead,
            ConnectionPhase::Limiting { .. } => event is RateLimitChecked,
            ConnectionPhase::Checking { .. } => event is RbacChecked && self.located is Some,
            ConnectionPhase::Serving => event is ChainEnded,
            ConnectionPhase::Done => false,
        }
    }
}

/// By what a chain is chosen for a connection.
pub open spec fn criteria_for(metadata: DownstreamConnectionMetadata, sni: Option<String>) -> Criteria {
    Criteria {
        destination: metadata.spec_local_address(),
        source: metadata.spec_peer_address(),
        server_name: match sni {
            Some(name) => name@,
            None => Seq::<char>::empty(),
        },
    }
}

/// Whether two runs are the same connection, at perhaps different places.
pub open spec fn same_connection(before: ConnectionRun, after: ConnectionRun) -> bool {
    &&& after.listener_name == before.listener_name
    &&& after.sni == before.sni
    &&& after.ssl == before.ssl
}

/// Whether a connection whose addresses are known went on to its chain.
pub open spec fn chosen<T>(
    chains: Seq<(FilterChainMatch, T)>,
    metadata: DownstreamConnectionMetadata,
    before: ConnectionRun,
    after: ConnectionRun,
    metrics: GlobalMetrics,
    metrics_after: GlobalMetrics,
    shard: u64,
    action: ConnectionAction,
) -> bool {
    let c = criteria_for(metadata, before.sni);
    &&& same_connection(before, after)
    &&& after.located == Some(metadata)
    &&& match action {
        ConnectionAction::ApplyRateLimit { chain } => {
            &&& after.phase == (ConnectionPhase::Limiting { chain })
            &&& is_choice(chains, c, Ok(Some(chain)))
            &&& metrics_after == metrics
        },
        ConnectionAction::Return(Ok(_)) => {
            &&& after.phase == ConnectionPhase::Done
            &&& is_choice(chains, c, Ok(None))
            &&& counter_added(
                metrics.listeners.no_filter_chain_match,
                metrics_after.listeners.no_filter_chain_match,
                1,
                shard,
                listener_labels(before.listener_name@),
            )
            &&& metrics_after == (GlobalMetrics {
                listeners: ListenerMetrics {
                    no_filter_chain_match: metrics_after.listeners.no_filter_chain_match,
                    ..metrics.listeners
                },
                ..metrics
            })
        },
        ConnectionAction::Return(Err(ConnectionFailure::Ambiguous(e))) => {
            &&& after.phase == ConnectionPhase::Done
            &&& is_choice(chains, c, Err(e))
            &&& metrics_after == metrics
        },
        _ => false,
    }
}

/// Whether a connection went on to find out its addresses.
pub open spec fn locating<T>(
    chains: Seq<(FilterChainMatch, T)>,
    before: ConnectionRun,
    after: ConnectionRun,
    metrics: GlobalMetrics,
    metrics_after: GlobalMetrics,
    shard: u64,
    action: ConnectionAction,
) -> bool {
    match before.source {
        ConnectionSource::Socket { local_address, peer_addr, has_proxy_protocol } => if has_proxy_protocol {
            &&& same_connection(before, after) && after.located == before.located
            &&& action == (ConnectionAction::ReadProxyHeader { local_address, peer_addr })
            &&& after.phase == ConnectionPhase::ReadingHeader
            &&& metrics_after == metrics
        } else {
            chosen(
                chains,
                (DownstreamConnectionMetadata::FromSocket { peer_address: peer_addr, local_address }),
                before,
                after,
                metrics,
                metrics_after,
                shard,
                action,
            )
        },
        ConnectionSource::Internal { metadata } => chosen(
            chains,
            metadata,
            before,
            after,
            metrics,
            metrics_after,
            shard,
            action,
        ),
    }
}

/// The run after the look at the first bytes of the connection.
pub open spec fn inspected(before: ConnectionRun, result: InspectorResult) -> ConnectionRun {
    match result {
        InspectorResult::Success(sni) => ConnectionRun { sni: Some(sni), ssl: true, ..before },
        InspectorResult::SuccessNoSni => ConnectionRun { ssl: true, ..before },
        InspectorResult::TlsError => before,
    }
}

/// Whether a connection was counted as one with TLS, where it is one.
pub open spec fn ssl_counted(
    metrics: HttpMetrics,
    metrics_after: HttpMetrics,
    name: Seq<char>,
    shard: u64,
    result: InspectorResult,
) -> bool {
    if !(result is TlsError) {
        &&& counter_added(
            metrics.downstream_cx_ssl_total,
            metrics_after.downstream_cx_ssl_total,
            1,
            shard,
            listener_labels(name),
        )
        &&& counter_added(
            metrics.downstream_cx_ssl_active,
            metrics_after.downstream_cx_ssl_active,
            1,
            shard,
            listener_labels(name),
        )
        &&& metrics_after == (HttpMetrics {
            downstream_cx_ssl_total: metrics_after.downstream_cx_ssl_total,
            downstream_cx_ssl_active: metrics_after.downstream_cx_ssl_active,
            ..metrics
        })
    } else {
        metrics_after == metrics
    }
}

/// Whether a connection went on after an event.
pub open spec fn connection_follows<T>(
    chains: Seq<(FilterChainMatch, T)>,
    before: ConnectionRun,
    event: ConnectionEvent,
    after: ConnectionRun,
    metrics: GlobalMetrics,
    metrics_after: GlobalMetrics,
    shard: u64,
    action: ConnectionAction,
) -> bool {
    match event {
        ConnectionEvent::Inspected(result) => exists|mid: GlobalMetrics|
            {
                &&& #[trigger] ssl_counted(
                    metrics.http,
                    mid.http,
                    before.listener_name@,
                    shard,
                    result,
                )
                &&& mid == (GlobalMetrics { http: mid.http, ..metrics })
                &&& locating(chains, inspected(before, result), after, mid, metrics_after, shard, action)
            },
        ConnectionEvent::HeaderRead(Ok(metadata)) => chosen(
            chains,
            metadata,
            before,
            after,
            metrics,
            metrics_after,
            shard,
            action,
        ),
        ConnectionEvent::HeaderRead(Err(why)) => {
            &&& action == ConnectionAction::Return(Err(ConnectionFailure::ProxyHeader(why)))
            &&& after == (ConnectionRun { phase: ConnectionPhase::Done, ..before })
            &&& metrics_after == metrics
        },
        ConnectionEvent::RateLimitChecked(Ok(_)) => {
            &&& action == (ConnectionAction::ApplyRbac { chain: before.phase->Limiting_chain })
            &&& after == (ConnectionRun {
                phase: ConnectionPhase::Checking { chain: before.phase->Limiting_chain },
                ..before
            })
            &&& metrics_after == metrics
        },
        ConnectionEvent::RateLimitChecked(Err(why)) => {
            &&& action == ConnectionAction::Return(Err(ConnectionFailure::RateLimit(why)))
            &&& after == (ConnectionRun { phase: ConnectionPhase::Done, ..before })
            &&& metrics_after == metrics
        },
        ConnectionEvent::RbacChecked(true) => {
            &&& action matches ConnectionAction::StartChain { chain, metadata }
            &&& chain == before.phase->Checking_chain
            &&& Some(metadata.connection) == before.located
            &&& text_of(metadata.sni) == text_of(before.sni)
            &&& metadata.listener_name@ == before.listener_name@
            &&& after.phase == ConnectionPhase::Serving
            &&& same_connection(before, after)
            &&& metrics_after == metrics
        },
        ConnectionEvent::RbacChecked(false) => {
            &&& action == ConnectionAction::Return(Ok(()))
            &&& after == (ConnectionRun { phase: ConnectionPhase::Done, ..before })
            &&& metrics_after == metrics
        },
        ConnectionEvent::ChainEnded(result) => {
            &&& action == ConnectionAction::Return(
                match result {
                    Ok(_) => Ok(()),
                    Err(why) => Err(ConnectionFailure::Chain(why)),
                },
            )
            &&& after == (ConnectionRun { phase: ConnectionPhase::Done, ..before })
            &&& metrics_after == metrics
        },
    }
}

fn copy_sni(sni: &Option<String>) -> (copied: Option<String>)
    ensures
        text_of(copied) == text_of(*sni),
{
    match sni {
        Some(name) => Some(name.clone()),
        None => None,
    }
}

impl ConnectionRun {
    fn choose_chain<T>(
        &mut self,
        chains: &Vec<(FilterChainMatch, T)>,
        metadata: DownstreamConnectionMetadata,
        metrics: &mut GlobalMetrics,
        shard: u64,
    ) -> (action: ConnectionAction)
        ensures
            chosen(chains@, metadata, *old(self), *final(self), *old(metrics), *final(metrics), shard, action),
    {
        let choice: Result<Option<usize>, AmbiguousFilterChains> = select_index(
            chains,
            &metadata,
            match &self.sni {
                Some(name) => Some(name.as_str()),
                None => None,
            },
        );
        self.located = Some(metadata);
        match choice {
            Ok(Some(chain)) => {
                self.phase = ConnectionPhase::Limiting { chain };
                ConnectionAction::ApplyRateLimit { chain }
            },
            Ok(None) => {
                let labels: Vec<(String, String)> = one_label("listener", self.listener_name.as_str());
                count_up(&mut metrics.listeners.no_filter_chain_match, 1, shard, &labels);
                self.phase = ConnectionPhase::Done;
                ConnectionAction::Return(Ok(()))
            },
            Err(e) => {
                self.phase = ConnectionPhase::Done;
                ConnectionAction::Return(Err(ConnectionFailure::Ambiguous(e)))
            },
        }
    }

    fn locate<T>(
        &mut self,
        chains: &Vec<(FilterChainMatch, T)>,
        metrics: &mut GlobalMetrics,
        shard: u64,
    ) -> (action: ConnectionAction)
        ensures
            locating(chains@, *old(self), *final(self), *old(metrics), *final(metrics), shard, action),
    {
        let nowhere = SocketAddr::unspecified();
        let mut source = ConnectionSource::Socket {
            local_address: nowhere,
            peer_addr: nowhere,
            has_proxy_protocol: false,
        };
        std::mem::swap(&mut source, &mut self.source);
        match source {
            ConnectionSource::Socket { local_address, peer_addr, has_proxy_protocol } => {
                if has_proxy_protocol {
                    self.phase = ConnectionPhase::ReadingHeader;
                    ConnectionAction::ReadProxyHeader { local_address, peer_addr }
                } else {
                    let metadata = DownstreamConnectionMetadata::FromSocket {
                        peer_address: peer_addr,
                        local_address,
                    };
                    self.choose_chain(chains, metadata, metrics, shard)
                }
            },
            ConnectionSource::Internal { metadata } => self.choose_chain(chains, metadata, metrics, shard),
        }
    }

    /// Begins with a new connection.
    pub fn process_connection<T>(
        listener_name: String,
        chains: &Vec<(FilterChainMatch, T)>,
        with_tls_inspector: bool,
        source: ConnectionSource,
        metrics: &mut GlobalMetrics,
        shard: u64,
    ) -> (begun: (ConnectionRun, ConnectionAction))
        ensures
            ({
                let fresh = ConnectionRun {
                    listener_name,
                    source,
                    located: None,
                    sni: None,
                    ssl: false,
                    phase: ConnectionPhase::Inspecting,
                };
                if with_tls_inspector {
                    begun.0 == fresh && begun.1 is Inspect && *final(metrics) == *old(metrics)
                } else {
                    locating(chains@, fresh, begun.0, *old(metrics), *final(metrics), shard, begun.1)
                }
            }),
    {
        let mut run = ConnectionRun {
            listener_name,
            source,
            located: None,
            sni: None,
            ssl: false,
            phase: ConnectionPhase::Inspecting,
        };
        let action: ConnectionAction = if with_tls_inspector {
            ConnectionAction::Inspect
        } else {
            run.locate(chains, metrics, shard)
        };
        (run, action)
    }

    /// Goes on with what came of the last action.
    pub fn step<T>(
        &mut self,
        chains: &Vec<(FilterChainMatch, T)>,
        event: ConnectionEvent,
        metrics: &mut GlobalMetrics,
        shard: u64,
    ) -> (action: ConnectionAction)
        requires
            old(self).expects(event),
        ensures
            connection_follows(chains@, *old(self), event, *final(self), *old(metrics), *final(metrics), shard, action),
    {
        match event {
            ConnectionEvent::Inspected(result) => {
                let is_tls: bool = match &result {
                    InspectorResult::TlsError => false,
                    _ => true,
                };
                if is_tls {
                    let labels: Vec<(String, String)> = one_label("listener", self.listener_name.as_str());
                    count_up(&mut metrics.http.downstream_cx_ssl_total, 1, shard, &labels);
                    count_up(&mut metrics.http.downstream_cx_ssl_active, 1, shard, &labels);
                    self.ssl = true;
                }
                match result {
                    InspectorResult::Success(sni) => {
                        self.sni = Some(sni);
                    },
                    _ => {},
                }
                let ghost mid = *metrics;
                assert(*self == inspected(*old(self), result));
                assert(ssl_counted(
                    old(metrics).http,
                    mid.http,
                    old(self).listener_name@,
                    shard,
                    result,
                ));
                self.locate(chains, metrics, shard)
            },
            ConnectionEvent::HeaderRead(Ok(metadata)) => self.choose_chain(chains, metadata, metrics, shard),
            ConnectionEvent::HeaderRead(Err(why)) => {
                self.phase = ConnectionPhase::Done;
                ConnectionAction::Return(Err(ConnectionFailure::ProxyHeader(why)))
            },
            ConnectionEvent::RateLimitChecked(Ok(_)) => {
                let chain: usize = match self.phase {
                    ConnectionPhase::Limiting { chain } => chain,
                    _ => 0,
                };
                self.phase = ConnectionPhase::Checking { chain };
                ConnectionAction::ApplyRbac { chain }
            },
            ConnectionEvent::RateLimitChecked(Err(why)) => {
                self.phase = ConnectionPhase::Done;
                ConnectionAction::Return(Err(ConnectionFailure::RateLimit(why)))
            },
            ConnectionEvent::RbacChecked(true) => {
                let chain: usize = match self.phase {
                    ConnectionPhase::Checking { chain } => chain,
                    _ => 0,
                };
                let mut located: Option<DownstreamConnectionMetadata> = None;
                std::mem::swap(&mut located, &mut self.located);
                self.phase = ConnectionPhase::Serving;
                ConnectionAction::StartChain {
                    chain,
                    metadata: DownstreamMetadata::new(
                        located.unwrap(),
                        copy_sni(&self.sni),
                        self.listener_name.clone(),
                    ),
                }
            },
            ConnectionEvent::RbacChecked(false) => {
                self.phase = ConnectionPhase::Done;
                ConnectionAction::Return(Ok(()))
            },
            ConnectionEvent::ChainEnded(result) => {
                self.phase = ConnectionPhase::Done;
                match result {
                    Ok(_) => ConnectionAction::Return(Ok(())),
                    Err(why) => ConnectionAction::Return(Err(ConnectionFailure::Chain(why))),
                }
            },
        }
    }

    /// Counts a connection out, however it ended, with how long it lasted.
    pub fn finish(&self, elapsed_ms: u128, metrics: &mut GlobalMetrics, shard: u64)
        ensures
            counted_out(*self, elapsed_ms, *old(metrics), *final(metrics), shard),
    {
        let labels: Vec<(String, String)> = one_label("listener", self.listener_name.as_str());
        count_up(&mut metrics.listeners.downstream_cx_destroy, 1, shard, &labels);
        count_down(&mut metrics.listeners.downstream_cx_active, 1, shard, &labels);
        if self.ssl {
            count_down(&mut metrics.http.downstream_cx_ssl_active, 1, shard, &labels);
        }
        let ms: u64 = if elapsed_ms <= u64::MAX as u128 {
            elapsed_ms as u64
        } else {
            u64::MAX
        };
        record(&mut metrics.listeners.downstream_cx_length_ms, ms, shard, &labels);
    }
}

/// Whether a connection was counted out.
pub open spec fn counted_out(
    run: ConnectionRun,
    elapsed_ms: u128,
    metrics: GlobalMetrics,
    metrics_after: GlobalMetrics,
    shard: u64,
) -> bool {
    let labels = listener_labels(run.listener_name@);
    &&& counter_added(
        metrics.listeners.downstream_cx_destroy,
        metrics_after.listeners.downstream_cx_destroy,
        1,
        shard,
        labels,
    )
    &&& counter_subtracted(
        metrics.listeners.downstream_cx_active,
        metrics_after.listeners.downstream_cx_active,
        1,
        shard,
        labels,
    )
    &&& histogram_recorded(
        metrics.listeners.downstream_cx_length_ms,
        metrics_after.listeners.downstream_cx_length_ms,
        if elapsed_ms <= u64::MAX {
            elapsed_ms as u64
        } else {
            u64::MAX
        },
        shard,
        labels,
    )
    &&& metrics_after.listeners == (ListenerMetrics {
        downstream_cx_destroy: metrics_after.listeners.downstream_cx_destroy,
        downstream_cx_active: metrics_after.listeners.downstream_cx_active,
        downstream_cx_length_ms: metrics_after.listeners.downstream_cx_length_ms,
        ..metrics.listeners
    })
    &&& if run.ssl {
        &&& counter_subtracted(
            metrics.http.downstream_cx_ssl_active,
            metrics_after.http.downstream_cx_ssl_active,
            1,
            shard,
            labels,
        )
        &&& metrics_after.http == (HttpMetrics {
            downstream_cx_ssl_active: metrics_after.http.downstream_cx_ssl_active,
            ..metrics.http
        })
    } else {
        metrics_after.http == metrics.http
    }
    &&& metrics_after == (GlobalMetrics { listeners: metrics_after.listeners, http: metrics_after.http, ..metrics })
}

/// What the access log is told of a connection on a socket that was closed.
#[derive(Debug)]
pub struct ConnectionLog {
    pub wire_bytes_received: u64,
    pub wire_bytes_sent: u64,
    /// What was wrong with the connection in the end, if anything was.
    pub termination_details: Option<String>,
    pub socket_address: SocketAddrContext,
}

/// Counts the bytes of a connection on a socket when it is closed, and tells
/// what the access log is told of it.
pub fn connection_closed(
    listener_name: &str,
    bytes_read: u64,
    bytes_written: u64,
    error: Option<String>,
    peer_addr: SocketAddr,
    local_address: Option<SocketAddr>,
    metrics: &mut TcpMetrics,
    shard: u64,
) -> (log: ConnectionLog)
    ensures
        log == (ConnectionLog {
            wire_bytes_received: bytes_read,
            wire_bytes_sent: bytes_written,
            termination_details: error,
            socket_address: SocketAddrContext {
                downstream_local_addr: local_address,
                downstream_peer_addr: Some(peer_addr),
                upstream_local_addr: None,
                upstream_peer_addr: None,
            },
        }),
        counter_added(
            old(metrics).cx_rx_bytes_received,
            final(metrics).cx_rx_bytes_received,
            bytes_read,
            shard,
            listener_labels(listener_name@),
        ),
        counter_added(
            old(metrics).cx_tx_bytes_sent,
            final(metrics).cx_tx_bytes_sent,
            bytes_written,
            shard,
            listener_labels(listener_name@),
        ),
        *final(metrics) == (TcpMetrics {
            cx_rx_bytes_received: final(metrics).cx_rx_bytes_received,
            cx_tx_bytes_sent: final(metrics).cx_tx_bytes_sent,
            ..*old(metrics)
        }),
{
    let labels: Vec<(String, String)> = one_label("listener", listener_name);
    count_up(&mut metrics.cx_rx_bytes_received, bytes_read, shard, &labels);
    count_up(&mut metrics.cx_tx_bytes_sent, bytes_written, shard, &labels);
    ConnectionLog {
        wire_bytes_received: bytes_read,
        wire_bytes_sent: bytes_written,
        termination_details: error,
        socket_address: SocketAddrContext {
            downstream_local_addr: local_address,
            downstream_peer_addr: Some(peer_addr),
            upstream_local_addr: None,
            upstream_peer_addr: None,
        },
    }
}

/// A connection that was counted in and then out leaves the number of active
/// connections as it was.
pub proof fn law_active_connections_balance(v: CounterView, shard: u64, name: Seq<char>)
    requires
        well_sharded(v),
        counted(v, shard, listener_labels(name)) < u64::MAX,
    ensures
        total(
            subtracted(added(v, 1, shard, listener_labels(name)), 1, shard, listener_labels(name)),
            listener_labels(name),
        ) == total(v, listener_labels(name)),
{
    law_subtracting_undoes_adding(v, 1, shard, listener_labels(name));
}

/// A step of a connection: what came of the last action, what it made of the
/// run and of the metrics, and what is to do next. The chains are those of
/// the listener at that time.
pub ghost struct ConnectionStep<T> {
    pub chains: Seq<(FilterChainMatch, T)>,
    pub before: ConnectionRun,
    pub event: ConnectionEvent,
    pub after: ConnectionRun,
    pub metrics: GlobalMetrics,
    pub metrics_after: GlobalMetrics,
    pub action: ConnectionAction,
}

/// Whether two states of the metrics agree on what a connection is counted in
/// and out by. Anything else may change while a connection is served.
pub open spec fn same_counts(before: GlobalMetrics, after: GlobalMetrics) -> bool {
    &&& after.http.downstream_cx_ssl_total == before.http.downstream_cx_ssl_total
    &&& after.http.downstream_cx_ssl_active == before.http.downstream_cx_ssl_active
    &&& after.listeners.downstream_cx_destroy == before.listeners.downstream_cx_destroy
    &&& after.listeners.downstream_cx_active == before.listeners.downstream_cx_active
}

/// Whether some steps lead from a run on. Between them the metrics may change
/// in any way: other connections come and go.
pub open spec fn are_steps<T>(begun: ConnectionRun, steps: Seq<ConnectionStep<T>>, shard: u64) -> bool {
    forall|k: int|
        #![trigger steps[k]]
        0 <= k < steps.len() ==> {
            &&& steps[k].before == (if k == 0 {
                begun
            } else {
                steps[k - 1].after
            })
            &&& steps[k].before.expects(steps[k].event)
            &&& connection_follows(
                steps[k].chains,
                steps[k].before,
                steps[k].event,
                steps[k].after,
                steps[k].metrics,
                steps[k].metrics_after,
                shard,
                steps[k].action,
            )
        }
}

/// What a connection is counted in and out by.
pub ghost enum ConnectionCounter {
    SslTotal,
    SslActive,
    Destroyed,
    Active,
}

/// What such a counter has counted under some labels.
pub open spec fn count_of(metrics: GlobalMetrics, counter: ConnectionCounter, labels: LabelsView) -> int {
    match counter {
        ConnectionCounter::SslTotal => total_of(metrics.http.downstream_cx_ssl_total, labels),
        ConnectionCounter::SslActive => total_of(metrics.http.downstream_cx_ssl_active, labels),
        ConnectionCounter::Destroyed => total_of(metrics.listeners.downstream_cx_destroy, labels),
        ConnectionCounter::Active => total_of(metrics.listeners.downstream_cx_active, labels),
    }
}

/// What others changed of a counter before and between some steps.
pub open spec fn changed_by_others<T>(
    metrics: GlobalMetrics,
    steps: Seq<ConnectionStep<T>>,
    counter: ConnectionCounter,
    labels: LabelsView,
) -> int
    decreases steps.len(),
{
    if steps.len() == 0 {
        0
    } else {
        let earlier = steps.drop_last();
        changed_by_others(metrics, earlier, counter, labels) + count_of(steps.last().metrics, counter, labels)
            - count_of(
            if earlier.len() == 0 {
                metrics
            } else {
                earlier.last().metrics_after
            },
            counter,
            labels,
        )
    }
}

/// What a connection itself adds to a counter in all.
pub open spec fn own_part(counter: ConnectionCounter, is_tls: bool) -> int {
    match counter {
        ConnectionCounter::SslTotal => if is_tls {
            1
        } else {
            0
        },
        ConnectionCounter::SslActive => 0,
        ConnectionCounter::Destroyed => 1,
        ConnectionCounter::Active => -1,
    }
}

/// Whether a metric is set up and can be counted up once more in a shard.
pub open spec fn has_room_for_one(slot: Option<Metric<ShardedU64>>, shard: u64, labels: LabelsView) -> bool {
    slot matches Some(m) && well_sharded(m.value@) && counted(m.value@, shard, labels) < u64::MAX
}

/// Whether a metric is set up and has something to take in a shard.
pub open spec fn holds_one(slot: Option<Metric<ShardedU64>>, shard: u64, labels: LabelsView) -> bool {
    slot matches Some(m) && well_sharded(m.value@) && counted(m.value@, shard, labels) > 0
}

/// A step after the look at the first bytes changes nothing of what a
/// connection is counted in and out by.
proof fn lemma_later_step<T>(step: ConnectionStep<T>, shard: u64)
    requires
        step.before.expects(step.event),
        !(step.event is Inspected),
        connection_follows(
            step.chains,
            step.before,
            step.event,
            step.after,
            step.metrics,
            step.metrics_after,
            shard,
            step.action,
        ),
    ensures
        same_counts(step.metrics, step.metrics_after),
        step.after.ssl == step.before.ssl,
        step.after.listener_name == step.before.listener_name,
        step.after.phase != ConnectionPhase::Inspecting,
{
}

/// The look at the first bytes counts a connection with TLS in.
proof fn lemma_first_step<T>(step: ConnectionStep<T>, shard: u64)
    requires
        step.event is Inspected,
        connection_follows(
            step.chains,
            step.before,
            step.event,
            step.after,
            step.metrics,
            step.metrics_after,
            shard,
            step.action,
        ),
    ensures
        ssl_counted(
            step.metrics.http,
            step.metrics_after.http,
            step.before.listener_name@,
            shard,
            step.event->Inspected_0,
        ),
        step.metrics_after.listeners.downstream_cx_destroy == step.metrics.listeners.downstream_cx_destroy,
        step.metrics_after.listeners.downstream_cx_active == step.metrics.listeners.downstream_cx_active,
        step.after.ssl == inspected(step.before, step.event->Inspected_0).ssl,
        step.after.listener_name == step.before.listener_name,
        step.after.phase != ConnectionPhase::Inspecting,
{
    let result = step.event->Inspected_0;
    let mid = choose|mid: GlobalMetrics|
        {
            &&& #[trigger] ssl_counted(step.metrics.http, mid.http, step.before.listener_name@, shard, result)
            &&& mid == (GlobalMetrics { http: mid.http, ..step.metrics })
            &&& locating(
                step.chains,
                inspected(step.before, result),
                step.after,
                mid,
                step.metrics_after,
                shard,
                step.action,
            )
        };
    assert(step.metrics_after.http == mid.http);
}

/// Only the first step changes what a connection is counted in and out by:
/// where there are `n` steps, a counter has changed by what others did and by
/// what the first step did.
proof fn lemma_steps_change<T>(
    begun: ConnectionRun,
    metrics: GlobalMetrics,
    steps: Seq<ConnectionStep<T>>,
    shard: u64,
    n: int,
    counter: ConnectionCounter,
    labels: LabelsView,
)
    requires
        are_steps(begun, steps, shard),
        begun.phase == ConnectionPhase::Inspecting,
        0 < n <= steps.len(),
    ensures
        steps[0].event is Inspected,
        steps[n - 1].after.ssl == steps[0].after.ssl,
        steps[n - 1].after.listener_name == begun.listener_name,
        steps[n - 1].after.phase != ConnectionPhase::Inspecting,
        count_of(steps[n - 1].metrics_after, counter, labels) == count_of(metrics, counter, labels)
            + changed_by_others(metrics, steps.take(n), counter, labels) + count_of(
            steps[0].metrics_after,
            counter,
            labels,
        ) - count_of(steps[0].metrics, counter, labels),
    decreases n,
{
    assert(steps[0].before == begun);
    assert(steps[0].before.expects(steps[0].event));
    lemma_first_step(steps[0], shard);
    let taken = steps.take(n);
    assert(taken.drop_last() =~= steps.take(n - 1));
    assert(taken.last() == steps[n - 1]);
    if n > 1 {
        lemma_steps_change(begun, metrics, steps, shard, n - 1, counter, labels);
        assert(steps.take(n - 1).last() == steps[n - 2]);
        assert(steps[n - 1].before == steps[n - 2].after);
        assert(steps[n - 1].before.expects(steps[n - 1].event));
        lemma_later_step(steps[n - 1], shard);
    } else {
        assert(changed_by_others(metrics, steps.take(0), counter, labels) == 0);
    }
}

/// A whole connection of a listener that looks at the first bytes, on
/// whatever way it ended and whatever other connections were counted
/// meanwhile: each counter differs at the end by what the others did and by
/// the part of this connection. It is counted once as destroyed and is no
/// longer among those that are active; where it has TLS it is counted once as
/// such, and it leaves the number of active connections with TLS alone.
///
/// A counter can only be counted up while it is not full, and down while it
/// holds something of this shard: the connection itself, which was counted in.
pub proof fn law_whole_connection_balances<T>(
    begun: ConnectionRun,
    metrics: GlobalMetrics,
    steps: Seq<ConnectionStep<T>>,
    elapsed_ms: u128,
    ended: GlobalMetrics,
    metrics_after: GlobalMetrics,
    shard: u64,
    counter: ConnectionCounter,
)
    requires
        begun.phase == ConnectionPhase::Inspecting,
        !begun.ssl,
        are_steps(begun, steps, shard),
        steps.len() > 0,
        steps.last().action is Return,
        counted_out(steps.last().after, elapsed_ms, ended, metrics_after, shard),
        ({
            let labels = listener_labels(begun.listener_name@);
            &&& has_room_for_one(steps[0].metrics.http.downstream_cx_ssl_total, shard, labels)
            &&& has_room_for_one(steps[0].metrics.http.downstream_cx_ssl_active, shard, labels)
            &&& has_room_for_one(ended.listeners.downstream_cx_destroy, shard, labels)
            &&& holds_one(ended.listeners.downstream_cx_active, shard, labels)
            &&& steps.last().after.ssl ==> holds_one(ended.http.downstream_cx_ssl_active, shard, labels)
        }),
    ensures
        steps[0].event is Inspected,
        ({
            let labels = listener_labels(begun.listener_name@);
            let others = changed_by_others(metrics, steps, counter, labels) + count_of(ended, counter, labels)
                - count_of(steps.last().metrics_after, counter, labels);
            count_of(metrics_after, counter, labels) == count_of(metrics, counter, labels) + others + own_part(
                counter,
                !(steps[0].event->Inspected_0 is TlsError),
            )
        }),
{
    let labels = listener_labels(begun.listener_name@);
    let n = steps.len() as int;
    lemma_steps_change(begun, metrics, steps, shard, n, counter, labels);
    assert(steps.take(n) =~= steps);
    assert(steps[0].before == begun && steps[0].before.expects(steps[0].event));
    lemma_first_step(steps[0], shard);
    law_adding_counts_once(steps[0].metrics.http.downstream_cx_ssl_total->0.value@, 1, shard, labels, labels);
    law_adding_counts_once(steps[0].metrics.http.downstream_cx_ssl_active->0.value@, 1, shard, labels, labels);
    law_adding_counts_once(ended.listeners.downstream_cx_destroy->0.value@, 1, shard, labels, labels);
    law_subtracting_stops_at_zero(ended.listeners.downstream_cx_active->0.value@, 1, shard, labels);
    if steps.last().after.ssl {
        law_subtracting_stops_at_zero(ended.http.downstream_cx_ssl_active->0.value@, 1, shard, labels);
    }
}

/// What a metric has counted under some labels.
pub open spec fn total_of(slot: Option<Metric<ShardedU64>>, labels: LabelsView) -> int {
    total(slot->0.value@, labels)
}

/// A filter chain starts only for a connection that its rate limit and its
/// access rules let pass, and it is the chain that was chosen.
pub proof fn law_chain_starts_after_checks<T>(
    chains: Seq<(FilterChainMatch, T)>,
    before: ConnectionRun,
    event: ConnectionEvent,
    after: ConnectionRun,
    metrics: GlobalMetrics,
    metrics_after: GlobalMetrics,
    shard: u64,
    action: ConnectionAction,
)
    requires
        before.expects(event),
        connection_follows(chains, before, event, after, metrics, metrics_after, shard, action),
    ensures
        action matches ConnectionAction::StartChain { chain, metadata } ==> {
            &&& before.phase == (ConnectionPhase::Checking { chain })
            &&& event == ConnectionEvent::RbacChecked(true)
        },
        after.phase matches ConnectionPhase::Checking { chain } ==> {
            &&& before.phase == (ConnectionPhase::Limiting { chain })
            &&& event is RateLimitChecked && event->RateLimitChecked_0 is Ok
        },
        after.phase matches ConnectionPhase::Limiting { chain } ==> after.located is Some && survives(
            chains,
            criteria_for(after.located->0, after.sni),
            stages(),
            chain as int,
        ),
{
}

/// How far a connection is from its end at most.
pub open spec fn connection_steps_left(phase: ConnectionPhase) -> nat {
    match phase {
        ConnectionPhase::Inspecting => 5,
        ConnectionPhase::ReadingHeader => 4,
        ConnectionPhase::Limiting { .. } => 3,
        ConnectionPhase::Checking { .. } => 2,
        ConnectionPhase::Serving => 1,
        ConnectionPhase::Done => 0,
    }
}

/// Every event brings a connection nearer to its end.
pub proof fn law_connection_ends<T>(
    chains: Seq<(FilterChainMatch, T)>,
    before: ConnectionRun,
    event: ConnectionEvent,
    after: ConnectionRun,
    metrics: GlobalMetrics,
    metrics_after: GlobalMetrics,
    shard: u64,
    action: ConnectionAction,
)
    requires
        before.expects(event),
        connection_follows(chains, before, event, after, metrics, metrics_after, shard, action),
    ensures
        connection_steps_left(after.phase) < connection_steps_left(before.phase),
{
}

/// A change of the routes of another name leaves every chain as it was.
pub proof fn law_other_routes_stay(
    before: Seq<(FilterChainMatch, FilterchainType)>,
    after: Seq<(FilterChainMatch, FilterchainType)>,
    change: RouteConfigurationChange,
    notify: bool,
    id: Seq<char>,
    i: int,
)
    requires
        route_changed(before, after, change, notify),
        0 <= i < before.len(),
        serves_route(before[i].1, id),
        match change {
            RouteConfigurationChange::Added { id: changed, .. } => changed@ != id,
            RouteConfigurationChange::Removed { id: changed, .. } => changed@ != id,
        },
    ensures
        after[i] == before[i],
{
    assert(after[i].0 == before[i].0);
}

/// A connection goes on to a chain whose every rule it meets: with the
/// addresses that a proxy protocol header states where one was read or the
/// listener asks for one, with its own addresses else, and with the server
/// name that the client asked for.
pub proof fn law_connection_goes_to_a_chain_it_fits<T>(
    chains: Seq<(FilterChainMatch, T)>,
    before: ConnectionRun,
    event: ConnectionEvent,
    after: ConnectionRun,
    metrics: GlobalMetrics,
    metrics_after: GlobalMetrics,
    shard: u64,
    action: ConnectionAction,
)
    requires
        before.expects(event),
        connection_follows(chains, before, event, after, metrics, metrics_after, shard, action),
        action is ApplyRateLimit,
    ensures
        ({
            let chain = action->ApplyRateLimit_chain;
            let name = if event is Inspected && event->Inspected_0 is Success {
                event->Inspected_0->Success_0@
            } else if before.sni is Some {
                before.sni->0@
            } else {
                Seq::empty()
            };
            &&& chain < chains.len()
            &&& match event {
                ConnectionEvent::HeaderRead(read) => meets_rules(
                    chains[chain as int].0,
                    read->Ok_0.spec_local_address(),
                    read->Ok_0.spec_peer_address(),
                    name,
                ),
                _ => match before.source {
                    ConnectionSource::Socket { local_address, peer_addr, has_proxy_protocol } => !has_proxy_protocol
                        && meets_rules(chains[chain as int].0, local_address, peer_addr, name),
                    ConnectionSource::Internal { metadata } => meets_rules(
                        chains[chain as int].0,
                        metadata.spec_local_address(),
                        metadata.spec_peer_address(),
                        name,
                    ),
                },
            }
        }),
{
    let chain = action->ApplyRateLimit_chain;
    law_choice_meets_every_rule(chains, criteria_for(after.located->0, after.sni), chain);
}

/// A connection that a chain's own limit or its access rules turn away is
/// never handed to the chain, and one that both let through always is.
pub proof fn law_checks_decide<T>(
    chains: Seq<(FilterChainMatch, T)>,
    before: ConnectionRun,
    event: ConnectionEvent,
    after: ConnectionRun,
    metrics: GlobalMetrics,
    metrics_after: GlobalMetrics,
    shard: u64,
    action: ConnectionAction,
)
    requires
        before.expects(event),
        connection_follows(chains, before, event, after, metrics, metrics_after, shard, action),
    ensures
        event is RateLimitChecked ==> (action is ApplyRbac <==> event->RateLimitChecked_0 is Ok),
        event is RateLimitChecked && event->RateLimitChecked_0 is Err ==> action is Return,
        event is RbacChecked ==> (action is StartChain <==> event->RbacChecked_0),
        event is RbacChecked && !event->RbacChecked_0 ==> action is Return,
        action is StartChain ==> {
            &&& event is RbacChecked
            &&& action->StartChain_chain == before.phase->Checking_chain
        },
{
}

/// A connection that comes in is served exactly where the listener has no limit
/// or its bucket has a token left. The addresses are those of the connection.
pub proof fn law_connection_is_served_within_the_limit(
    before: Listener,
    after: Listener,
    address: SocketAddr,
    peer_addr: SocketAddr,
    local_address: Option<SocketAddr>,
    now: u128,
    metrics: GlobalMetrics,
    metrics_after: GlobalMetrics,
    shard: u64,
    action: ListenerAction,
)
    requires
        accepted(
            before,
            after,
            address,
            peer_addr,
            local_address,
            now,
            metrics,
            metrics_after,
            shard,
            action,
        ),
        before.rate_limit matches Some(limit) ==> {
            let bucket = limit.token_bucket;
            &&& bucket.wf() && bucket.time_per_token() > 0
            &&& bucket.time_per_bucket() == bucket.max_tokens() * bucket.time_per_token()
            &&& bucket.time() <= now && bucket.time_per_bucket() <= now
        },
    ensures
        before.rate_limit is None ==> action is Serve,
        before.rate_limit matches Some(limit) ==> (action is Serve <==> tokens_at(
            limit.token_bucket.time_per_token(),
            limit.token_bucket.max_tokens(),
            limit.token_bucket.time(),
            now as int,
        ) >= 1),
        action is Serve || action is Refuse,
        action is Serve ==> {
            &&& action->Serve_0 is Socket
            &&& action->Serve_0->Socket_peer_addr == peer_addr
            &&& local_address is Some ==> action->Serve_0->Socket_local_address == local_address->0
            &&& action->Serve_0->Socket_has_proxy_protocol == before.with_proxy_protocol
        },
{
    if before.rate_limit is Some {
        law_asked_bucket_grants_what_it_has(before.rate_limit->0.token_bucket, now as int, 1);
    }
}

/// A changed route reaches every chain that serves it, and no other: from then
/// on they answer by the new route, or by none once it is taken away.
pub proof fn law_route_reaches_its_chains(
    before: Seq<(FilterChainMatch, FilterchainType)>,
    after: Seq<(FilterChainMatch, FilterchainType)>,
    change: RouteConfigurationChange,
    notify: bool,
    i: int,
    manager: HttpManager,
    route_id: String,
)
    requires
        route_changed(before, after, change, notify),
        0 <= i < before.len(),
        before[i].1.handler == ConnectionHandler::Http(manager),
        manager.route_id == Some(route_id),
    ensures
        after.len() == before.len(),
        after[i].0 == before[i].0,
        after[i].1.handler is Http,
        change matches RouteConfigurationChange::Added { id, route, awaited } ==> {
            &&& id@ == route_id@ ==> after[i].1.handler->Http_0.route == Some(route)
            &&& id@ == route_id@ && awaited ==> notify
        },
        change matches RouteConfigurationChange::Removed { id, awaited } ==> {
            &&& id@ == route_id@ ==> after[i].1.handler->Http_0.route is None
            &&& id@ == route_id@ && awaited ==> notify
        },
        after[i].1.handler->Http_0.route_id == manager.route_id,
{
    assert(after[i].0 == before[i].0);
}

} // verus!
