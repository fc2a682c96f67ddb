//! What a filter decides about a message, and which filters a route has.

use crate::headers::{no_fields, Headers};
use crate::http_channel::UpstreamError;
use crate::name_table::NameTable;
use vstd::prelude::*;
use vstd::utf8::encode_utf8;

verus! {

/// The version of the protocol a message was sent in.
#[derive(Debug, Clone, Copy, PartialEq, Eq, Structural)]
pub enum HttpVersion {
    Http09,
    Http10,
    Http11,
    Http2,
    Http3,
}

/// Why the proxy answered in place of an upstream.
#[derive(Debug)]
pub enum EventFailure {
    DirectResponse,
    RouteNotFound,
    RateLimited,
    ExtProcError,
    RbacAccessDenied(String),
    Upstream(UpstreamError),
}

/// Marks on a response that tell what happened to it. Each is one bit.
#[derive(Debug, Clone, Copy, PartialEq, Eq, Structural)]
pub struct ResponseFlags {
    pub bits: u32,
}

pub const NO_HEALTHY_UPSTREAM: u32 = 1;

pub const UPSTREAM_CONNECTION_FAILURE: u32 = 2;

pub const NO_ROUTE_FOUND: u32 = 4;

pub const RATE_LIMITED: u32 = 8;

pub const DNS_RESOLUTION_FAILED: u32 = 16;

impl ResponseFlags {
    #[verifier::allow_in_spec]
    pub fn empty() -> ResponseFlags
        returns
            (ResponseFlags { bits: 0 }),
    {
        ResponseFlags { bits: 0 }
    }

    /// The flags with those of `other` added.
    #[verifier::allow_in_spec]
    pub fn with(self, other: u32) -> ResponseFlags
        returns
            (ResponseFlags { bits: self.bits | other }),
    {
        ResponseFlags { bits: self.bits | other }
    }
}

/// A response that the proxy makes itself.
#[derive(Debug)]
pub struct HttpResponse {
    pub status: u16,
    pub version: HttpVersion,
    pub headers: Headers,
    pub body: Vec<u8>,
    pub failure: Option<EventFailure>,
    pub flags: ResponseFlags,
}

/// What becomes of a message.
#[derive(Debug)]
pub enum FilterDecision {
    /// It goes on to the next filter.
    Continue,
    /// Its route is looked up anew.
    Reroute,
    /// The client gets this response instead.
    DirectResponse(HttpResponse),
}

impl Default for FilterDecision {
    fn default() -> (decision: FilterDecision)
        ensures
            decision is Continue,
    {
        FilterDecision::Continue
    }
}

/// Whether a response was made by the proxy with a status, a text and its reasons.
pub open spec fn is_synthetic(
    response: HttpResponse,
    status: u16,
    text: Seq<char>,
    version: HttpVersion,
    flags: ResponseFlags,
) -> bool {
    &&& response.status == status
    &&& response.version == version
    &&& response.headers@ == no_fields()
    &&& response.body@ == encode_utf8(text)
    &&& response.flags == flags
}

fn synthetic(status: u16, text: &str, version: HttpVersion, failure: EventFailure, flags: ResponseFlags) -> (decision:
    FilterDecision)
    ensures
        decision matches FilterDecision::DirectResponse(response) && is_synthetic(
            response,
            status,
            text@,
            version,
            flags,
        ) && response.failure == Some(failure),
{
    FilterDecision::DirectResponse(
        HttpResponse {
            status,
            version,
            headers: Headers::new(),
            body: text.as_bytes_vec(),
            failure: Some(failure),
            flags,
        },
    )
}

impl FilterDecision {
    /// The fields of a response that the proxy makes itself. For any other
    /// decision they are those of the message.
    pub fn headers(&self) -> (headers: Option<&Headers>)
        ensures
            headers == (match self {
                FilterDecision::DirectResponse(response) => Some(&response.headers),
                _ => None::<&Headers>,
            }),
    {
        match self {
            FilterDecision::Continue => None,
            FilterDecision::Reroute => None,
            FilterDecision::DirectResponse(response) => Some(&response.headers),
        }
    }

    pub fn internal_server_error(msg: &str, version: HttpVersion) -> (decision: FilterDecision)
        ensures
            decision matches FilterDecision::DirectResponse(response) && is_synthetic(
                response,
                500,
                msg@,
                version,
                ResponseFlags::empty(),
            ) && response.failure == Some(EventFailure::DirectResponse),
    {
        synthetic(500, msg, version, EventFailure::DirectResponse, ResponseFlags::empty())
    }

    pub fn bad_request(msg: &str, version: HttpVersion) -> (decision: FilterDecision)
        ensures
            decision matches FilterDecision::DirectResponse(response) && is_synthetic(
                response,
                400,
                msg@,
                version,
                ResponseFlags::empty(),
            ) && response.failure == Some(EventFailure::DirectResponse),
    {
        synthetic(400, msg, version, EventFailure::DirectResponse, ResponseFlags::empty())
    }

    pub fn not_found(msg: &str, version: HttpVersion) -> (decision: FilterDecision)
        ensures
            decision matches FilterDecision::DirectResponse(response) && is_synthetic(
                response,
                404,
                msg@,
                version,
                ResponseFlags::empty(),
            ) && response.failure == Some(EventFailure::DirectResponse),
    {
        synthetic(404, msg, version, EventFailure::DirectResponse, ResponseFlags::empty())
    }

    pub fn method_not_allowed(msg: &str, version: HttpVersion) -> (decision: FilterDecision)
        ensures
            decision matches FilterDecision::DirectResponse(response) && is_synthetic(
                response,
                405,
                msg@,
                version,
                (ResponseFlags { bits: NO_ROUTE_FOUND }),
            ) && response.failure == Some(EventFailure::RouteNotFound),
    {
        synthetic(405, msg, version, EventFailure::RouteNotFound, ResponseFlags { bits: NO_ROUTE_FOUND })
    }

    pub fn no_route_found(msg: &str, version: HttpVersion) -> (decision: FilterDecision)
        ensures
            decision matches FilterDecision::DirectResponse(response) && is_synthetic(
                response,
                404,
                msg@,
                version,
                (ResponseFlags { bits: NO_ROUTE_FOUND }),
            ) && response.failure == Some(EventFailure::RouteNotFound),
    {
        synthetic(404, msg, version, EventFailure::RouteNotFound, ResponseFlags { bits: NO_ROUTE_FOUND })
    }

    /// Turns a request away for its rate, with status 429 unless another is given.
    pub fn rate_limited(msg: &str, status: Option<u16>, version: HttpVersion) -> (decision: FilterDecision)
        ensures
            decision matches FilterDecision::DirectResponse(response) && is_synthetic(
                response,
                match status {
                    Some(s) => s,
                    None => 429,
                },
                msg@,
                version,
                (ResponseFlags { bits: RATE_LIMITED }),
            ) && response.failure == Some(EventFailure::RateLimited),
    {
        let status: u16 = match status {
            Some(s) => s,
            None => 429,
        };
        synthetic(status, msg, version, EventFailure::RateLimited, ResponseFlags { bits: RATE_LIMITED })
    }

    pub fn unauthorized(msg: &str, version: HttpVersion) -> (decision: FilterDecision)
        ensures
            decision matches FilterDecision::DirectResponse(response) && is_synthetic(
                response,
                401,
                msg@,
                version,
                ResponseFlags::empty(),
            ) && response.failure == Some(EventFailure::ExtProcError),
    {
        synthetic(401, msg, version, EventFailure::ExtProcError, ResponseFlags::empty())
    }
}

/// Whether a request passes the authorization rules, given what they found.
pub fn apply_authorization_rules(permitted: bool, enforced_policy: Option<String>, version: HttpVersion) -> (decision:
    FilterDecision)
    ensures
        permitted <==> decision is Continue,
        !permitted ==> {
            &&& decision matches FilterDecision::DirectResponse(response)
            &&& is_synthetic(response, 403, "RBAC: access denied"@, version, ResponseFlags::empty())
            &&& response.failure matches Some(EventFailure::RbacAccessDenied(policy))
            &&& policy@ == (match enforced_policy {
                Some(p) => p@,
                None => "unknown"@,
            })
        },
{
    if permitted {
        FilterDecision::Continue
    } else {
        let policy: String = match enforced_policy {
            Some(policy) => policy,
            None => "unknown".to_owned(),
        };
        synthetic(
            403,
            "RBAC: access denied",
            version,
            EventFailure::RbacAccessDenied(policy),
            ResponseFlags::empty(),
        )
    }
}

/// A filter as it is configured. Its settings go by their number.
#[derive(Debug, Clone, Copy, PartialEq, Eq, Structural)]
pub enum HttpFilterType {
    Wasm(u64),
    RateLimit(u64),
    Rbac(u64),
    ExternalProcessor(u64),
    JwtAuthentication(u64),
    Cors(u64),
    CorsPolicy(u64),
    McpGateway(u64),
    UserRateLimit(u64),
    CedarPolicy(u64),
}

/// A filter ready to run. Its settings go by their number.
#[derive(Debug, Clone, Copy, PartialEq, Eq, Structural)]
pub enum HttpFilterValue {
    Wasm(u64),
    RateLimit(u64),
    Rbac(u64),
    ExternalProcessor { settings: u64, per_route: Option<u64> },
    JwtAuthentication(u64),
    Cors(u64),
    McpGateway(u64),
    UserRateLimit(u64),
    CedarPolicy(u64),
}

/// Something that makes a fresh copy of itself for each session.
pub trait FilterFactory: Sized {
    fn new_from(&self) -> Self;
}

impl FilterFactory for HttpFilterValue {
    fn new_from(&self) -> (filter: HttpFilterValue)
        ensures
            filter == *self,
    {
        *self
    }
}

/// What a route changes about the settings of a filter.
#[derive(Debug, Clone, Copy, PartialEq, Eq, Structural)]
pub enum FilterConfigOverride {
    LocalRateLimit(u64),
    Rbac(Option<u64>),
    ExternalProcessor(u64),
}

/// What a route changes about a filter.
#[derive(Debug, Clone, Copy, PartialEq, Eq, Structural)]
pub struct FilterOverride {
    pub disabled: bool,
    pub filter_settings: Option<FilterConfigOverride>,
}

/// A filter of a connection manager.
#[derive(Debug)]
pub struct HttpFilter {
    pub name: String,
    pub disabled: bool,
    pub filter: Option<HttpFilterValue>,
    pub filter_config: Option<HttpFilterType>,
}

impl HttpFilterValue {
    /// The filter of a configuration.
    pub open spec fn spec_of(config: HttpFilterType) -> HttpFilterValue {
        match config {
            HttpFilterType::Wasm(settings) => HttpFilterValue::Wasm(settings),
            HttpFilterType::RateLimit(settings) => HttpFilterValue::RateLimit(settings),
            HttpFilterType::Rbac(settings) => HttpFilterValue::Rbac(settings),
            HttpFilterType::ExternalProcessor(settings) => HttpFilterValue::ExternalProcessor {
                settings,
                per_route: None,
            },
            HttpFilterType::JwtAuthentication(settings) => HttpFilterValue::JwtAuthentication(settings),
            HttpFilterType::Cors(settings) => HttpFilterValue::Cors(settings),
            HttpFilterType::CorsPolicy(settings) => HttpFilterValue::Cors(settings),
            HttpFilterType::McpGateway(settings) => HttpFilterValue::McpGateway(settings),
            HttpFilterType::UserRateLimit(settings) => HttpFilterValue::UserRateLimit(settings),
            HttpFilterType::CedarPolicy(settings) => HttpFilterValue::CedarPolicy(settings),
        }
    }

    /// Whether the filter looks at responses. All look at requests.
    pub fn applies_to_response(&self) -> (yes: bool)
        ensures
            yes == (self is ExternalProcessor || self is McpGateway || self is Cors || self is Wasm),
    {
        match self {
            HttpFilterValue::ExternalProcessor { .. } => true,
            HttpFilterValue::McpGateway(_) => true,
            HttpFilterValue::Cors(_) => true,
            HttpFilterValue::Wasm(_) => true,
            HttpFilterValue::Rbac(_) => false,
            HttpFilterValue::RateLimit(_) => false,
            HttpFilterValue::UserRateLimit(_) => false,
            HttpFilterValue::JwtAuthentication(_) => false,
            HttpFilterValue::CedarPolicy(_) => false,
        }
    }

    /// The filter that a route's override asks for. The settings of an
    /// external processor need those of the connection manager as well.
    pub open spec fn spec_override(value: FilterOverride, filter_config: Option<HttpFilterType>) -> Option<
        HttpFilterValue,
    > {
        match value.filter_settings {
            Some(FilterConfigOverride::LocalRateLimit(settings)) => Some(HttpFilterValue::RateLimit(settings)),
            Some(FilterConfigOverride::Rbac(Some(settings))) => Some(HttpFilterValue::Rbac(settings)),
            Some(FilterConfigOverride::Rbac(None)) => None,
            Some(FilterConfigOverride::ExternalProcessor(route)) => match filter_config {
                Some(HttpFilterType::ExternalProcessor(settings)) => Some(
                    HttpFilterValue::ExternalProcessor { settings, per_route: Some(route) },
                ),
                _ => None,
            },
            None => None,
        }
    }

    pub fn from_filter_override(value: &FilterOverride, filter_config: Option<HttpFilterType>) -> (filter: Option<
        HttpFilterValue,
    >)
        ensures
            filter == Self::spec_override(*value, filter_config),
    {
        match value.filter_settings {
            Some(FilterConfigOverride::LocalRateLimit(settings)) => Some(HttpFilterValue::RateLimit(settings)),
            Some(FilterConfigOverride::Rbac(Some(settings))) => Some(HttpFilterValue::Rbac(settings)),
            Some(FilterConfigOverride::Rbac(None)) => None,
            Some(FilterConfigOverride::ExternalProcessor(route)) => match filter_config {
                Some(HttpFilterType::ExternalProcessor(settings)) => Some(
                    HttpFilterValue::ExternalProcessor { settings, per_route: Some(route) },
                ),
                _ => None,
            },
            None => None,
        }
    }
}

impl HttpFilter {
    /// The filter of a configuration. Only an external processor keeps the
    /// configuration, for the routes that override it.
    pub fn from_config(name: String, disabled: bool, config: HttpFilterType) -> (filter: HttpFilter)
        ensures
            filter == (HttpFilter {
                name,
                disabled,
                filter: Some(HttpFilterValue::spec_of(config)),
                filter_config: if config is ExternalProcessor {
                    Some(config)
                } else {
                    None
                },
            }),
    {
        let kept: Option<HttpFilterType> = match config {
            HttpFilterType::ExternalProcessor(_) => Some(config),
            _ => None,
        };
        let value: HttpFilterValue = match config {
            HttpFilterType::Wasm(settings) => HttpFilterValue::Wasm(settings),
            HttpFilterType::RateLimit(settings) => HttpFilterValue::RateLimit(settings),
            HttpFilterType::Rbac(settings) => HttpFilterValue::Rbac(settings),
            HttpFilterType::ExternalProcessor(settings) => HttpFilterValue::ExternalProcessor {
                settings,
                per_route: None,
            },
            HttpFilterType::JwtAuthentication(settings) => HttpFilterValue::JwtAuthentication(settings),
            HttpFilterType::Cors(settings) => HttpFilterValue::Cors(settings),
            HttpFilterType::CorsPolicy(settings) => HttpFilterValue::Cors(settings),
            HttpFilterType::McpGateway(settings) => HttpFilterValue::McpGateway(settings),
            HttpFilterType::UserRateLimit(settings) => HttpFilterValue::UserRateLimit(settings),
            HttpFilterType::CedarPolicy(settings) => HttpFilterValue::CedarPolicy(settings),
        };
        HttpFilter { name, disabled, filter: Some(value), filter_config: kept }
    }

    /// This filter on a route with some overrides.
    pub open spec fn on_route(self, overrides: Map<Seq<char>, FilterOverride>) -> HttpFilter {
        if overrides.contains_key(self.name@) {
            HttpFilter {
                name: self.name,
                disabled: overrides[self.name@].disabled,
                filter: HttpFilterValue::spec_override(overrides[self.name@], self.filter_config),
                filter_config: self.filter_config,
            }
        } else {
            self
        }
    }

    pub fn effective(&self, overrides: &NameTable<FilterOverride>) -> (filter: HttpFilter)
        ensures
            filter == self.on_route(overrides@),
    {
        match overrides.get(self.name.as_str()) {
            Some(change) => HttpFilter {
                name: self.name.clone(),
                disabled: change.disabled,
                filter: HttpFilterValue::from_filter_override(change, self.filter_config),
                filter_config: self.filter_config,
            },
            None => HttpFilter {
                name: self.name.clone(),
                disabled: self.disabled,
                filter: self.filter,
                filter_config: self.filter_config,
            },
        }
    }
}

/// A route: the number of what it matches, and what it changes about the filters.
#[derive(Debug)]
pub struct RouteFilters {
    pub route_match: u64,
    pub overrides: NameTable<FilterOverride>,
}

/// The filters of a connection manager on one route, in their order.
pub open spec fn filters_on(route: RouteFilters, filters: Seq<HttpFilter>) -> Seq<HttpFilter> {
    filters.map_values(|filter: HttpFilter| filter.on_route(route.overrides@))
}

/// The filters of all routes that match the same, one route after the other.
pub open spec fn filters_for(routes: Seq<RouteFilters>, filters: Seq<HttpFilter>, route_match: u64) -> Seq<HttpFilter>
    decreases routes.len(),
{
    if routes.len() == 0 {
        Seq::empty()
    } else if routes.last().route_match == route_match {
        filters_for(routes.drop_last(), filters, route_match) + filters_on(routes.last(), filters)
    } else {
        filters_for(routes.drop_last(), filters, route_match)
    }
}

/// Whether some route matches `route_match`.
pub open spec fn has_route(routes: Seq<RouteFilters>, route_match: u64) -> bool {
    exists|i: int| 0 <= i < routes.len() && #[trigger] routes[i].route_match == route_match
}

/// Whether `table` holds exactly the filters of each route that has some.
pub open spec fn is_filter_table(
    table: Seq<(u64, Vec<HttpFilter>)>,
    routes: Seq<RouteFilters>,
    filters: Seq<HttpFilter>,
) -> bool {
    &&& forall|i: int|
        0 <= i < table.len() ==> {
            &&& has_route(routes, (#[trigger] table[i]).0)
            &&& table[i].1@ == filters_for(routes, filters, table[i].0)
        }
    &&& forall|i: int, j: int| 0 <= i < j < table.len() ==> (#[trigger] table[i]).0 != (#[trigger] table[j]).0
    &&& forall|r: int|
        0 <= r < routes.len() && filters.len() > 0 ==> exists|i: int|
            0 <= i < table.len() && (#[trigger] table[i]).0 == (#[trigger] routes[r]).route_match
}

fn filters_of_route(route: &RouteFilters, filters: &Vec<HttpFilter>) -> (made: Vec<HttpFilter>)
    ensures
        made@ == filters_on(*route, filters@),
{
    let mut made: Vec<HttpFilter> = Vec::new();
    let mut i: usize = 0;
    while i < filters.len()
        invariant
            i <= filters@.len(),
            made@ == filters_on(*route, filters@.take(i as int)),
        decreases filters@.len() - i,
    {
        let filter = filters[i].effective(&route.overrides);
        let ghost before = made@;
        made.push(filter);
        assert(filters_on(*route, filters@.take(i + 1)) =~= before.push(filter));
        i = i + 1;
    }
    assert(filters@.take(filters@.len() as int) =~= filters@);
    made
}

/// The filters of each route of a configuration, under what the route matches.
pub fn per_route_http_filters(routes: &Vec<RouteFilters>, hcm_filters: &Vec<HttpFilter>) -> (table: Vec<
    (u64, Vec<HttpFilter>),
>)
    ensures
        is_filter_table(table@, routes@, hcm_filters@),
{
    let mut table: Vec<(u64, Vec<HttpFilter>)> = Vec::new();
    let mut r: usize = 0;
    while r < routes.len()
        invariant
            r <= routes@.len(),
            is_filter_table(table@, routes@.take(r as int), hcm_filters@),
        decreases routes@.len() - r,
    {
        let ghost seen = routes@.take(r as int);
        let ghost now = routes@.take(r + 1);
        assert(now.drop_last() =~= seen);
        assert(now.last() == routes@[r as int]);
        let key: u64 = routes[r].route_match;
        let mut made: Vec<HttpFilter> = filters_of_route(&routes[r], hcm_filters);
        let ghost added = made@;
        let ghost before = table@;
        let mut at: usize = 0;
        while at < table.len() && table[at].0 != key
            invariant
                at <= table@.len(),
                table@ == before,
                forall|i: int| 0 <= i < at ==> (#[trigger] table@[i]).0 != key,
            decreases table@.len() - at,
        {
            at = at + 1;
        }
        proof {
            assert forall|k: u64| has_route(seen, k) implies has_route(now, k) by {
                let i = choose|i: int| 0 <= i < seen.len() && #[trigger] seen[i].route_match == k;
                assert(now[i].route_match == k);
            }
            assert(now[r as int].route_match == key);
            assert(has_route(now, key));
            if !(exists|i: int| 0 <= i < before.len() && (#[trigger] before[i]).0 == key) && hcm_filters@.len() > 0 {
                assert(!has_route(seen, key)) by {
                    if has_route(seen, key) {
                        let i = choose|i: int| 0 <= i < seen.len() && #[trigger] seen[i].route_match == key;
                        let j = choose|j: int|
                            0 <= j < before.len() && (#[trigger] before[j]).0 == (#[trigger] seen[i]).route_match;
                        assert(before[j].0 == key);
                    }
                }
                lemma_no_route_no_filters(seen, hcm_filters@, key);
            }
        }
        if at < table.len() {
            let mut list: Vec<HttpFilter> = Vec::new();
            let (found, old_list) = table.remove(at);
            list = old_list;
            list.append(&mut made);
            assert(list@ =~= filters_for(now, hcm_filters@, key)) by {
                assert(before[at as int].1@ == filters_for(seen, hcm_filters@, key));
            }
            table.insert(at, (found, list));
            assert(table@ =~= before.update(at as int, (key, list)));
            assert forall|i: int| 0 <= i < table@.len() implies has_route(now, (#[trigger] table@[i]).0)
                && table@[i].1@ == filters_for(now, hcm_filters@, table@[i].0) by {
                if i != at {
                    assert(table@[i] == before[i]);
                    assert(has_route(seen, before[i].0));
                    if i < at {
                        assert(before[i].0 != before[at as int].0);
                    } else {
                        assert(before[at as int].0 != before[i].0);
                    }
                }
            }
            assert forall|k: int| 0 <= k < now.len() && hcm_filters@.len() > 0 implies exists|i: int|
                0 <= i < table@.len() && (#[trigger] table@[i]).0 == (#[trigger] now[k]).route_match by {
                if k < seen.len() {
                    assert(now[k] == seen[k]);
                    let i = choose|i: int|
                        0 <= i < before.len() && (#[trigger] before[i]).0 == (#[trigger] seen[k]).route_match;
                    assert(table@[i].0 == now[k].route_match);
                } else {
                    assert(table@[at as int].0 == now[k].route_match);
                }
            }
        } else if hcm_filters.len() > 0 {
            table.push((key, made));
            assert(added =~= filters_for(now, hcm_filters@, key));
            assert forall|i: int| 0 <= i < table@.len() implies has_route(now, (#[trigger] table@[i]).0)
                && table@[i].1@ == filters_for(now, hcm_filters@, table@[i].0) by {
                if i < before.len() {
                    assert(table@[i] == before[i]);
                    assert(has_route(seen, before[i].0));
                }
            }
            assert forall|k: int| 0 <= k < now.len() && hcm_filters@.len() > 0 implies exists|i: int|
                0 <= i < table@.len() && (#[trigger] table@[i]).0 == (#[trigger] now[k]).route_match by {
                if k < seen.len() {
                    assert(now[k] == seen[k]);
                    let i = choose|i: int|
                        0 <= i < before.len() && (#[trigger] before[i]).0 == (#[trigger] seen[k]).route_match;
                    assert(table@[i].0 == now[k].route_match);
                } else {
                    assert(table@[before.len() as int].0 == now[k].route_match);
                }
            }
        } else {
            assert forall|i: int| 0 <= i < table@.len() implies has_route(now, (#[trigger] table@[i]).0)
                && table@[i].1@ == filters_for(now, hcm_filters@, table@[i].0) by {
                assert(has_route(seen, before[i].0));
            }
        }
        r = r + 1;
    }
    assert(routes@.take(routes@.len() as int) =~= routes@);
    table
}

/// No filters are listed for what no route matches.
proof fn lemma_no_route_no_filters(routes: Seq<RouteFilters>, filters: Seq<HttpFilter>, route_match: u64)
    requires
        !has_route(routes, route_match),
    ensures
        filters_for(routes, filters, route_match).len() == 0,
    decreases routes.len(),
{
    if routes.len() > 0 {
        assert(routes[routes.len() - 1].route_match != route_match);
        assert(!has_route(routes.drop_last(), route_match)) by {
            if has_route(routes.drop_last(), route_match) {
                let i = choose|i: int|
                    0 <= i < routes.drop_last().len() && #[trigger] routes.drop_last()[i].route_match == route_match;
                assert(routes[i].route_match == route_match);
            }
        }
        lemma_no_route_no_filters(routes.drop_last(), filters, route_match);
    }
}

/// A filter that a route does not mention runs on it as it is configured.
pub proof fn law_unmentioned_filter_is_unchanged(filter: HttpFilter, overrides: Map<Seq<char>, FilterOverride>)
    requires
        !overrides.contains_key(filter.name@),
    ensures
        filter.on_route(overrides) == filter,
{
}

/// Whether a filter is of the kind of a configuration and has its settings.
pub open spec fn is_configured_by(filter: HttpFilterValue, config: HttpFilterType) -> bool {
    match filter {
        HttpFilterValue::Wasm(n) => config == HttpFilterType::Wasm(n),
        HttpFilterValue::RateLimit(n) => config == HttpFilterType::RateLimit(n),
        HttpFilterValue::Rbac(n) => config == HttpFilterType::Rbac(n),
        HttpFilterValue::ExternalProcessor { settings, per_route } => per_route is None && config
            == HttpFilterType::ExternalProcessor(settings),
        HttpFilterValue::JwtAuthentication(n) => config == HttpFilterType::JwtAuthentication(n),
        HttpFilterValue::Cors(n) => config == HttpFilterType::Cors(n) || config == HttpFilterType::CorsPolicy(n),
        HttpFilterValue::McpGateway(n) => config == HttpFilterType::McpGateway(n),
        HttpFilterValue::UserRateLimit(n) => config == HttpFilterType::UserRateLimit(n),
        HttpFilterValue::CedarPolicy(n) => config == HttpFilterType::CedarPolicy(n),
    }
}

/// A configured filter runs as a filter of its kind, with its settings, and
/// two configurations run alike only where they are the same, but that both
/// ways of writing a CORS policy come to the same.
pub proof fn law_configured_filter_runs_as_its_kind(config: HttpFilterType, other: HttpFilterType)
    ensures
        is_configured_by(HttpFilterValue::spec_of(config), config),
        HttpFilterValue::spec_of(config) == HttpFilterValue::spec_of(other) ==> config == other || (config is Cors
            || config is CorsPolicy) && (other is Cors || other is CorsPolicy),
{
}

/// Whether the settings of a route's override can be run on a filter: those of
/// an external processor only over the configuration of one.
pub open spec fn can_run(settings: FilterConfigOverride, filter_config: Option<HttpFilterType>) -> bool {
    match settings {
        FilterConfigOverride::LocalRateLimit(_) => true,
        FilterConfigOverride::Rbac(rules) => rules is Some,
        FilterConfigOverride::ExternalProcessor(_) => filter_config is Some && filter_config->0 is ExternalProcessor,
    }
}

/// Whether a filter that runs is of the kind of an override and has the
/// settings that the override states; an external processor has those of its
/// configuration beside them.
pub open spec fn runs_settings(
    filter: HttpFilterValue,
    settings: FilterConfigOverride,
    filter_config: Option<HttpFilterType>,
) -> bool {
    match filter {
        HttpFilterValue::RateLimit(n) => settings == FilterConfigOverride::LocalRateLimit(n),
        HttpFilterValue::Rbac(n) => settings == FilterConfigOverride::Rbac(Some(n)),
        HttpFilterValue::ExternalProcessor { settings: own, per_route } => {
            &&& per_route is Some
            &&& settings == FilterConfigOverride::ExternalProcessor(per_route->0)
            &&& filter_config == Some(HttpFilterType::ExternalProcessor(own))
        },
        _ => false,
    }
}

/// A route that overrides a filter with settings of its own runs a filter of
/// that kind with exactly those settings. No filter runs only where the
/// override states none, or none that can be run there.
pub proof fn law_override_runs_its_settings(value: FilterOverride, filter_config: Option<HttpFilterType>)
    ensures
        match HttpFilterValue::spec_override(value, filter_config) {
            Some(filter) => value.filter_settings is Some && runs_settings(
                filter,
                value.filter_settings->0,
                filter_config,
            ),
            None => value.filter_settings is None || !can_run(value.filter_settings->0, filter_config),
        },
{
}

/// Two overrides of one filter run alike only where they state the same settings.
pub proof fn law_different_settings_run_differently(
    one: FilterOverride,
    other: FilterOverride,
    filter_config: Option<HttpFilterType>,
)
    requires
        HttpFilterValue::spec_override(one, filter_config) is Some,
    ensures
        HttpFilterValue::spec_override(one, filter_config) == HttpFilterValue::spec_override(other, filter_config)
            <==> one.filter_settings == other.filter_settings,
{
}

/// How many of some routes match the same.
pub open spec fn routes_with(routes: Seq<RouteFilters>, route_match: u64) -> nat
    decreases routes.len(),
{
    if routes.len() == 0 {
        0
    } else if routes.last().route_match == route_match {
        routes_with(routes.drop_last(), route_match) + 1
    } else {
        routes_with(routes.drop_last(), route_match)
    }
}

/// Whether a filter on a route is what the route makes of a filter of the
/// connection manager.
pub open spec fn is_on_route(made: HttpFilter, filter: HttpFilter, overrides: Map<Seq<char>, FilterOverride>) -> bool {
    if overrides.contains_key(filter.name@) {
        let change = overrides[filter.name@];
        &&& made.name == filter.name
        &&& made.filter_config == filter.filter_config
        &&& made.disabled == change.disabled
        &&& match made.filter {
            Some(value) => change.filter_settings is Some && runs_settings(
                value,
                change.filter_settings->0,
                filter.filter_config,
            ),
            None => change.filter_settings is None || !can_run(change.filter_settings->0, filter.filter_config),
        }
    } else {
        made == filter
    }
}

/// The filters of a table under what a route matches are all filters of the
/// connection manager, in their order, once for each route that matches the
/// same, in the order of the routes; each is what its route makes of it.
pub proof fn law_every_route_has_its_filters(
    table: Seq<(u64, Vec<HttpFilter>)>,
    routes: Seq<RouteFilters>,
    filters: Seq<HttpFilter>,
    route: int,
    filter: int,
)
    requires
        is_filter_table(table, routes, filters),
        0 <= route < routes.len(),
        0 <= filter < filters.len(),
    ensures
        exists|entry: int|
            {
                let key = routes[route].route_match;
                let at = routes_with(routes.take(route), key) * filters.len() + filter;
                &&& 0 <= entry < table.len()
                &&& (#[trigger] table[entry]).0 == key
                &&& table[entry].1@.len() == routes_with(routes, key) * filters.len()
                &&& 0 <= at < table[entry].1@.len()
                &&& is_on_route(table[entry].1@[at], filters[filter], routes[route].overrides@)
            },
{
    let key = routes[route].route_match;
    let entry = choose|entry: int|
        0 <= entry < table.len() && (#[trigger] table[entry]).0 == (#[trigger] routes[route]).route_match;
    lemma_filters_for(routes, filters, route, filter);
    assert(table[entry].1@ == filters_for(routes, filters, key));
    law_override_runs_its_settings(routes[route].overrides@[filters[filter].name@], filters[filter].filter_config);
}

proof fn lemma_filters_for(routes: Seq<RouteFilters>, filters: Seq<HttpFilter>, route: int, filter: int)
    requires
        0 <= route < routes.len(),
        0 <= filter < filters.len(),
    ensures
        ({
            let key = routes[route].route_match;
            let at = routes_with(routes.take(route), key) * filters.len() + filter;
            let all = filters_for(routes, filters, key);
            &&& all.len() == routes_with(routes, key) * filters.len()
            &&& 0 <= at < all.len()
            &&& all[at] == filters[filter].on_route(routes[route].overrides@)
        }),
    decreases routes.len(),
{
    let key = routes[route].route_match;
    let front = routes.drop_last();
    let n = routes_with(front, key);
    lemma_filters_for_len(routes, filters, key);
    lemma_filters_for_len(front, filters, key);
    assert((n + 1) * filters.len() == n * filters.len() + filters.len()) by (nonlinear_arith);
    if route < routes.len() - 1 {
        assert(front[route] == routes[route]);
        assert(front.take(route) =~= routes.take(route));
        lemma_filters_for(front, filters, route, filter);
    } else {
        assert(routes.take(route) =~= front);
        assert(routes.last() == routes[route]);
        assert(n * filters.len() >= 0) by (nonlinear_arith);
    }
}

proof fn lemma_filters_for_len(routes: Seq<RouteFilters>, filters: Seq<HttpFilter>, key: u64)
    ensures
        filters_for(routes, filters, key).len() == routes_with(routes, key) * filters.len(),
    decreases routes.len(),
{
    if routes.len() > 0 {
        let n = routes_with(routes.drop_last(), key);
        lemma_filters_for_len(routes.drop_last(), filters, key);
        assert((n + 1) * filters.len() == n * filters.len() + filters.len()) by (nonlinear_arith);
    } else {
        assert(0 * filters.len() == 0);
    }
}

/// An override never changes which filter it is about, nor the configuration it falls back on.
pub proof fn law_override_keeps_identity(filter: HttpFilter, overrides: Map<Seq<char>, FilterOverride>)
    ensures
        filter.on_route(overrides).name == filter.name,
        filter.on_route(overrides).filter_config == filter.filter_config,
{
}

} // verus!
