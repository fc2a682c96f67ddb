//! Rate limiting of connections by an external rate limit service.
//!
//! The service may answer with a quota: a number of connections that may pass
//! until some instant without asking again. Quotas are kept per domain. The
//! check of one connection runs in steps, and the caller does the waiting in
//! between: it takes the domain's refresh lock, or it calls the service.

use crate::headers::text_of;
use vstd::prelude::*;

verus! {

/// A quota as the map stores it: what remains, and until when it is valid in
/// milliseconds since the epoch.
pub type StoredQuota = (i64, u64);

/// What a map of quotas holds: for a domain, its quota.
pub uninterp spec fn quota_contents(map: papaya::HashMap<String, (i64, u64)>) -> Map<Seq<char>, (i64, u64)>;

/// The quotas of a proxy that has asked the service for nothing yet.
pub open spec fn no_quotas() -> Map<Seq<char>, StoredQuota> {
    Map::empty()
}

/// What a map holds under a key.
pub open spec fn lookup(quotas: Map<Seq<char>, StoredQuota>, domain: Seq<char>) -> Option<StoredQuota> {
    if quotas.contains_key(domain) {
        Some(quotas[domain])
    } else {
        None
    }
}

/// `papaya::HashMap::with_capacity`: an empty map with room for that many entries.
#[verifier::external_body]
fn quota_map_new(capacity: usize) -> (map: papaya::HashMap<String, (i64, u64)>)
    ensures
        quota_contents(map) == no_quotas(),
{
    papaya::HashMap::with_capacity(capacity)
}

/// `papaya::HashMap::get`, through a pinned reference: the value under a key, if there is one.
#[verifier::external_body]
fn quota_map_get(map: &papaya::HashMap<String, (i64, u64)>, domain: &str) -> (quota: Option<(i64, u64)>)
    ensures
        quota == lookup(quota_contents(*map), domain@),
{
    map.pin().get(domain).copied()
}

/// `papaya::HashMap::insert`, through a pinned reference: puts a value under a
/// key, in place of the one that was there. The map is borrowed mutably, so no
/// other thread reaches it meanwhile.
#[verifier::external_body]
fn quota_map_insert(map: &mut papaya::HashMap<String, (i64, u64)>, domain: String, quota: (i64, u64))
    ensures
        quota_contents(*final(map)) == quota_contents(*old(map)).insert(domain@, quota),
{
    map.pin().insert(domain, quota);
}

pub const INITIAL_CAPACITY: usize = 10_000;

/// One domain's quota.
#[derive(Debug, Clone, Copy, PartialEq, Eq, Structural)]
pub struct QuotaBucket {
    pub remaining: i64,
    pub valid_until_ms: u64,
}

/// One below `n`, around the ends of the type.
pub open spec fn one_less(n: i64) -> i64 {
    if n == i64::MIN {
        i64::MAX
    } else {
        (n - 1) as i64
    }
}

impl QuotaBucket {
    /// Whether a connection at `now` is covered.
    pub open spec fn covers(self, now: u64) -> bool {
        self.valid_until_ms > now && self.remaining > 0
    }

    /// The bucket after a connection at `now` asked for cover.
    pub open spec fn asked(self, now: u64) -> QuotaBucket {
        if self.valid_until_ms > now {
            QuotaBucket { remaining: one_less(self.remaining), valid_until_ms: self.valid_until_ms }
        } else {
            self
        }
    }

    /// Asks for cover. While the quota is valid every request counts, also one
    /// that comes when nothing remains.
    pub fn try_consume(&mut self, now: u64) -> (covered: bool)
        ensures
            covered == old(self).covers(now),
            *final(self) == old(self).asked(now),
    {
        if self.valid_until_ms > now {
            let before: i64 = self.remaining;
            if before == i64::MIN {
                self.remaining = i64::MAX;
            } else {
                self.remaining = before - 1;
            }
            before > 0
        } else {
            false
        }
    }
}

/// An instant of the rate limit protocol.
#[derive(Debug, Clone, Copy, PartialEq, Eq, Structural)]
pub struct Timestamp {
    pub seconds: i64,
    pub nanos: i32,
}

impl Timestamp {
    /// The milliseconds since the epoch, where they can be told.
    pub open spec fn spec_millis(self) -> Option<u64> {
        if self.seconds < 0 || self.nanos < 0 || self.seconds * 1_000 + self.nanos / 1_000_000
            > u64::MAX || self.seconds * 1_000 > u64::MAX {
            None
        } else {
            Some((self.seconds * 1_000 + self.nanos / 1_000_000) as u64)
        }
    }
}

/// The instant in milliseconds since the epoch. Instants before the epoch, and
/// those beyond the type, have none.
pub fn proto_timestamp_to_ms(ts: &Timestamp) -> (ms: Option<u64>)
    ensures
        ms == ts.spec_millis(),
{
    if ts.seconds < 0 || ts.nanos < 0 {
        return None;
    }
    let secs: u64 = ts.seconds as u64;
    let nanos: u32 = ts.nanos as u32;
    match secs.checked_mul(1_000) {
        None => None,
        Some(ms) => ms.checked_add((nanos / 1_000_000) as u64),
    }
}

/// A quota as the service states it.
#[derive(Debug, Clone, Copy, PartialEq, Eq, Structural)]
pub struct Quota {
    pub requests: u32,
    pub valid_until: Option<Timestamp>,
}

/// The code by which the service says that the limit is exceeded.
pub const CODE_OVER_LIMIT: i32 = 2;

/// An answer of the service.
#[derive(Debug, Clone, Copy, PartialEq, Eq, Structural)]
pub struct RateLimitResponse {
    pub overall_code: i32,
    pub quota: Option<Quota>,
}

impl RateLimitResponse {
    /// The quota this answer grants: one less than it states, because the
    /// connection that asked counts, and until when.
    pub open spec fn spec_quota(self) -> Option<(u32, u64)> {
        match self.quota {
            Some(quota) => if quota.requests == 0 {
                None
            } else {
                match quota.valid_until {
                    None => None,
                    Some(ts) => match ts.spec_millis() {
                        None => None,
                        Some(ms) => Some(((quota.requests - 1) as u32, ms)),
                    },
                }
            },
            None => None,
        }
    }

    pub open spec fn over_limit(self) -> bool {
        self.overall_code == CODE_OVER_LIMIT
    }
}

/// The quota an answer grants, if it grants one.
pub fn extract_quota(response: &RateLimitResponse) -> (quota: Option<(u32, u64)>)
    ensures
        quota == response.spec_quota(),
{
    match &response.quota {
        None => None,
        Some(quota) => {
            if quota.requests == 0 {
                return None;
            }
            match &quota.valid_until {
                None => None,
                Some(ts) => match proto_timestamp_to_ms(ts) {
                    None => None,
                    Some(ms) => Some((quota.requests - 1, ms)),
                },
            }
        },
    }
}

/// Why a connection was turned away.
#[derive(Debug)]
pub enum RateLimitError {
    NoDomain,
    OverLimit,
    ClusterNotFound(String),
    /// There is no connection to the cluster of the service.
    NotConnected(String),
    CallFailed(String),
    InvalidEndpoint { uri: String, reason: String },
}

impl RateLimitError {
    pub open spec fn spec_message(&self) -> Seq<char> {
        match self {
            RateLimitError::NoDomain => "rate limit: no SNI and no domain configured"@,
            RateLimitError::OverLimit => "rate limited by global rate limiter"@,
            RateLimitError::ClusterNotFound(name) => "RLS cluster '"@ + name@ + "' not found"@,
            RateLimitError::NotConnected(reason) => reason@,
            RateLimitError::CallFailed(reason) => "RLS call failed: "@ + reason@,
            RateLimitError::InvalidEndpoint { uri, reason } => "invalid RLS endpoint '"@ + uri@ + "': "@ + reason@,
        }
    }

    /// The text shown to an operator.
    pub fn message(&self) -> (text: String)
        ensures
            text@ == self.spec_message(),
    {
        match self {
            RateLimitError::NoDomain => "rate limit: no SNI and no domain configured".to_owned(),
            RateLimitError::OverLimit => "rate limited by global rate limiter".to_owned(),
            RateLimitError::ClusterNotFound(name) => {
                let mut text = "RLS cluster '".to_owned();
                text.append(name.as_str());
                text.append("' not found");
                text
            },
            RateLimitError::NotConnected(reason) => reason.clone(),
            RateLimitError::CallFailed(reason) => {
                let mut text = "RLS call failed: ".to_owned();
                text.append(reason.as_str());
                text
            },
            RateLimitError::InvalidEndpoint { uri, reason } => {
                let mut text = "invalid RLS endpoint '".to_owned();
                text.append(uri.as_str());
                text.append("': ");
                text.append(reason.as_str());
                text
            },
        }
    }
}

/// The quotas of all domains.
pub struct QuotaTable {
    map: papaya::HashMap<String, (i64, u64)>,
}

impl View for QuotaTable {
    type V = Map<Seq<char>, StoredQuota>;

    closed spec fn view(&self) -> Map<Seq<char>, StoredQuota> {
        quota_contents(self.map)
    }
}

/// The quotas after a connection to `domain` asked for cover at `now`.
pub open spec fn quotas_asked(
    quotas: Map<Seq<char>, StoredQuota>,
    domain: Seq<char>,
    now: u64,
) -> Map<Seq<char>, StoredQuota> {
    match lookup(quotas, domain) {
        None => quotas,
        Some(q) => {
            let after = (QuotaBucket { remaining: q.0, valid_until_ms: q.1 }).asked(now);
            quotas.insert(domain, (after.remaining, after.valid_until_ms))
        },
    }
}

/// Whether `domain` has a quota that covers a connection at `now`.
pub open spec fn covered(quotas: Map<Seq<char>, StoredQuota>, domain: Seq<char>, now: u64) -> bool {
    lookup(quotas, domain) matches Some(q) && (QuotaBucket { remaining: q.0, valid_until_ms: q.1 }).covers(now)
}

/// The quotas after the service answered for `domain`.
pub open spec fn quotas_answered(
    quotas: Map<Seq<char>, StoredQuota>,
    domain: Seq<char>,
    response: RateLimitResponse,
) -> Map<Seq<char>, StoredQuota> {
    match response.spec_quota() {
        Some((requests, until)) => quotas.insert(domain, (requests as i64, until)),
        None => quotas,
    }
}

impl QuotaTable {
    pub fn new() -> (table: QuotaTable)
        ensures
            table@ == no_quotas(),
    {
        QuotaTable { map: quota_map_new(INITIAL_CAPACITY) }
    }

    /// Asks the quota of a domain for cover. `None` when the domain has no quota.
    fn ask(&mut self, domain: &str, now: u64) -> (answer: Option<bool>)
        ensures
            answer is None <==> !old(self)@.contains_key(domain@),
            answer matches Some(yes) ==> yes == covered(old(self)@, domain@, now),
            final(self)@ == quotas_asked(old(self)@, domain@, now),
    {
        match quota_map_get(&self.map, domain) {
            None => None,
            Some(stored) => {
                let mut bucket = QuotaBucket { remaining: stored.0, valid_until_ms: stored.1 };
                let yes: bool = bucket.try_consume(now);
                quota_map_insert(&mut self.map, domain.to_owned(), (bucket.remaining, bucket.valid_until_ms));
                Some(yes)
            },
        }
    }

    /// Stores the quota of an answer, if it grants one.
    fn store(&mut self, domain: &str, response: &RateLimitResponse)
        ensures
            final(self)@ == quotas_answered(old(self)@, domain@, *response),
    {
        if let Some((requests, until)) = extract_quota(response) {
            quota_map_insert(&mut self.map, domain.to_owned(), (requests as i64, until));
        }
    }
}

/// What keeps a text from being the address of an endpoint, in words.
pub uninterp spec fn endpoint_error(uri: Seq<char>) -> Option<Seq<char>>;

/// `tonic::transport::Channel::from_shared`: the message of its error, where
/// it does not accept the address. Nothing is connected.
#[verifier::external_body]
fn endpoint_fault(uri: &str) -> (fault: Option<String>)
    ensures
        text_of(fault) == endpoint_error(uri@),
{
    tonic::transport::Channel::from_shared(uri.to_owned()).err().map(|error| error.to_string())
}

/// How the rate limit service is reached.
#[derive(Debug)]
pub enum RlsClient {
    Cluster(String),
    GoogleGrpc(String),
}

/// A descriptor sent along with each request: pairs of a key and a value.
#[derive(Debug)]
pub struct RateLimitDescriptor {
    pub entries: Vec<(String, String)>,
}

/// The request the service is sent.
#[derive(Debug)]
pub struct RateLimitRequest<'a> {
    pub domain: String,
    pub descriptors: &'a Vec<RateLimitDescriptor>,
    pub hits_addend: u32,
}

/// What the check of a connection does next.
#[derive(Debug)]
pub enum CheckStep {
    /// The connection may pass.
    Allow,
    /// The connection is turned away.
    Deny(RateLimitError),
    /// Take the refresh lock of the domain, then go on with `after_lock`.
    AwaitLock(String),
    /// Call the service for the domain, then go on with `after_call`.
    CallService(String),
}

/// The limit that a filter chain puts on its connections.
#[derive(Debug)]
pub struct NetworkGlobalRateLimit {
    pub stat_prefix: String,
    pub domain: Option<String>,
    pub failure_mode_deny: bool,
    pub rls_client: RlsClient,
    pub descriptors: Vec<RateLimitDescriptor>,
}

/// Where the service is called, and what it is sent.
#[derive(Debug)]
pub struct RlsCall<'a> {
    pub target: RlsTarget<'a>,
    pub request: RateLimitRequest<'a>,
}

/// Where the service is called. A cluster that is known goes by its number.
#[derive(Debug)]
pub enum RlsTarget<'a> {
    Cluster(u64),
    Endpoint(&'a str),
}

/// What came of a call of the service.
#[derive(Debug)]
pub enum RlsOutcome {
    Answered(RateLimitResponse),
    NotConnected(String),
    Failed(String),
}

impl RlsOutcome {
    /// The answer of the service, or why there is none.
    pub fn answer(self) -> (res: Result<RateLimitResponse, RateLimitError>)
        ensures
            res == (match self {
                RlsOutcome::Answered(response) => Ok::<RateLimitResponse, RateLimitError>(response),
                RlsOutcome::NotConnected(reason) => Err(RateLimitError::NotConnected(reason)),
                RlsOutcome::Failed(reason) => Err(RateLimitError::CallFailed(reason)),
            }),
    {
        match self {
            RlsOutcome::Answered(response) => Ok(response),
            RlsOutcome::NotConnected(reason) => Err(RateLimitError::NotConnected(reason)),
            RlsOutcome::Failed(reason) => Err(RateLimitError::CallFailed(reason)),
        }
    }
}

/// The domain a connection is counted under: the configured one, else the
/// server name the client asked for.
pub open spec fn domain_of(configured: Option<String>, sni: Option<&str>) -> Option<Seq<char>> {
    match configured {
        Some(domain) => Some(domain@),
        None => match sni {
            Some(name) => Some(name@),
            None => None,
        },
    }
}

impl NetworkGlobalRateLimit {
    /// The limit for a configuration. An endpoint that is no address makes no limit.
    pub fn try_from(
        stat_prefix: String,
        domain: Option<String>,
        failure_mode_deny: bool,
        service: RlsClient,
        descriptors: Vec<RateLimitDescriptor>,
    ) -> (res: Result<NetworkGlobalRateLimit, RateLimitError>)
        ensures
            match service {
                RlsClient::GoogleGrpc(uri) if endpoint_error(uri@) is Some => {
                    &&& res matches Err(RateLimitError::InvalidEndpoint { uri: text, reason })
                    &&& text == uri
                    &&& endpoint_error(uri@) == Some(reason@)
                },
                _ => res == Ok::<NetworkGlobalRateLimit, RateLimitError>(
                    (NetworkGlobalRateLimit {
                        stat_prefix,
                        domain,
                        failure_mode_deny,
                        rls_client: service,
                        descriptors,
                    }),
                ),
            },
    {
        let fault: Option<String> = match &service {
            RlsClient::GoogleGrpc(uri) => endpoint_fault(uri.as_str()),
            RlsClient::Cluster(_) => None,
        };
        Self::with_endpoint(stat_prefix, domain, failure_mode_deny, service, fault, descriptors)
    }

    /// The limit for a configuration, given what is wrong with its endpoint.
    pub fn with_endpoint(
        stat_prefix: String,
        domain: Option<String>,
        failure_mode_deny: bool,
        service: RlsClient,
        endpoint_fault: Option<String>,
        descriptors: Vec<RateLimitDescriptor>,
    ) -> (res: Result<NetworkGlobalRateLimit, RateLimitError>)
        ensures
            match (service, endpoint_fault) {
                (RlsClient::GoogleGrpc(uri), Some(reason)) => res == Err::<NetworkGlobalRateLimit, RateLimitError>(
                    (RateLimitError::InvalidEndpoint { uri, reason }),
                ),
                _ => res == Ok::<NetworkGlobalRateLimit, RateLimitError>(
                    (NetworkGlobalRateLimit {
                        stat_prefix,
                        domain,
                        failure_mode_deny,
                        rls_client: service,
                        descriptors,
                    }),
                ),
            },
    {
        match (service, endpoint_fault) {
            (RlsClient::GoogleGrpc(uri), Some(reason)) => Err(RateLimitError::InvalidEndpoint { uri, reason }),
            (rls_client, _) => Ok(
                NetworkGlobalRateLimit { stat_prefix, domain, failure_mode_deny, rls_client, descriptors },
            ),
        }
    }

    /// The call of the service for a domain, given the cluster that was found
    /// under the name that the service goes by.
    pub fn call_rls(&self, domain: &str, found: Option<u64>) -> (res: Result<RlsCall<'_>, RateLimitError>)
        ensures
            match res {
                Ok(call) => {
                    &&& call.request.domain@ == domain@
                    &&& *call.request.descriptors == self.descriptors
                    &&& call.request.hits_addend == 1
                    &&& match self.rls_client {
                        RlsClient::Cluster(_) => found is Some && call.target == RlsTarget::Cluster(found->0),
                        RlsClient::GoogleGrpc(uri) => call.target matches RlsTarget::Endpoint(text) && text@ == uri@,
                    }
                },
                Err(e) => {
                    &&& found is None
                    &&& self.rls_client matches RlsClient::Cluster(name)
                    &&& e matches RateLimitError::ClusterNotFound(text)
                    &&& text@ == name@
                },
            },
    {
        match &self.rls_client {
            RlsClient::Cluster(name) => match found {
                None => Err(RateLimitError::ClusterNotFound(name.clone())),
                Some(cluster) => Ok(RlsCall { target: RlsTarget::Cluster(cluster), request: self.request(domain) }),
            },
            RlsClient::GoogleGrpc(uri) => Ok(
                RlsCall { target: RlsTarget::Endpoint(uri.as_str()), request: self.request(domain) },
            ),
        }
    }

    /// Starts the check of a connection.
    pub fn check(&self, quotas: &mut QuotaTable, sni: Option<&str>, now: u64) -> (step: CheckStep)
        ensures
            match domain_of(self.domain, sni) {
                None => step == CheckStep::Deny(RateLimitError::NoDomain) && final(quotas)@ == old(quotas)@,
                Some(domain) => {
                    &&& final(quotas)@ == quotas_asked(old(quotas)@, domain, now)
                    &&& if covered(old(quotas)@, domain, now) {
                        step is Allow
                    } else if old(quotas)@.contains_key(domain) {
                        step matches CheckStep::AwaitLock(d) && d@ == domain
                    } else {
                        step matches CheckStep::CallService(d) && d@ == domain
                    }
                },
            },
    {
        let domain: String = match &self.domain {
            Some(domain) => domain.clone(),
            None => match sni {
                Some(name) => name.to_owned(),
                None => {
                    return CheckStep::Deny(RateLimitError::NoDomain);
                },
            },
        };
        match quotas.ask(domain.as_str(), now) {
            Some(true) => CheckStep::Allow,
            Some(false) => CheckStep::AwaitLock(domain),
            None => CheckStep::CallService(domain),
        }
    }

    /// Goes on once the refresh lock is held: another connection may have
    /// refreshed the quota meanwhile.
    pub fn after_lock(&self, quotas: &mut QuotaTable, domain: String, now: u64) -> (step: CheckStep)
        ensures
            final(quotas)@ == quotas_asked(old(quotas)@, domain@, now),
            if covered(old(quotas)@, domain@, now) {
                step is Allow
            } else {
                step matches CheckStep::CallService(d) && d@ == domain@
            },
    {
        match quotas.ask(domain.as_str(), now) {
            Some(true) => CheckStep::Allow,
            _ => CheckStep::CallService(domain),
        }
    }

    /// The request the service is sent for a domain.
    pub fn request(&self, domain: &str) -> (request: RateLimitRequest<'_>)
        ensures
            request.domain@ == domain@,
            *request.descriptors == self.descriptors,
            request.hits_addend == 1,
    {
        RateLimitRequest { domain: domain.to_owned(), descriptors: &self.descriptors, hits_addend: 1 }
    }

    /// Whether an answer lets the connection pass.
    pub fn eval_rls_response(response: &RateLimitResponse) -> (res: Result<(), RateLimitError>)
        ensures
            response.over_limit() <==> res == Err::<(), RateLimitError>(RateLimitError::OverLimit),
            !response.over_limit() <==> res == Ok::<(), RateLimitError>(()),
    {
        if response.overall_code == CODE_OVER_LIMIT {
            Err(RateLimitError::OverLimit)
        } else {
            Ok(())
        }
    }

    /// Ends the check with the answer of the service. Where the call failed,
    /// the failure mode decides.
    pub fn after_call(
        &self,
        quotas: &mut QuotaTable,
        domain: &str,
        outcome: Result<RateLimitResponse, RateLimitError>,
    ) -> (res: Result<(), RateLimitError>)
        ensures
            match outcome {
                Ok(response) => {
                    &&& final(quotas)@ == quotas_answered(old(quotas)@, domain@, response)
                    &&& if response.over_limit() {
                        res == Err::<(), RateLimitError>(RateLimitError::OverLimit)
                    } else {
                        res is Ok
                    }
                },
                Err(e) => {
                    &&& final(quotas)@ == old(quotas)@
                    &&& res == (if self.failure_mode_deny {
                        Err::<(), RateLimitError>(e)
                    } else {
                        Ok(())
                    })
                },
            },
    {
        match outcome {
            Ok(response) => {
                quotas.store(domain, &response);
                Self::eval_rls_response(&response)
            },
            Err(e) => {
                if self.failure_mode_deny {
                    Err(e)
                } else {
                    Ok(())
                }
            },
        }
    }
}

/// The connections that pass on a bucket when `n` of them ask for cover at
/// instants at which it is valid.
pub open spec fn passes(bucket: QuotaBucket, now: u64, n: nat) -> nat
    decreases n,
{
    if n == 0 {
        0
    } else {
        (if bucket.covers(now) {
            1nat
        } else {
            0nat
        }) + passes(bucket.asked(now), now, (n - 1) as nat)
    }
}

/// A quota lets exactly as many connections pass as remain in it, however many ask.
pub proof fn law_quota_is_exact(bucket: QuotaBucket, now: u64, n: nat)
    requires
        bucket.valid_until_ms > now,
        bucket.remaining >= 0,
        n < 0x8000_0000_0000_0000,
    ensures
        passes(bucket, now, n) == (if n <= bucket.remaining {
            n
        } else {
            bucket.remaining as nat
        }),
    decreases n,
{
    if n > 0 {
        if bucket.remaining > 0 {
            law_quota_is_exact(bucket.asked(now), now, (n - 1) as nat);
        } else {
            lemma_spent_passes_none(bucket, now, n);
        }
    }
}

proof fn lemma_spent_passes_none(bucket: QuotaBucket, now: u64, n: nat)
    requires
        bucket.valid_until_ms > now,
        bucket.remaining <= 0,
        bucket.remaining - n >= i64::MIN,
    ensures
        passes(bucket, now, n) == 0,
    decreases n,
{
    if n > 0 {
        lemma_spent_passes_none(bucket.asked(now), now, (n - 1) as nat);
    }
}

/// A quota that has run out of time lets no connection pass and is not used up by asking.
pub proof fn law_expired_quota_covers_nothing(bucket: QuotaBucket, now: u64)
    requires
        bucket.valid_until_ms <= now,
    ensures
        !bucket.covers(now),
        bucket.asked(now) == bucket,
{
}

/// What the service granted for a domain is what the next connection finds,
/// and no other domain is touched.
pub proof fn law_answer_is_found_again(
    quotas: Map<Seq<char>, StoredQuota>,
    domain: Seq<char>,
    other: Seq<char>,
    response: RateLimitResponse,
)
    requires
        other != domain,
    ensures
        response.spec_quota() matches Some((requests, until)) ==> lookup(
            quotas_answered(quotas, domain, response),
            domain,
        ) == Some((requests as i64, until)),
        lookup(quotas_answered(quotas, domain, response), other) == lookup(quotas, other),
{
}

/// The milliseconds of an instant are those that have passed by then since the
/// epoch. They can be told exactly of instants that are not before the epoch
/// and whose milliseconds the type can hold.
pub proof fn law_milliseconds_are_those_passed(ts: Timestamp)
    ensures
        match ts.spec_millis() {
            Some(ms) => {
                &&& ts.seconds >= 0 && ts.nanos >= 0
                &&& ms * 1_000_000 <= ts.seconds * 1_000_000_000 + ts.nanos < (ms + 1) * 1_000_000
            },
            None => ts.seconds < 0 || ts.nanos < 0 || ts.seconds * 1_000_000_000 + ts.nanos >= (u64::MAX + 1)
                * 1_000_000,
        },
{
}

/// The quotas after so many connections to a domain asked for cover at an instant.
pub open spec fn asked_often(
    quotas: Map<Seq<char>, StoredQuota>,
    domain: Seq<char>,
    now: u64,
    times: nat,
) -> Map<Seq<char>, StoredQuota>
    decreases times,
{
    if times == 0 {
        quotas
    } else {
        quotas_asked(asked_often(quotas, domain, now, (times - 1) as nat), domain, now)
    }
}

proof fn lemma_asked_often(
    quotas: Map<Seq<char>, StoredQuota>,
    domain: Seq<char>,
    now: u64,
    times: nat,
    remaining: i64,
    until: u64,
)
    requires
        lookup(quotas, domain) == Some((remaining, until)),
        now < until,
        remaining >= 0,
        times <= 0x4000_0000_0000_0000,
    ensures
        lookup(asked_often(quotas, domain, now, times), domain) == Some(((remaining - times) as i64, until)),
    decreases times,
{
    if times > 0 {
        lemma_asked_often(quotas, domain, now, (times - 1) as nat, remaining, until);
    }
}

/// A quota of so many requests, which the service grants until some instant,
/// lets exactly so many connections of its domain pass before that instant:
/// the one that asked for it, and all others but for that one without another
/// call. Once it is over it covers none, and it covers no other domain.
pub proof fn law_granted_quota_lets_its_requests_pass(
    quotas: Map<Seq<char>, StoredQuota>,
    domain: Seq<char>,
    other: Seq<char>,
    response: RateLimitResponse,
    quota: Quota,
    ts: Timestamp,
    now: u64,
    times: nat,
)
    requires
        response.quota == Some(quota),
        quota.requests > 0,
        quota.valid_until == Some(ts),
        ts.seconds >= 0,
        ts.nanos >= 0,
        ts.seconds * 1_000 + ts.nanos / 1_000_000 <= u64::MAX,
        other != domain,
        times <= 0x4000_0000_0000_0000,
    ensures
        ({
            let granted = quotas_answered(quotas, domain, response);
            let until = ts.seconds * 1_000 + ts.nanos / 1_000_000;
            &&& now < until ==> (covered(asked_often(granted, domain, now, times), domain, now) <==> times + 1
                < quota.requests)
            &&& now >= until ==> !covered(granted, domain, now)
            &&& covered(granted, other, now) == covered(quotas, other, now)
        }),
{
    let granted = quotas_answered(quotas, domain, response);
    let until = (ts.seconds * 1_000 + ts.nanos / 1_000_000) as u64;
    assert(response.spec_quota() == Some(((quota.requests - 1) as u32, until)));
    if now < until {
        lemma_asked_often(granted, domain, now, times, (quota.requests - 1) as i64, until);
    }
}

/// An answer without a quota that can be used leaves all quotas as they were.
pub proof fn law_answer_without_quota_changes_nothing(
    quotas: Map<Seq<char>, StoredQuota>,
    domain: Seq<char>,
    response: RateLimitResponse,
)
    requires
        response.quota is None || response.quota->0.requests == 0 || response.quota->0.valid_until is None,
    ensures
        quotas_answered(quotas, domain, response) == quotas,
{
}

/// A configured domain counts for every connection; without one, a connection
/// counts under the server name that it asked for, and under none without a name.
pub proof fn law_configured_domain_comes_first(configured: Option<String>, sni: Option<&str>)
    ensures
        configured matches Some(domain) ==> domain_of(configured, sni) == Some(domain@),
        configured is None && sni is Some ==> domain_of(configured, sni) == Some(sni->0@),
        configured is None && sni is None ==> domain_of(configured, sni) is None,
{
}

} // verus!
