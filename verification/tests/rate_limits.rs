//! The limits on connections and on their rate.

use orion::connection_limit::{ConnectionCounts, NetworkConnectionLimit};
use orion::global_rate_limiter::{
    extract_quota, proto_timestamp_to_ms, CheckStep, NetworkGlobalRateLimit, Quota, QuotaBucket, QuotaTable,
    RateLimitDescriptor, RateLimitError, RateLimitResponse, RlsClient, RlsOutcome, RlsTarget, Timestamp,
};
use orion::token_bucket::{TokenBucket, TokenBucketError};

const START: u128 = 1_000_000_000_000;
const MS: u128 = 1_000_000;

// Connection limit

fn make_limiter(listener: &str, max: u64, counts: &mut ConnectionCounts) -> NetworkConnectionLimit {
    NetworkConnectionLimit::new(listener.to_owned(), 0, max, None, counts)
}

#[test]
fn guard_decrement() {
    let mut counts = ConnectionCounts::new();
    let limiter = make_limiter("test_guard_decrement", 3, &mut counts);

    assert_eq!(limiter.active(&counts), 0);

    let guard = limiter.check(&mut counts).unwrap();
    assert_eq!(limiter.active(&counts), 1);

    guard.release(&mut counts);
    assert_eq!(limiter.active(&counts), 0);

    let guard2 = limiter.check(&mut counts).unwrap();
    assert_eq!(limiter.active(&counts), 1);
    guard2.release(&mut counts);
    assert_eq!(limiter.active(&counts), 0);
}

#[test]
fn limit_enforcement() {
    let mut counts = ConnectionCounts::new();
    let limiter = make_limiter("test_limit_enforcement", 2, &mut counts);

    let g1 = limiter.check(&mut counts).unwrap();
    let g2 = limiter.check(&mut counts).unwrap();
    assert_eq!(limiter.active(&counts), 2);

    assert!(limiter.check(&mut counts).is_err());

    g1.release(&mut counts);
    assert_eq!(limiter.active(&counts), 1);

    let g3 = limiter.check(&mut counts).unwrap();
    assert_eq!(limiter.active(&counts), 2);

    g2.release(&mut counts);
    g3.release(&mut counts);
    assert_eq!(limiter.active(&counts), 0);
}

/// Twenty connections ask for the five places in turn; those that got one
/// leave in another order.
#[test]
fn concurrent_accepts() {
    let mut counts = ConnectionCounts::new();
    let max = 5u64;
    let limiter = make_limiter("test_concurrent_accepts", max, &mut counts);
    let mut guards = Vec::new();
    for turn in 0..20 {
        if let Ok(guard) = limiter.check(&mut counts) {
            guards.push(guard);
        }
        assert!(limiter.active(&counts) <= max);
        if turn % 3 == 2 {
            guards.remove(0).release(&mut counts);
        }
    }
    for guard in guards {
        guard.release(&mut counts);
    }
    assert_eq!(limiter.active(&counts), 0);
}

#[test]
fn chains_are_counted_apart_and_counts_outlive_a_limit() {
    let mut counts = ConnectionCounts::new();
    let one = NetworkConnectionLimit::new("l".to_owned(), 1, 1, Some(7), &mut counts);
    let two = NetworkConnectionLimit::new("l".to_owned(), 2, 1, None, &mut counts);
    let guard = one.check(&mut counts).unwrap();
    assert_eq!(two.active(&counts), 0);
    assert!(two.check(&mut counts).is_ok());
    let refused = one.check(&mut counts).unwrap_err();
    assert_eq!(refused.delay, Some(7));
    assert_eq!(refused.message(), "connection limit exceeded");

    let again = NetworkConnectionLimit::new("l".to_owned(), 1, 3, None, &mut counts);
    assert_eq!(again.active(&counts), 1);
    guard.release(&mut counts);
    assert_eq!(again.active(&counts), 0);
}

// Token bucket

#[test]
fn token_bucket_burst() {
    let mut tb = TokenBucket::new(5, 1, 10 * MS, START);
    let mut now = START;

    assert_eq!(tb.capacity(), 5);
    assert_eq!(tb.size(now), 5);

    // consume the burst
    assert!(tb.consume(1, now));
    assert!(tb.consume(1, now));
    assert!(tb.consume(1, now));
    assert!(tb.consume(1, now));
    assert!(tb.consume(1, now));
    assert!(!tb.consume(1, now));

    assert_eq!(tb.capacity(), 5);
    assert_eq!(tb.size(now), 0);

    // wait for the full refill
    now += 50 * MS;

    assert_eq!(tb.capacity(), 5);
    assert_eq!(tb.size(now), 5);

    // consume the burst
    assert!(tb.consume(1, now));
    assert!(tb.consume(1, now));
    assert!(tb.consume(1, now));
    assert!(tb.consume(1, now));
    assert!(tb.consume(1, now));
    assert!(!tb.consume(1, now));
}

#[test]
fn token_bucket_basic() {
    let mut tb = TokenBucket::new(5, 1, 10 * MS, START);
    let mut now = START;

    // consume the burst
    assert!(tb.consume(1, now));
    assert!(tb.consume(1, now));
    assert!(tb.consume(1, now));
    assert!(tb.consume(1, now));
    assert!(tb.consume(1, now));
    assert!(!tb.consume(1, now));

    now += 10 * MS;
    assert!(tb.consume(1, now));

    now += 10 * MS;
    assert!(tb.consume(1, now));

    now += 10 * MS;
    assert!(tb.consume(1, now));
}

/// Ten takers empty the bucket; after the wait each of them gets five tokens.
#[test]
fn token_bucket_multi_thread() {
    let n = 10;
    let mut tb = TokenBucket::new(50, 10, 10 * MS, START);
    let mut now = START;
    for _ in 0..n {
        while tb.consume(1, now) {}
    }
    now += 51 * MS;
    for _ in 0..n {
        assert!(tb.consume(1, now));
        assert!(tb.consume(1, now));
        assert!(tb.consume(1, now));
        assert!(tb.consume(1, now));
        assert!(tb.consume(1, now));
    }
}

#[test]
fn a_fresh_bucket_grants_its_capacity_and_a_refusal_changes_nothing() {
    let mut tb = TokenBucket::new(3, 1, MS, START);
    assert!(!tb.consume(4, START));
    assert_eq!(tb.size(START), 3);
    assert!(tb.consume(3, START));
    assert_eq!(tb.last_consume(), START);
    assert!(!tb.consume(1, START));
    assert_eq!(tb.last_consume(), START);
}

#[test]
fn the_last_consume_is_when_tokens_were_last_taken() {
    let mut tb = TokenBucket::new(3, 1, MS, START);
    assert_eq!(tb.last_consume(), START - 6 * MS);
    assert!(tb.consume(1, START + 7));
    assert_eq!(tb.last_consume(), START + 7);
    assert!(!tb.consume(3, START + 8));
    assert!(tb.consume(0, START + 9));
    assert_eq!(tb.last_consume(), START + 7);
    assert!(tb.consume(2, START + 10));
    assert_eq!(tb.last_consume(), START + 10);
}

#[test]
fn no_span_of_a_run_grants_more_than_capacity_and_refill() {
    let mut tb = TokenBucket::new(4, 1, 10, START);
    let grants: Vec<(u128, u32)> = (0..200u128)
        .map(|k| (START + 3 * k, 1 + (k % 3) as u32))
        .filter(|(now, tokens)| tb.consume(*tokens, *now))
        .collect();
    assert!(grants.len() > 10);
    for from in 0..grants.len() {
        for to in from..grants.len() {
            let taken: u128 = grants[from..=to].iter().map(|(_, tokens)| u128::from(*tokens)).sum();
            assert!(taken <= 4 + (grants[to].0 - grants[from].0) / 10);
        }
    }
    assert!(!tb.consume(5, START + 1_000_000));
}

#[test]
fn a_rate_makes_a_bucket_of_single_tokens() {
    let tb = TokenBucket::with_rate_and_capacity(5, 100, START).unwrap();
    assert!(tb.same_rate(&TokenBucket::new(5, 1, 10 * MS, 0)));
    assert!(!tb.same_rate(&TokenBucket::new(6, 1, 10 * MS, 0)));
}

#[test]
fn a_rate_of_zero_is_refused() {
    let err = TokenBucket::with_rate_and_capacity(5, 0, START).unwrap_err();
    assert!(matches!(err, TokenBucketError::ZeroRate));
    assert_eq!(err.message(), "events_per_second must be strictly greater than 0");
    let err = TokenBucket::with_rate_and_capacity(0, 0, START).unwrap_err();
    assert!(matches!(err, TokenBucketError::ZeroCapacity));
    assert_eq!(err.message(), "max_tokens must be strictly greater than 0");
}

// Global rate limit

const NOW_MS: u64 = 1_700_000_000_000;
const CODE_OK: i32 = 1;
const CODE_OVER_LIMIT: i32 = 2;

fn ok_response() -> RateLimitResponse {
    RateLimitResponse { overall_code: CODE_OK, quota: None }
}

fn over_limit_response() -> RateLimitResponse {
    RateLimitResponse { overall_code: CODE_OVER_LIMIT, quota: None }
}

fn ok_response_with_quota(requests: u32) -> RateLimitResponse {
    let seconds = (NOW_MS / 1000 + 3600) as i64;
    RateLimitResponse {
        overall_code: CODE_OK,
        quota: Some(Quota { requests, valid_until: Some(Timestamp { seconds, nanos: 0 }) }),
    }
}

fn make_filter(domain: Option<&str>, failure_mode_deny: bool) -> NetworkGlobalRateLimit {
    NetworkGlobalRateLimit {
        stat_prefix: "test".to_owned(),
        domain: domain.map(|d| d.to_owned()),
        failure_mode_deny,
        rls_client: RlsClient::GoogleGrpc("http://127.0.0.1:1".to_owned()),
        descriptors: vec![],
    }
}

/// A rate limit service that gives the answers it was handed, in order.
struct MockRls {
    responses: Vec<RateLimitResponse>,
    domains_seen: Vec<String>,
    fails: bool,
}

impl MockRls {
    fn with_responses(responses: Vec<RateLimitResponse>) -> MockRls {
        MockRls { responses, domains_seen: Vec::new(), fails: false }
    }

    fn always_failing() -> MockRls {
        MockRls { responses: Vec::new(), domains_seen: Vec::new(), fails: true }
    }

    fn call_count(&self) -> usize {
        self.domains_seen.len()
    }

    fn call(&mut self, filter: &NetworkGlobalRateLimit, domain: &str) -> Result<RateLimitResponse, RateLimitError> {
        let call = filter.call_rls(domain, None)?;
        assert_eq!(call.request.hits_addend, 1);
        assert_eq!(call.request.domain, domain);
        self.domains_seen.push(call.request.domain);
        if self.fails {
            return RlsOutcome::Failed("simulated RLS failure".to_owned()).answer();
        }
        RlsOutcome::Answered(self.responses.remove(0)).answer()
    }

    fn check(
        &mut self,
        filter: &NetworkGlobalRateLimit,
        quotas: &mut QuotaTable,
        sni: Option<&str>,
    ) -> Result<(), RateLimitError> {
        let mut step = filter.check(quotas, sni, NOW_MS);
        loop {
            match step {
                CheckStep::Allow => return Ok(()),
                CheckStep::Deny(e) => return Err(e),
                CheckStep::AwaitLock(domain) => step = filter.after_lock(quotas, domain, NOW_MS),
                CheckStep::CallService(domain) => {
                    let outcome = self.call(filter, &domain);
                    return filter.after_call(quotas, &domain, outcome);
                },
            }
        }
    }
}

#[test]
fn quota_bucket_expired_returns_false() {
    let mut bucket = QuotaBucket { remaining: 10, valid_until_ms: 0 };
    assert!(!bucket.try_consume(NOW_MS));
}

#[test]
fn quota_bucket_depleted_returns_false() {
    let mut bucket = QuotaBucket { remaining: 0, valid_until_ms: u64::MAX };
    assert!(!bucket.try_consume(NOW_MS));
}

#[test]
fn quota_bucket_valid_consumes_until_depleted() {
    let mut bucket = QuotaBucket { remaining: 3, valid_until_ms: u64::MAX };
    let now = NOW_MS;
    assert!(bucket.try_consume(now));
    assert!(bucket.try_consume(now));
    assert!(bucket.try_consume(now));
    assert!(!bucket.try_consume(now));
}

#[test]
fn extract_quota_without_quota_field_returns_none() {
    assert!(extract_quota(&ok_response()).is_none());
}

#[test]
fn extract_quota_with_zero_requests_returns_none() {
    let resp = RateLimitResponse {
        overall_code: CODE_OK,
        quota: Some(Quota { requests: 0, valid_until: Some(Timestamp { seconds: 9_999_999_999, nanos: 0 }) }),
    };
    assert!(extract_quota(&resp).is_none());
}

#[test]
fn extract_quota_returns_decremented_requests_and_milliseconds() {
    let resp = RateLimitResponse {
        overall_code: CODE_OK,
        quota: Some(Quota { requests: 5, valid_until: Some(Timestamp { seconds: 1_000_000, nanos: 500_000_000 }) }),
    };
    let (remaining, valid_until_ms) = extract_quota(&resp).unwrap();
    assert_eq!(remaining, 4);
    assert_eq!(valid_until_ms, 1_000_000_500); // 1_000_000 * 1000 + 500ms
}

#[test]
fn an_instant_before_the_epoch_is_no_end_of_a_quota() {
    assert_eq!(proto_timestamp_to_ms(&Timestamp { seconds: -1, nanos: 0 }), None);
    assert_eq!(proto_timestamp_to_ms(&Timestamp { seconds: 1, nanos: -1 }), None);
    assert_eq!(proto_timestamp_to_ms(&Timestamp { seconds: i64::MAX, nanos: 0 }), None);
    assert_eq!(proto_timestamp_to_ms(&Timestamp { seconds: 2, nanos: 1_999_999 }), Some(2_001));
}

#[test]
fn check_ok_allows_connection() {
    let mut quotas = QuotaTable::new();
    let mut mock = MockRls::with_responses(vec![ok_response()]);
    let filter = make_filter(Some("test-0.rls.test"), false);
    mock.check(&filter, &mut quotas, None).unwrap();
    assert_eq!(mock.call_count(), 1);
}

#[test]
fn check_over_limit_denies_connection() {
    let mut quotas = QuotaTable::new();
    let mut mock = MockRls::with_responses(vec![over_limit_response()]);
    let filter = make_filter(Some("test-1.rls.test"), false);
    let err = mock.check(&filter, &mut quotas, None).unwrap_err();
    assert!(err.message().contains("rate limited"));
    assert_eq!(mock.call_count(), 1);
}

#[test]
fn check_failure_mode_allow_passes_on_rls_error() {
    let mut quotas = QuotaTable::new();
    let mut mock = MockRls::always_failing();
    let filter = make_filter(Some("test-2.rls.test"), false);
    mock.check(&filter, &mut quotas, None).unwrap();
    assert_eq!(mock.call_count(), 1);
}

#[test]
fn check_failure_mode_deny_blocks_on_rls_error() {
    let mut quotas = QuotaTable::new();
    let mut mock = MockRls::always_failing();
    let filter = make_filter(Some("test-3.rls.test"), true);
    let denied = mock.check(&filter, &mut quotas, None);
    assert_eq!(denied.unwrap_err().message(), "RLS call failed: simulated RLS failure");
    assert_eq!(mock.call_count(), 1);
}

#[test]
fn check_no_domain_no_sni_errors_without_rls_call() {
    let mut quotas = QuotaTable::new();
    let mut mock = MockRls::with_responses(vec![]);
    let filter = make_filter(None, false);
    let err = mock.check(&filter, &mut quotas, None).unwrap_err();
    assert!(err.message().contains("no SNI and no domain configured"));
    assert_eq!(mock.call_count(), 0);
}

#[test]
fn check_uses_sni_as_domain_when_unconfigured() {
    let mut quotas = QuotaTable::new();
    let sni = "test-4.rls.test";
    let mut mock = MockRls::with_responses(vec![ok_response()]);
    let filter = make_filter(None, false);
    mock.check(&filter, &mut quotas, Some(sni)).unwrap();
    assert_eq!(mock.domains_seen, [sni]);
}

#[test]
fn check_configured_domain_takes_priority_over_sni() {
    let mut quotas = QuotaTable::new();
    let static_domain = "test-5.rls.test";
    let sni = "test-6.rls.test";
    let mut mock = MockRls::with_responses(vec![ok_response()]);
    let filter = make_filter(Some(static_domain), false);
    mock.check(&filter, &mut quotas, Some(sni)).unwrap();
    assert_eq!(mock.domains_seen, [static_domain]);
}

#[test]
fn check_quota_caching_skips_rls_within_window() {
    let mut quotas = QuotaTable::new();
    // quota.requests=3: the initiating call itself is counted as 1, so remaining is stored
    // as 2.  Calls 2 and 3 consume from the bucket; call 4 exhausts it and hits the RLS.
    let mut mock = MockRls::with_responses(vec![ok_response_with_quota(3), ok_response_with_quota(3)]);
    let filter = make_filter(Some("test-7.rls.test"), false);
    for _ in 0..4 {
        mock.check(&filter, &mut quotas, None).unwrap();
    }
    assert_eq!(mock.call_count(), 2);
}

#[test]
fn check_over_limit_after_quota_exhausted() {
    let mut quotas = QuotaTable::new();
    // quota.requests=2: stored as remaining=1.  Call 2 consumes it; call 3 exhausts
    // the bucket and re-calls the RLS, which now returns OVER_LIMIT.
    let mut mock = MockRls::with_responses(vec![ok_response_with_quota(2), over_limit_response()]);
    let filter = make_filter(Some("test-8.rls.test"), false);
    mock.check(&filter, &mut quotas, None).unwrap(); // call 1: RLS hit, remaining stored as 1
    mock.check(&filter, &mut quotas, None).unwrap(); // call 2: bucket, remaining 1->0
    assert!(mock.check(&filter, &mut quotas, None).is_err()); // call 3: exhausted, RLS hit -> OVER_LIMIT
    assert_eq!(mock.call_count(), 2);
}

#[test]
fn quotas_of_domains_are_kept_apart() {
    let mut quotas = QuotaTable::new();
    let mut mock = MockRls::with_responses(vec![ok_response_with_quota(9), ok_response()]);
    let filter = make_filter(None, false);
    mock.check(&filter, &mut quotas, Some("a.test")).unwrap();
    mock.check(&filter, &mut quotas, Some("a.test")).unwrap();
    mock.check(&filter, &mut quotas, Some("b.test")).unwrap();
    assert_eq!(mock.domains_seen, ["a.test", "b.test"]);
}

#[test]
fn a_service_in_a_cluster_is_called_where_the_cluster_is_known() {
    let mut filter = make_filter(Some("d"), true);
    filter.rls_client = RlsClient::Cluster("rls".to_owned());
    assert_eq!(filter.call_rls("d", None).unwrap_err().message(), "RLS cluster 'rls' not found");
    let call = filter.call_rls("d", Some(4)).unwrap();
    assert!(matches!(call.target, RlsTarget::Cluster(4)));
    let refused = RlsOutcome::NotConnected("no healthy endpoint".to_owned()).answer().unwrap_err();
    assert_eq!(refused.message(), "no healthy endpoint");
}

#[test]
fn an_endpoint_that_cannot_be_called_makes_no_limit() {
    let refused = NetworkGlobalRateLimit::with_endpoint(
        "p".to_owned(),
        None,
        false,
        RlsClient::GoogleGrpc("::".to_owned()),
        Some("no good".to_owned()),
        vec![],
    );
    assert_eq!(refused.unwrap_err().message(), "invalid RLS endpoint '::': no good");
    let endpoint = |uri: &str| {
        NetworkGlobalRateLimit::try_from("p".to_owned(), None, false, RlsClient::GoogleGrpc(uri.to_owned()), vec![])
    };
    assert!(endpoint("http://127.0.0.1:1").is_ok());
    let refused = endpoint("http://a b/").unwrap_err();
    assert!(refused.message().starts_with("invalid RLS endpoint 'http://a b/': "));
    let made = NetworkGlobalRateLimit::try_from(
        "p".to_owned(),
        Some("d".to_owned()),
        true,
        RlsClient::Cluster("rls".to_owned()),
        vec![RateLimitDescriptor { entries: vec![("key".to_owned(), "value".to_owned())] }],
    )
    .unwrap();
    assert!(made.failure_mode_deny);
    assert_eq!(made.request("d").descriptors[0].entries[0].1, "value");
}
