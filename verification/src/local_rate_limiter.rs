//! Rate limiting within the process, of requests and of connections.

use crate::http_filters::{is_synthetic, EventFailure, FilterDecision, HttpVersion, ResponseFlags, RATE_LIMITED};
use crate::metrics::filters::FilterMetrics;
use crate::metrics::{count_up, counter_added};
use crate::sharded::{one_label, with_label, LabelsView};
use crate::token_bucket::{
    grants, law_asked_bucket_grants_what_it_has, tokens_at, TokenBucket, MAX_DURATION, MAX_INSTANT,
};
use vstd::prelude::*;

verus! {

/// What a rate limit found, as its metric labels it.
#[derive(Debug, Clone, Copy, PartialEq, Eq, Structural)]
pub enum RateLimitEvent {
    Passed,
    Limited,
    NotApplicable,
}

impl RateLimitEvent {
    pub open spec fn spec_label(self) -> Seq<char> {
        match self {
            RateLimitEvent::Passed => "ok"@,
            RateLimitEvent::Limited => "rate_limited"@,
            RateLimitEvent::NotApplicable => "not_applicable"@,
        }
    }

    /// The value of the metric's `result` label.
    pub fn label(&self) -> (text: &'static str)
        ensures
            text@ == self.spec_label(),
    {
        match self {
            RateLimitEvent::Passed => "ok",
            RateLimitEvent::Limited => "rate_limited",
            RateLimitEvent::NotApplicable => "not_applicable",
        }
    }
}

/// What a limit with a bucket, or without one, finds about a request.
pub open spec fn event_of(bucket: Option<TokenBucket>, now: u128) -> RateLimitEvent {
    match bucket {
        None => RateLimitEvent::NotApplicable,
        Some(b) => if grants_one(b, now) {
            RateLimitEvent::Passed
        } else {
            RateLimitEvent::Limited
        },
    }
}

/// The labels of the metric on a rate limit.
pub open spec fn event_labels(filter: Seq<char>, event: RateLimitEvent) -> LabelsView {
    seq![("filter"@, filter)].push(("result"@, event.spec_label()))
}

/// The configuration of a token bucket. Durations are nanoseconds.
#[derive(Debug, Clone, Copy, PartialEq, Eq, Structural)]
pub struct TokenBucketConfig {
    pub max_tokens: u32,
    pub tokens_per_fill: u32,
    pub fill_interval: u128,
}

impl TokenBucketConfig {
    /// The fill interval when so many runtimes share the limit: each gets
    /// its part of the tokens. An interval that cannot be stretched stays.
    pub open spec fn adjusted_interval(self, num_runtimes: u32) -> int {
        if self.fill_interval * num_runtimes <= MAX_DURATION {
            self.fill_interval * num_runtimes
        } else {
            self.fill_interval as int
        }
    }

    /// Whether a bucket can be made of the configuration.
    pub open spec fn feasible(self, num_runtimes: u32) -> bool {
        &&& self.tokens_per_fill > 0
        &&& self.fill_interval <= MAX_DURATION
        &&& self.max_tokens * self.adjusted_interval(num_runtimes) <= MAX_DURATION
        &&& 2 * ((self.max_tokens * self.adjusted_interval(num_runtimes)) / self.tokens_per_fill as int)
            <= MAX_DURATION
    }
}

/// The bucket of a configuration that so many runtimes share.
pub fn build_token_bucket(config: &TokenBucketConfig, num_runtimes: u32, now: u128) -> (bucket: TokenBucket)
    requires
        config.feasible(num_runtimes),
        now <= MAX_INSTANT,
    ensures
        bucket.is_fresh(
            config.max_tokens as int,
            config.tokens_per_fill as int,
            config.adjusted_interval(num_runtimes),
            now as int,
        ),
{
    let interval: u128 = match config.fill_interval.checked_mul(num_runtimes as u128) {
        Some(stretched) => {
            if stretched <= MAX_DURATION {
                stretched
            } else {
                config.fill_interval
            }
        },
        None => config.fill_interval,
    };
    TokenBucket::new(config.max_tokens, config.tokens_per_fill, interval, now)
}

/// The rate limit of a route.
#[derive(Debug)]
pub struct LocalRateLimit {
    pub stat_prefix: String,
    pub status: u16,
    pub token_bucket: Option<TokenBucket>,
}

/// Whether a bucket can be asked for one token.
pub open spec fn ready(bucket: TokenBucket) -> bool {
    bucket.wf() && bucket.time_per_token() * 1 <= MAX_DURATION
}

/// Whether a bucket grants one token.
pub open spec fn grants_one(bucket: TokenBucket, now: u128) -> bool {
    grants(bucket.time_per_token(), bucket.time_per_bucket(), bucket.time(), now as int, 1)
}

impl LocalRateLimit {
    pub fn new(stat_prefix: String, status: u16, config: Option<TokenBucketConfig>, num_runtimes: u32, now: u128) -> (limit:
        LocalRateLimit)
        requires
            config matches Some(c) ==> c.feasible(num_runtimes),
            now <= MAX_INSTANT,
        ensures
            limit.stat_prefix == stat_prefix,
            limit.status == status,
            limit.token_bucket is Some == config is Some,
            config matches Some(c) ==> limit.token_bucket->0.is_fresh(
                c.max_tokens as int,
                c.tokens_per_fill as int,
                c.adjusted_interval(num_runtimes),
                now as int,
            ),
    {
        let token_bucket: Option<TokenBucket> = match config {
            Some(c) => Some(build_token_bucket(&c, num_runtimes, now)),
            None => None,
        };
        LocalRateLimit { stat_prefix, status, token_bucket }
    }

    /// Decides about a request, and counts what was found. Without a bucket
    /// every request passes.
    pub fn run(&mut self, version: HttpVersion, now: u128, metrics: &mut FilterMetrics, shard: u64) -> (decision:
        FilterDecision)
        requires
            old(self).token_bucket matches Some(bucket) ==> ready(bucket),
            now <= MAX_INSTANT,
        ensures
            match old(self).token_bucket {
                None => decision is Continue && *final(self) == *old(self),
                Some(bucket) => {
                    &&& grants_one(bucket, now) ==> decision is Continue
                    &&& !grants_one(bucket, now) ==> {
                        &&& decision matches FilterDecision::DirectResponse(response)
                        &&& is_synthetic(
                            response,
                            old(self).status,
                            ""@,
                            version,
                            (ResponseFlags { bits: RATE_LIMITED }),
                        )
                        &&& response.failure == Some(EventFailure::RateLimited)
                    }
                    &&& final(self).token_bucket matches Some(after)
                    &&& after.was_asked(&bucket, now as int, 1)
                },
            },
            final(self).stat_prefix == old(self).stat_prefix,
            final(self).status == old(self).status,
            counter_added(
                old(metrics).local_rate_limit,
                final(metrics).local_rate_limit,
                1,
                shard,
                event_labels(old(self).stat_prefix@, event_of(old(self).token_bucket, now)),
            ),
            *final(metrics) == (FilterMetrics { local_rate_limit: final(metrics).local_rate_limit, ..*old(metrics) }),
    {
        let (decision, event): (FilterDecision, RateLimitEvent) = match self.token_bucket {
            None => (FilterDecision::Continue, RateLimitEvent::NotApplicable),
            Some(bucket) => {
                let mut bucket = bucket;
                let granted: bool = bucket.consume(1, now);
                self.token_bucket = Some(bucket);
                if granted {
                    (FilterDecision::Continue, RateLimitEvent::Passed)
                } else {
                    (FilterDecision::rate_limited("", Some(self.status), version), RateLimitEvent::Limited)
                }
            },
        };
        let filter: Vec<(String, String)> = one_label("filter", self.stat_prefix.as_str());
        let labels: Vec<(String, String)> = with_label(&filter, "result", event.label());
        count_up(&mut metrics.local_rate_limit, 1, shard, &labels);
        decision
    }
}

/// The rate limit of a listener's connections.
#[derive(Debug)]
pub struct ListenerLocalRateLimit {
    pub stat_prefix: String,
    pub token_bucket: TokenBucket,
}

impl ListenerLocalRateLimit {
    pub fn new(stat_prefix: String, config: &TokenBucketConfig, num_runtimes: u32, now: u128) -> (limit:
        ListenerLocalRateLimit)
        requires
            config.feasible(num_runtimes),
            now <= MAX_INSTANT,
        ensures
            limit.stat_prefix == stat_prefix,
            limit.token_bucket.is_fresh(
                config.max_tokens as int,
                config.tokens_per_fill as int,
                config.adjusted_interval(num_runtimes),
                now as int,
            ),
    {
        ListenerLocalRateLimit { stat_prefix, token_bucket: build_token_bucket(config, num_runtimes, now) }
    }

    /// Whether a new connection may pass.
    pub fn allow(&mut self, now: u128) -> (allowed: bool)
        requires
            ready(old(self).token_bucket),
            now <= MAX_INSTANT,
        ensures
            allowed == grants_one(old(self).token_bucket, now),
            ready(final(self).token_bucket),
            final(self).token_bucket.was_asked(&old(self).token_bucket, now as int, 1),
            final(self).stat_prefix == old(self).stat_prefix,
    {
        let mut bucket = self.token_bucket;
        let allowed: bool = bucket.consume(1, now);
        self.token_bucket = bucket;
        allowed
    }
}

/// A limit that runtimes share refills each of their buckets no faster than
/// the limit of a single runtime would.
pub proof fn law_shared_limit_is_slower(config: TokenBucketConfig, num_runtimes: u32)
    requires
        num_runtimes > 0,
    ensures
        config.adjusted_interval(num_runtimes) >= config.fill_interval,
{
    assert(config.fill_interval * num_runtimes >= config.fill_interval) by (nonlinear_arith)
        requires
            num_runtimes > 0,
    ;
}

/// Runtimes that share a limit gain together as many tokens as a single one
/// would: each takes as many times longer for its tokens as there are of them.
/// Only a time that no duration can hold is not stretched.
pub proof fn law_shared_limit_adds_up(config: TokenBucketConfig, num_runtimes: u32)
    ensures
        config.fill_interval * num_runtimes <= MAX_DURATION ==> config.adjusted_interval(num_runtimes)
            == config.fill_interval * num_runtimes,
        config.fill_interval * num_runtimes > MAX_DURATION ==> config.adjusted_interval(num_runtimes)
            == config.fill_interval,
        config.fill_interval <= MAX_DURATION ==> config.adjusted_interval(1) == config.fill_interval,
{
}

/// What is counted of a request is what became of it: it passed exactly where
/// there is a bucket with a token to take, was limited where the bucket has
/// none, and is not concerned where there is no bucket. Each has a word of its own.
pub proof fn law_counted_event_is_what_happened(bucket: Option<TokenBucket>, now: u128)
    requires
        bucket matches Some(b) ==> b.wf() && b.time_per_token() > 0 && b.time_per_bucket() == b.max_tokens()
            * b.time_per_token() && b.time() <= now && b.time_per_bucket() <= now,
    ensures
        event_of(bucket, now) == RateLimitEvent::NotApplicable <==> bucket is None,
        bucket matches Some(b) ==> (event_of(bucket, now) == RateLimitEvent::Passed <==> tokens_at(
            b.time_per_token(),
            b.max_tokens(),
            b.time(),
            now as int,
        ) >= 1),
        RateLimitEvent::Passed.spec_label() == "ok"@,
        RateLimitEvent::Limited.spec_label() == "rate_limited"@,
        RateLimitEvent::NotApplicable.spec_label() == "not_applicable"@,
{
    if bucket is Some {
        law_asked_bucket_grants_what_it_has(bucket->0, now as int, 1);
    }
}

} // verus!
