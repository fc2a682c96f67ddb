//! A token bucket that is filled by the clock alone.
//!
//! The bucket stores the instant at which it would have been empty had it been
//! filled continuously since. A request for tokens moves that instant forward;
//! it is granted when the moved instant does not lie in the future. Beside it
//! the bucket keeps the instant of the last request that took tokens.
//!
//! Instants and durations are nanoseconds.

use vstd::arithmetic::div_mod::{
    lemma_div_by_multiple, lemma_div_is_ordered, lemma_div_pos_is_pos, lemma_fundamental_div_mod,
    lemma_fundamental_div_mod_converse,
};
use vstd::arithmetic::mul::lemma_mul_inequality;
use vstd::prelude::*;

verus! {

/// The longest duration, in nanoseconds: `u64::MAX` seconds and 999,999,999 nanoseconds.
pub const MAX_DURATION: u128 = 18_446_744_073_709_551_615_999_999_999;

/// The latest instant, in nanoseconds: `i64::MAX` seconds and 999,999,999 nanoseconds.
pub const MAX_INSTANT: u128 = 9_223_372_036_854_775_807_999_999_999;

pub const NANOS_PER_SECOND: u128 = 1_000_000_000;

/// Why a bucket could not be built from a rate and a capacity.
#[derive(Debug, Clone, Copy, PartialEq, Eq, Structural)]
pub enum TokenBucketError {
    ZeroRate,
    ZeroCapacity,
}

impl TokenBucketError {
    pub open spec fn spec_message(self) -> Seq<char> {
        match self {
            TokenBucketError::ZeroRate => "events_per_second must be strictly greater than 0"@,
            TokenBucketError::ZeroCapacity => "max_tokens must be strictly greater than 0"@,
        }
    }

    /// The text shown to an operator.
    pub fn message(&self) -> (text: String)
        ensures
            text@ == self.spec_message(),
    {
        match self {
            TokenBucketError::ZeroRate => "events_per_second must be strictly greater than 0".to_owned(),
            TokenBucketError::ZeroCapacity => "max_tokens must be strictly greater than 0".to_owned(),
        }
    }
}

/// The instant that lies `back` before `now`, or `now` itself where there is none.
pub open spec fn back_from(now: int, back: int) -> int {
    if now >= back {
        now - back
    } else {
        now
    }
}

pub open spec fn later_of(a: int, b: int) -> int {
    if a >= b {
        a
    } else {
        b
    }
}

/// The instant a request of `tokens` would move the bucket to: the stored
/// instant, but never further back than a full bucket, plus the time it takes
/// to earn the tokens.
pub open spec fn moved_to(per_token: int, per_bucket: int, time: int, now: int, tokens: nat) -> int {
    later_of(time, back_from(now, per_bucket)) + per_token * tokens
}

/// Whether a request of `tokens` at `now` is granted.
pub open spec fn grants(per_token: int, per_bucket: int, time: int, now: int, tokens: nat) -> bool {
    moved_to(per_token, per_bucket, time, now, tokens) <= now
}

/// The stored instant after a request, granted or not.
pub open spec fn time_after(per_token: int, per_bucket: int, time: int, now: int, tokens: nat) -> int {
    if grants(per_token, per_bucket, time, now, tokens) {
        moved_to(per_token, per_bucket, time, now, tokens)
    } else {
        time
    }
}

/// The tokens that can be taken at `now`.
pub open spec fn tokens_at(per_token: int, max_tokens: int, time: int, now: int) -> int {
    if now < time {
        0
    } else if (now - time) / per_token > max_tokens {
        max_tokens
    } else {
        (now - time) / per_token
    }
}

/// The stored instant after the first requests of a run, each an instant and a
/// number of tokens.
pub open spec fn time_before(per_token: int, per_bucket: int, time: int, requests: Seq<(int, nat)>, count: int) -> int
    decreases count,
{
    if count <= 0 {
        time
    } else {
        let (now, tokens) = requests[count - 1];
        time_after(
            per_token,
            per_bucket,
            time_before(per_token, per_bucket, time, requests, count - 1),
            now,
            tokens,
        )
    }
}

/// Whether a request within a run is granted.
pub open spec fn grants_in_run(per_token: int, per_bucket: int, time: int, requests: Seq<(int, nat)>, at: int) -> bool {
    grants(
        per_token,
        per_bucket,
        time_before(per_token, per_bucket, time, requests, at),
        requests[at].0,
        requests[at].1,
    )
}

/// The tokens granted to the requests of a run from one up to another.
pub open spec fn granted_between(
    per_token: int,
    per_bucket: int,
    time: int,
    requests: Seq<(int, nat)>,
    from: int,
    to: int,
) -> nat
    decreases to - from,
{
    if to <= from {
        0
    } else {
        let taken: nat = if grants_in_run(per_token, per_bucket, time, requests, to - 1) {
            requests[to - 1].1
        } else {
            0
        };
        granted_between(per_token, per_bucket, time, requests, from, to - 1) + taken
    }
}

/// The instants of a run never go backwards.
pub open spec fn in_order(requests: Seq<(int, nat)>) -> bool {
    forall|i: int, j: int| 0 <= i <= j < requests.len() ==> requests[i].0 <= requests[j].0
}

/// A token bucket: how long a token takes, how long a full bucket takes, and
/// the two instants described at the top of this module.
#[derive(Debug, Clone, Copy)]
pub struct TokenBucket {
    time: u128,
    last_consume: u128,
    time_per_token: u128,
    time_per_bucket: u128,
    max_tokens: u32,
}

impl TokenBucket {
    pub closed spec fn time(&self) -> int {
        self.time as int
    }

    /// The instant of the last request that took tokens. Before there is one,
    /// the instant the bucket started from.
    pub closed spec fn consumed_at(&self) -> int {
        self.last_consume as int
    }

    pub closed spec fn time_per_token(&self) -> int {
        self.time_per_token as int
    }

    pub closed spec fn time_per_bucket(&self) -> int {
        self.time_per_bucket as int
    }

    pub closed spec fn max_tokens(&self) -> int {
        self.max_tokens as int
    }

    pub open spec fn wf(&self) -> bool {
        &&& 0 <= self.time() <= MAX_INSTANT
        &&& 0 <= self.consumed_at() <= MAX_INSTANT
        &&& 0 <= self.time_per_token() <= MAX_DURATION
        &&& 0 <= self.time_per_bucket() <= MAX_DURATION
        &&& 0 <= self.max_tokens() <= u32::MAX
    }

    /// Whether this is the bucket `new` makes at `now`.
    pub open spec fn is_fresh(
        &self,
        max_tokens: int,
        tokens_per_fill: int,
        fill_interval: int,
        now: int,
    ) -> bool {
        &&& self.wf()
        &&& self.max_tokens() == max_tokens
        &&& self.time_per_token() == fill_interval / tokens_per_fill
        &&& self.time_per_bucket() == (max_tokens * fill_interval) / tokens_per_fill
        &&& self.time() == back_from(now, 2 * ((max_tokens * fill_interval) / tokens_per_fill))
        &&& self.consumed_at() == self.time()
    }

    /// Whether this is what becomes of a bucket when it is asked for `tokens`
    /// at `now`.
    pub open spec fn was_asked(&self, before: &TokenBucket, now: int, tokens: nat) -> bool {
        let granted = grants(before.time_per_token(), before.time_per_bucket(), before.time(), now, tokens);
        &&& self.wf()
        &&& self.time() == time_after(
            before.time_per_token(),
            before.time_per_bucket(),
            before.time(),
            now,
            tokens,
        )
        &&& self.consumed_at() == (if granted && tokens > 0 {
            now
        } else {
            before.consumed_at()
        })
        &&& self.time_per_token() == before.time_per_token()
        &&& self.time_per_bucket() == before.time_per_bucket()
        &&& self.max_tokens() == before.max_tokens()
    }

    /// A bucket from a capacity and an expected number of events per second.
    pub fn with_rate_and_capacity(
        max_tokens: u32,
        events_per_second: u32,
        now: u128,
    ) -> (res: Result<TokenBucket, TokenBucketError>)
        requires
            now <= MAX_INSTANT,
        ensures
            max_tokens == 0 <==> res == Err::<TokenBucket, TokenBucketError>(TokenBucketError::ZeroCapacity),
            max_tokens != 0 && events_per_second == 0 <==> res == Err::<TokenBucket, TokenBucketError>(
                TokenBucketError::ZeroRate,
            ),
            res matches Ok(bucket) ==> bucket.is_fresh(
                max_tokens as int,
                1,
                NANOS_PER_SECOND as int / events_per_second as int,
                now as int,
            ),
    {
        if max_tokens == 0 {
            return Err(TokenBucketError::ZeroCapacity);
        }
        if events_per_second == 0 {
            return Err(TokenBucketError::ZeroRate);
        }
        let fill_interval: u128 = NANOS_PER_SECOND / (events_per_second as u128);
        proof {
            assert(fill_interval <= NANOS_PER_SECOND) by (nonlinear_arith)
                requires
                    fill_interval == NANOS_PER_SECOND / (events_per_second as u128),
                    events_per_second > 0,
            ;
            lemma_mul_inequality(fill_interval as int, NANOS_PER_SECOND as int, max_tokens as int);
            assert(max_tokens * fill_interval <= max_tokens * 1_000_000_000) by (nonlinear_arith)
                requires
                    fill_interval <= 1_000_000_000,
            ;
        }
        Ok(Self::new(max_tokens, 1, fill_interval, now))
    }

    /// A bucket that holds at most `max_tokens` and gains `tokens_per_fill`
    /// in every `fill_interval`. It starts full.
    pub fn new(max_tokens: u32, tokens_per_fill: u32, fill_interval: u128, now: u128) -> (bucket: TokenBucket)
        requires
            tokens_per_fill > 0,
            fill_interval <= MAX_DURATION,
            max_tokens * fill_interval <= MAX_DURATION,
            2 * ((max_tokens * fill_interval) / tokens_per_fill as int) <= MAX_DURATION,
            now <= MAX_INSTANT,
        ensures
            bucket.is_fresh(max_tokens as int, tokens_per_fill as int, fill_interval as int, now as int),
    {
        let total: u128 = (max_tokens as u128) * fill_interval;
        let time_per_bucket: u128 = total / (tokens_per_fill as u128);
        let twice: u128 = 2 * time_per_bucket;
        let time: u128 = if now >= twice {
            now - twice
        } else {
            now
        };
        let time_per_token: u128 = fill_interval / (tokens_per_fill as u128);
        proof {
            assert(time_per_token <= fill_interval) by (nonlinear_arith)
                requires
                    time_per_token == fill_interval / (tokens_per_fill as u128),
                    tokens_per_fill > 0,
            ;
            assert(time_per_bucket <= total) by (nonlinear_arith)
                requires
                    time_per_bucket == total / (tokens_per_fill as u128),
                    tokens_per_fill > 0,
            ;
        }
        TokenBucket { time, last_consume: time, time_per_token, time_per_bucket, max_tokens }
    }

    /// Tries to take `tokens` at `now`, and tells whether they were granted.
    /// A request that is not granted changes nothing.
    pub fn consume(&mut self, tokens: u32, now: u128) -> (granted: bool)
        requires
            old(self).wf(),
            old(self).time_per_token() * tokens <= MAX_DURATION,
            now <= MAX_INSTANT,
        ensures
            granted == grants(
                old(self).time_per_token(),
                old(self).time_per_bucket(),
                old(self).time(),
                now as int,
                tokens as nat,
            ),
            final(self).was_asked(old(self), now as int, tokens as nat),
    {
        let required: u128 = self.time_per_token * (tokens as u128);
        let min_time: u128 = if now >= self.time_per_bucket {
            now - self.time_per_bucket
        } else {
            now
        };
        let mut new_time: u128 = self.time;
        if min_time > new_time {
            new_time = min_time;
        }
        let moved: u128 = new_time + required;
        if moved > now {
            return false;
        }
        self.time = moved;
        if tokens > 0 {
            self.last_consume = now;
        }
        true
    }

    /// The number of tokens a full bucket holds.
    pub fn capacity(&self) -> (tokens: u32)
        ensures
            tokens == self.max_tokens(),
    {
        self.max_tokens
    }

    /// The number of tokens that can be taken at `now`.
    pub fn size(&self, now: u128) -> (tokens: u32)
        requires
            self.wf(),
            self.time_per_token() > 0,
        ensures
            tokens == tokens_at(self.time_per_token(), self.max_tokens(), self.time(), now as int),
    {
        if now < self.time {
            return 0;
        }
        let earned: u128 = (now - self.time) / self.time_per_token;
        if earned > self.max_tokens as u128 {
            self.max_tokens
        } else {
            earned as u32
        }
    }

    /// The instant of the last request that took tokens.
    pub fn last_consume(&self) -> (time: u128)
        ensures
            time == self.consumed_at(),
    {
        self.last_consume
    }

    /// Whether two buckets refill alike. What they hold at the moment does not count.
    pub fn same_rate(&self, other: &TokenBucket) -> (same: bool)
        ensures
            same == (self.time_per_token() == other.time_per_token() && self.time_per_bucket()
                == other.time_per_bucket()),
    {
        self.time_per_token == other.time_per_token && self.time_per_bucket == other.time_per_bucket
    }
}

/// A bucket never offers more tokens than it can hold.
pub proof fn law_size_within_capacity(bucket: TokenBucket, now: int)
    requires
        bucket.wf(),
        bucket.time_per_token() > 0,
    ensures
        0 <= tokens_at(bucket.time_per_token(), bucket.max_tokens(), bucket.time(), now)
            <= bucket.max_tokens(),
{
    if now >= bucket.time() {
        lemma_div_is_ordered(0, now - bucket.time(), bucket.time_per_token());
    }
}

/// A refused request leaves the bucket as it was, and a granted one leaves the
/// stored instant no later than the present.
pub proof fn law_refusal_changes_nothing(per_token: int, per_bucket: int, time: int, now: int, tokens: nat)
    ensures
        !grants(per_token, per_bucket, time, now, tokens) ==> time_after(
            per_token,
            per_bucket,
            time,
            now,
            tokens,
        ) == time,
        grants(per_token, per_bucket, time, now, tokens) ==> time_after(
            per_token,
            per_bucket,
            time,
            now,
            tokens,
        ) <= now,
{
}

/// A fresh bucket grants a request exactly when it asks for no more than the
/// bucket can hold, as long as the clock has run for the time of two full
/// buckets.
pub proof fn law_fresh_bucket_grants_its_capacity(
    bucket: TokenBucket,
    max_tokens: int,
    fill_interval: int,
    now: int,
    tokens: nat,
)
    requires
        bucket.is_fresh(max_tokens, 1, fill_interval, now),
        fill_interval > 0,
        max_tokens >= 0,
        now >= 2 * (max_tokens * fill_interval),
    ensures
        grants(bucket.time_per_token(), bucket.time_per_bucket(), bucket.time(), now, tokens) <==> tokens
            <= max_tokens,
{
    let full = max_tokens * fill_interval;
    assert(full >= 0) by (nonlinear_arith)
        requires
            full == max_tokens * fill_interval,
            max_tokens >= 0,
            fill_interval > 0,
    ;
    assert(full / 1 == full && fill_interval / 1 == fill_interval);
    assert(fill_interval * tokens <= max_tokens * fill_interval <==> tokens <= max_tokens) by (nonlinear_arith)
        requires
            fill_interval > 0,
    ;
}

/// Over any part of a run of requests the tokens granted are paid for by time:
/// they take no longer to earn than the time between the first and the last
/// of these requests plus the time of one full bucket.
pub proof fn law_rate_bound(
    per_token: int,
    per_bucket: int,
    time: int,
    requests: Seq<(int, nat)>,
    from: int,
    to: int,
)
    requires
        per_token >= 0,
        per_bucket >= 0,
        0 <= from < to <= requests.len(),
        in_order(requests),
        requests[from].0 >= per_bucket,
    ensures
        per_token * granted_between(per_token, per_bucket, time, requests, from, to) <= requests[to - 1].0
            - requests[from].0 + per_bucket,
{
    lemma_granted_within(per_token, per_bucket, time, requests, from, to);
    if granted_between(per_token, per_bucket, time, requests, from, to) == 0 {
        assert(per_token * 0 == 0);
    }
}

/// A quotient tells which multiples fit.
proof fn lemma_multiples_fit(x: int, d: int, n: int)
    requires
        d > 0,
    ensures
        d * n <= x <==> n <= x / d,
        (x - d * n) / d == x / d - n,
{
    lemma_fundamental_div_mod(x, d);
    assert(d * n <= x <==> n <= x / d) by (nonlinear_arith)
        requires
            d > 0,
            x == d * (x / d) + x % d,
            0 <= x % d < d,
    ;
    assert((x - d * n) == (x / d - n) * d + x % d) by (nonlinear_arith)
        requires
            x == d * (x / d) + x % d,
    ;
    lemma_fundamental_div_mod_converse(x - d * n, d, x / d - n, x % d);
}

/// A bucket that gains whole numbers of nanoseconds per token takes as long
/// for a full bucket as for all of its tokens.
pub proof fn law_fresh_bucket_is_even(
    bucket: TokenBucket,
    max_tokens: int,
    tokens_per_fill: int,
    fill_interval: int,
    now: int,
)
    requires
        bucket.is_fresh(max_tokens, tokens_per_fill, fill_interval, now),
        max_tokens >= 0,
        tokens_per_fill > 0,
        fill_interval > 0,
        fill_interval % tokens_per_fill == 0,
    ensures
        bucket.time_per_token() > 0,
        bucket.time_per_bucket() == bucket.max_tokens() * bucket.time_per_token(),
{
    let per_token = fill_interval / tokens_per_fill;
    lemma_fundamental_div_mod(fill_interval, tokens_per_fill);
    assert(per_token > 0) by (nonlinear_arith)
        requires
            fill_interval == tokens_per_fill * per_token,
            fill_interval > 0,
            tokens_per_fill > 0,
    ;
    assert(max_tokens * fill_interval == (max_tokens * per_token) * tokens_per_fill) by (nonlinear_arith)
        requires
            fill_interval == tokens_per_fill * per_token,
    ;
    assert(max_tokens * per_token >= 0) by (nonlinear_arith)
        requires
            max_tokens >= 0,
            per_token > 0,
    ;
    lemma_div_by_multiple(max_tokens * per_token, tokens_per_fill);
}

/// A request is granted exactly when it asks for no more tokens than can be
/// taken, and a grant takes exactly the tokens that were asked for: all others
/// can still be taken at that instant. A refusal takes none.
pub proof fn law_grant_takes_what_was_asked(before: TokenBucket, after: TokenBucket, now: int, tokens: nat)
    requires
        before.wf(),
        before.time_per_token() > 0,
        before.time_per_bucket() == before.max_tokens() * before.time_per_token(),
        before.time() <= now,
        now >= before.time_per_bucket(),
        after.was_asked(&before, now, tokens),
    ensures
        ({
            let had = tokens_at(before.time_per_token(), before.max_tokens(), before.time(), now);
            let left = tokens_at(after.time_per_token(), after.max_tokens(), after.time(), now);
            let granted = grants(before.time_per_token(), before.time_per_bucket(), before.time(), now, tokens);
            &&& granted <==> tokens <= had
            &&& granted ==> left == had - tokens
            &&& !granted ==> left == had
            &&& after.time() <= now
        }),
{
    let d = before.time_per_token();
    let full = before.time_per_bucket();
    let max = before.max_tokens();
    let start = later_of(before.time(), now - full);
    assert(full == d * max) by (nonlinear_arith)
        requires
            full == max * d,
    ;
    lemma_multiples_fit(now - start, d, tokens as int);
    lemma_multiples_fit(now - start, d, max);
    lemma_multiples_fit(now - before.time(), d, max);
    lemma_multiples_fit(full, d, max);
    lemma_multiples_fit(full, d, tokens as int);
    assert(d * tokens >= 0) by (nonlinear_arith)
        requires
            d > 0,
    ;
    if before.time() >= now - full {
        lemma_div_is_ordered(now - before.time(), full, d);
        lemma_div_by_multiple(max, d);
    } else {
        lemma_div_is_ordered(full, now - before.time(), d);
        lemma_div_by_multiple(max, d);
    }
}

/// A bucket grants a request exactly when it has the tokens.
pub proof fn law_asked_bucket_grants_what_it_has(bucket: TokenBucket, now: int, tokens: nat)
    requires
        bucket.wf(),
        bucket.time_per_token() > 0,
        bucket.time_per_bucket() == bucket.max_tokens() * bucket.time_per_token(),
        bucket.time() <= now,
        now >= bucket.time_per_bucket(),
    ensures
        grants(bucket.time_per_token(), bucket.time_per_bucket(), bucket.time(), now, tokens) <==> tokens <= tokens_at(
            bucket.time_per_token(),
            bucket.max_tokens(),
            bucket.time(),
            now,
        ),
{
    let d = bucket.time_per_token();
    let full = bucket.time_per_bucket();
    let max = bucket.max_tokens();
    let start = later_of(bucket.time(), now - full);
    assert(full == d * max) by (nonlinear_arith)
        requires
            full == max * d,
    ;
    lemma_multiples_fit(now - start, d, tokens as int);
    lemma_multiples_fit(now - bucket.time(), d, max);
    lemma_multiples_fit(full, d, tokens as int);
    lemma_div_by_multiple(max, d);
    if bucket.time() >= now - full {
        lemma_div_is_ordered(now - bucket.time(), full, d);
    } else {
        lemma_div_is_ordered(full, now - bucket.time(), d);
    }
}

/// Also where a full bucket takes longer than its tokens, because a token
/// takes no whole number of nanoseconds, a request for tokens that can be
/// taken is granted, and leaves at least the others.
pub proof fn law_grant_leaves_the_rest(before: TokenBucket, after: TokenBucket, now: int, tokens: nat)
    requires
        before.wf(),
        before.time_per_token() > 0,
        before.time_per_bucket() >= before.max_tokens() * before.time_per_token(),
        before.time() <= now,
        now >= before.time_per_bucket(),
        after.was_asked(&before, now, tokens),
        tokens <= tokens_at(before.time_per_token(), before.max_tokens(), before.time(), now),
    ensures
        grants(before.time_per_token(), before.time_per_bucket(), before.time(), now, tokens),
        tokens_at(after.time_per_token(), after.max_tokens(), after.time(), now) >= tokens_at(
            before.time_per_token(),
            before.max_tokens(),
            before.time(),
            now,
        ) - tokens,
{
    let d = before.time_per_token();
    let full = before.time_per_bucket();
    let max = before.max_tokens();
    let start = later_of(before.time(), now - full);
    lemma_multiples_fit(now - start, d, tokens as int);
    lemma_multiples_fit(now - start, d, max);
    lemma_multiples_fit(now - before.time(), d, tokens as int);
    lemma_multiples_fit(full, d, max);
    assert(d * max == max * d) by (nonlinear_arith);
    lemma_div_is_ordered(now - start, now - before.time(), d);
}

/// The stored instant is no later than the tokens granted so far have moved
/// it: from where it stood, or from a full bucket at one of the requests.
proof fn lemma_time_is_paid_for(
    per_token: int,
    per_bucket: int,
    time: int,
    requests: Seq<(int, nat)>,
    count: int,
    limit: int,
)
    requires
        per_token >= 0,
        per_bucket >= 0,
        0 <= count <= requests.len(),
        forall|k: int| 0 <= k < count ==> (#[trigger] requests[k]).0 >= per_bucket,
        time + per_token * granted_between(per_token, per_bucket, time, requests, 0, count) <= limit,
        forall|f: int|
            0 <= f < count ==> (#[trigger] requests[f]).0 - per_bucket + per_token * granted_between(
                per_token,
                per_bucket,
                time,
                requests,
                f,
                count,
            ) <= limit,
    ensures
        time_before(per_token, per_bucket, time, requests, count) <= limit,
    decreases count,
{
    if count > 0 {
        let last = count - 1;
        let (now, tokens) = requests[last];
        let taken: nat = if grants_in_run(per_token, per_bucket, time, requests, last) {
            tokens
        } else {
            0
        };
        let before = limit - per_token * taken;
        assert forall|f: int| 0 <= f < last implies (#[trigger] requests[f]).0 - per_bucket + per_token
            * granted_between(per_token, per_bucket, time, requests, f, last) <= before by {
            let g = granted_between(per_token, per_bucket, time, requests, f, last);
            assert(granted_between(per_token, per_bucket, time, requests, f, count) == g + taken);
            assert(per_token * (g + taken) == per_token * g + per_token * taken) by (nonlinear_arith);
        }
        let g = granted_between(per_token, per_bucket, time, requests, 0, last);
        assert(granted_between(per_token, per_bucket, time, requests, 0, count) == g + taken);
        assert(per_token * (g + taken) == per_token * g + per_token * taken) by (nonlinear_arith);
        lemma_time_is_paid_for(per_token, per_bucket, time, requests, last, before);
        assert(requests[last].0 - per_bucket + per_token * granted_between(
            per_token,
            per_bucket,
            time,
            requests,
            last,
            count,
        ) <= limit);
        assert(granted_between(per_token, per_bucket, time, requests, last, last) == 0);
        assert(granted_between(per_token, per_bucket, time, requests, last, count) == taken);
        assert(per_token * 0 == 0);
    } else {
        assert(per_token * 0 == 0);
    }
}

/// In a run of requests on a fresh bucket a request is granted exactly when
/// its tokens and those granted since any earlier request are no more than
/// the bucket holds and gains in that time. So a bucket refuses only what its
/// rate forbids, as it grants only what its rate allows.
pub proof fn law_granted_exactly_within_the_rate(
    bucket: TokenBucket,
    max_tokens: int,
    fill_interval: int,
    start: int,
    requests: Seq<(int, nat)>,
    at: int,
)
    requires
        bucket.is_fresh(max_tokens, 1, fill_interval, start),
        fill_interval > 0,
        max_tokens >= 0,
        start >= 2 * (max_tokens * fill_interval),
        in_order(requests),
        0 <= at < requests.len(),
        requests[0].0 >= start,
    ensures
        grants_in_run(
            bucket.time_per_token(),
            bucket.time_per_bucket(),
            bucket.time(),
            requests,
            at,
        ) <==> {
            &&& requests[at].1 <= max_tokens
            &&& forall|f: int|
                0 <= f < at ==> granted_between(
                    bucket.time_per_token(),
                    bucket.time_per_bucket(),
                    bucket.time(),
                    requests,
                    f,
                    at,
                ) + requests[at].1 <= max_tokens + (requests[at].0 - (#[trigger] requests[f]).0) / fill_interval
        },
{
    let full = max_tokens * fill_interval;
    let d = fill_interval;
    let (now, tokens) = requests[at];
    assert(full >= 0) by (nonlinear_arith)
        requires
            full == max_tokens * fill_interval,
            max_tokens >= 0,
            fill_interval > 0,
    ;
    assert(full / 1 == full && d / 1 == d);
    assert(requests[0].0 <= now);
    assert(full == d * max_tokens) by (nonlinear_arith)
        requires
            full == max_tokens * fill_interval,
            d == fill_interval,
    ;
    let granted = grants_in_run(d, full, bucket.time(), requests, at);
    let within = {
        &&& tokens <= max_tokens
        &&& forall|f: int|
            0 <= f < at ==> granted_between(d, full, bucket.time(), requests, f, at) + tokens <= max_tokens + (now
                - (#[trigger] requests[f]).0) / d
    };
    if granted {
        if tokens > max_tokens {
            law_beyond_capacity_is_refused(
                bucket,
                max_tokens,
                fill_interval,
                start,
                time_before(d, full, bucket.time(), requests, at),
                now,
                tokens,
            );
        }
        assert forall|f: int| 0 <= f < at implies granted_between(d, full, bucket.time(), requests, f, at) + tokens
            <= max_tokens + (now - (#[trigger] requests[f]).0) / d by {
            assert(requests[0].0 <= requests[f].0 <= now);
            assert forall|k: int| f <= k < at + 1 implies requests[f].0 <= (#[trigger] requests[k]).0 <= requests[f].0
                + (now - requests[f].0) by {}
            law_rate_bound_in_any_span(
                bucket,
                max_tokens,
                fill_interval,
                start,
                requests,
                f,
                at + 1,
                requests[f].0,
                now - requests[f].0,
            );
        }
    }
    if within {
        let limit = now - d * tokens;
        lemma_multiples_fit(full, d, tokens as int);
        lemma_multiples_fit(full, d, max_tokens);
        assert(d * tokens <= full) by (nonlinear_arith)
            requires
                tokens <= max_tokens,
                d > 0,
                full == d * max_tokens,
        ;
        assert forall|f: int| 0 <= f < at implies (#[trigger] requests[f]).0 - full + d * granted_between(
            d,
            full,
            bucket.time(),
            requests,
            f,
            at,
        ) <= limit by {
            let g = granted_between(d, full, bucket.time(), requests, f, at);
            let span = now - requests[f].0;
            assert(g + tokens <= max_tokens + span / d);
            lemma_multiples_fit(span, d, g + tokens - max_tokens);
            assert(d * (g + tokens - max_tokens) == d * g + d * tokens - d * max_tokens) by (nonlinear_arith);
        }
        assert forall|k: int| 0 <= k < at implies (#[trigger] requests[k]).0 >= full by {
            assert(requests[0].0 <= requests[k].0);
        }
        if at > 0 {
            assert(requests[0].0 - full + d * granted_between(d, full, bucket.time(), requests, 0, at) <= limit);
        } else {
            assert(d * 0 == 0);
        }
        assert(bucket.time() + d * granted_between(d, full, bucket.time(), requests, 0, at) <= limit);
        lemma_time_is_paid_for(d, full, bucket.time(), requests, at, limit);
    }
}

/// In any span of time of length `span`, anywhere within a run of requests, a
/// bucket that gains a token in every `fill_interval` grants at most
/// `max_tokens` and the tokens that it gains in that span, whatever was asked
/// of it before.
pub proof fn law_rate_bound_in_any_span(
    bucket: TokenBucket,
    max_tokens: int,
    fill_interval: int,
    start: int,
    requests: Seq<(int, nat)>,
    from: int,
    to: int,
    begin: int,
    span: int,
)
    requires
        bucket.is_fresh(max_tokens, 1, fill_interval, start),
        fill_interval > 0,
        max_tokens >= 0,
        span >= 0,
        in_order(requests),
        0 <= from <= to <= requests.len(),
        begin >= max_tokens * fill_interval,
        forall|k: int| from <= k < to ==> begin <= (#[trigger] requests[k]).0 <= begin + span,
    ensures
        granted_between(
            bucket.time_per_token(),
            bucket.time_per_bucket(),
            bucket.time(),
            requests,
            from,
            to,
        ) <= max_tokens + span / fill_interval,
{
    let full = max_tokens * fill_interval;
    assert(full >= 0) by (nonlinear_arith)
        requires
            full == max_tokens * fill_interval,
            max_tokens >= 0,
            fill_interval > 0,
    ;
    assert(full / 1 == full && fill_interval / 1 == fill_interval);
    lemma_div_pos_is_pos(span, fill_interval);
    if from < to {
        let granted = granted_between(fill_interval, full, bucket.time(), requests, from, to) as int;
        assert(begin <= requests[from].0 && requests[to - 1].0 <= begin + span);
        law_rate_bound(fill_interval, full, bucket.time(), requests, from, to);
        assert((granted - max_tokens) * fill_interval <= span) by (nonlinear_arith)
            requires
                fill_interval * granted <= span + max_tokens * fill_interval,
        ;
        if granted > max_tokens {
            lemma_div_is_ordered((granted - max_tokens) * fill_interval, span, fill_interval);
            lemma_div_by_multiple(granted - max_tokens, fill_interval);
        }
    }
}

/// A request for more tokens than the bucket can hold is never granted.
pub proof fn law_beyond_capacity_is_refused(
    bucket: TokenBucket,
    max_tokens: int,
    fill_interval: int,
    start: int,
    time: int,
    now: int,
    tokens: nat,
)
    requires
        bucket.is_fresh(max_tokens, 1, fill_interval, start),
        fill_interval > 0,
        max_tokens >= 0,
        tokens > max_tokens,
    ensures
        !grants(bucket.time_per_token(), bucket.time_per_bucket(), time, now, tokens),
{
    let full = max_tokens * fill_interval;
    assert(full / 1 == full && fill_interval / 1 == fill_interval);
    assert(fill_interval * tokens > full && fill_interval * tokens > 0) by (nonlinear_arith)
        requires
            full == max_tokens * fill_interval,
            fill_interval > 0,
            max_tokens >= 0,
            tokens > max_tokens,
    ;
}

/// A request for no tokens is granted at any point of a run, as long as the
/// run begins no earlier than the stored instant.
pub proof fn law_request_for_nothing_is_granted(
    per_token: int,
    per_bucket: int,
    time: int,
    requests: Seq<(int, nat)>,
    at: int,
)
    requires
        per_bucket >= 0,
        in_order(requests),
        0 <= at < requests.len(),
        time <= requests[0].0,
        requests[at].1 == 0,
    ensures
        grants_in_run(per_token, per_bucket, time, requests, at),
{
    lemma_time_stays_behind(per_token, per_bucket, time, requests, at);
    assert(per_token * 0 == 0);
}

/// A refused request leaves no trace in a run: without it, every other
/// request is granted or refused as it was, and the stored instant ends where
/// it did.
pub proof fn law_refused_request_leaves_no_trace(
    per_token: int,
    per_bucket: int,
    time: int,
    requests: Seq<(int, nat)>,
    refused: int,
)
    requires
        0 <= refused < requests.len(),
        !grants_in_run(per_token, per_bucket, time, requests, refused),
    ensures
        forall|k: int| 0 <= k < refused ==> #[trigger] grants_in_run(per_token, per_bucket, time, requests, k)
            == grants_in_run(per_token, per_bucket, time, requests.remove(refused), k),
        forall|k: int| refused < k < requests.len() ==> #[trigger] grants_in_run(per_token, per_bucket, time, requests, k)
            == grants_in_run(per_token, per_bucket, time, requests.remove(refused), k - 1),
        time_before(per_token, per_bucket, time, requests, requests.len() as int) == time_before(
            per_token,
            per_bucket,
            time,
            requests.remove(refused),
            requests.len() - 1,
        ),
{
    let others = requests.remove(refused);
    assert forall|k: int| 0 <= k < refused implies #[trigger] grants_in_run(per_token, per_bucket, time, requests, k)
        == grants_in_run(per_token, per_bucket, time, others, k) by {
        lemma_time_without(per_token, per_bucket, time, requests, refused, k);
    }
    assert forall|k: int| refused < k < requests.len() implies #[trigger] grants_in_run(
        per_token,
        per_bucket,
        time,
        requests,
        k,
    ) == grants_in_run(per_token, per_bucket, time, others, k - 1) by {
        lemma_time_without(per_token, per_bucket, time, requests, refused, k);
    }
    lemma_time_without(per_token, per_bucket, time, requests, refused, requests.len() as int);
}

/// The stored instants of a run with and without a refused request.
proof fn lemma_time_without(
    per_token: int,
    per_bucket: int,
    time: int,
    requests: Seq<(int, nat)>,
    refused: int,
    count: int,
)
    requires
        0 <= refused < requests.len(),
        0 <= count <= requests.len(),
        !grants_in_run(per_token, per_bucket, time, requests, refused),
    ensures
        time_before(per_token, per_bucket, time, requests, count) == time_before(
            per_token,
            per_bucket,
            time,
            requests.remove(refused),
            if count <= refused {
                count
            } else {
                count - 1
            },
        ),
    decreases count,
{
    if count > 0 {
        lemma_time_without(per_token, per_bucket, time, requests, refused, count - 1);
        if count <= refused {
            assert(requests.remove(refused)[count - 1] == requests[count - 1]);
        } else if count > refused + 1 {
            assert(requests.remove(refused)[count - 2] == requests[count - 1]);
        }
    }
}

/// The stored instant never runs ahead of the requests of a run.
proof fn lemma_time_stays_behind(
    per_token: int,
    per_bucket: int,
    time: int,
    requests: Seq<(int, nat)>,
    count: int,
)
    requires
        in_order(requests),
        0 <= count < requests.len(),
        time <= requests[0].0,
    ensures
        time_before(per_token, per_bucket, time, requests, count) <= requests[count].0,
    decreases count,
{
    if count > 0 {
        lemma_time_stays_behind(per_token, per_bucket, time, requests, count - 1);
        assert(requests[count - 1].0 <= requests[count].0);
    }
}

/// Every token granted moves the stored instant by the time of one token, and
/// no grant moves it past the last request.
proof fn lemma_granted_within(
    per_token: int,
    per_bucket: int,
    time: int,
    requests: Seq<(int, nat)>,
    from: int,
    to: int,
)
    requires
        per_token >= 0,
        per_bucket >= 0,
        0 <= from < to <= requests.len(),
        in_order(requests),
        requests[from].0 >= per_bucket,
    ensures
        requests[from].0 <= requests[to - 1].0,
        ({
            let granted = granted_between(per_token, per_bucket, time, requests, from, to);
            let reached = time_before(per_token, per_bucket, time, requests, to);
            granted > 0 ==> per_token * granted <= reached - (requests[from].0 - per_bucket) && reached <= requests[to
                - 1].0
        }),
    decreases to - from,
{
    let (now, tokens) = requests[to - 1];
    let before = granted_between(per_token, per_bucket, time, requests, from, to - 1);
    assert(requests[from].0 <= now);
    assert(per_token * (before + tokens) == per_token * before + per_token * tokens) by (nonlinear_arith);
    assert(per_token * tokens >= 0) by (nonlinear_arith)
        requires
            per_token >= 0,
    ;
    assert(per_token * 0 == 0);
    if to - 1 > from {
        lemma_granted_within(per_token, per_bucket, time, requests, from, to - 1);
        assert(requests[to - 2].0 <= now);
    } else {
        assert(before == 0);
    }
}

} // verus!
