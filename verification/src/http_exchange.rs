//! A request to an upstream and its answer, with what they count for.

use crate::headers::Headers;
use crate::http_channel::{
    body_of, count_outcome, map_upstream_result, status_of, HttpChannel, RequestCounts, Retries, UpstreamError,
    UpstreamOutcome, UpstreamReply,
};
use crate::http_filters::{is_synthetic, EventFailure, HttpVersion, ResponseFlags};
use crate::metrics::clusters::ClusterMetrics;
use crate::metrics::custom::{all_saw, CustomMetrics, MetricsHook};
use crate::metrics::{count_down, count_up, counter_added, counter_subtracted, Metric};
use crate::partition_key::{collect_custom_labels, custom_labels, PartitionKey, SourceHeaderName};
use crate::sharded::{
    added, counted, law_adding_counts_once, law_subtracting_stops_at_zero, law_subtracting_undoes_adding, one_label,
    subtracted, total, well_sharded, CounterView, LabelsView, ShardedU64,
};
use vstd::prelude::*;

verus! {

/// The labels of the metrics of a cluster.
pub open spec fn cluster_labels(name: Seq<char>) -> LabelsView {
    seq![("cluster"@, name)]
}

/// Whether a counter was counted up by a number, or stayed as it was where the number is zero.
pub open spec fn counted_if_any(
    before: Option<Metric<ShardedU64>>,
    after: Option<Metric<ShardedU64>>,
    value: u64,
    shard: u64,
    labels: LabelsView,
) -> bool {
    if value > 0 {
        counter_added(before, after, value, shard, labels)
    } else {
        after == before
    }
}

/// Whether a request that began was counted among those under way.
pub open spec fn request_begun(before: ClusterMetrics, after: ClusterMetrics, cluster: Seq<char>, shard: u64) -> bool {
    &&& counter_added(before.upstream_rq_active, after.upstream_rq_active, 1, shard, cluster_labels(cluster))
    &&& after == (ClusterMetrics { upstream_rq_active: after.upstream_rq_active, ..before })
}

/// What an outcome counts for.
pub open spec fn counts_of(outcome: UpstreamOutcome, retries: Retries) -> RequestCounts {
    RequestCounts {
        total: if outcome is Ok {
            1
        } else {
            0
        },
        retry: retries.requests as u64,
        per_try_timeout: retries.timeouts as u64,
        timeout: if outcome matches Err(Some(UpstreamError::RouteTimeout)) {
            1
        } else {
            0
        },
    }
}

/// Whether a request that ended was counted for what it came to, and is no
/// longer among those under way.
pub open spec fn request_ended(
    before: ClusterMetrics,
    after: ClusterMetrics,
    counts: RequestCounts,
    cluster: Seq<char>,
    shard: u64,
) -> bool {
    let labels = cluster_labels(cluster);
    &&& counted_if_any(before.upstream_rq_total, after.upstream_rq_total, counts.total, shard, labels)
    &&& counted_if_any(before.upstream_rq_retry, after.upstream_rq_retry, counts.retry, shard, labels)
    &&& counted_if_any(
        before.upstream_rq_per_try_timeout,
        after.upstream_rq_per_try_timeout,
        counts.per_try_timeout,
        shard,
        labels,
    )
    &&& counted_if_any(before.upstream_rq_timeout, after.upstream_rq_timeout, counts.timeout, shard, labels)
    &&& counter_subtracted(before.upstream_rq_active, after.upstream_rq_active, 1, shard, labels)
    &&& after == (ClusterMetrics {
        upstream_rq_total: after.upstream_rq_total,
        upstream_rq_retry: after.upstream_rq_retry,
        upstream_rq_per_try_timeout: after.upstream_rq_per_try_timeout,
        upstream_rq_timeout: after.upstream_rq_timeout,
        upstream_rq_active: after.upstream_rq_active,
        ..before
    })
}

fn count_if_any(slot: &mut Option<Metric<ShardedU64>>, value: u64, shard: u64, key: &Vec<(String, String)>)
    ensures
        counted_if_any(*old(slot), *final(slot), value, shard, crate::sharded::labels_view(key@)),
{
    if value > 0 {
        count_up(slot, value, shard, key);
    }
}

impl HttpChannel {
    /// Counts a request that begins: it is under way, and the metrics over
    /// header fields look at its fields.
    pub fn begin_request(
        &self,
        headers: &Headers,
        custom_keys: &Vec<PartitionKey<SourceHeaderName>>,
        custom: &mut Option<CustomMetrics>,
        clusters: &mut ClusterMetrics,
        shard: u64,
    )
        ensures
            request_begun(*old(clusters), *final(clusters), self.cluster_name@, shard),
            match *old(custom) {
                None => *final(custom) is None,
                Some(before) => {
                    &&& *final(custom) is Some
                    &&& all_saw(
                        before.at(MetricsHook::UpstreamRequest),
                        (*final(custom))->0.at(MetricsHook::UpstreamRequest),
                        headers@,
                        custom_labels(custom_keys@, headers@, custom_keys@.len() as int),
                        shard,
                    )
                    &&& forall|other: MetricsHook|
                        other != MetricsHook::UpstreamRequest ==> #[trigger] (*final(custom))->0.at(other) == before.at(
                            other,
                        )
                },
            },
    {
        let key: Vec<(String, String)> = one_label("cluster", self.cluster_name.as_str());
        count_up(&mut clusters.upstream_rq_active, 1, shard, &key);
        match custom {
            Some(metrics) => {
                let labels: Vec<(String, String)> = collect_custom_labels(custom_keys, headers);
                metrics.with_headers(MetricsHook::UpstreamRequest, headers, &labels, shard);
            },
            None => {},
        }
    }

    /// Counts that a circuit breaker stopped a retry.
    pub fn count_retry_overflow(&self, clusters: &mut ClusterMetrics, shard: u64)
        ensures
            counter_added(
                old(clusters).upstream_rq_retry_overflow,
                final(clusters).upstream_rq_retry_overflow,
                1,
                shard,
                cluster_labels(self.cluster_name@),
            ),
            *final(clusters) == (ClusterMetrics {
                upstream_rq_retry_overflow: final(clusters).upstream_rq_retry_overflow,
                ..*old(clusters)
            }),
    {
        let key: Vec<(String, String)> = one_label("cluster", self.cluster_name.as_str());
        count_up(&mut clusters.upstream_rq_retry_overflow, 1, shard, &key);
    }

    /// What the client gets of a request that ended, after the request has
    /// been counted for what it came to.
    pub fn to_response(
        &self,
        outcome: UpstreamOutcome,
        retries: Retries,
        flags: ResponseFlags,
        elapsed: u128,
        route_timeout: Option<u128>,
        version: HttpVersion,
        clusters: &mut ClusterMetrics,
        shard: u64,
    ) -> (reply: Option<UpstreamReply>)
        ensures
            request_ended(
                *old(clusters),
                *final(clusters),
                counts_of(outcome, retries),
                self.cluster_name@,
                shard,
            ),
            match outcome {
                Ok(_) => reply matches Some(UpstreamReply::Forward { body_timeout }) && body_timeout == (
                match route_timeout {
                    Some(t) => if t >= elapsed {
                        Some((t - elapsed) as u128)
                    } else {
                        Some(0u128)
                    },
                    None => None,
                }),
                Err(Some(error)) => reply matches Some(UpstreamReply::Synthetic(response)) && is_synthetic(
                    response,
                    status_of(error),
                    body_of(error),
                    version,
                    flags,
                ) && response.failure == Some(EventFailure::Upstream(error)),
                Err(None) => reply is None,
            },
    {
        let key: Vec<(String, String)> = one_label("cluster", self.cluster_name.as_str());
        let counts: RequestCounts = count_outcome(&outcome, retries);
        count_if_any(&mut clusters.upstream_rq_total, counts.total, shard, &key);
        count_if_any(&mut clusters.upstream_rq_retry, counts.retry, shard, &key);
        count_if_any(&mut clusters.upstream_rq_per_try_timeout, counts.per_try_timeout, shard, &key);
        count_if_any(&mut clusters.upstream_rq_timeout, counts.timeout, shard, &key);
        count_down(&mut clusters.upstream_rq_active, 1, shard, &key);
        map_upstream_result(outcome, flags, elapsed, route_timeout, version)
    }
}

/// A request that began and ended leaves the number of requests under way as
/// it was.
pub proof fn law_active_requests_balance(v: CounterView, shard: u64, cluster: Seq<char>)
    requires
        well_sharded(v),
        counted(v, shard, cluster_labels(cluster)) < u64::MAX,
    ensures
        total(
            subtracted(added(v, 1, shard, cluster_labels(cluster)), 1, shard, cluster_labels(cluster)),
            cluster_labels(cluster),
        ) == total(v, cluster_labels(cluster)),
{
    law_subtracting_undoes_adding(v, 1, shard, cluster_labels(cluster));
}

/// Whether a counter is set up and has room for some more under some labels.
pub open spec fn takes(slot: Option<Metric<ShardedU64>>, shard: u64, labels: LabelsView, more: int) -> bool {
    slot matches Some(metric) && well_sharded(metric.value@) && counted(metric.value@, shard, labels) + more <= u64::MAX
}

/// What a counter shows under some labels.
pub open spec fn shown_by(slot: Option<Metric<ShardedU64>>, labels: LabelsView) -> int {
    total(slot->0.value@, labels)
}

/// When a request has ended, its cluster has counted it once where an upstream
/// answered, has counted each of the attempts that were repeated and each of
/// those that ran out of time, has counted a timeout where the time of the
/// route was up, and has one request less to wait for.
pub proof fn law_request_is_counted_for_what_it_was(
    before: ClusterMetrics,
    after: ClusterMetrics,
    outcome: UpstreamOutcome,
    retries: Retries,
    cluster: Seq<char>,
    shard: u64,
)
    requires
        request_ended(before, after, counts_of(outcome, retries), cluster, shard),
        takes(before.upstream_rq_total, shard, seq![("cluster"@, cluster)], 1),
        takes(before.upstream_rq_retry, shard, seq![("cluster"@, cluster)], retries.requests as int),
        takes(before.upstream_rq_per_try_timeout, shard, seq![("cluster"@, cluster)], retries.timeouts as int),
        takes(before.upstream_rq_timeout, shard, seq![("cluster"@, cluster)], 1),
        before.upstream_rq_active is Some,
        well_sharded(before.upstream_rq_active->0.value@),
        counted(before.upstream_rq_active->0.value@, shard, seq![("cluster"@, cluster)]) > 0,
    ensures
        ({
            let labels = seq![("cluster"@, cluster)];
            &&& shown_by(after.upstream_rq_total, labels) == shown_by(before.upstream_rq_total, labels) + (
            if outcome is Ok {
                1int
            } else {
                0int
            })
            &&& shown_by(after.upstream_rq_retry, labels) == shown_by(before.upstream_rq_retry, labels)
                + retries.requests
            &&& shown_by(after.upstream_rq_per_try_timeout, labels) == shown_by(
                before.upstream_rq_per_try_timeout,
                labels,
            ) + retries.timeouts
            &&& shown_by(after.upstream_rq_timeout, labels) == shown_by(before.upstream_rq_timeout, labels) + (
            if outcome is Err && outcome->Err_0 is Some && outcome->Err_0->0 is RouteTimeout {
                1int
            } else {
                0int
            })
            &&& shown_by(after.upstream_rq_active, labels) == shown_by(before.upstream_rq_active, labels) - 1
        }),
{
    let labels = seq![("cluster"@, cluster)];
    law_adding_counts_once(before.upstream_rq_total->0.value@, 1, shard, labels, labels);
    law_adding_counts_once(before.upstream_rq_retry->0.value@, retries.requests as u64, shard, labels, labels);
    law_adding_counts_once(
        before.upstream_rq_per_try_timeout->0.value@,
        retries.timeouts as u64,
        shard,
        labels,
        labels,
    );
    law_adding_counts_once(before.upstream_rq_timeout->0.value@, 1, shard, labels, labels);
    law_subtracting_stops_at_zero(before.upstream_rq_active->0.value@, 1, shard, labels);
}

/// A request that begins is one more that its cluster waits for, and nothing
/// else is counted.
pub proof fn law_begun_request_is_waited_for(
    before: ClusterMetrics,
    after: ClusterMetrics,
    cluster: Seq<char>,
    other: Seq<char>,
    shard: u64,
)
    requires
        request_begun(before, after, cluster, shard),
        takes(before.upstream_rq_active, shard, seq![("cluster"@, cluster)], 1),
        other != cluster,
    ensures
        shown_by(after.upstream_rq_active, seq![("cluster"@, cluster)]) == shown_by(
            before.upstream_rq_active,
            seq![("cluster"@, cluster)],
        ) + 1,
        shown_by(after.upstream_rq_active, seq![("cluster"@, other)]) == shown_by(
            before.upstream_rq_active,
            seq![("cluster"@, other)],
        ),
        after.upstream_rq_total == before.upstream_rq_total,
        after.upstream_rq_retry == before.upstream_rq_retry,
        after.upstream_rq_timeout == before.upstream_rq_timeout,
{
    let labels = seq![("cluster"@, cluster)];
    let others = seq![("cluster"@, other)];
    assert(labels[0].1 != others[0].1);
    law_adding_counts_once(before.upstream_rq_active->0.value@, 1, shard, labels, others);
}

} // verus!
