//! What the metrics hold at one moment.
//!
//! The numbers of a metric come out of a hash map in no particular order, so
//! a snapshot fixes one order for the text that is made of it.

use crate::metrics::custom::{CustomMetricCounters, CustomMetrics, HeaderMetric};
use crate::metrics::Metric;
use crate::sharded::{counters_view, lists_counts, lists_gauges, Gauge, ShardedHistogram, ShardedU64};
use vstd::prelude::*;

verus! {

/// Numbers with their labels.
pub type Numbers = Vec<(Vec<(String, String)>, u64)>;

/// The numbers of a metric.
#[derive(Debug)]
pub enum SnapshotData {
    /// Numbers that were counted. Those that can also go down are shown as a gauge.
    Counter { is_gauge: bool, list: Numbers },
    /// Numbers that were set.
    Gauge { list: Numbers },
    /// Numbers that were counted by size.
    Histogram { buckets: Vec<u64>, counts: Vec<Numbers>, sum: Numbers, count: Numbers },
}

/// A metric at one moment.
#[derive(Debug)]
pub struct Snapshot {
    pub prefix: String,
    pub name: String,
    pub descr: String,
    pub data: SnapshotData,
}

/// A metric that is shown, where it is set up.
pub ghost enum Source {
    Counter(Option<Metric<ShardedU64>>),
    GaugeCounter(Option<Metric<ShardedU64>>),
    Gauge(Option<Metric<Gauge>>),
    Histogram(Option<Metric<ShardedHistogram>>),
}

/// Whether a snapshot has the words of a metric.
pub open spec fn has_words<T>(shot: Snapshot, metric: Metric<T>) -> bool {
    shot.prefix@ == metric.prefix@ && shot.name@ == metric.name@ && shot.descr@ == metric.descr@
}

/// Whether a snapshot holds the numbers of a counter.
pub open spec fn shows_counter(shot: Snapshot, metric: Metric<ShardedU64>, as_gauge: bool) -> bool {
    &&& has_words(shot, metric)
    &&& shot.data matches SnapshotData::Counter { is_gauge, list }
    &&& is_gauge == as_gauge
    &&& lists_counts(list@, metric.value@)
}

/// Whether a snapshot holds the numbers of a gauge.
pub open spec fn shows_gauge(shot: Snapshot, metric: Metric<Gauge>) -> bool {
    &&& has_words(shot, metric)
    &&& shot.data matches SnapshotData::Gauge { list }
    &&& lists_gauges(list@, metric.value@)
}

/// Whether a snapshot holds the numbers of a histogram.
pub open spec fn shows_histogram(shot: Snapshot, metric: Metric<ShardedHistogram>) -> bool {
    &&& has_words(shot, metric)
    &&& shot.data matches SnapshotData::Histogram { buckets, counts, sum, count }
    &&& buckets@ == metric.value@.buckets
    &&& counts@.len() == buckets@.len()
    &&& forall|i: int| 0 <= i < counts@.len() ==> lists_counts((#[trigger] counts@[i])@, metric.value@.counts[i])
    &&& lists_counts(sum@, metric.value@.sum)
    &&& lists_counts(count@, metric.value@.count)
}

/// Whether a snapshot shows a metric: none where it is not set up.
pub open spec fn shows(shot: Option<Snapshot>, source: Source) -> bool {
    match source {
        Source::Counter(slot) => match slot {
            Some(m) => shot is Some && shows_counter(shot->0, m, false),
            None => shot is None,
        },
        Source::GaugeCounter(slot) => match slot {
            Some(m) => shot is Some && shows_counter(shot->0, m, true),
            None => shot is None,
        },
        Source::Gauge(slot) => match slot {
            Some(m) => shot is Some && shows_gauge(shot->0, m),
            None => shot is None,
        },
        Source::Histogram(slot) => match slot {
            Some(m) => shot is Some && shows_histogram(shot->0, m),
            None => shot is None,
        },
    }
}

/// Whether snapshots show metrics, in their order.
pub open spec fn covers(shots: Seq<Option<Snapshot>>, sources: Seq<Source>) -> bool {
    &&& shots.len() == sources.len()
    &&& forall|i: int| 0 <= i < shots.len() ==> shows(#[trigger] shots[i], sources[i])
}

fn of_counter(metric: &Metric<ShardedU64>, is_gauge: bool) -> (shot: Snapshot)
    ensures
        shows_counter(shot, *metric, is_gauge),
{
    Snapshot {
        prefix: metric.prefix.clone(),
        name: metric.name.clone(),
        descr: metric.descr.clone(),
        data: SnapshotData::Counter { is_gauge, list: metric.value.load_all() },
    }
}

fn of_gauge(metric: &Metric<Gauge>) -> (shot: Snapshot)
    ensures
        shows_gauge(shot, *metric),
{
    Snapshot {
        prefix: metric.prefix.clone(),
        name: metric.name.clone(),
        descr: metric.descr.clone(),
        data: SnapshotData::Gauge { list: metric.value.load_all() },
    }
}

fn of_histogram(metric: &Metric<ShardedHistogram>) -> (shot: Snapshot)
    ensures
        shows_histogram(shot, *metric),
{
    let bounds: &Vec<u64> = metric.value.buckets();
    let cells: &Vec<ShardedU64> = metric.value.counts();
    let mut buckets: Vec<u64> = Vec::new();
    let mut counts: Vec<Numbers> = Vec::new();
    let mut i: usize = 0;
    while i < bounds.len()
        invariant
            i <= bounds@.len(),
            cells@.len() == bounds@.len(),
            buckets@.len() == i,
            counts@.len() == i,
            forall|k: int| 0 <= k < i ==> buckets@[k] == bounds@[k],
            forall|k: int| 0 <= k < i ==> lists_counts((#[trigger] counts@[k])@, counters_view(cells@)[k]),
        decreases bounds@.len() - i,
    {
        buckets.push(bounds[i]);
        counts.push(cells[i].load_all());
        i = i + 1;
    }
    assert(buckets@ =~= bounds@);
    Snapshot {
        prefix: metric.prefix.clone(),
        name: metric.name.clone(),
        descr: metric.descr.clone(),
        data: SnapshotData::Histogram {
            buckets,
            counts,
            sum: metric.value.sum().load_all(),
            count: metric.value.count().load_all(),
        },
    }
}

/// A snapshot of a counter, where it is set up.
pub fn counter_snapshot(slot: &Option<Metric<ShardedU64>>, is_gauge: bool) -> (shot: Option<Snapshot>)
    ensures
        !is_gauge ==> shows(shot, Source::Counter(*slot)),
        is_gauge ==> shows(shot, Source::GaugeCounter(*slot)),
{
    match slot {
        Some(metric) => Some(of_counter(metric, is_gauge)),
        None => None,
    }
}

/// A snapshot of a gauge, where it is set up.
pub fn gauge_snapshot(slot: &Option<Metric<Gauge>>) -> (shot: Option<Snapshot>)
    ensures
        shows(shot, Source::Gauge(*slot)),
{
    match slot {
        Some(metric) => Some(of_gauge(metric)),
        None => None,
    }
}

/// A snapshot of a histogram, where it is set up.
pub fn histogram_snapshot(slot: &Option<Metric<ShardedHistogram>>) -> (shot: Option<Snapshot>)
    ensures
        shows(shot, Source::Histogram(*slot)),
{
    match slot {
        Some(metric) => Some(of_histogram(metric)),
        None => None,
    }
}

/// Puts a snapshot behind others.
pub fn push_snapshot(
    shots: &mut Vec<Option<Snapshot>>,
    shot: Option<Snapshot>,
    Ghost(done): Ghost<Seq<Source>>,
    Ghost(next): Ghost<Source>,
)
    requires
        covers(old(shots)@, done),
        shows(shot, next),
    ensures
        covers(final(shots)@, done.push(next)),
{
    shots.push(shot);
}

/// Puts more snapshots behind others.
pub fn append_snapshots(
    shots: &mut Vec<Option<Snapshot>>,
    more: &mut Vec<Option<Snapshot>>,
    Ghost(done): Ghost<Seq<Source>>,
    Ghost(next): Ghost<Seq<Source>>,
)
    requires
        covers(old(shots)@, done),
        covers(old(more)@, next),
    ensures
        covers(final(shots)@, done + next),
{
    shots.append(more);
    assert(shots@ =~= old(shots)@ + old(more)@);
}

/// The counters of a hook.
pub open spec fn hook_counters(list: Seq<HeaderMetric<ShardedU64>>) -> Seq<Source> {
    Seq::new(list.len(), |i: int| Source::Counter(Some(list[i].metric)))
}

/// The histograms of a hook.
pub open spec fn hook_histograms(list: Seq<HeaderMetric<ShardedHistogram>>) -> Seq<Source> {
    Seq::new(list.len(), |i: int| Source::Histogram(Some(list[i].metric)))
}

/// The gauges of a hook.
pub open spec fn hook_gauges(list: Seq<HeaderMetric<Gauge>>) -> Seq<Source> {
    Seq::new(list.len(), |i: int| Source::Gauge(Some(list[i].metric)))
}

/// The metrics over header fields in the order in which they are shown: first
/// the counters of all hooks, then the histograms, then the gauges.
pub open spec fn custom_sources(custom: Option<CustomMetrics>) -> Seq<Source> {
    match custom {
        Some(c) => hook_counters(c.incoming_request.counters@) + hook_counters(c.upstream_request.counters@)
            + hook_counters(c.incoming_response.counters@) + hook_counters(c.downstream_response.counters@)
            + hook_histograms(c.incoming_request.histograms@) + hook_histograms(c.upstream_request.histograms@)
            + hook_histograms(c.incoming_response.histograms@) + hook_histograms(c.downstream_response.histograms@)
            + hook_gauges(c.incoming_request.gauges@) + hook_gauges(c.upstream_request.gauges@)
            + hook_gauges(c.incoming_response.gauges@) + hook_gauges(c.downstream_response.gauges@),
        None => Seq::empty(),
    }
}

fn push_counters(shots: &mut Vec<Option<Snapshot>>, hook: &CustomMetricCounters, Ghost(done): Ghost<Seq<Source>>)
    requires
        covers(old(shots)@, done),
    ensures
        covers(final(shots)@, done + hook_counters(hook.counters@)),
{
    let mut i: usize = 0;
    while i < hook.counters.len()
        invariant
            i <= hook.counters@.len(),
            covers(shots@, done + hook_counters(hook.counters@).take(i as int)),
        decreases hook.counters@.len() - i,
    {
        assert(hook_counters(hook.counters@).take(i + 1) =~= hook_counters(hook.counters@).take(i as int).push(
            Source::Counter(Some(hook.counters@[i as int].metric)),
        ));
        shots.push(Some(of_counter(&hook.counters[i].metric, false)));
        assert(done + hook_counters(hook.counters@).take(i + 1) =~= (done + hook_counters(hook.counters@).take(
            i as int,
        )).push(Source::Counter(Some(hook.counters@[i as int].metric))));
        i = i + 1;
    }
    assert(hook_counters(hook.counters@).take(hook.counters@.len() as int) =~= hook_counters(hook.counters@));
}

fn push_histograms(shots: &mut Vec<Option<Snapshot>>, hook: &CustomMetricCounters, Ghost(done): Ghost<Seq<Source>>)
    requires
        covers(old(shots)@, done),
    ensures
        covers(final(shots)@, done + hook_histograms(hook.histograms@)),
{
    let mut i: usize = 0;
    while i < hook.histograms.len()
        invariant
            i <= hook.histograms@.len(),
            covers(shots@, done + hook_histograms(hook.histograms@).take(i as int)),
        decreases hook.histograms@.len() - i,
    {
        shots.push(Some(of_histogram(&hook.histograms[i].metric)));
        assert(done + hook_histograms(hook.histograms@).take(i + 1) =~= (done + hook_histograms(hook.histograms@).take(
            i as int,
        )).push(Source::Histogram(Some(hook.histograms@[i as int].metric))));
        i = i + 1;
    }
    assert(hook_histograms(hook.histograms@).take(hook.histograms@.len() as int) =~= hook_histograms(hook.histograms@));
}

fn push_gauges(shots: &mut Vec<Option<Snapshot>>, hook: &CustomMetricCounters, Ghost(done): Ghost<Seq<Source>>)
    requires
        covers(old(shots)@, done),
    ensures
        covers(final(shots)@, done + hook_gauges(hook.gauges@)),
{
    let mut i: usize = 0;
    while i < hook.gauges.len()
        invariant
            i <= hook.gauges@.len(),
            covers(shots@, done + hook_gauges(hook.gauges@).take(i as int)),
        decreases hook.gauges@.len() - i,
    {
        shots.push(Some(of_gauge(&hook.gauges[i].metric)));
        assert(done + hook_gauges(hook.gauges@).take(i + 1) =~= (done + hook_gauges(hook.gauges@).take(i as int)).push(
            Source::Gauge(Some(hook.gauges@[i as int].metric)),
        ));
        i = i + 1;
    }
    assert(hook_gauges(hook.gauges@).take(hook.gauges@.len() as int) =~= hook_gauges(hook.gauges@));
}

/// What the metrics over header fields hold at the moment.
pub fn custom_snapshots(custom: &Option<CustomMetrics>) -> (shots: Vec<Option<Snapshot>>)
    ensures
        covers(shots@, custom_sources(*custom)),
{
    let mut shots: Vec<Option<Snapshot>> = Vec::new();
    match custom {
        Some(c) => {
            let ghost done = Seq::<Source>::empty();
            push_counters(&mut shots, &c.incoming_request, Ghost(done));
            let ghost done = done + hook_counters(c.incoming_request.counters@);
            push_counters(&mut shots, &c.upstream_request, Ghost(done));
            let ghost done = done + hook_counters(c.upstream_request.counters@);
            push_counters(&mut shots, &c.incoming_response, Ghost(done));
            let ghost done = done + hook_counters(c.incoming_response.counters@);
            push_counters(&mut shots, &c.downstream_response, Ghost(done));
            let ghost done = done + hook_counters(c.downstream_response.counters@);
            push_histograms(&mut shots, &c.incoming_request, Ghost(done));
            let ghost done = done + hook_histograms(c.incoming_request.histograms@);
            push_histograms(&mut shots, &c.upstream_request, Ghost(done));
            let ghost done = done + hook_histograms(c.upstream_request.histograms@);
            push_histograms(&mut shots, &c.incoming_response, Ghost(done));
            let ghost done = done + hook_histograms(c.incoming_response.histograms@);
            push_histograms(&mut shots, &c.downstream_response, Ghost(done));
            let ghost done = done + hook_histograms(c.downstream_response.histograms@);
            push_gauges(&mut shots, &c.incoming_request, Ghost(done));
            let ghost done = done + hook_gauges(c.incoming_request.gauges@);
            push_gauges(&mut shots, &c.upstream_request, Ghost(done));
            let ghost done = done + hook_gauges(c.upstream_request.gauges@);
            push_gauges(&mut shots, &c.incoming_response, Ghost(done));
            let ghost done = done + hook_gauges(c.incoming_response.gauges@);
            push_gauges(&mut shots, &c.downstream_response, Ghost(done));
            let ghost done = done + hook_gauges(c.downstream_response.gauges@);
            assert(done =~= custom_sources(*custom));
        },
        None => {},
    }
    shots
}

} // verus!
