//! Metrics over header fields of requests, which can be asked for at any time.

use crate::headers::{header_text, FieldName, Fields, Headers};
use crate::metrics::custom::{header_number, replace_dashes, undashed};
use crate::metrics::{described, Metric, PREFIX_HTTP};
use crate::sharded::{
    added, counted, is_rising, labels_view, law_adding_counts_once, nothing_counted, nothing_recorded, recorded, total,
    well_sharded, with_label, LabelsView, ShardedHistogram, ShardedU64,
};
use crate::text::parse_u64;
use vstd::prelude::*;

verus! {

/// What a metric is over, and its words.
#[derive(Debug)]
pub struct MetricInfo {
    pub name: String,
    pub description: String,
    pub http_header_name: FieldName,
    /// The bounds of a histogram.
    pub buckets: Vec<u64>,
}

/// A metric over a header field.
#[derive(Debug)]
pub enum DynamicMetric {
    Counter(MetricInfo),
    Histogram(MetricInfo),
}

/// A metric with the field that it is over, and the label for the values of the field.
#[derive(Debug)]
pub struct HeaderMetric<T> {
    pub header_name: FieldName,
    pub label_name: String,
    pub metric: Metric<T>,
}

/// The metrics over header fields of requests.
pub struct DynamicMetrics {
    counters: Vec<HeaderMetric<ShardedU64>>,
    histograms: Vec<HeaderMetric<ShardedHistogram>>,
}

/// Whether a metric has the words that it was asked for with.
pub open spec fn is_asked<T>(made: HeaderMetric<T>, info: MetricInfo) -> bool {
    &&& described(made.metric, PREFIX_HTTP@, info.name@, info.description@)
    &&& made.header_name@ == info.http_header_name@
    &&& made.label_name@ == undashed(info.http_header_name@)
}

/// Whether a counter is as asked for and has counted nothing.
pub open spec fn is_new_counter(made: HeaderMetric<ShardedU64>, asked: DynamicMetric) -> bool {
    &&& asked matches DynamicMetric::Counter(info)
    &&& is_asked(made, info)
    &&& made.metric.value@ == nothing_counted()
}

/// Whether a histogram is as asked for and has counted nothing.
pub open spec fn is_new_histogram(made: HeaderMetric<ShardedHistogram>, asked: DynamicMetric) -> bool {
    &&& asked matches DynamicMetric::Histogram(info)
    &&& is_asked(made, info)
    &&& made.metric.value@ == nothing_recorded(made.metric.value@.buckets)
    &&& is_rising(made.metric.value@.buckets)
    &&& made.metric.value@.buckets.to_multiset() == info.buckets@.to_multiset()
}

/// The counters among some metrics, in their order.
pub open spec fn counters_in(metrics: Seq<DynamicMetric>) -> Seq<DynamicMetric>
    decreases metrics.len(),
{
    if metrics.len() == 0 {
        Seq::empty()
    } else if metrics.last() is Counter {
        counters_in(metrics.drop_last()).push(metrics.last())
    } else {
        counters_in(metrics.drop_last())
    }
}

/// The histograms among some metrics, in their order.
pub open spec fn histograms_in(metrics: Seq<DynamicMetric>) -> Seq<DynamicMetric>
    decreases metrics.len(),
{
    if metrics.len() == 0 {
        Seq::empty()
    } else if metrics.last() is Histogram {
        histograms_in(metrics.drop_last()).push(metrics.last())
    } else {
        histograms_in(metrics.drop_last())
    }
}

/// Whether metrics are those asked for, each kind in its order, and nothing was counted.
pub open spec fn are_new(made: DynamicMetrics, metrics: Seq<DynamicMetric>) -> bool {
    let counters = counters_in(metrics);
    let histograms = histograms_in(metrics);
    &&& made.spec_counters().len() == counters.len()
    &&& forall|i: int| 0 <= i < counters.len() ==> is_new_counter(#[trigger] made.spec_counters()[i], counters[i])
    &&& made.spec_histograms().len() == histograms.len()
    &&& forall|i: int|
        0 <= i < histograms.len() ==> is_new_histogram(#[trigger] made.spec_histograms()[i], histograms[i])
}

/// Whether two metrics differ at most in what they have counted.
pub open spec fn same_words<T>(before: HeaderMetric<T>, after: HeaderMetric<T>) -> bool {
    &&& after.header_name@ == before.header_name@
    &&& after.label_name@ == before.label_name@
    &&& described(after.metric, before.metric.prefix@, before.metric.name@, before.metric.descr@)
}

/// Whether a counter has looked at the fields of a request.
pub open spec fn counter_saw(
    before: HeaderMetric<ShardedU64>,
    after: HeaderMetric<ShardedU64>,
    fields: Fields,
    extra: LabelsView,
    shard: u64,
) -> bool {
    &&& same_words(before, after)
    &&& after.metric.value@ == (match header_text(fields, before.header_name@) {
        Some(text) => added(before.metric.value@, 1, shard, extra.push((before.label_name@, text))),
        None => before.metric.value@,
    })
}

/// Whether a histogram has looked at the fields of a request.
pub open spec fn histogram_saw(
    before: HeaderMetric<ShardedHistogram>,
    after: HeaderMetric<ShardedHistogram>,
    fields: Fields,
    extra: LabelsView,
    shard: u64,
) -> bool {
    &&& same_words(before, after)
    &&& after.metric.value@ == (match header_number(fields, before.header_name@) {
        Some(n) => recorded(before.metric.value@, n, shard, extra),
        None => before.metric.value@,
    })
}

impl DynamicMetrics {
    pub closed spec fn spec_counters(&self) -> Seq<HeaderMetric<ShardedU64>> {
        self.counters@
    }

    pub closed spec fn spec_histograms(&self) -> Seq<HeaderMetric<ShardedHistogram>> {
        self.histograms@
    }

    pub fn counters(&self) -> (counters: &Vec<HeaderMetric<ShardedU64>>)
        ensures
            counters@ == self.spec_counters(),
    {
        &self.counters
    }

    pub fn histograms(&self) -> (histograms: &Vec<HeaderMetric<ShardedHistogram>>)
        ensures
            histograms@ == self.spec_histograms(),
    {
        &self.histograms
    }

    /// The metrics that are asked for.
    pub fn new(metrics: &Vec<DynamicMetric>) -> (made: DynamicMetrics)
        ensures
            are_new(made, metrics@),
    {
        let mut made = DynamicMetrics { counters: Vec::new(), histograms: Vec::new() };
        let mut i: usize = 0;
        while i < metrics.len()
            invariant
                i <= metrics@.len(),
                are_new(made, metrics@.take(i as int)),
            decreases metrics@.len() - i,
        {
            assert(metrics@.take(i + 1).drop_last() =~= metrics@.take(i as int));
            assert(metrics@.take(i + 1).last() == metrics@[i as int]);
            match &metrics[i] {
                DynamicMetric::Counter(info) => {
                    made.counters.push(
                        HeaderMetric {
                            header_name: info.http_header_name.copy(),
                            label_name: replace_dashes(info.http_header_name.as_str()),
                            metric: Metric::new(
                                PREFIX_HTTP,
                                info.name.as_str(),
                                info.description.as_str(),
                                ShardedU64::new(),
                            ),
                        },
                    );
                },
                DynamicMetric::Histogram(info) => {
                    made.histograms.push(
                        HeaderMetric {
                            header_name: info.http_header_name.copy(),
                            label_name: replace_dashes(info.http_header_name.as_str()),
                            metric: Metric::new(
                                PREFIX_HTTP,
                                info.name.as_str(),
                                info.description.as_str(),
                                ShardedHistogram::new(&info.buckets),
                            ),
                        },
                    );
                },
            }
            i = i + 1;
        }
        assert(metrics@.take(metrics@.len() as int) =~= metrics@);
        made
    }

    fn see_counters(&mut self, headers: &Headers, extra: &Vec<(String, String)>, shard_id: u64)
        ensures
            final(self).histograms == old(self).histograms,
            final(self).counters@.len() == old(self).counters@.len(),
            forall|i: int|
                0 <= i < old(self).counters@.len() ==> counter_saw(
                    old(self).counters@[i],
                    #[trigger] final(self).counters@[i],
                    headers@,
                    labels_view(extra@),
                    shard_id,
                ),
    {
        let mut i: usize = 0;
        while i < self.counters.len()
            invariant
                i <= self.counters@.len(),
                self.counters@.len() == old(self).counters@.len(),
                self.histograms == old(self).histograms,
                forall|k: int|
                    0 <= k < i ==> counter_saw(
                        old(self).counters@[k],
                        #[trigger] self.counters@[k],
                        headers@,
                        labels_view(extra@),
                        shard_id,
                    ),
                forall|k: int|
                    i <= k < self.counters@.len() ==> #[trigger] self.counters@[k] == old(self).counters@[k],
            decreases self.counters@.len() - i,
        {
            match headers.get_text(&self.counters[i].header_name) {
                Some(text) => {
                    let labels: Vec<(String, String)> = with_label(
                        extra,
                        self.counters[i].label_name.as_str(),
                        text.as_str(),
                    );
                    self.counters[i].metric.value.add(1, shard_id, &labels);
                },
                None => {},
            }
            i = i + 1;
        }
    }

    /// Looks at the fields of a request.
    pub fn with_request_headers(&mut self, headers: &Headers, extra: &Vec<(String, String)>, shard_id: u64)
        ensures
            final(self).spec_counters().len() == old(self).spec_counters().len(),
            forall|i: int|
                0 <= i < old(self).spec_counters().len() ==> counter_saw(
                    old(self).spec_counters()[i],
                    #[trigger] final(self).spec_counters()[i],
                    headers@,
                    labels_view(extra@),
                    shard_id,
                ),
            final(self).spec_histograms().len() == old(self).spec_histograms().len(),
            forall|i: int|
                0 <= i < old(self).spec_histograms().len() ==> histogram_saw(
                    old(self).spec_histograms()[i],
                    #[trigger] final(self).spec_histograms()[i],
                    headers@,
                    labels_view(extra@),
                    shard_id,
                ),
    {
        self.see_counters(headers, extra, shard_id);
        let ghost counted = self.counters;
        let mut i: usize = 0;
        while i < self.histograms.len()
            invariant
                i <= self.histograms@.len(),
                self.histograms@.len() == old(self).histograms@.len(),
                self.counters == counted,
                forall|k: int|
                    0 <= k < i ==> histogram_saw(
                        old(self).histograms@[k],
                        #[trigger] self.histograms@[k],
                        headers@,
                        labels_view(extra@),
                        shard_id,
                    ),
                forall|k: int|
                    i <= k < self.histograms@.len() ==> #[trigger] self.histograms@[k] == old(self).histograms@[k],
            decreases self.histograms@.len() - i,
        {
            match headers.get_text(&self.histograms[i].header_name) {
                Some(text) => match parse_u64(text.as_str()) {
                    Some(n) => {
                        self.histograms[i].metric.value.record(n, shard_id, extra);
                    },
                    None => {},
                },
                None => {},
            }
            i = i + 1;
        }
    }
}

/// Sets the metrics up, once, where any are asked for.
pub fn init_metrics(slot: &mut Option<DynamicMetrics>, config: &Vec<DynamicMetric>)
    ensures
        if *old(slot) is Some || config@.len() == 0 {
            *final(slot) == *old(slot)
        } else {
            *final(slot) is Some && are_new((*final(slot))->0, config@)
        },
{
    if slot.is_none() && config.len() > 0 {
        *slot = Some(DynamicMetrics::new(config));
    }
}

/// The metrics are taken over kind by kind, each kind in its order and nothing else.
pub proof fn law_dynamic_metrics_are_taken_by_kind(metrics: Seq<DynamicMetric>)
    ensures
        counters_in(metrics) == metrics.filter(|metric: DynamicMetric| metric is Counter),
        histograms_in(metrics) == metrics.filter(|metric: DynamicMetric| metric is Histogram),
        counters_in(metrics).len() + histograms_in(metrics).len() == metrics.len(),
    decreases metrics.len(),
{
    reveal(Seq::filter);
    if metrics.len() > 0 {
        law_dynamic_metrics_are_taken_by_kind(metrics.drop_last());
    }
}

/// A message that has the field of a counter counts once under its value, and
/// under nothing else; one without the field does not count.
pub proof fn law_dynamic_counter_counts_its_field(
    before: HeaderMetric<ShardedU64>,
    after: HeaderMetric<ShardedU64>,
    fields: Fields,
    text: Seq<char>,
    extra: LabelsView,
    shard: u64,
    other: LabelsView,
)
    requires
        counter_saw(before, after, fields, extra, shard),
        well_sharded(before.metric.value@),
        counted(before.metric.value@, shard, extra.push((before.label_name@, text))) < u64::MAX,
    ensures
        header_text(fields, before.header_name@) == Some(text) ==> total(
            after.metric.value@,
            extra.push((before.label_name@, text)),
        ) == total(before.metric.value@, extra.push((before.label_name@, text))) + 1,
        header_text(fields, before.header_name@) == Some(text) && other != extra.push((before.label_name@, text))
            ==> total(after.metric.value@, other) == total(before.metric.value@, other),
        header_text(fields, before.header_name@) is None ==> after.metric.value@ == before.metric.value@,
{
    law_adding_counts_once(before.metric.value@, 1, shard, extra.push((before.label_name@, text)), other);
}

/// A histogram takes in the number of the field: its sum grows by that number
/// and its count by one.
pub proof fn law_dynamic_histogram_takes_the_number(
    before: HeaderMetric<ShardedHistogram>,
    after: HeaderMetric<ShardedHistogram>,
    fields: Fields,
    n: u64,
    extra: LabelsView,
    shard: u64,
)
    requires
        histogram_saw(before, after, fields, extra, shard),
        header_number(fields, before.header_name@) == Some(n),
        well_sharded(before.metric.value@.sum),
        well_sharded(before.metric.value@.count),
        counted(before.metric.value@.sum, shard, extra) + n <= u64::MAX,
        counted(before.metric.value@.count, shard, extra) < u64::MAX,
    ensures
        total(after.metric.value@.sum, extra) == total(before.metric.value@.sum, extra) + n,
        total(after.metric.value@.count, extra) == total(before.metric.value@.count, extra) + 1,
{
    law_adding_counts_once(before.metric.value@.sum, n, shard, extra, extra);
    law_adding_counts_once(before.metric.value@.count, 1, shard, extra, extra);
}

} // verus!
