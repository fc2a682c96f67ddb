//! Metrics over header fields, which the configuration asks for.

use crate::headers::{header_text, FieldName, Fields, Headers};
use crate::metrics::{described, Metric, PREFIX_HTTP};
use crate::sharded::{
    added, counted, labels_view, law_adding_counts_once, no_gauges, nothing_counted, nothing_recorded, recorded, total,
    well_sharded, with_label, Clearable, Gauge, LabelsView, ShardedHistogram, ShardedU64,
};
use crate::text::{parse_u64, parsed_u64};
use vstd::prelude::*;

verus! {

/// A metric over a header field.
#[derive(Debug)]
pub enum CustomMetric {
    /// Counts how often the field has each of its values.
    Counter { name: String, description: String, header_name: FieldName, attribute_name: Option<String> },
    /// Counts the numbers in the field by their size.
    Histogram {
        name: String,
        description: String,
        header_name: FieldName,
        attribute_name: Option<String>,
        buckets: Vec<u64>,
    },
    /// Keeps the number in the field that came last.
    Gauge { name: String, description: String, header_name: FieldName, attribute_name: Option<String> },
}

/// The metrics over header fields, by when the fields are looked at.
#[derive(Debug)]
pub struct CustomMetricsConfig {
    pub incoming_request: Vec<CustomMetric>,
    pub upstream_request: Vec<CustomMetric>,
    pub incoming_response: Vec<CustomMetric>,
    pub downstream_response: Vec<CustomMetric>,
}

/// When header fields are looked at.
#[derive(Debug, Clone, Copy, PartialEq, Eq, Structural)]
pub enum MetricsHook {
    IncomingRequest,
    UpstreamRequest,
    IncomingResponse,
    DownstreamResponse,
}

/// A metric with the field that it is over, and the label for the values of the field.
#[derive(Debug)]
pub struct HeaderMetric<T> {
    pub header_name: FieldName,
    pub attr_name: String,
    pub metric: Metric<T>,
}

/// A text with its dashes made into underscores.
pub open spec fn undashed(text: Seq<char>) -> Seq<char> {
    Seq::new(
        text.len(),
        |i: int|
            if text[i] == '-' {
                '_'
            } else {
                text[i]
            },
    )
}

/// The text with its dashes made into underscores.
pub fn replace_dashes(text: &str) -> (out: String)
    ensures
        out@ == undashed(text@),
{
    let n: usize = text.unicode_len();
    let mut out = String::new();
    let mut i: usize = 0;
    while i < n
        invariant
            i <= n,
            n == text@.len(),
            out@ == undashed(text@).take(i as int),
        decreases n - i,
    {
        if text.get_char(i) == '-' {
            proof {
                reveal_strlit("_");
            }
            out.append("_");
        } else {
            out.append(text.substring_char(i, i + 1));
        }
        assert(out@ =~= undashed(text@).take(i + 1));
        i = i + 1;
    }
    assert(undashed(text@).take(n as int) =~= undashed(text@));
    out
}

/// The label for the values of a field.
pub open spec fn attribute_of(attribute_name: Option<String>, header_name: Seq<char>) -> Seq<char> {
    match attribute_name {
        Some(name) => name@,
        None => undashed(header_name),
    }
}

fn attribute_text(attribute_name: &Option<String>, header_name: &FieldName) -> (attr: String)
    ensures
        attr@ == attribute_of(*attribute_name, header_name@),
{
    match attribute_name {
        Some(name) => name.clone(),
        None => replace_dashes(header_name.as_str()),
    }
}

/// Whether a metric has the words that the configuration gives it.
pub open spec fn is_configured<T>(
    header_metric: HeaderMetric<T>,
    name: String,
    description: String,
    header_name: FieldName,
    attribute_name: Option<String>,
) -> bool {
    &&& described(header_metric.metric, PREFIX_HTTP@, name@, description@)
    &&& header_metric.header_name@ == header_name@
    &&& header_metric.attr_name@ == attribute_of(attribute_name, header_name@)
}

/// Whether a counter is as configured and has counted nothing.
pub open spec fn is_new_counter(made: HeaderMetric<ShardedU64>, config: CustomMetric) -> bool {
    &&& config matches CustomMetric::Counter { name, description, header_name, attribute_name }
    &&& is_configured(made, name, description, header_name, attribute_name)
    &&& made.metric.value@ == nothing_counted()
}

/// Whether a histogram is as configured and has counted nothing.
pub open spec fn is_new_histogram(made: HeaderMetric<ShardedHistogram>, config: CustomMetric) -> bool {
    &&& config matches CustomMetric::Histogram { name, description, header_name, attribute_name, buckets }
    &&& is_configured(made, name, description, header_name, attribute_name)
    &&& made.metric.value@ == nothing_recorded(made.metric.value@.buckets)
    &&& crate::sharded::is_rising(made.metric.value@.buckets)
    &&& made.metric.value@.buckets.to_multiset() == buckets@.to_multiset()
}

/// Whether a gauge is as configured and was never set.
pub open spec fn is_new_gauge(made: HeaderMetric<Gauge>, config: CustomMetric) -> bool {
    &&& config matches CustomMetric::Gauge { name, description, header_name, attribute_name }
    &&& is_configured(made, name, description, header_name, attribute_name)
    &&& made.metric.value@ == no_gauges()
}

/// The counters among some metrics, in their order.
pub open spec fn counters_in(metrics: Seq<CustomMetric>) -> Seq<CustomMetric>
    decreases metrics.len(),
{
    if metrics.len() == 0 {
        Seq::empty()
    } else if metrics.last() is Counter {
        counters_in(metrics.drop_last()).push(metrics.last())
    } else {
        counters_in(metrics.drop_last())
    }
}

/// The histograms among some metrics, in their order.
pub open spec fn histograms_in(metrics: Seq<CustomMetric>) -> Seq<CustomMetric>
    decreases metrics.len(),
{
    if metrics.len() == 0 {
        Seq::empty()
    } else if metrics.last() is Histogram {
        histograms_in(metrics.drop_last()).push(metrics.last())
    } else {
        histograms_in(metrics.drop_last())
    }
}

/// The gauges among some metrics, in their order.
pub open spec fn gauges_in(metrics: Seq<CustomMetric>) -> Seq<CustomMetric>
    decreases metrics.len(),
{
    if metrics.len() == 0 {
        Seq::empty()
    } else if metrics.last() is Gauge {
        gauges_in(metrics.drop_last()).push(metrics.last())
    } else {
        gauges_in(metrics.drop_last())
    }
}

/// The metrics of one hook.
pub struct CustomMetricCounters {
    pub counters: Vec<HeaderMetric<ShardedU64>>,
    pub histograms: Vec<HeaderMetric<ShardedHistogram>>,
    pub gauges: Vec<HeaderMetric<Gauge>>,
}

/// Whether the metrics of a hook are those that the configuration asks for,
/// each kind in its order, and nothing was counted.
pub open spec fn are_new(made: CustomMetricCounters, metrics: Seq<CustomMetric>) -> bool {
    let counters = counters_in(metrics);
    let histograms = histograms_in(metrics);
    let gauges = gauges_in(metrics);
    &&& made.counters@.len() == counters.len()
    &&& forall|i: int| 0 <= i < counters.len() ==> is_new_counter(#[trigger] made.counters@[i], counters[i])
    &&& made.histograms@.len() == histograms.len()
    &&& forall|i: int| 0 <= i < histograms.len() ==> is_new_histogram(#[trigger] made.histograms@[i], histograms[i])
    &&& made.gauges@.len() == gauges.len()
    &&& forall|i: int| 0 <= i < gauges.len() ==> is_new_gauge(#[trigger] made.gauges@[i], gauges[i])
}

/// Whether two metrics differ at most in what they have counted.
pub open spec fn same_words<T>(before: HeaderMetric<T>, after: HeaderMetric<T>) -> bool {
    &&& after.header_name@ == before.header_name@
    &&& after.attr_name@ == before.attr_name@
    &&& described(after.metric, before.metric.prefix@, before.metric.name@, before.metric.descr@)
}

/// Whether a counter has looked at the fields of a message.
pub open spec fn counter_saw(
    before: HeaderMetric<ShardedU64>,
    after: HeaderMetric<ShardedU64>,
    fields: Fields,
    extra: LabelsView,
    shard: u64,
) -> bool {
    &&& same_words(before, after)
    &&& after.metric.value@ == (match header_text(fields, before.header_name@) {
        Some(text) => added(before.metric.value@, 1, shard, extra.push((before.attr_name@, text))),
        None => before.metric.value@,
    })
}

/// The number in a field, where it holds one.
pub open spec fn header_number(fields: Fields, name: Seq<char>) -> Option<u64> {
    match header_text(fields, name) {
        Some(text) => parsed_u64(text),
        None => None,
    }
}

/// Whether a histogram has looked at the fields of a message.
pub open spec fn histogram_saw(
    before: HeaderMetric<ShardedHistogram>,
    after: HeaderMetric<ShardedHistogram>,
    fields: Fields,
    extra: LabelsView,
    shard: u64,
) -> bool {
    &&& same_words(before, after)
    &&& after.metric.value@ == (match header_number(fields, before.header_name@) {
        Some(n) => recorded(before.metric.value@, n, shard, extra),
        None => before.metric.value@,
    })
}

/// Whether a gauge has looked at the fields of a message.
pub open spec fn gauge_saw(
    before: HeaderMetric<Gauge>,
    after: HeaderMetric<Gauge>,
    fields: Fields,
    extra: LabelsView,
) -> bool {
    &&& same_words(before, after)
    &&& after.metric.value@ == (match header_number(fields, before.header_name@) {
        Some(n) => before.metric.value@.insert(extra, n),
        None => before.metric.value@,
    })
}

/// Whether all metrics of a hook have looked at the fields of a message.
pub open spec fn all_saw(
    before: CustomMetricCounters,
    after: CustomMetricCounters,
    fields: Fields,
    extra: LabelsView,
    shard: u64,
) -> bool {
    &&& after.counters@.len() == before.counters@.len()
    &&& forall|i: int|
        0 <= i < before.counters@.len() ==> counter_saw(
            before.counters@[i],
            #[trigger] after.counters@[i],
            fields,
            extra,
            shard,
        )
    &&& after.histograms@.len() == before.histograms@.len()
    &&& forall|i: int|
        0 <= i < before.histograms@.len() ==> histogram_saw(
            before.histograms@[i],
            #[trigger] after.histograms@[i],
            fields,
            extra,
            shard,
        )
    &&& after.gauges@.len() == before.gauges@.len()
    &&& forall|i: int|
        0 <= i < before.gauges@.len() ==> gauge_saw(before.gauges@[i], #[trigger] after.gauges@[i], fields, extra)
}

/// Whether some metrics are back at their beginning.
pub open spec fn all_cleared<T: Clearable>(before: Seq<HeaderMetric<T>>, after: Seq<HeaderMetric<T>>) -> bool {
    &&& after.len() == before.len()
    &&& forall|i: int|
        0 <= i < before.len() ==> {
            &&& (#[trigger] after[i]).metric.is_clear()
            &&& after[i].metric.same_kind(&before[i].metric)
            &&& after[i].header_name == before[i].header_name
            &&& after[i].attr_name == before[i].attr_name
        }
}

fn clear_all<T: Clearable>(list: &mut Vec<HeaderMetric<T>>)
    ensures
        all_cleared(old(list)@, final(list)@),
{
    let mut i: usize = 0;
    while i < list.len()
        invariant
            i <= list@.len(),
            list@.len() == old(list)@.len(),
            forall|k: int|
                0 <= k < i ==> {
                    &&& (#[trigger] list@[k]).metric.is_clear()
                    &&& list@[k].metric.same_kind(&old(list)@[k].metric)
                    &&& list@[k].header_name == old(list)@[k].header_name
                    &&& list@[k].attr_name == old(list)@[k].attr_name
                },
            forall|k: int| i <= k < list@.len() ==> #[trigger] list@[k] == old(list)@[k],
        decreases list@.len() - i,
    {
        list[i].metric.clear();
        i = i + 1;
    }
}

impl CustomMetricCounters {
    pub fn empty(&self) -> (yes: bool)
        ensures
            yes == (self.counters@.len() == 0 && self.histograms@.len() == 0 && self.gauges@.len() == 0),
    {
        self.counters.len() == 0 && self.histograms.len() == 0 && self.gauges.len() == 0
    }

    pub fn counters(&self) -> (counters: &Vec<HeaderMetric<ShardedU64>>)
        ensures
            *counters == self.counters,
    {
        &self.counters
    }

    pub fn histograms(&self) -> (histograms: &Vec<HeaderMetric<ShardedHistogram>>)
        ensures
            *histograms == self.histograms,
    {
        &self.histograms
    }

    pub fn gauges(&self) -> (gauges: &Vec<HeaderMetric<Gauge>>)
        ensures
            *gauges == self.gauges,
    {
        &self.gauges
    }

    /// The metrics that the configuration asks for.
    pub fn new(metrics: &Vec<CustomMetric>) -> (made: CustomMetricCounters)
        ensures
            are_new(made, metrics@),
    {
        let mut made = CustomMetricCounters { counters: Vec::new(), histograms: Vec::new(), gauges: Vec::new() };
        let mut i: usize = 0;
        while i < metrics.len()
            invariant
                i <= metrics@.len(),
                are_new(made, metrics@.take(i as int)),
            decreases metrics@.len() - i,
        {
            assert(metrics@.take(i + 1).drop_last() =~= metrics@.take(i as int));
            assert(metrics@.take(i + 1).last() == metrics@[i as int]);
            match &metrics[i] {
                CustomMetric::Counter { name, description, header_name, attribute_name } => {
                    made.counters.push(
                        HeaderMetric {
                            header_name: header_name.copy(),
                            attr_name: attribute_text(attribute_name, header_name),
                            metric: Metric::new(PREFIX_HTTP, name.as_str(), description.as_str(), ShardedU64::new()),
                        },
                    );
                },
                CustomMetric::Histogram { name, description, header_name, attribute_name, buckets } => {
                    made.histograms.push(
                        HeaderMetric {
                            header_name: header_name.copy(),
                            attr_name: attribute_text(attribute_name, header_name),
                            metric: Metric::new(
                                PREFIX_HTTP,
                                name.as_str(),
                                description.as_str(),
                                ShardedHistogram::new(buckets),
                            ),
                        },
                    );
                },
                CustomMetric::Gauge { name, description, header_name, attribute_name } => {
                    made.gauges.push(
                        HeaderMetric {
                            header_name: header_name.copy(),
                            attr_name: attribute_text(attribute_name, header_name),
                            metric: Metric::new(PREFIX_HTTP, name.as_str(), description.as_str(), Gauge::new()),
                        },
                    );
                },
            }
            i = i + 1;
        }
        assert(metrics@.take(metrics@.len() as int) =~= metrics@);
        made
    }

    fn see_counters(&mut self, headers: &Headers, extra: &Vec<(String, String)>, shard_id: u64)
        ensures
            final(self).histograms == old(self).histograms,
            final(self).gauges == old(self).gauges,
            final(self).counters@.len() == old(self).counters@.len(),
            forall|i: int|
                0 <= i < old(self).counters@.len() ==> counter_saw(
                    old(self).counters@[i],
                    #[trigger] final(self).counters@[i],
                    headers@,
                    labels_view(extra@),
                    shard_id,
                ),
    {
        let mut i: usize = 0;
        while i < self.counters.len()
            invariant
                i <= self.counters@.len(),
                self.counters@.len() == old(self).counters@.len(),
                self.histograms == old(self).histograms,
                self.gauges == old(self).gauges,
                forall|k: int|
                    0 <= k < i ==> counter_saw(
                        old(self).counters@[k],
                        #[trigger] self.counters@[k],
                        headers@,
                        labels_view(extra@),
                        shard_id,
                    ),
                forall|k: int|
                    i <= k < self.counters@.len() ==> #[trigger] self.counters@[k] == old(self).counters@[k],
            decreases self.counters@.len() - i,
        {
            match headers.get_text(&self.counters[i].header_name) {
                Some(text) => {
                    let labels: Vec<(String, String)> = with_label(
                        extra,
                        self.counters[i].attr_name.as_str(),
                        text.as_str(),
                    );
                    self.counters[i].metric.value.add(1, shard_id, &labels);
                },
                None => {},
            }
            i = i + 1;
        }
    }

    fn see_histograms(&mut self, headers: &Headers, extra: &Vec<(String, String)>, shard_id: u64)
        ensures
            final(self).counters == old(self).counters,
            final(self).gauges == old(self).gauges,
            final(self).histograms@.len() == old(self).histograms@.len(),
            forall|i: int|
                0 <= i < old(self).histograms@.len() ==> histogram_saw(
                    old(self).histograms@[i],
                    #[trigger] final(self).histograms@[i],
                    headers@,
                    labels_view(extra@),
                    shard_id,
                ),
    {
        let mut i: usize = 0;
        while i < self.histograms.len()
            invariant
                i <= self.histograms@.len(),
                self.histograms@.len() == old(self).histograms@.len(),
                self.counters == old(self).counters,
                self.gauges == old(self).gauges,
                forall|k: int|
                    0 <= k < i ==> histogram_saw(
                        old(self).histograms@[k],
                        #[trigger] self.histograms@[k],
                        headers@,
                        labels_view(extra@),
                        shard_id,
                    ),
                forall|k: int|
                    i <= k < self.histograms@.len() ==> #[trigger] self.histograms@[k] == old(self).histograms@[k],
            decreases self.histograms@.len() - i,
        {
            match headers.get_text(&self.histograms[i].header_name) {
                Some(text) => match parse_u64(text.as_str()) {
                    Some(n) => {
                        self.histograms[i].metric.value.record(n, shard_id, extra);
                    },
                    None => {},
                },
                None => {},
            }
            i = i + 1;
        }
    }

    fn see_gauges(&mut self, headers: &Headers, extra: &Vec<(String, String)>)
        ensures
            final(self).counters == old(self).counters,
            final(self).histograms == old(self).histograms,
            final(self).gauges@.len() == old(self).gauges@.len(),
            forall|i: int|
                0 <= i < old(self).gauges@.len() ==> gauge_saw(
                    old(self).gauges@[i],
                    #[trigger] final(self).gauges@[i],
                    headers@,
                    labels_view(extra@),
                ),
    {
        let mut i: usize = 0;
        while i < self.gauges.len()
            invariant
                i <= self.gauges@.len(),
                self.gauges@.len() == old(self).gauges@.len(),
                self.counters == old(self).counters,
                self.histograms == old(self).histograms,
                forall|k: int|
                    0 <= k < i ==> gauge_saw(
                        old(self).gauges@[k],
                        #[trigger] self.gauges@[k],
                        headers@,
                        labels_view(extra@),
                    ),
                forall|k: int| i <= k < self.gauges@.len() ==> #[trigger] self.gauges@[k] == old(self).gauges@[k],
            decreases self.gauges@.len() - i,
        {
            match headers.get_text(&self.gauges[i].header_name) {
                Some(text) => match parse_u64(text.as_str()) {
                    Some(n) => {
                        self.gauges[i].metric.value.record(n, extra);
                    },
                    None => {},
                },
                None => {},
            }
            i = i + 1;
        }
    }

    fn see(&mut self, headers: &Headers, extra: &Vec<(String, String)>, shard_id: u64)
        ensures
            all_saw(*old(self), *final(self), headers@, labels_view(extra@), shard_id),
    {
        self.see_counters(headers, extra, shard_id);
        self.see_histograms(headers, extra, shard_id);
        self.see_gauges(headers, extra);
    }

    fn reset(&mut self)
        ensures
            all_cleared(old(self).counters@, final(self).counters@),
            all_cleared(old(self).histograms@, final(self).histograms@),
            all_cleared(old(self).gauges@, final(self).gauges@),
    {
        clear_all(&mut self.counters);
        clear_all(&mut self.histograms);
        clear_all(&mut self.gauges);
    }
}

/// The metrics over header fields.
pub struct CustomMetrics {
    pub incoming_request: CustomMetricCounters,
    pub upstream_request: CustomMetricCounters,
    pub incoming_response: CustomMetricCounters,
    pub downstream_response: CustomMetricCounters,
}

impl CustomMetrics {
    /// The metrics of a hook.
    pub open spec fn at(&self, hook: MetricsHook) -> CustomMetricCounters {
        match hook {
            MetricsHook::IncomingRequest => self.incoming_request,
            MetricsHook::UpstreamRequest => self.upstream_request,
            MetricsHook::IncomingResponse => self.incoming_response,
            MetricsHook::DownstreamResponse => self.downstream_response,
        }
    }

    pub fn new(config: &CustomMetricsConfig) -> (metrics: CustomMetrics)
        ensures
            are_new(metrics.incoming_request, config.incoming_request@),
            are_new(metrics.upstream_request, config.upstream_request@),
            are_new(metrics.incoming_response, config.incoming_response@),
            are_new(metrics.downstream_response, config.downstream_response@),
    {
        CustomMetrics {
            incoming_request: CustomMetricCounters::new(&config.incoming_request),
            upstream_request: CustomMetricCounters::new(&config.upstream_request),
            incoming_response: CustomMetricCounters::new(&config.incoming_response),
            downstream_response: CustomMetricCounters::new(&config.downstream_response),
        }
    }

    /// Looks at the fields of a message. The metrics of the other hooks stay as they are.
    pub fn with_headers(&mut self, hook: MetricsHook, headers: &Headers, extra: &Vec<(String, String)>, shard_id: u64)
        ensures
            all_saw(old(self).at(hook), final(self).at(hook), headers@, labels_view(extra@), shard_id),
            forall|other: MetricsHook| other != hook ==> #[trigger] final(self).at(other) == old(self).at(other),
    {
        match hook {
            MetricsHook::IncomingRequest => self.incoming_request.see(headers, extra, shard_id),
            MetricsHook::UpstreamRequest => self.upstream_request.see(headers, extra, shard_id),
            MetricsHook::IncomingResponse => self.incoming_response.see(headers, extra, shard_id),
            MetricsHook::DownstreamResponse => self.downstream_response.see(headers, extra, shard_id),
        }
    }
}

/// Whether a configuration asks for any metric.
pub open spec fn asks_for_any(config: CustomMetricsConfig) -> bool {
    config.incoming_request@.len() > 0 || config.upstream_request@.len() > 0 || config.incoming_response@.len() > 0
        || config.downstream_response@.len() > 0
}

/// Sets the metrics up, once, where the configuration asks for any.
pub fn init_metrics(slot: &mut Option<CustomMetrics>, config: &CustomMetricsConfig)
    ensures
        if *old(slot) is Some || !asks_for_any(*config) {
            *final(slot) == *old(slot)
        } else {
            &&& *final(slot) is Some
            &&& are_new((*final(slot))->0.incoming_request, config.incoming_request@)
            &&& are_new((*final(slot))->0.upstream_request, config.upstream_request@)
            &&& are_new((*final(slot))->0.incoming_response, config.incoming_response@)
            &&& are_new((*final(slot))->0.downstream_response, config.downstream_response@)
        },
{
    if slot.is_some() {
        return;
    }
    if config.incoming_request.len() > 0 || config.upstream_request.len() > 0 || config.incoming_response.len() > 0
        || config.downstream_response.len() > 0 {
        *slot = Some(CustomMetrics::new(config));
    }
}

/// Whether the metrics of a hook are back at their beginning.
pub open spec fn hook_was_reset(before: CustomMetricCounters, after: CustomMetricCounters) -> bool {
    &&& all_cleared(before.counters@, after.counters@)
    &&& all_cleared(before.histograms@, after.histograms@)
    &&& all_cleared(before.gauges@, after.gauges@)
}

/// Whether the metrics are back at their beginning.
pub open spec fn was_reset(before: Option<CustomMetrics>, after: Option<CustomMetrics>) -> bool {
    match before {
        Some(b) => {
            &&& after is Some
            &&& forall|hook: MetricsHook| #[trigger] hook_was_reset(b.at(hook), after->0.at(hook))
        },
        None => after is None,
    }
}

/// Sets every metric back to its beginning.
pub fn reset_metrics(slot: &mut Option<CustomMetrics>)
    ensures
        was_reset(*old(slot), *final(slot)),
{
    match slot {
        Some(metrics) => {
            metrics.incoming_request.reset();
            metrics.upstream_request.reset();
            metrics.incoming_response.reset();
            metrics.downstream_response.reset();
        },
        None => {},
    }
}

/// A message without the field of a metric leaves the metric as it was.
pub proof fn law_absent_field_counts_nothing(
    before: HeaderMetric<ShardedU64>,
    after: HeaderMetric<ShardedU64>,
    fields: Fields,
    extra: LabelsView,
    shard: u64,
)
    requires
        counter_saw(before, after, fields, extra, shard),
        !fields.contains_key(before.header_name@),
    ensures
        after.metric.value@ == before.metric.value@,
{
}

/// The label for the values of a field never holds a dash, unless the
/// configuration says so.
pub proof fn law_labels_have_no_dash(header_name: Seq<char>)
    ensures
        !attribute_of(None, header_name).contains('-'),
        attribute_of(None, header_name).len() == header_name.len(),
{
}

/// The metrics of a hook are taken over kind by kind, each kind in its order
/// and nothing else.
pub proof fn law_metrics_are_taken_by_kind(metrics: Seq<CustomMetric>)
    ensures
        counters_in(metrics) == metrics.filter(|metric: CustomMetric| metric is Counter),
        histograms_in(metrics) == metrics.filter(|metric: CustomMetric| metric is Histogram),
        gauges_in(metrics) == metrics.filter(|metric: CustomMetric| metric is Gauge),
        counters_in(metrics).len() + histograms_in(metrics).len() + gauges_in(metrics).len() == metrics.len(),
    decreases metrics.len(),
{
    reveal(Seq::filter);
    if metrics.len() > 0 {
        law_metrics_are_taken_by_kind(metrics.drop_last());
    }
}

/// A message that has the field of a counter counts once under its value, and
/// under nothing else.
pub proof fn law_present_field_counts_once(
    before: HeaderMetric<ShardedU64>,
    after: HeaderMetric<ShardedU64>,
    fields: Fields,
    text: Seq<char>,
    extra: LabelsView,
    shard: u64,
    other: LabelsView,
)
    requires
        counter_saw(before, after, fields, extra, shard),
        header_text(fields, before.header_name@) == Some(text),
        well_sharded(before.metric.value@),
        counted(before.metric.value@, shard, extra.push((before.attr_name@, text))) < u64::MAX,
    ensures
        total(after.metric.value@, extra.push((before.attr_name@, text))) == total(
            before.metric.value@,
            extra.push((before.attr_name@, text)),
        ) + 1,
        other != extra.push((before.attr_name@, text)) ==> total(after.metric.value@, other) == total(
            before.metric.value@,
            other,
        ),
{
    law_adding_counts_once(before.metric.value@, 1, shard, extra.push((before.attr_name@, text)), other);
}

/// A gauge shows the number of the field that was seen last, and keeps what it
/// shows under other labels or where the field is no number.
pub proof fn law_gauge_shows_the_last_number(
    before: HeaderMetric<Gauge>,
    after: HeaderMetric<Gauge>,
    fields: Fields,
    extra: LabelsView,
    other: LabelsView,
)
    requires
        gauge_saw(before, after, fields, extra),
        other != extra,
    ensures
        header_number(fields, before.header_name@) matches Some(n) ==> after.metric.value@.contains_key(extra)
            && after.metric.value@[extra] == n,
        after.metric.value@.contains_key(other) == before.metric.value@.contains_key(other),
        before.metric.value@.contains_key(other) ==> after.metric.value@[other] == before.metric.value@[other],
        header_text(fields, before.header_name@) is None ==> after.metric.value@ == before.metric.value@,
{
}

/// A histogram takes in the number of the field: its sum grows by that number
/// and its count by one.
pub proof fn law_histogram_takes_the_number(
    before: HeaderMetric<ShardedHistogram>,
    after: HeaderMetric<ShardedHistogram>,
    fields: Fields,
    n: u64,
    extra: LabelsView,
    shard: u64,
)
    requires
        histogram_saw(before, after, fields, extra, shard),
        header_number(fields, before.header_name@) == Some(n),
        well_sharded(before.metric.value@.sum),
        well_sharded(before.metric.value@.count),
        counted(before.metric.value@.sum, shard, extra) + n <= u64::MAX,
        counted(before.metric.value@.count, shard, extra) < u64::MAX,
    ensures
        total(after.metric.value@.sum, extra) == total(before.metric.value@.sum, extra) + n,
        total(after.metric.value@.count, extra) == total(before.metric.value@.count, extra) + 1,
{
    law_adding_counts_once(before.metric.value@.sum, n, shard, extra, extra);
    law_adding_counts_once(before.metric.value@.count, 1, shard, extra, extra);
}

/// A name without its dashes has an underscore in the place of each, and is
/// the same elsewhere.
pub proof fn law_dashes_become_underscores(text: Seq<char>, i: int)
    requires
        0 <= i < text.len(),
    ensures
        undashed(text).len() == text.len(),
        text[i] == '-' ==> undashed(text)[i] == '_',
        text[i] != '-' ==> undashed(text)[i] == text[i],
{
}

} // verus!
