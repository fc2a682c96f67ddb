//! Counters, gauges and histograms, and the metrics made of them.

use orion::headers::{FieldName, FieldValue, Headers};
use orion::key_value::{KeyValue, KeyValueMap};
use orion::metrics::custom::{CustomMetric, CustomMetricCounters, CustomMetrics, CustomMetricsConfig, MetricsHook};
use orion::metrics::dynamic::{DynamicMetric, DynamicMetrics, MetricInfo};
use orion::metrics::{
    count_down, count_up, init_counter, init_global_metrics, init_histogram, record, reset_global_metrics,
    resolve_metric_name, GlobalMetrics, MetricsConfig,
};
use orion::name_table::NameTable;
use orion::sharded::{labels_of, one_label, sorted, Clearable, Gauge, ShardedHistogram, ShardedU64};

type Labels = Vec<(String, String)>;

fn label(value: &str) -> Labels {
    labels_of(&vec![KeyValue::new("metric", value)])
}

fn find(all: &[(Labels, u64)], key: &Labels) -> Option<u64> {
    all.iter().find(|(k, _)| k == key).map(|(_, v)| *v)
}

#[test]
fn test_basic_add_and_load() {
    let mut s = ShardedU64::new();
    let (shard_1, shard_2) = (1, 2);
    let key = label("requests");

    assert_eq!(s.load(&key), None);

    s.add(10, shard_1, &key);
    assert_eq!(s.load(&key), Some(10));

    s.add(5, shard_2, &key);
    assert_eq!(s.load(&key), Some(15));
}

#[test]
fn test_saturating_sub() {
    let mut s = ShardedU64::new();
    let shard_1 = 1;
    let key = label("inventory");

    s.sub(10, shard_1, &key);
    assert_eq!(s.load(&key), None);

    s.add(20, shard_1, &key);
    assert_eq!(s.load(&key), Some(20));

    s.sub(5, shard_1, &key);
    assert_eq!(s.load(&key), Some(15));

    s.sub(25, shard_1, &key);
    assert_eq!(s.load(&key), Some(0));

    s.sub(100, shard_1, &key);
    assert_eq!(s.load(&key), Some(0));
}

#[test]
fn test_debug() {
    let mut s = ShardedU64::new();
    let shard_1 = 1;
    let key = label("value");

    s.add(100, shard_1, &key);
    assert_eq!(s.load(&key), Some(100));

    s.add(42, shard_1, &key);
    assert_eq!(s.load(&key), Some(142));

    s.add(0, shard_1, &vec![]);
    println!("{s:?}");
}

#[test]
fn test_multi_shard_aggregation() {
    let mut s = ShardedU64::new();
    let (tid1, tid2, tid3) = (1, 2, 3);
    let key_a = label("a");
    let key_b = label("b");

    s.add(10, tid1, &key_a); // a = 10
    s.add(20, tid2, &key_a); // a = 10 (tid1) + 20 (tid2) = 30
    s.sub(5, tid1, &key_a); // a = 5 (tid1) + 20 (tid2) = 25

    s.add(100, tid3, &key_b);

    assert_eq!(s.load(&key_a), Some(25));
    assert_eq!(s.load(&key_b), Some(100));

    let all_data = s.load_all();
    assert_eq!(find(&all_data, &key_a), Some(25));
    assert_eq!(find(&all_data, &key_b), Some(100));
    assert_eq!(all_data.len(), 2);
}

#[test]
fn test_clear_and_shard_count() {
    let mut s = ShardedU64::new();
    let (tid1, tid2) = (1, 2);
    let key = label("requests");

    assert_eq!(s.shard_count(), 0);

    s.add(10, tid1, &key);
    assert_eq!(s.shard_count(), 1);

    s.add(5, tid2, &key);
    assert_eq!(s.shard_count(), 2);

    s.add(1, tid1, &key);
    assert_eq!(s.shard_count(), 2);

    s.clear();
    assert_eq!(s.shard_count(), 0);
    assert_eq!(s.load(&key), None);
}

/// Ten shards take turns.
#[test]
fn test_actual_concurrency() {
    let mut s = ShardedU64::new();
    let num_threads = 10;
    let increments_per_thread = 1000;
    let key = label("concurrent_counter");
    for _ in 0..increments_per_thread {
        for thread in 0..num_threads {
            s.add(1, thread, &key);
        }
    }
    let expected_value = num_threads * increments_per_thread;
    assert_eq!(s.load(&key), Some(expected_value));
    assert_eq!(s.shard_count(), 10);
}

#[test]
fn test_gauge_record_and_load() {
    let mut g = Gauge::new();
    let key = label("gauge_test");

    g.record(100, &key);
    assert_eq!(find(&g.load_all(), &key), Some(100));

    g.record(50, &key);
    assert_eq!(find(&g.load_all(), &key), Some(50));
}

#[test]
fn adding_wraps_and_a_cell_can_be_removed() {
    let mut s = ShardedU64::new();
    let key = label("x");
    s.add(u64::MAX, 1, &key);
    s.add(2, 1, &key);
    assert_eq!(s.load(&key), Some(1));
    assert_eq!(s.remove(2, &key), None);
    assert_eq!(s.remove(1, &key), Some(1));
    assert_eq!(s.load(&key), None);
    s.sub(1, 1, &key);
    assert_eq!(s.load(&key), None);
}

#[test]
fn a_counter_loads_the_sum_of_its_history() {
    let mut s = ShardedU64::new();
    let (key, other) = (label("x"), label("y"));
    s.add(9, 1, &key);
    s.clear();
    for shard in 0..4 {
        s.add(10 + shard, shard, &key);
        s.sub(3, shard, &key);
    }
    s.add(100, 2, &other);
    assert_eq!(s.load(&key), Some(10 + 11 + 12 + 13 - 12));
    assert_eq!(s.load(&other), Some(100));
    s.sub(99, 0, &key);
    assert_eq!(s.load(&key), Some(8 + 9 + 10));
}

#[test]
fn a_histogram_counts_up_to_each_bound() {
    let mut h = ShardedHistogram::new(&vec![100, 10, 50]);
    assert_eq!(h.buckets(), &vec![10, 50, 100]);
    let key = label("h");
    for value in [5, 10, 11, 100, 1000] {
        h.record(value, 1, &key);
    }
    let counts: Vec<Option<u64>> = h.counts().iter().map(|c| c.load(&key)).collect();
    assert_eq!(counts, [Some(2), Some(3), Some(4)]);
    assert_eq!(h.sum().load(&key), Some(1126));
    assert_eq!(h.count().load(&key), Some(5));
    h.clear();
    assert_eq!(h.count().load(&key), None);
    assert_eq!(h.buckets(), &vec![10, 50, 100]);
    assert_eq!(sorted(&vec![3, 1, 2, 1]), [1, 1, 2, 3]);
}

#[test]
fn metrics_are_set_up_once_and_reset() {
    let mut slot = None;
    init_counter(&mut slot, "tcp", "name", "first");
    init_counter(&mut slot, "tcp", "name", "second");
    assert_eq!(slot.as_ref().unwrap().descr, "first");
    let key = one_label("listener", "l");
    count_up(&mut slot, 3, 0, &key);
    count_down(&mut slot, 1, 0, &key);
    assert_eq!(slot.as_ref().unwrap().value.load(&key), Some(2));
    let mut unset = None;
    count_up(&mut unset, 3, 0, &key);
    assert!(unset.is_none());
    let mut histogram = None;
    init_histogram(&mut histogram, "tcp", "h", "", &vec![1]);
    record(&mut histogram, 7, 0, &key);
    assert_eq!(histogram.unwrap().value.sum().load(&key), Some(7));
}

fn custom_config(metrics: Vec<CustomMetric>) -> CustomMetricsConfig {
    CustomMetricsConfig {
        incoming_request: metrics,
        upstream_request: vec![],
        incoming_response: vec![],
        downstream_response: vec![],
    }
}

fn name(text: &str) -> FieldName {
    FieldName::parse(text).unwrap()
}

fn headers(fields: &[(&str, &str)]) -> Headers {
    let mut headers = Headers::new();
    for (field, value) in fields {
        headers.insert(&name(field), &FieldValue::from_bytes(value.as_bytes().to_vec()).unwrap()).unwrap();
    }
    headers
}

#[test]
fn all_metrics_are_set_up_under_their_names() {
    let mut metrics = GlobalMetrics::default();
    let mut rename = NameTable::new();
    rename.insert("upstream_cx_total".to_owned(), "cx".to_owned());
    assert_eq!(resolve_metric_name(&rename, "upstream_cx_total"), "cx");
    assert_eq!(resolve_metric_name(&rename, "other"), "other");
    let config = MetricsConfig { rename, custom_metrics: custom_config(vec![]) };
    init_global_metrics(&mut metrics, &config);
    assert_eq!(metrics.clusters.upstream_cx_total.as_ref().unwrap().name, "cx");
    let key = one_label("cluster", "c");
    count_up(&mut metrics.clusters.upstream_cx_total, 1, 0, &key);
    count_up(&mut metrics.mcp.tool_rq_total, 1, 0, &key);
    record(&mut metrics.mcp.tool_rq_time, 7, 0, &key);
    reset_global_metrics(&mut metrics);
    let tools = metrics.mcp.tool_rq_total.as_ref().unwrap();
    assert_eq!((tools.value.load(&key), tools.name.as_str()), (None, "tool_rq_total"));
    assert_eq!(metrics.mcp.tool_rq_time.as_ref().unwrap().value.count().load(&key), None);
    let total = metrics.clusters.upstream_cx_total.as_ref().unwrap();
    assert_eq!(total.value.load(&key), None);
    assert_eq!(total.name, "cx");
}

fn three_metrics() -> Vec<CustomMetric> {
    vec![
        CustomMetric::Counter {
            name: "c".to_owned(),
            description: "d".to_owned(),
            header_name: name("x-some-kind"),
            attribute_name: None,
        },
        CustomMetric::Histogram {
            name: "h".to_owned(),
            description: "d".to_owned(),
            header_name: name("x-size"),
            attribute_name: Some("size".to_owned()),
            buckets: vec![10],
        },
        CustomMetric::Gauge {
            name: "g".to_owned(),
            description: "d".to_owned(),
            header_name: name("x-level"),
            attribute_name: None,
        },
    ]
}

#[test]
fn custom_metrics_follow_header_fields() {
    let made = CustomMetricCounters::new(&three_metrics());
    assert_eq!(made.counters()[0].attr_name, "x_some_kind");
    assert_eq!(made.histograms()[0].attr_name, "size");
    assert!(CustomMetricCounters::new(&vec![]).empty());
    assert!(!made.empty());

    let mut metrics = CustomMetrics::new(&custom_config(three_metrics()));
    let fields = headers(&[("x-some-kind", "blue"), ("x-size", "12"), ("x-level", "3")]);
    let extra = one_label("user", "u");
    metrics.with_headers(MetricsHook::IncomingRequest, &fields, &extra, 0);
    metrics.with_headers(MetricsHook::UpstreamRequest, &fields, &extra, 0);
    let counted = metrics.incoming_request.counters()[0].metric.value.load_all();
    assert_eq!(counted.len(), 1);
    assert_eq!(counted[0].1, 1);
    assert!(counted[0].0.contains(&("x_some_kind".to_owned(), "blue".to_owned())));
    assert!(counted[0].0.contains(&("user".to_owned(), "u".to_owned())));
    let sums = metrics.incoming_request.histograms()[0].metric.value.sum().load_all();
    assert_eq!(sums[0].1, 12);
    let levels = metrics.incoming_request.gauges()[0].metric.value.load_all();
    assert_eq!(levels[0].1, 3);

    // A field that is not there counts for nothing, nor does one without a number.
    metrics.with_headers(MetricsHook::IncomingRequest, &headers(&[("x-size", "many")]), &extra, 0);
    assert_eq!(metrics.incoming_request.histograms()[0].metric.value.count().load_all()[0].1, 1);
    assert_eq!(metrics.incoming_request.counters()[0].metric.value.load_all()[0].1, 1);
}

#[test]
fn dynamic_metrics_follow_request_fields() {
    let info = |metric: &str, field: &str| MetricInfo {
        name: metric.to_owned(),
        description: "d".to_owned(),
        http_header_name: name(field),
        buckets: vec![10],
    };
    let mut metrics = DynamicMetrics::new(&vec![
        DynamicMetric::Counter(info("c", "x-kind")),
        DynamicMetric::Histogram(info("h", "x-size")),
    ]);
    metrics.with_request_headers(&headers(&[("x-kind", "a"), ("x-size", "4")]), &vec![], 0);
    assert_eq!(metrics.counters()[0].metric.value.load_all()[0].1, 1);
    assert_eq!(metrics.histograms()[0].metric.value.sum().load_all()[0].1, 4);
}

#[test]
fn the_last_value_under_a_key_counts() {
    let mut map = KeyValueMap::new();
    assert_eq!(map.get("k"), None);
    map.insert("k", "1");
    map.insert("other", "x");
    map.insert("k", "2");
    assert_eq!(map.get("k"), Some("2"));
    assert_eq!(map.get("other"), Some("x"));
}
