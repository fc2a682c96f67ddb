//! The metrics in the text format of Prometheus.

use crate::admin::snapshot::{
    append_snapshots, counter_snapshot, covers, custom_snapshots, custom_sources, gauge_snapshot, histogram_snapshot,
    push_snapshot, Numbers, Snapshot, SnapshotData, Source,
};
use crate::metrics::clusters::ClusterMetrics;
use crate::metrics::filters::FilterMetrics;
use crate::metrics::http::HttpMetrics;
use crate::metrics::listeners::ListenerMetrics;
use crate::metrics::server::ServerMetrics;
use crate::metrics::tcp::TcpMetrics;
use crate::metrics::tls::TlsMetrics;
use crate::metrics::user::UserMetrics;
use crate::metrics::GlobalMetrics;
use crate::sharded::{labels_view, LabelsView};
use crate::text::{append_decimal, decimal};
use vstd::prelude::*;

verus! {

/// A character as it stands inside the quotes of a label.
pub open spec fn escaped_char(c: char) -> Seq<char> {
    if c == '\\' {
        seq!['\\'].push('\\')
    } else if c == '\n' {
        seq!['\\'].push('n')
    } else if c == '"' {
        seq!['\\'].push('"')
    } else {
        seq![c]
    }
}

/// A text as it stands inside the quotes of a label: backslashes, line breaks
/// and quotes are marked.
pub open spec fn escaped(val: Seq<char>) -> Seq<char>
    decreases val.len(),
{
    if val.len() == 0 {
        Seq::empty()
    } else {
        escaped_char(val[0]) + escaped(val.drop_first())
    }
}

/// The text as it stands inside the quotes of a label.
pub fn escape_label_value(val: &str) -> (out: String)
    ensures
        out@ == escaped(val@),
{
    let n: usize = val.unicode_len();
    let mut out = String::new();
    let mut i: usize = 0;
    proof {
        assert(val@.skip(0) =~= val@);
        reveal_strlit("\\\\");
        reveal_strlit("\\n");
        reveal_strlit("\\\"");
    }
    while i < n
        invariant
            i <= n,
            n == val@.len(),
            out@ + escaped(val@.skip(i as int)) == escaped(val@),
            "\\\\"@ == seq!['\\'].push('\\'),
            "\\n"@ == seq!['\\'].push('n'),
            "\\\""@ == seq!['\\'].push('"'),
        decreases n - i,
    {
        let ghost before = out@;
        let c: char = val.get_char(i);
        if c == '\\' {
            out.append("\\\\");
        } else if c == '\n' {
            out.append("\\n");
        } else if c == '"' {
            out.append("\\\"");
        } else {
            out.append(val.substring_char(i, i + 1));
            assert(val@.subrange(i as int, i + 1) =~= seq![c]);
        }
        proof {
            let rest = val@.skip(i as int);
            assert(rest[0] == c);
            assert(rest.drop_first() =~= val@.skip(i + 1));
            assert(out@ =~= before + escaped_char(c));
            assert(out@ + escaped(val@.skip(i + 1)) =~= before + escaped(rest));
        }
        i = i + 1;
    }
    assert(val@.skip(n as int) =~= Seq::<char>::empty());
    assert(out@ + Seq::<char>::empty() =~= out@);
    out
}

/// A label.
pub open spec fn pair_text(pair: (Seq<char>, Seq<char>)) -> Seq<char> {
    pair.0 + "=\""@ + escaped(pair.1) + "\""@
}

/// Labels with commas between them.
pub open spec fn pairs_text(labels: LabelsView) -> Seq<char>
    decreases labels.len(),
{
    if labels.len() == 0 {
        Seq::empty()
    } else if labels.len() == 1 {
        pair_text(labels[0])
    } else {
        pairs_text(labels.drop_last()) + ","@ + pair_text(labels.last())
    }
}

/// Labels in braces; nothing where there are none.
pub open spec fn labels_text(labels: LabelsView) -> Seq<char> {
    if labels.len() == 0 {
        Seq::empty()
    } else {
        "{"@ + pairs_text(labels) + "}"@
    }
}

/// Labels in braces with one more behind them.
pub open spec fn labels_text_with(labels: LabelsView, key: Seq<char>, value: Seq<char>) -> Seq<char> {
    "{"@ + pairs_text(labels.push((key, value))) + "}"@
}

fn append_pair(out: &mut String, key: &str, value: &str)
    ensures
        final(out)@ == old(out)@ + pair_text((key@, value@)),
{
    out.append(key);
    out.append("=\"");
    out.append(escape_label_value(value).as_str());
    out.append("\"");
    assert(out@ =~= old(out)@ + pair_text((key@, value@)));
}

fn append_pairs(out: &mut String, labels: &Vec<(String, String)>)
    ensures
        final(out)@ == old(out)@ + pairs_text(labels_view(labels@)),
{
    let ghost all = labels_view(labels@);
    let mut i: usize = 0;
    assert(old(out)@ + pairs_text(all.take(0)) =~= old(out)@);
    while i < labels.len()
        invariant
            i <= labels@.len(),
            all == labels_view(labels@),
            out@ == old(out)@ + pairs_text(all.take(i as int)),
        decreases labels@.len() - i,
    {
        let ghost before = out@;
        proof {
            assert(all.take(i + 1).drop_last() =~= all.take(i as int));
            assert(all.take(i + 1).last() == all[i as int]);
        }
        if i > 0 {
            out.append(",");
        }
        append_pair(out, labels[i].0.as_str(), labels[i].1.as_str());
        proof {
            assert(all[i as int] == (labels@[i as int].0@, labels@[i as int].1@));
            if i == 0 {
                assert(before =~= old(out)@);
                assert(all.take(1)[0] == all[0]);
            } else {
                assert(out@ =~= old(out)@ + (pairs_text(all.take(i as int)) + ","@ + pair_text(all[i as int])));
            }
        }
        i = i + 1;
    }
    assert(all.take(all.len() as int) =~= all);
}

fn write_metric_labels(out: &mut String, labels: &Vec<(String, String)>)
    ensures
        final(out)@ == old(out)@ + labels_text(labels_view(labels@)),
{
    if labels.len() == 0 {
        assert(old(out)@ + labels_text(labels_view(labels@)) =~= old(out)@);
        return;
    }
    out.append("{");
    append_pairs(out, labels);
    out.append("}");
    assert(out@ =~= old(out)@ + labels_text(labels_view(labels@)));
}

fn write_metric_labels_with_extra(out: &mut String, labels: &Vec<(String, String)>, extra_key: &str, extra_val: &str)
    ensures
        final(out)@ == old(out)@ + labels_text_with(labels_view(labels@), extra_key@, extra_val@),
{
    let ghost all = labels_view(labels@);
    out.append("{");
    append_pairs(out, labels);
    if labels.len() > 0 {
        out.append(",");
    }
    append_pair(out, extra_key, extra_val);
    out.append("}");
    proof {
        let more = all.push((extra_key@, extra_val@));
        assert(more.drop_last() =~= all);
        assert(more.last() == (extra_key@, extra_val@));
        if all.len() == 0 {
            assert(more[0] == (extra_key@, extra_val@));
        }
        assert(out@ =~= old(out)@ + labels_text_with(all, extra_key@, extra_val@));
    }
}

/// A number of a metric.
pub open spec fn sample(full_name: Seq<char>, labels: LabelsView, value: u64) -> Seq<char> {
    full_name + labels_text(labels) + " "@ + decimal(value as nat) + "\n"@
}

/// The numbers of a metric, one to a line.
pub open spec fn samples(full_name: Seq<char>, list: Seq<(Vec<(String, String)>, u64)>) -> Seq<char>
    decreases list.len(),
{
    if list.len() == 0 {
        Seq::empty()
    } else {
        samples(full_name, list.drop_last()) + sample(full_name, labels_view(list.last().0@), list.last().1)
    }
}

fn append_samples(out: &mut String, full_name: &str, list: &Numbers)
    ensures
        final(out)@ == old(out)@ + samples(full_name@, list@),
{
    let mut i: usize = 0;
    assert(old(out)@ + samples(full_name@, list@.take(0)) =~= old(out)@);
    while i < list.len()
        invariant
            i <= list@.len(),
            out@ == old(out)@ + samples(full_name@, list@.take(i as int)),
        decreases list@.len() - i,
    {
        let ghost before = out@;
        assert(list@.take(i + 1).drop_last() =~= list@.take(i as int));
        out.append(full_name);
        write_metric_labels(out, &list[i].0);
        out.append(" ");
        append_decimal(out, list[i].1);
        out.append("\n");
        assert(out@ =~= before + sample(full_name@, labels_view(list@[i as int].0@), list@[i as int].1));
        assert(out@ =~= old(out)@ + samples(full_name@, list@.take(i + 1)));
        i = i + 1;
    }
    assert(list@.take(list@.len() as int) =~= list@);
}

/// The bound of a bucket. The largest number stands for no bound.
pub open spec fn bound_text(bound: u64) -> Seq<char> {
    if bound == u64::MAX {
        "+Inf"@
    } else {
        decimal(bound as nat)
    }
}

/// A number of a bucket.
pub open spec fn bucket_sample(full_name: Seq<char>, labels: LabelsView, bound: u64, value: u64) -> Seq<char> {
    full_name + "_bucket"@ + labels_text_with(labels, "le"@, bound_text(bound)) + " "@ + decimal(value as nat) + "\n"@
}

/// The numbers of a bucket, one to a line.
pub open spec fn bucket_samples(full_name: Seq<char>, bound: u64, list: Seq<(Vec<(String, String)>, u64)>) -> Seq<char>
    decreases list.len(),
{
    if list.len() == 0 {
        Seq::empty()
    } else {
        bucket_samples(full_name, bound, list.drop_last()) + bucket_sample(
            full_name,
            labels_view(list.last().0@),
            bound,
            list.last().1,
        )
    }
}

/// The numbers of the first `n` buckets.
pub open spec fn buckets_text(full_name: Seq<char>, buckets: Seq<u64>, counts: Seq<Numbers>, n: int) -> Seq<char>
    decreases n,
{
    if n <= 0 {
        Seq::empty()
    } else {
        buckets_text(full_name, buckets, counts, n - 1) + bucket_samples(full_name, buckets[n - 1], counts[n - 1]@)
    }
}

fn append_bucket(out: &mut String, full_name: &str, bound: u64, list: &Numbers)
    ensures
        final(out)@ == old(out)@ + bucket_samples(full_name@, bound, list@),
{
    let mut bound_str = String::new();
    if bound == u64::MAX {
        bound_str.append("+Inf");
    } else {
        append_decimal(&mut bound_str, bound);
    }
    assert(bound_str@ =~= bound_text(bound));
    let mut i: usize = 0;
    assert(old(out)@ + bucket_samples(full_name@, bound, list@.take(0)) =~= old(out)@);
    while i < list.len()
        invariant
            i <= list@.len(),
            bound_str@ == bound_text(bound),
            out@ == old(out)@ + bucket_samples(full_name@, bound, list@.take(i as int)),
        decreases list@.len() - i,
    {
        let ghost before = out@;
        assert(list@.take(i + 1).drop_last() =~= list@.take(i as int));
        out.append(full_name);
        out.append("_bucket");
        write_metric_labels_with_extra(out, &list[i].0, "le", bound_str.as_str());
        out.append(" ");
        append_decimal(out, list[i].1);
        out.append("\n");
        assert(out@ =~= before + bucket_sample(
            full_name@,
            labels_view(list@[i as int].0@),
            bound,
            list@[i as int].1,
        ));
        assert(out@ =~= old(out)@ + bucket_samples(full_name@, bound, list@.take(i + 1)));
        i = i + 1;
    }
    assert(list@.take(list@.len() as int) =~= list@);
}

/// The lines that introduce a metric.
pub open spec fn heading(full_name: Seq<char>, descr: Seq<char>, metric_type: Seq<char>) -> Seq<char> {
    "# HELP "@ + full_name + " "@ + descr + "\n"@ + "# TYPE "@ + full_name + " "@ + metric_type + "\n"@
}

fn append_heading(out: &mut String, full_name: &str, descr: &str, metric_type: &str)
    ensures
        final(out)@ == old(out)@ + heading(full_name@, descr@, metric_type@),
{
    out.append("# HELP ");
    out.append(full_name);
    out.append(" ");
    out.append(descr);
    out.append("\n");
    out.append("# TYPE ");
    out.append(full_name);
    out.append(" ");
    out.append(metric_type);
    out.append("\n");
    assert(out@ =~= old(out)@ + heading(full_name@, descr@, metric_type@));
}

/// A metric of single numbers. One without numbers is not shown.
pub open spec fn metric_text(
    full_name: Seq<char>,
    descr: Seq<char>,
    metric_type: Seq<char>,
    list: Seq<(Vec<(String, String)>, u64)>,
) -> Seq<char> {
    if list.len() == 0 {
        Seq::empty()
    } else {
        heading(full_name, descr, metric_type) + samples(full_name, list)
    }
}

/// A histogram. One without numbers is not shown.
pub open spec fn histogram_text(
    full_name: Seq<char>,
    descr: Seq<char>,
    buckets: Seq<u64>,
    counts: Seq<Numbers>,
    sum: Seq<(Vec<(String, String)>, u64)>,
    count: Seq<(Vec<(String, String)>, u64)>,
) -> Seq<char> {
    if count.len() == 0 {
        Seq::empty()
    } else {
        heading(full_name, descr, "histogram"@) + buckets_text(full_name, buckets, counts, buckets.len() as int)
            + samples(full_name + "_sum"@, sum) + samples(full_name + "_count"@, count)
    }
}

/// The text of a metric.
pub open spec fn shot_text(shot: Option<Snapshot>) -> Seq<char> {
    match shot {
        None => Seq::empty(),
        Some(s) => {
            let full_name = s.prefix@ + "_"@ + s.name@;
            match s.data {
                SnapshotData::Counter { is_gauge, list } => metric_text(
                    full_name,
                    s.descr@,
                    if is_gauge {
                        "gauge"@
                    } else {
                        "counter"@
                    },
                    list@,
                ),
                SnapshotData::Gauge { list } => metric_text(full_name, s.descr@, "gauge"@, list@),
                SnapshotData::Histogram { buckets, counts, sum, count } => histogram_text(
                    full_name,
                    s.descr@,
                    buckets@,
                    counts@,
                    sum@,
                    count@,
                ),
            }
        },
    }
}

/// The text of metrics, one after the other.
pub open spec fn rendered(shots: Seq<Option<Snapshot>>) -> Seq<char>
    decreases shots.len(),
{
    if shots.len() == 0 {
        Seq::empty()
    } else {
        rendered(shots.drop_last()) + shot_text(shots.last())
    }
}

fn format_metric(out: &mut String, full_name: &str, descr: &str, metric_type: &str, list: &Numbers)
    ensures
        final(out)@ == old(out)@ + metric_text(full_name@, descr@, metric_type@, list@),
{
    if list.len() == 0 {
        assert(old(out)@ + metric_text(full_name@, descr@, metric_type@, list@) =~= old(out)@);
        return;
    }
    append_heading(out, full_name, descr, metric_type);
    append_samples(out, full_name, list);
    assert(out@ =~= old(out)@ + metric_text(full_name@, descr@, metric_type@, list@));
}

fn format_histogram(
    out: &mut String,
    full_name: &str,
    descr: &str,
    buckets: &Vec<u64>,
    counts: &Vec<Numbers>,
    sum: &Numbers,
    count: &Numbers,
)
    requires
        counts@.len() == buckets@.len(),
    ensures
        final(out)@ == old(out)@ + histogram_text(full_name@, descr@, buckets@, counts@, sum@, count@),
{
    if count.len() == 0 {
        assert(old(out)@ + histogram_text(full_name@, descr@, buckets@, counts@, sum@, count@) =~= old(out)@);
        return;
    }
    append_heading(out, full_name, descr, "histogram");
    let ghost headed = out@;
    let mut i: usize = 0;
    assert(headed + buckets_text(full_name@, buckets@, counts@, 0) =~= headed);
    while i < buckets.len()
        invariant
            i <= buckets@.len(),
            counts@.len() == buckets@.len(),
            out@ == headed + buckets_text(full_name@, buckets@, counts@, i as int),
        decreases buckets@.len() - i,
    {
        let ghost before = out@;
        append_bucket(out, full_name, buckets[i], &counts[i]);
        assert(out@ =~= headed + buckets_text(full_name@, buckets@, counts@, i + 1));
        i = i + 1;
    }
    let mut sum_name: String = full_name.to_owned();
    sum_name.append("_sum");
    append_samples(out, sum_name.as_str(), sum);
    let mut count_name: String = full_name.to_owned();
    count_name.append("_count");
    append_samples(out, count_name.as_str(), count);
    assert(out@ =~= old(out)@ + histogram_text(full_name@, descr@, buckets@, counts@, sum@, count@));
}

/// Whether every histogram among some snapshots has numbers for each of its buckets.
pub open spec fn are_whole(shots: Seq<Option<Snapshot>>) -> bool {
    forall|i: int|
        0 <= i < shots.len() ==> (#[trigger] shots[i] matches Some(s) ==> (s.data matches SnapshotData::Histogram {
            buckets,
            counts,
            ..
        } ==> counts@.len() == buckets@.len()))
}

/// The text of metrics, one after the other.
pub fn render(shots: &Vec<Option<Snapshot>>) -> (out: String)
    requires
        are_whole(shots@),
    ensures
        out@ == rendered(shots@),
{
    let mut out = String::new();
    let mut i: usize = 0;
    while i < shots.len()
        invariant
            i <= shots@.len(),
            are_whole(shots@),
            out@ == rendered(shots@.take(i as int)),
        decreases shots@.len() - i,
    {
        let ghost before = out@;
        assert(shots@.take(i + 1).drop_last() =~= shots@.take(i as int));
        assert(shots@.take(i + 1).last() == shots@[i as int]);
        match &shots[i] {
            Some(s) => {
                let mut full_name: String = s.prefix.clone();
                full_name.append("_");
                full_name.append(s.name.as_str());
                match &s.data {
                    SnapshotData::Counter { is_gauge, list } => {
                        let metric_type: &str = if *is_gauge {
                            "gauge"
                        } else {
                            "counter"
                        };
                        format_metric(&mut out, full_name.as_str(), s.descr.as_str(), metric_type, list);
                    },
                    SnapshotData::Gauge { list } => {
                        format_metric(&mut out, full_name.as_str(), s.descr.as_str(), "gauge", list);
                    },
                    SnapshotData::Histogram { buckets, counts, sum, count } => {
                        format_histogram(
                            &mut out,
                            full_name.as_str(),
                            s.descr.as_str(),
                            buckets,
                            counts,
                            sum,
                            count,
                        );
                    },
                }
            },
            None => {
                assert(before + shot_text(shots@[i as int]) =~= before);
            },
        }
        assert(out@ == before + shot_text(shots@[i as int]));
        i = i + 1;
    }
    assert(shots@.take(shots@.len() as int) =~= shots@);
    out
}

/// The metrics of the listeners in the order in which they are shown.
pub open spec fn listeners_sources(m: ListenerMetrics) -> Seq<Source> {
    Seq::empty()
        .push(Source::Counter(m.downstream_cx_total))
        .push(Source::Counter(m.downstream_cx_destroy))
        .push(Source::GaugeCounter(m.downstream_cx_active))
        .push(Source::Counter(m.no_filter_chain_match))
        .push(Source::Histogram(m.downstream_cx_length_ms))
}

fn listeners_snapshots(m: &ListenerMetrics) -> (shots: Vec<Option<Snapshot>>)
    ensures
        covers(shots@, listeners_sources(*m)),
{
    let mut shots: Vec<Option<Snapshot>> = Vec::new();
    let ghost mut done = Seq::<Source>::empty();
    push_snapshot(&mut shots, counter_snapshot(&m.downstream_cx_total, false), Ghost(done), Ghost(Source::Counter(m.downstream_cx_total)));
    proof {
        done = done.push(Source::Counter(m.downstream_cx_total));
    }
    push_snapshot(&mut shots, counter_snapshot(&m.downstream_cx_destroy, false), Ghost(done), Ghost(Source::Counter(m.downstream_cx_destroy)));
    proof {
        done = done.push(Source::Counter(m.downstream_cx_destroy));
    }
    push_snapshot(&mut shots, counter_snapshot(&m.downstream_cx_active, true), Ghost(done), Ghost(Source::GaugeCounter(m.downstream_cx_active)));
    proof {
        done = done.push(Source::GaugeCounter(m.downstream_cx_active));
    }
    push_snapshot(&mut shots, counter_snapshot(&m.no_filter_chain_match, false), Ghost(done), Ghost(Source::Counter(m.no_filter_chain_match)));
    proof {
        done = done.push(Source::Counter(m.no_filter_chain_match));
    }
    push_snapshot(&mut shots, histogram_snapshot(&m.downstream_cx_length_ms), Ghost(done), Ghost(Source::Histogram(m.downstream_cx_length_ms)));
    proof {
        done = done.push(Source::Histogram(m.downstream_cx_length_ms));
    }
    shots
}

/// The metrics of the clusters in the order in which they are shown.
pub open spec fn clusters_sources(m: ClusterMetrics) -> Seq<Source> {
    Seq::empty()
        .push(Source::Counter(m.upstream_rq_total))
        .push(Source::GaugeCounter(m.upstream_rq_active))
        .push(Source::Counter(m.upstream_rq_timeout))
        .push(Source::Counter(m.upstream_rq_per_try_timeout))
        .push(Source::Counter(m.upstream_rq_retry))
        .push(Source::Counter(m.upstream_cx_total))
        .push(Source::GaugeCounter(m.upstream_cx_active))
        .push(Source::Counter(m.upstream_cx_destroy))
        .push(Source::Counter(m.upstream_cx_idle_timeout))
        .push(Source::Counter(m.upstream_cx_connect_fail))
        .push(Source::Counter(m.upstream_cx_connect_timeout))
        .push(Source::Counter(m.upstream_cx_rx_bytes_total))
        .push(Source::Counter(m.upstream_cx_tx_bytes_total))
        .push(Source::Counter(m.upstream_cx_overflow))
        .push(Source::Counter(m.upstream_rq_overflow))
        .push(Source::Counter(m.upstream_rq_retry_overflow))
}

fn clusters_snapshots(m: &ClusterMetrics) -> (shots: Vec<Option<Snapshot>>)
    ensures
        covers(shots@, clusters_sources(*m)),
{
    let mut shots: Vec<Option<Snapshot>> = Vec::new();
    let ghost mut done = Seq::<Source>::empty();
    push_snapshot(&mut shots, counter_snapshot(&m.upstream_rq_total, false), Ghost(done), Ghost(Source::Counter(m.upstream_rq_total)));
    proof {
        done = done.push(Source::Counter(m.upstream_rq_total));
    }
    push_snapshot(&mut shots, counter_snapshot(&m.upstream_rq_active, true), Ghost(done), Ghost(Source::GaugeCounter(m.upstream_rq_active)));
    proof {
        done = done.push(Source::GaugeCounter(m.upstream_rq_active));
    }
    push_snapshot(&mut shots, counter_snapshot(&m.upstream_rq_timeout, false), Ghost(done), Ghost(Source::Counter(m.upstream_rq_timeout)));
    proof {
        done = done.push(Source::Counter(m.upstream_rq_timeout));
    }
    push_snapshot(&mut shots, counter_snapshot(&m.upstream_rq_per_try_timeout, false), Ghost(done), Ghost(Source::Counter(m.upstream_rq_per_try_timeout)));
    proof {
        done = done.push(Source::Counter(m.upstream_rq_per_try_timeout));
    }
    push_snapshot(&mut shots, counter_snapshot(&m.upstream_rq_retry, false), Ghost(done), Ghost(Source::Counter(m.upstream_rq_retry)));
    proof {
        done = done.push(Source::Counter(m.upstream_rq_retry));
    }
    push_snapshot(&mut shots, counter_snapshot(&m.upstream_cx_total, false), Ghost(done), Ghost(Source::Counter(m.upstream_cx_total)));
    proof {
        done = done.push(Source::Counter(m.upstream_cx_total));
    }
    push_snapshot(&mut shots, counter_snapshot(&m.upstream_cx_active, true), Ghost(done), Ghost(Source::GaugeCounter(m.upstream_cx_active)));
    proof {
        done = done.push(Source::GaugeCounter(m.upstream_cx_active));
    }
    push_snapshot(&mut shots, counter_snapshot(&m.upstream_cx_destroy, false), Ghost(done), Ghost(Source::Counter(m.upstream_cx_destroy)));
    proof {
        done = done.push(Source::Counter(m.upstream_cx_destroy));
    }
    push_snapshot(&mut shots, counter_snapshot(&m.upstream_cx_idle_timeout, false), Ghost(done), Ghost(Source::Counter(m.upstream_cx_idle_timeout)));
    proof {
        done = done.push(Source::Counter(m.upstream_cx_idle_timeout));
    }
    push_snapshot(&mut shots, counter_snapshot(&m.upstream_cx_connect_fail, false), Ghost(done), Ghost(Source::Counter(m.upstream_cx_connect_fail)));
    proof {
        done = done.push(Source::Counter(m.upstream_cx_connect_fail));
    }
    push_snapshot(&mut shots, counter_snapshot(&m.upstream_cx_connect_timeout, false), Ghost(done), Ghost(Source::Counter(m.upstream_cx_connect_timeout)));
    proof {
        done = done.push(Source::Counter(m.upstream_cx_connect_timeout));
    }
    push_snapshot(&mut shots, counter_snapshot(&m.upstream_cx_rx_bytes_total, false), Ghost(done), Ghost(Source::Counter(m.upstream_cx_rx_bytes_total)));
    proof {
        done = done.push(Source::Counter(m.upstream_cx_rx_bytes_total));
    }
    push_snapshot(&mut shots, counter_snapshot(&m.upstream_cx_tx_bytes_total, false), Ghost(done), Ghost(Source::Counter(m.upstream_cx_tx_bytes_total)));
    proof {
        done = done.push(Source::Counter(m.upstream_cx_tx_bytes_total));
    }
    push_snapshot(&mut shots, counter_snapshot(&m.upstream_cx_overflow, false), Ghost(done), Ghost(Source::Counter(m.upstream_cx_overflow)));
    proof {
        done = done.push(Source::Counter(m.upstream_cx_overflow));
    }
    push_snapshot(&mut shots, counter_snapshot(&m.upstream_rq_overflow, false), Ghost(done), Ghost(Source::Counter(m.upstream_rq_overflow)));
    proof {
        done = done.push(Source::Counter(m.upstream_rq_overflow));
    }
    push_snapshot(&mut shots, counter_snapshot(&m.upstream_rq_retry_overflow, false), Ghost(done), Ghost(Source::Counter(m.upstream_rq_retry_overflow)));
    proof {
        done = done.push(Source::Counter(m.upstream_rq_retry_overflow));
    }
    shots
}

/// The metrics of the HTTP connections in the order in which they are shown.
pub open spec fn http_sources(m: HttpMetrics) -> Seq<Source> {
    Seq::empty()
        .push(Source::Counter(m.downstream_cx_total))
        .push(Source::Counter(m.downstream_cx_ssl_total))
        .push(Source::GaugeCounter(m.downstream_cx_ssl_active))
        .push(Source::Counter(m.downstream_cx_destroy))
        .push(Source::GaugeCounter(m.downstream_cx_active))
        .push(Source::Counter(m.downstream_rq_1xx))
        .push(Source::Counter(m.downstream_rq_2xx))
        .push(Source::Counter(m.downstream_rq_3xx))
        .push(Source::Counter(m.downstream_rq_4xx))
        .push(Source::Counter(m.downstream_rq_5xx))
        .push(Source::Counter(m.downstream_rq_total))
        .push(Source::GaugeCounter(m.downstream_rq_active))
        .push(Source::Counter(m.downstream_cx_rx_bytes_total))
        .push(Source::Counter(m.downstream_cx_tx_bytes_total))
        .push(Source::Histogram(m.downstream_cx_length_ms))
}

fn http_snapshots(m: &HttpMetrics) -> (shots: Vec<Option<Snapshot>>)
    ensures
        covers(shots@, http_sources(*m)),
{
    let mut shots: Vec<Option<Snapshot>> = Vec::new();
    let ghost mut done = Seq::<Source>::empty();
    push_snapshot(&mut shots, counter_snapshot(&m.downstream_cx_total, false), Ghost(done), Ghost(Source::Counter(m.downstream_cx_total)));
    proof {
        done = done.push(Source::Counter(m.downstream_cx_total));
    }
    push_snapshot(&mut shots, counter_snapshot(&m.downstream_cx_ssl_total, false), Ghost(done), Ghost(Source::Counter(m.downstream_cx_ssl_total)));
    proof {
        done = done.push(Source::Counter(m.downstream_cx_ssl_total));
    }
    push_snapshot(&mut shots, counter_snapshot(&m.downstream_cx_ssl_active, true), Ghost(done), Ghost(Source::GaugeCounter(m.downstream_cx_ssl_active)));
    proof {
        done = done.push(Source::GaugeCounter(m.downstream_cx_ssl_active));
    }
    push_snapshot(&mut shots, counter_snapshot(&m.downstream_cx_destroy, false), Ghost(done), Ghost(Source::Counter(m.downstream_cx_destroy)));
    proof {
        done = done.push(Source::Counter(m.downstream_cx_destroy));
    }
    push_snapshot(&mut shots, counter_snapshot(&m.downstream_cx_active, true), Ghost(done), Ghost(Source::GaugeCounter(m.downstream_cx_active)));
    proof {
        done = done.push(Source::GaugeCounter(m.downstream_cx_active));
    }
    push_snapshot(&mut shots, counter_snapshot(&m.downstream_rq_1xx, false), Ghost(done), Ghost(Source::Counter(m.downstream_rq_1xx)));
    proof {
        done = done.push(Source::Counter(m.downstream_rq_1xx));
    }
    push_snapshot(&mut shots, counter_snapshot(&m.downstream_rq_2xx, false), Ghost(done), Ghost(Source::Counter(m.downstream_rq_2xx)));
    proof {
        done = done.push(Source::Counter(m.downstream_rq_2xx));
    }
    push_snapshot(&mut shots, counter_snapshot(&m.downstream_rq_3xx, false), Ghost(done), Ghost(Source::Counter(m.downstream_rq_3xx)));
    proof {
        done = done.push(Source::Counter(m.downstream_rq_3xx));
    }
    push_snapshot(&mut shots, counter_snapshot(&m.downstream_rq_4xx, false), Ghost(done), Ghost(Source::Counter(m.downstream_rq_4xx)));
    proof {
        done = done.push(Source::Counter(m.downstream_rq_4xx));
    }
    push_snapshot(&mut shots, counter_snapshot(&m.downstream_rq_5xx, false), Ghost(done), Ghost(Source::Counter(m.downstream_rq_5xx)));
    proof {
        done = done.push(Source::Counter(m.downstream_rq_5xx));
    }
    push_snapshot(&mut shots, counter_snapshot(&m.downstream_rq_total, false), Ghost(done), Ghost(Source::Counter(m.downstream_rq_total)));
    proof {
        done = done.push(Source::Counter(m.downstream_rq_total));
    }
    push_snapshot(&mut shots, counter_snapshot(&m.downstream_rq_active, true), Ghost(done), Ghost(Source::GaugeCounter(m.downstream_rq_active)));
    proof {
        done = done.push(Source::GaugeCounter(m.downstream_rq_active));
    }
    push_snapshot(&mut shots, counter_snapshot(&m.downstream_cx_rx_bytes_total, false), Ghost(done), Ghost(Source::Counter(m.downstream_cx_rx_bytes_total)));
    proof {
        done = done.push(Source::Counter(m.downstream_cx_rx_bytes_total));
    }
    push_snapshot(&mut shots, counter_snapshot(&m.downstream_cx_tx_bytes_total, false), Ghost(done), Ghost(Source::Counter(m.downstream_cx_tx_bytes_total)));
    proof {
        done = done.push(Source::Counter(m.downstream_cx_tx_bytes_total));
    }
    push_snapshot(&mut shots, histogram_snapshot(&m.downstream_cx_length_ms), Ghost(done), Ghost(Source::Histogram(m.downstream_cx_length_ms)));
    proof {
        done = done.push(Source::Histogram(m.downstream_cx_length_ms));
    }
    shots
}

/// The metrics of the server in the order in which they are shown.
pub open spec fn server_sources(m: ServerMetrics) -> Seq<Source> {
    Seq::empty()
        .push(Source::Gauge(m.uptime))
        .push(Source::Gauge(m.concurrency))
        .push(Source::Gauge(m.memory_heap_size))
        .push(Source::Gauge(m.memory_physical_size))
        .push(Source::Gauge(m.memory_allocated))
}

fn server_snapshots(m: &ServerMetrics) -> (shots: Vec<Option<Snapshot>>)
    ensures
        covers(shots@, server_sources(*m)),
{
    let mut shots: Vec<Option<Snapshot>> = Vec::new();
    let ghost mut done = Seq::<Source>::empty();
    push_snapshot(&mut shots, gauge_snapshot(&m.uptime), Ghost(done), Ghost(Source::Gauge(m.uptime)));
    proof {
        done = done.push(Source::Gauge(m.uptime));
    }
    push_snapshot(&mut shots, gauge_snapshot(&m.concurrency), Ghost(done), Ghost(Source::Gauge(m.concurrency)));
    proof {
        done = done.push(Source::Gauge(m.concurrency));
    }
    push_snapshot(&mut shots, gauge_snapshot(&m.memory_heap_size), Ghost(done), Ghost(Source::Gauge(m.memory_heap_size)));
    proof {
        done = done.push(Source::Gauge(m.memory_heap_size));
    }
    push_snapshot(&mut shots, gauge_snapshot(&m.memory_physical_size), Ghost(done), Ghost(Source::Gauge(m.memory_physical_size)));
    proof {
        done = done.push(Source::Gauge(m.memory_physical_size));
    }
    push_snapshot(&mut shots, gauge_snapshot(&m.memory_allocated), Ghost(done), Ghost(Source::Gauge(m.memory_allocated)));
    proof {
        done = done.push(Source::Gauge(m.memory_allocated));
    }
    shots
}

/// The metrics of the raw connections in the order in which they are shown.
pub open spec fn tcp_sources(m: TcpMetrics) -> Seq<Source> {
    Seq::empty()
        .push(Source::Counter(m.downstream_cx_total))
        .push(Source::Counter(m.downstream_cx_destroy))
        .push(Source::GaugeCounter(m.downstream_cx_active))
        .push(Source::Histogram(m.downstream_cx_length_ms))
        .push(Source::Counter(m.cx_rx_bytes_received))
        .push(Source::Counter(m.cx_tx_bytes_sent))
}

fn tcp_snapshots(m: &TcpMetrics) -> (shots: Vec<Option<Snapshot>>)
    ensures
        covers(shots@, tcp_sources(*m)),
{
    let mut shots: Vec<Option<Snapshot>> = Vec::new();
    let ghost mut done = Seq::<Source>::empty();
    push_snapshot(&mut shots, counter_snapshot(&m.downstream_cx_total, false), Ghost(done), Ghost(Source::Counter(m.downstream_cx_total)));
    proof {
        done = done.push(Source::Counter(m.downstream_cx_total));
    }
    push_snapshot(&mut shots, counter_snapshot(&m.downstream_cx_destroy, false), Ghost(done), Ghost(Source::Counter(m.downstream_cx_destroy)));
    proof {
        done = done.push(Source::Counter(m.downstream_cx_destroy));
    }
    push_snapshot(&mut shots, counter_snapshot(&m.downstream_cx_active, true), Ghost(done), Ghost(Source::GaugeCounter(m.downstream_cx_active)));
    proof {
        done = done.push(Source::GaugeCounter(m.downstream_cx_active));
    }
    push_snapshot(&mut shots, histogram_snapshot(&m.downstream_cx_length_ms), Ghost(done), Ghost(Source::Histogram(m.downstream_cx_length_ms)));
    proof {
        done = done.push(Source::Histogram(m.downstream_cx_length_ms));
    }
    push_snapshot(&mut shots, counter_snapshot(&m.cx_rx_bytes_received, false), Ghost(done), Ghost(Source::Counter(m.cx_rx_bytes_received)));
    proof {
        done = done.push(Source::Counter(m.cx_rx_bytes_received));
    }
    push_snapshot(&mut shots, counter_snapshot(&m.cx_tx_bytes_sent, false), Ghost(done), Ghost(Source::Counter(m.cx_tx_bytes_sent)));
    proof {
        done = done.push(Source::Counter(m.cx_tx_bytes_sent));
    }
    shots
}

/// The metrics of the TLS handshakes in the order in which they are shown.
pub open spec fn tls_sources(m: TlsMetrics) -> Seq<Source> {
    Seq::empty()
        .push(Source::Counter(m.handshakes))
}

fn tls_snapshots(m: &TlsMetrics) -> (shots: Vec<Option<Snapshot>>)
    ensures
        covers(shots@, tls_sources(*m)),
{
    let mut shots: Vec<Option<Snapshot>> = Vec::new();
    let ghost mut done = Seq::<Source>::empty();
    push_snapshot(&mut shots, counter_snapshot(&m.handshakes, false), Ghost(done), Ghost(Source::Counter(m.handshakes)));
    proof {
        done = done.push(Source::Counter(m.handshakes));
    }
    shots
}

/// The metrics of the upgraded connections in the order in which they are shown.
pub open spec fn websocket_sources(m: HttpMetrics) -> Seq<Source> {
    Seq::empty()
        .push(Source::Counter(m.downstream_cx_ws_upgrades_total))
        .push(Source::GaugeCounter(m.downstream_cx_ws_upgrades_active))
        .push(Source::Counter(m.downstream_rq_ws_on_non_ws_route))
}

fn websocket_snapshots(m: &HttpMetrics) -> (shots: Vec<Option<Snapshot>>)
    ensures
        covers(shots@, websocket_sources(*m)),
{
    let mut shots: Vec<Option<Snapshot>> = Vec::new();
    let ghost mut done = Seq::<Source>::empty();
    push_snapshot(&mut shots, counter_snapshot(&m.downstream_cx_ws_upgrades_total, false), Ghost(done), Ghost(Source::Counter(m.downstream_cx_ws_upgrades_total)));
    proof {
        done = done.push(Source::Counter(m.downstream_cx_ws_upgrades_total));
    }
    push_snapshot(&mut shots, counter_snapshot(&m.downstream_cx_ws_upgrades_active, true), Ghost(done), Ghost(Source::GaugeCounter(m.downstream_cx_ws_upgrades_active)));
    proof {
        done = done.push(Source::GaugeCounter(m.downstream_cx_ws_upgrades_active));
    }
    push_snapshot(&mut shots, counter_snapshot(&m.downstream_rq_ws_on_non_ws_route, false), Ghost(done), Ghost(Source::Counter(m.downstream_rq_ws_on_non_ws_route)));
    proof {
        done = done.push(Source::Counter(m.downstream_rq_ws_on_non_ws_route));
    }
    shots
}

/// The metrics of the users in the order in which they are shown.
pub open spec fn user_sources(m: UserMetrics) -> Seq<Source> {
    Seq::empty()
        .push(Source::Counter(m.invocations))
        .push(Source::Counter(m.throttles))
        .push(Source::Counter(m.system_errors))
        .push(Source::Counter(m.user_errors))
        .push(Source::Counter(m.total_errors))
        .push(Source::Counter(m.bytes_tx))
        .push(Source::Counter(m.bytes_rx))
        .push(Source::Counter(m.inbound_streaming_bytes_processed))
        .push(Source::Counter(m.outbound_streaming_bytes_processed))
        .push(Source::Counter(m.http_1xx_responses))
        .push(Source::Counter(m.http_2xx_responses))
        .push(Source::Counter(m.http_3xx_responses))
        .push(Source::Counter(m.http_4xx_responses))
        .push(Source::Counter(m.http_5xx_responses))
        .push(Source::Histogram(m.latency))
}

fn user_snapshots(m: &UserMetrics) -> (shots: Vec<Option<Snapshot>>)
    ensures
        covers(shots@, user_sources(*m)),
{
    let mut shots: Vec<Option<Snapshot>> = Vec::new();
    let ghost mut done = Seq::<Source>::empty();
    push_snapshot(&mut shots, counter_snapshot(&m.invocations, false), Ghost(done), Ghost(Source::Counter(m.invocations)));
    proof {
        done = done.push(Source::Counter(m.invocations));
    }
    push_snapshot(&mut shots, counter_snapshot(&m.throttles, false), Ghost(done), Ghost(Source::Counter(m.throttles)));
    proof {
        done = done.push(Source::Counter(m.throttles));
    }
    push_snapshot(&mut shots, counter_snapshot(&m.system_errors, false), Ghost(done), Ghost(Source::Counter(m.system_errors)));
    proof {
        done = done.push(Source::Counter(m.system_errors));
    }
    push_snapshot(&mut shots, counter_snapshot(&m.user_errors, false), Ghost(done), Ghost(Source::Counter(m.user_errors)));
    proof {
        done = done.push(Source::Counter(m.user_errors));
    }
    push_snapshot(&mut shots, counter_snapshot(&m.total_errors, false), Ghost(done), Ghost(Source::Counter(m.total_errors)));
    proof {
        done = done.push(Source::Counter(m.total_errors));
    }
    push_snapshot(&mut shots, counter_snapshot(&m.bytes_tx, false), Ghost(done), Ghost(Source::Counter(m.bytes_tx)));
    proof {
        done = done.push(Source::Counter(m.bytes_tx));
    }
    push_snapshot(&mut shots, counter_snapshot(&m.bytes_rx, false), Ghost(done), Ghost(Source::Counter(m.bytes_rx)));
    proof {
        done = done.push(Source::Counter(m.bytes_rx));
    }
    push_snapshot(&mut shots, counter_snapshot(&m.inbound_streaming_bytes_processed, false), Ghost(done), Ghost(Source::Counter(m.inbound_streaming_bytes_processed)));
    proof {
        done = done.push(Source::Counter(m.inbound_streaming_bytes_processed));
    }
    push_snapshot(&mut shots, counter_snapshot(&m.outbound_streaming_bytes_processed, false), Ghost(done), Ghost(Source::Counter(m.outbound_streaming_bytes_processed)));
    proof {
        done = done.push(Source::Counter(m.outbound_streaming_bytes_processed));
    }
    push_snapshot(&mut shots, counter_snapshot(&m.http_1xx_responses, false), Ghost(done), Ghost(Source::Counter(m.http_1xx_responses)));
    proof {
        done = done.push(Source::Counter(m.http_1xx_responses));
    }
    push_snapshot(&mut shots, counter_snapshot(&m.http_2xx_responses, false), Ghost(done), Ghost(Source::Counter(m.http_2xx_responses)));
    proof {
        done = done.push(Source::Counter(m.http_2xx_responses));
    }
    push_snapshot(&mut shots, counter_snapshot(&m.http_3xx_responses, false), Ghost(done), Ghost(Source::Counter(m.http_3xx_responses)));
    proof {
        done = done.push(Source::Counter(m.http_3xx_responses));
    }
    push_snapshot(&mut shots, counter_snapshot(&m.http_4xx_responses, false), Ghost(done), Ghost(Source::Counter(m.http_4xx_responses)));
    proof {
        done = done.push(Source::Counter(m.http_4xx_responses));
    }
    push_snapshot(&mut shots, counter_snapshot(&m.http_5xx_responses, false), Ghost(done), Ghost(Source::Counter(m.http_5xx_responses)));
    proof {
        done = done.push(Source::Counter(m.http_5xx_responses));
    }
    push_snapshot(&mut shots, histogram_snapshot(&m.latency), Ghost(done), Ghost(Source::Histogram(m.latency)));
    proof {
        done = done.push(Source::Histogram(m.latency));
    }
    shots
}

/// The metrics of the filters in the order in which they are shown.
pub open spec fn filters_sources(m: FilterMetrics) -> Seq<Source> {
    Seq::empty()
        .push(Source::Counter(m.connection_rate_limit))
        .push(Source::Counter(m.local_rate_limit))
        .push(Source::Counter(m.user_rate_limit))
}

fn filters_snapshots(m: &FilterMetrics) -> (shots: Vec<Option<Snapshot>>)
    ensures
        covers(shots@, filters_sources(*m)),
{
    let mut shots: Vec<Option<Snapshot>> = Vec::new();
    let ghost mut done = Seq::<Source>::empty();
    push_snapshot(&mut shots, counter_snapshot(&m.connection_rate_limit, false), Ghost(done), Ghost(Source::Counter(m.connection_rate_limit)));
    proof {
        done = done.push(Source::Counter(m.connection_rate_limit));
    }
    push_snapshot(&mut shots, counter_snapshot(&m.local_rate_limit, false), Ghost(done), Ghost(Source::Counter(m.local_rate_limit)));
    proof {
        done = done.push(Source::Counter(m.local_rate_limit));
    }
    push_snapshot(&mut shots, counter_snapshot(&m.user_rate_limit, false), Ghost(done), Ghost(Source::Counter(m.user_rate_limit)));
    proof {
        done = done.push(Source::Counter(m.user_rate_limit));
    }
    shots
}

/// All metrics in the order in which they are shown.
pub open spec fn all_sources(m: GlobalMetrics) -> Seq<Source> {
    listeners_sources(m.listeners)
        + clusters_sources(m.clusters)
        + http_sources(m.http)
        + server_sources(m.server)
        + tcp_sources(m.tcp)
        + tls_sources(m.tls)
        + websocket_sources(m.http)
        + user_sources(m.user)
        + filters_sources(m.filters)
        + custom_sources(m.custom)
}

/// What all metrics hold at the moment, in the order in which they are shown.
pub fn all_snapshots(m: &GlobalMetrics) -> (shots: Vec<Option<Snapshot>>)
    ensures
        covers(shots@, all_sources(*m)),
{
    let mut shots: Vec<Option<Snapshot>> = listeners_snapshots(&m.listeners);
    let ghost done = listeners_sources(m.listeners);
    let mut more: Vec<Option<Snapshot>> = clusters_snapshots(&m.clusters);
    append_snapshots(&mut shots, &mut more, Ghost(done), Ghost(clusters_sources(m.clusters)));
    let ghost done = done + clusters_sources(m.clusters);
    let mut more: Vec<Option<Snapshot>> = http_snapshots(&m.http);
    append_snapshots(&mut shots, &mut more, Ghost(done), Ghost(http_sources(m.http)));
    let ghost done = done + http_sources(m.http);
    let mut more: Vec<Option<Snapshot>> = server_snapshots(&m.server);
    append_snapshots(&mut shots, &mut more, Ghost(done), Ghost(server_sources(m.server)));
    let ghost done = done + server_sources(m.server);
    let mut more: Vec<Option<Snapshot>> = tcp_snapshots(&m.tcp);
    append_snapshots(&mut shots, &mut more, Ghost(done), Ghost(tcp_sources(m.tcp)));
    let ghost done = done + tcp_sources(m.tcp);
    let mut more: Vec<Option<Snapshot>> = tls_snapshots(&m.tls);
    append_snapshots(&mut shots, &mut more, Ghost(done), Ghost(tls_sources(m.tls)));
    let ghost done = done + tls_sources(m.tls);
    let mut more: Vec<Option<Snapshot>> = websocket_snapshots(&m.http);
    append_snapshots(&mut shots, &mut more, Ghost(done), Ghost(websocket_sources(m.http)));
    let ghost done = done + websocket_sources(m.http);
    let mut more: Vec<Option<Snapshot>> = user_snapshots(&m.user);
    append_snapshots(&mut shots, &mut more, Ghost(done), Ghost(user_sources(m.user)));
    let ghost done = done + user_sources(m.user);
    let mut more: Vec<Option<Snapshot>> = filters_snapshots(&m.filters);
    append_snapshots(&mut shots, &mut more, Ghost(done), Ghost(filters_sources(m.filters)));
    let ghost done = done + filters_sources(m.filters);
    let mut more: Vec<Option<Snapshot>> = custom_snapshots(&m.custom);
    append_snapshots(&mut shots, &mut more, Ghost(done), Ghost(custom_sources(m.custom)));
    shots
}

/// All metrics as text. The numbers of each metric come in some order.
pub fn build_prometheus_output(metrics: &GlobalMetrics) -> (out: String)
    ensures
        exists|shots: Seq<Option<Snapshot>>| #[trigger]
            covers(shots, all_sources(*metrics)) && out@ == rendered(shots),
{
    let shots: Vec<Option<Snapshot>> = all_snapshots(metrics);
    assert(are_whole(shots@)) by {
        assert forall|i: int| 0 <= i < shots@.len() implies (#[trigger] shots@[i] matches Some(s) ==> (
        s.data matches SnapshotData::Histogram { buckets, counts, .. } ==> counts@.len() == buckets@.len())) by {
            assert(crate::admin::snapshot::shows(shots@[i], all_sources(*metrics)[i]));
        }
    }
    render(&shots)
}

/// Reads a text back from inside the quotes of a label.
pub open spec fn unescaped(text: Seq<char>) -> Seq<char>
    decreases text.len(),
{
    if text.len() == 0 {
        Seq::empty()
    } else if text[0] == '\\' && text.len() >= 2 {
        seq![
            if text[1] == 'n' {
                '\n'
            } else {
                text[1]
            },
        ] + unescaped(text.skip(2))
    } else {
        seq![text[0]] + unescaped(text.drop_first())
    }
}

/// The text of a label can be read back, so no two values look the same.
pub proof fn law_escaped_reads_back(val: Seq<char>)
    ensures
        unescaped(escaped(val)) == val,
    decreases val.len(),
{
    if val.len() > 0 {
        let rest = escaped(val.drop_first());
        let all = escaped(val);
        law_escaped_reads_back(val.drop_first());
        if escaped_char(val[0]).len() == 2 {
            assert(all[0] == '\\' && all.len() >= 2);
            assert(all.skip(2) =~= rest);
        } else {
            assert(all[0] == val[0]);
            assert(all.drop_first() =~= rest);
        }
        assert(val =~= seq![val[0]] + val.drop_first());
    }
}

/// Whether a character is marked inside the quotes of a label.
pub open spec fn is_special(c: char) -> bool {
    c == '\\' || c == '\n' || c == '"'
}

/// In the text of a label every quote follows a backslash.
pub proof fn law_escaped_quotes_follow_a_backslash(val: Seq<char>, i: int)
    requires
        0 <= i < escaped(val).len(),
        escaped(val)[i] == '"',
    ensures
        i > 0,
        escaped(val)[i - 1] == '\\',
    decreases val.len(),
{
    let head = escaped_char(val[0]);
    let rest = escaped(val.drop_first());
    if i >= head.len() {
        assert(escaped(val)[i] == rest[i - head.len()]);
        law_escaped_quotes_follow_a_backslash(val.drop_first(), i - head.len());
        assert(escaped(val)[i - 1] == rest[i - head.len() - 1]);
    } else {
        assert(escaped(val)[i] == head[i]);
        assert(escaped(val)[0] == head[0]);
    }
}

/// The text of a label is the value itself exactly when the value holds
/// nothing that is marked.
pub proof fn law_plain_text_is_not_changed(val: Seq<char>)
    ensures
        escaped(val) == val <==> forall|i: int| 0 <= i < val.len() ==> !is_special(#[trigger] val[i]),
{
    lemma_escaped_length(val);
}

/// Every mark makes the text longer.
proof fn lemma_escaped_length(val: Seq<char>)
    ensures
        escaped(val).len() >= val.len(),
        (exists|i: int| 0 <= i < val.len() && is_special(#[trigger] val[i])) ==> escaped(val).len() > val.len(),
        (forall|i: int| 0 <= i < val.len() ==> !is_special(#[trigger] val[i])) ==> escaped(val) == val,
    decreases val.len(),
{
    if val.len() > 0 {
        let rest = val.drop_first();
        lemma_escaped_length(rest);
        if exists|i: int| 0 <= i < val.len() && is_special(#[trigger] val[i]) {
            let i = choose|i: int| 0 <= i < val.len() && is_special(#[trigger] val[i]);
            if i > 0 {
                assert(is_special(rest[i - 1]));
            }
        } else {
            assert(!is_special(val[0]));
            assert forall|i: int| 0 <= i < rest.len() implies !is_special(#[trigger] rest[i]) by {
                assert(!is_special(val[i + 1]));
            }
            assert(escaped(val) =~= val);
        }
    } else {
        assert(escaped(val) =~= val);
    }
}

/// The text of a label stays on its line.
pub proof fn law_escaped_has_no_line_break(val: Seq<char>)
    ensures
        !escaped(val).contains('\n'),
    decreases val.len(),
{
    if val.len() > 0 {
        law_escaped_has_no_line_break(val.drop_first());
        let head = escaped_char(val[0]);
        let rest = escaped(val.drop_first());
        assert forall|i: int| 0 <= i < escaped(val).len() implies escaped(val)[i] != '\n' by {
            if i >= head.len() {
                assert(escaped(val)[i] == rest[i - head.len()]);
            }
        }
    }
}

} // verus!
