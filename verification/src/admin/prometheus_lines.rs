//! What can be read back from the metrics in the text format of Prometheus.

use crate::admin::lines::{
    lemma_another_line, lemma_in_either, lemma_joined_on_one_line, lemma_lines_of_both, lemma_number_on_one_line,
    lines_of, on_one_line, whole_lines,
};
use crate::admin::prometheus::{
    bound_text, bucket_samples, buckets_text, escaped, escaped_char, heading, histogram_text, labels_text,
    labels_text_with, law_escaped_has_no_line_break, metric_text, pair_text, pairs_text, rendered, samples, shot_text,
};
use crate::admin::snapshot::{shows_counter, shows_gauge, shows_histogram, Numbers, Snapshot, SnapshotData};
use crate::metrics::Metric;
use crate::sharded::{
    adds_any, after_calls, after_records, how_many, in_range, is_load, labels_view, law_bucket_counts_within_its_bound,
    law_histogram_sums_and_counts, law_load_is_sum_of_history, lists_counts, present, sum_of_calls, sum_of_records,
    takes_what_is_there, total, CounterCall, CounterView, Gauge, LabelsView, ShardedHistogram, ShardedU64,
};
use crate::text::{decimal, first_index_of, is_prefix, lemma_first_index_is};
use vstd::prelude::*;

verus! {

/// Reads a text up to the quote that ends it, and what follows the quote.
pub open spec fn read_quoted(text: Seq<char>) -> (Seq<char>, Seq<char>)
    decreases text.len(),
{
    if text.len() == 0 {
        (Seq::empty(), Seq::empty())
    } else if text[0] == '"' {
        (Seq::empty(), text.drop_first())
    } else if text[0] == '\\' && text.len() >= 2 {
        let (value, rest) = read_quoted(text.skip(2));
        (
            seq![
                if text[1] == 'n' {
                    '\n'
                } else {
                    text[1]
                },
            ] + value,
            rest,
        )
    } else {
        let (value, rest) = read_quoted(text.drop_first());
        (seq![text[0]] + value, rest)
    }
}

/// Reads labels up to the brace that ends them: a key, an equals sign, a text
/// in quotes, and a comma where another label follows.
pub open spec fn read_pairs(text: Seq<char>) -> LabelsView
    decreases text.len(),
{
    let at = first_index_of(text, '=');
    if 0 <= at && at + 1 < text.len() && text[at + 1] == '"' {
        let (value, rest) = read_quoted(text.skip(at + 2));
        if rest.len() > 0 && rest[0] == ',' && rest.len() < text.len() {
            seq![(text.take(at), value)] + read_pairs(rest.drop_first())
        } else {
            seq![(text.take(at), value)]
        }
    } else {
        Seq::empty()
    }
}

/// Reads labels in braces. Nothing stands for no labels.
pub open spec fn read_labels(text: Seq<char>) -> LabelsView {
    if text.len() > 0 && text[0] == '{' {
        read_pairs(text.drop_first())
    } else {
        Seq::empty()
    }
}

/// Whether no key holds an equals sign.
pub open spec fn keys_are_names(labels: LabelsView) -> bool {
    forall|i: int| 0 <= i < labels.len() ==> !(#[trigger] labels[i]).0.contains('=')
}

/// Whether no key holds a line break.
pub open spec fn keys_on_one_line(labels: LabelsView) -> bool {
    forall|i: int| 0 <= i < labels.len() ==> on_one_line((#[trigger] labels[i]).0)
}

/// A value is read back from inside its quotes, with what follows them.
proof fn lemma_quoted_reads_back(value: Seq<char>, rest: Seq<char>)
    ensures
        read_quoted(escaped(value) + "\""@ + rest) == (value, rest),
    decreases value.len(),
{
    reveal_strlit("\"");
    let text = escaped(value) + "\""@ + rest;
    if value.len() == 0 {
        assert(text[0] == '"');
        assert(text.drop_first() =~= rest);
        assert(value =~= Seq::empty());
    } else {
        let head = escaped_char(value[0]);
        let tail = value.drop_first();
        let behind = escaped(tail) + "\""@ + rest;
        lemma_quoted_reads_back(tail, rest);
        assert(text =~= head + behind);
        if head.len() == 2 {
            assert(text[0] == '\\' && text[1] == head[1]);
            assert(text.skip(2) =~= behind);
        } else {
            assert(text[0] == value[0]);
            assert(text.drop_first() =~= behind);
        }
        assert(value =~= seq![value[0]] + tail);
    }
}

/// Labels with commas between them begin with the first.
proof fn lemma_pairs_from_front(labels: LabelsView)
    requires
        labels.len() > 0,
    ensures
        pairs_text(labels) == (if labels.len() == 1 {
            pair_text(labels[0])
        } else {
            pair_text(labels[0]) + ","@ + pairs_text(labels.drop_first())
        }),
    decreases labels.len(),
{
    if labels.len() == 2 {
        assert(labels.drop_last()[0] == labels[0]);
        assert(labels.drop_first()[0] == labels.last());
        assert(pairs_text(labels.drop_last()) == pair_text(labels[0]));
        assert(pairs_text(labels.drop_first()) == pair_text(labels.last()));
    } else if labels.len() > 2 {
        let front = labels.drop_last();
        lemma_pairs_from_front(front);
        assert(front.drop_first() =~= labels.drop_first().drop_last());
        assert(labels.drop_first().last() == labels.last());
        assert(front[0] == labels[0]);
        assert(pairs_text(labels) =~= pair_text(labels[0]) + ","@ + (pairs_text(front.drop_first()) + ","@ + pair_text(
            labels.last(),
        )));
    }
}

proof fn lemma_pairs_read_back(labels: LabelsView, rest: Seq<char>)
    requires
        labels.len() > 0,
        keys_are_names(labels),
        rest.len() == 0 || rest[0] != ',',
    ensures
        read_pairs(pairs_text(labels) + rest) == labels,
    decreases labels.len(),
{
    reveal_strlit("\"");
    reveal_strlit("=\"");
    reveal_strlit(",");
    lemma_pairs_from_front(labels);
    let (key, value) = labels[0];
    let more = labels.drop_first();
    let behind = if labels.len() == 1 {
        rest
    } else {
        ","@ + (pairs_text(more) + rest)
    };
    let text = pairs_text(labels) + rest;
    assert(text =~= key + "=\""@ + (escaped(value) + "\""@ + behind));
    assert(!labels[0].0.contains('='));
    assert forall|i: int| 0 <= i < key.len() implies text[i] != '=' by {
        assert(text[i] == key[i]);
        assert(key.contains(key[i]));
    }
    assert(text[key.len() as int] == '=' && text[key.len() as int + 1] == '"');
    lemma_first_index_is(text, '=', key.len() as int);
    assert(text.take(key.len() as int) =~= key);
    assert(text.skip(key.len() as int + 2) =~= escaped(value) + "\""@ + behind);
    lemma_quoted_reads_back(value, behind);
    if labels.len() > 1 {
        assert forall|i: int| 0 <= i < more.len() implies !(#[trigger] more[i]).0.contains('=') by {
            assert(more[i] == labels[i + 1]);
        }
        lemma_pairs_read_back(more, rest);
        assert(behind[0] == ',');
        assert(behind.drop_first() =~= pairs_text(more) + rest);
        assert(labels =~= seq![(key, value)] + more);
    } else {
        assert(labels =~= seq![(key, value)]);
    }
}

/// Labels in braces can be read back, each with its key and its value, in
/// their order. So no two lists of labels look the same.
pub proof fn law_labels_read_back(labels: LabelsView)
    requires
        keys_are_names(labels),
    ensures
        read_labels(labels_text(labels)) == labels,
        labels.len() == 0 <==> labels_text(labels).len() == 0,
        labels.len() > 0 ==> labels_text(labels).last() == '}',
{
    reveal_strlit("{");
    reveal_strlit("}");
    if labels.len() > 0 {
        let text = labels_text(labels);
        assert(text[0] == '{');
        assert(text.drop_first() =~= pairs_text(labels) + "}"@);
        lemma_pairs_read_back(labels, "}"@);
    } else {
        assert(labels =~= Seq::empty());
    }
}

/// The texts between the parts of a line are on one line.
proof fn lemma_marks_on_one_line()
    ensures
        on_one_line("{"@),
        on_one_line("}"@),
        on_one_line(","@),
        on_one_line("=\""@),
        on_one_line("\""@),
        on_one_line(" "@),
        on_one_line("_"@),
        on_one_line("_sum"@),
        on_one_line("_count"@),
        on_one_line("_bucket"@),
        on_one_line("le"@),
        on_one_line("# HELP "@),
        on_one_line("# TYPE "@),
        on_one_line("counter"@),
        on_one_line("gauge"@),
        on_one_line("histogram"@),
{
    reveal_strlit("{");
    reveal_strlit("}");
    reveal_strlit(",");
    reveal_strlit("=\"");
    reveal_strlit("\"");
    reveal_strlit(" ");
    reveal_strlit("_");
    reveal_strlit("_sum");
    reveal_strlit("_count");
    reveal_strlit("_bucket");
    reveal_strlit("le");
    reveal_strlit("# HELP ");
    reveal_strlit("# TYPE ");
    reveal_strlit("counter");
    reveal_strlit("gauge");
    reveal_strlit("histogram");
}

proof fn lemma_pairs_on_one_line(labels: LabelsView)
    requires
        keys_on_one_line(labels),
    ensures
        on_one_line(pairs_text(labels)),
        on_one_line(labels_text(labels)),
    decreases labels.len(),
{
    lemma_marks_on_one_line();
    if labels.len() > 0 {
        let (key, value) = labels.last();
        assert(on_one_line(labels[labels.len() - 1].0));
        law_escaped_has_no_line_break(value);
        lemma_joined_on_one_line(key, "=\""@);
        lemma_joined_on_one_line(key + "=\""@, escaped(value));
        lemma_joined_on_one_line(key + "=\""@ + escaped(value), "\""@);
        if labels.len() > 1 {
            let front = labels.drop_last();
            assert forall|i: int| 0 <= i < front.len() implies on_one_line((#[trigger] front[i]).0) by {
                assert(front[i] == labels[i]);
            }
            lemma_pairs_on_one_line(front);
            lemma_joined_on_one_line(pairs_text(front), ","@);
            lemma_joined_on_one_line(pairs_text(front) + ","@, pair_text(labels.last()));
        } else {
            assert(labels[0] == labels.last());
        }
        lemma_joined_on_one_line("{"@, pairs_text(labels));
        lemma_joined_on_one_line("{"@ + pairs_text(labels), "}"@);
    }
}

/// The line of a number: the name of the metric, its labels, and the number.
pub open spec fn sample_line(full_name: Seq<char>, labels: LabelsView, value: u64) -> Seq<char> {
    full_name + labels_text(labels) + " "@ + decimal(value as nat)
}

proof fn lemma_sample_line(full_name: Seq<char>, labels: LabelsView, value: u64)
    requires
        on_one_line(full_name),
        keys_on_one_line(labels),
    ensures
        on_one_line(sample_line(full_name, labels, value)),
{
    lemma_marks_on_one_line();
    lemma_pairs_on_one_line(labels);
    lemma_number_on_one_line(value as nat);
    lemma_joined_on_one_line(full_name, labels_text(labels));
    lemma_joined_on_one_line(full_name + labels_text(labels), " "@);
    lemma_joined_on_one_line(full_name + labels_text(labels) + " "@, decimal(value as nat));
}

/// Whether the keys of all numbers are on one line.
pub open spec fn all_on_one_line(list: Seq<(Vec<(String, String)>, u64)>) -> bool {
    forall|i: int| 0 <= i < list.len() ==> keys_on_one_line(labels_view((#[trigger] list[i]).0@))
}

/// The lines of some numbers.
pub open spec fn sample_lines(full_name: Seq<char>, list: Seq<(Vec<(String, String)>, u64)>) -> Seq<Seq<char>> {
    Seq::new(list.len(), |i: int| sample_line(full_name, labels_view(list[i].0@), list[i].1))
}

proof fn lemma_sample_lines(full_name: Seq<char>, list: Seq<(Vec<(String, String)>, u64)>)
    requires
        on_one_line(full_name),
        all_on_one_line(list),
    ensures
        lines_of(samples(full_name, list)) == sample_lines(full_name, list),
        whole_lines(samples(full_name, list)),
    decreases list.len(),
{
    if list.len() > 0 {
        let front = list.drop_last();
        let (labels, value) = (labels_view(list.last().0@), list.last().1);
        assert forall|i: int| 0 <= i < front.len() implies keys_on_one_line(labels_view((#[trigger] front[i]).0@)) by {
            assert(front[i] == list[i]);
        }
        lemma_sample_lines(full_name, front);
        assert(keys_on_one_line(labels_view(list[list.len() - 1].0@)));
        lemma_sample_line(full_name, labels, value);
        lemma_another_line(samples(full_name, front), sample_line(full_name, labels, value));
        assert(samples(full_name, list) =~= samples(full_name, front) + (sample_line(full_name, labels, value)
            + "\n"@));
        assert(sample_lines(full_name, list) =~= sample_lines(full_name, front).push(
            sample_line(full_name, labels, value),
        ));
    } else {
        assert(lines_of(samples(full_name, list)) =~= sample_lines(full_name, list));
    }
}

/// The labels of a bucket: those of the metric, and the bound behind them. No
/// bound is written as infinite.
pub open spec fn with_bound(labels: LabelsView, bound: u64) -> LabelsView {
    labels.push(
        (
            "le"@,
            if bound == u64::MAX {
                "+Inf"@
            } else {
                decimal(bound as nat)
            },
        ),
    )
}

/// The lines of the numbers of a bucket.
pub open spec fn bucket_lines(full_name: Seq<char>, bound: u64, list: Seq<(Vec<(String, String)>, u64)>) -> Seq<
    Seq<char>,
> {
    Seq::new(
        list.len(),
        |i: int| sample_line(full_name + "_bucket"@, with_bound(labels_view(list[i].0@), bound), list[i].1),
    )
}

proof fn lemma_bucket_lines(full_name: Seq<char>, bound: u64, list: Seq<(Vec<(String, String)>, u64)>)
    requires
        on_one_line(full_name),
        all_on_one_line(list),
    ensures
        lines_of(bucket_samples(full_name, bound, list)) == bucket_lines(full_name, bound, list),
        whole_lines(bucket_samples(full_name, bound, list)),
    decreases list.len(),
{
    if list.len() > 0 {
        let front = list.drop_last();
        let (labels, value) = (labels_view(list.last().0@), list.last().1);
        let name = full_name + "_bucket"@;
        let line = sample_line(name, with_bound(labels, bound), value);
        assert forall|i: int| 0 <= i < front.len() implies keys_on_one_line(labels_view((#[trigger] front[i]).0@)) by {
            assert(front[i] == list[i]);
        }
        lemma_bucket_lines(full_name, bound, front);
        lemma_marks_on_one_line();
        lemma_joined_on_one_line(full_name, "_bucket"@);
        assert(keys_on_one_line(labels_view(list[list.len() - 1].0@)));
        assert(keys_on_one_line(with_bound(labels, bound))) by {
            let all = with_bound(labels, bound);
            assert forall|i: int| 0 <= i < all.len() implies on_one_line((#[trigger] all[i]).0) by {
                if i < labels.len() {
                    assert(all[i] == labels[i]);
                }
            }
        }
        lemma_sample_line(name, with_bound(labels, bound), value);
        lemma_another_line(bucket_samples(full_name, bound, front), line);
        assert(with_bound(labels, bound) =~= labels.push(("le"@, bound_text(bound))));
        assert(labels_text_with(labels, "le"@, bound_text(bound)) == labels_text(with_bound(labels, bound)));
        assert(bucket_samples(full_name, bound, list) =~= bucket_samples(full_name, bound, front) + (line + "\n"@));
        assert(bucket_lines(full_name, bound, list) =~= bucket_lines(full_name, bound, front).push(line));
    } else {
        assert(lines_of(bucket_samples(full_name, bound, list)) =~= bucket_lines(full_name, bound, list));
    }
}

/// The lines of the first `n` buckets.
pub open spec fn all_bucket_lines(full_name: Seq<char>, buckets: Seq<u64>, counts: Seq<Numbers>, n: int) -> Seq<
    Seq<char>,
>
    decreases n,
{
    if n <= 0 {
        Seq::empty()
    } else {
        all_bucket_lines(full_name, buckets, counts, n - 1) + bucket_lines(full_name, buckets[n - 1], counts[n - 1]@)
    }
}

proof fn lemma_all_bucket_lines(full_name: Seq<char>, buckets: Seq<u64>, counts: Seq<Numbers>, n: int)
    requires
        on_one_line(full_name),
        0 <= n <= counts.len(),
        forall|i: int| 0 <= i < counts.len() ==> all_on_one_line((#[trigger] counts[i])@),
    ensures
        lines_of(buckets_text(full_name, buckets, counts, n)) == all_bucket_lines(full_name, buckets, counts, n),
        whole_lines(buckets_text(full_name, buckets, counts, n)),
        forall|i: int|
            0 <= i < all_bucket_lines(full_name, buckets, counts, n).len() ==> is_prefix(
                full_name + "_bucket"@,
                #[trigger] all_bucket_lines(full_name, buckets, counts, n)[i],
            ),
        forall|j: int, k: int|
            0 <= j < n && 0 <= k < counts[j]@.len() ==> all_bucket_lines(full_name, buckets, counts, n).contains(
                #[trigger] bucket_lines(full_name, buckets[j], counts[j]@)[k],
            ),
    decreases n,
{
    if n > 0 {
        lemma_all_bucket_lines(full_name, buckets, counts, n - 1);
        let last = bucket_lines(full_name, buckets[n - 1], counts[n - 1]@);
        let front = all_bucket_lines(full_name, buckets, counts, n - 1);
        let all = all_bucket_lines(full_name, buckets, counts, n);
        assert(all_on_one_line(counts[n - 1]@));
        lemma_bucket_lines(full_name, buckets[n - 1], counts[n - 1]@);
        lemma_lines_of_both(
            buckets_text(full_name, buckets, counts, n - 1),
            bucket_samples(full_name, buckets[n - 1], counts[n - 1]@),
        );
        assert forall|i: int| 0 <= i < all.len() implies is_prefix(full_name + "_bucket"@, #[trigger] all[i]) by {
            if i >= front.len() {
                let line = last[i - front.len()];
                assert(all[i] == line);
                assert(line.subrange(0, (full_name + "_bucket"@).len() as int) =~= full_name + "_bucket"@);
            } else {
                assert(all[i] == front[i]);
            }
        }
        assert forall|j: int, k: int| 0 <= j < n && 0 <= k < counts[j]@.len() implies all.contains(
            #[trigger] bucket_lines(full_name, buckets[j], counts[j]@)[k],
        ) by {
            let line = bucket_lines(full_name, buckets[j], counts[j]@)[k];
            if j < n - 1 {
                assert(front.contains(line));
                let i = choose|i: int| 0 <= i < front.len() && front[i] == line;
                assert(all[i] == line);
            } else {
                assert(all[front.len() + k] == line);
            }
        }
    } else {
        assert(lines_of(buckets_text(full_name, buckets, counts, n)) =~= all_bucket_lines(
            full_name,
            buckets,
            counts,
            n,
        ));
    }
}

/// The line with what a metric is about.
pub open spec fn help_line(full_name: Seq<char>, descr: Seq<char>) -> Seq<char> {
    "# HELP "@ + full_name + " "@ + descr
}

/// The line with the kind of a metric.
pub open spec fn type_line(full_name: Seq<char>, metric_type: Seq<char>) -> Seq<char> {
    "# TYPE "@ + full_name + " "@ + metric_type
}

proof fn lemma_heading_lines(full_name: Seq<char>, descr: Seq<char>, metric_type: Seq<char>)
    requires
        on_one_line(full_name),
        on_one_line(descr),
        on_one_line(metric_type),
    ensures
        lines_of(heading(full_name, descr, metric_type)) == seq![
            help_line(full_name, descr),
            type_line(full_name, metric_type),
        ],
        whole_lines(heading(full_name, descr, metric_type)),
{
    lemma_marks_on_one_line();
    let help = help_line(full_name, descr);
    let kind = type_line(full_name, metric_type);
    lemma_joined_on_one_line("# HELP "@, full_name);
    lemma_joined_on_one_line("# HELP "@ + full_name, " "@);
    lemma_joined_on_one_line("# HELP "@ + full_name + " "@, descr);
    lemma_joined_on_one_line("# TYPE "@, full_name);
    lemma_joined_on_one_line("# TYPE "@ + full_name, " "@);
    lemma_joined_on_one_line("# TYPE "@ + full_name + " "@, metric_type);
    let none = Seq::<char>::empty();
    lemma_another_line(none, help);
    lemma_another_line(none + (help + "\n"@), kind);
    assert(heading(full_name, descr, metric_type) =~= none + (help + "\n"@) + (kind + "\n"@));
    assert(lines_of(none) =~= Seq::empty());
    assert(lines_of(heading(full_name, descr, metric_type)) =~= seq![help, kind]);
}

/// The name that the lines of a metric begin with.
pub open spec fn full_name_of<T>(metric: Metric<T>) -> Seq<char> {
    metric.prefix@ + "_"@ + metric.name@
}

/// Whether the words of a metric are fit for lines: none holds a line break,
/// and its name does not begin like a remark.
pub open spec fn words_fit<T>(metric: Metric<T>) -> bool {
    &&& on_one_line(metric.prefix@)
    &&& on_one_line(metric.name@)
    &&& on_one_line(metric.descr@)
    &&& full_name_of(metric)[0] != '#'
}

/// Whether the keys of all labels that a counter has counted under are on one line.
pub open spec fn labels_fit(v: CounterView) -> bool {
    forall|labels: LabelsView| #[trigger] present(v, labels) ==> keys_on_one_line(labels)
}

proof fn lemma_full_name<T>(metric: Metric<T>)
    requires
        words_fit(metric),
    ensures
        on_one_line(full_name_of(metric)),
        full_name_of(metric).len() > 0,
{
    reveal_strlit("_");
    lemma_marks_on_one_line();
    lemma_joined_on_one_line(metric.prefix@, "_"@);
    lemma_joined_on_one_line(metric.prefix@ + "_"@, metric.name@);
}

/// The numbers that were listed have labels that fit.
proof fn lemma_list_fits(list: Seq<(Vec<(String, String)>, u64)>, v: CounterView)
    requires
        lists_counts(list, v),
        labels_fit(v),
    ensures
        all_on_one_line(list),
{
    assert forall|i: int| 0 <= i < list.len() implies keys_on_one_line(labels_view((#[trigger] list[i]).0@)) by {
        assert(is_load(v, labels_view(list[i].0@), Some(list[i].1)));
        assert(present(v, labels_view(list[i].0@)));
    }
}

/// Every number that was counted has its line, and there is no other.
proof fn lemma_listed_lines(
    full_name: Seq<char>,
    list: Seq<(Vec<(String, String)>, u64)>,
    v: CounterView,
    labels: LabelsView,
    value: u64,
)
    requires
        lists_counts(list, v),
        is_load(v, labels, Some(value)),
    ensures
        exists|i: int|
            0 <= i < list.len() && labels_view((#[trigger] list[i]).0@) == labels && list[i].1 == value,
        sample_lines(full_name, list).contains(sample_line(full_name, labels, value)),
{
    assert(present(v, labels));
    let i = choose|i: int| 0 <= i < list.len() && labels_view((#[trigger] list[i]).0@) == labels;
    assert(is_load(v, labels_view(list[i].0@), Some(list[i].1)));
    assert(sample_lines(full_name, list)[i] == sample_line(full_name, labels, value));
}

/// Whether a line carries a number of a counter: under some labels, the number
/// that the counter loads under them.
pub open spec fn carries(line: Seq<char>, full_name: Seq<char>, v: CounterView) -> bool {
    exists|labels: LabelsView, value: u64|
        line == sample_line(full_name, labels, value) && #[trigger] is_load(v, labels, Some(value))
}

proof fn lemma_lines_carry(full_name: Seq<char>, list: Seq<(Vec<(String, String)>, u64)>, v: CounterView, i: int)
    requires
        lists_counts(list, v),
        0 <= i < list.len(),
    ensures
        carries(sample_lines(full_name, list)[i], full_name, v),
        is_prefix(full_name, sample_lines(full_name, list)[i]),
{
    assert(is_load(v, labels_view(list[i].0@), Some(list[i].1)));
    let line = sample_lines(full_name, list)[i];
    assert(line == sample_line(full_name, labels_view(list[i].0@), list[i].1));
    assert(line.subrange(0, full_name.len() as int) =~= full_name);
}

/// The lines of a histogram that has counted anything.
proof fn lemma_histogram_lines(shot: Snapshot, metric: Metric<ShardedHistogram>, labels: LabelsView) -> (parts: (
    Seq<Seq<char>>,
    Seq<Seq<char>>,
    Seq<Seq<char>>,
    Seq<Seq<char>>,
))
    requires
        shows_histogram(shot, metric),
        words_fit(metric),
        labels_fit(metric.value@.sum),
        labels_fit(metric.value@.count),
        forall|j: int| 0 <= j < metric.value@.buckets.len() ==> labels_fit(#[trigger] metric.value@.counts[j]),
        present(metric.value@.count, labels),
    ensures
        ({
            let f = full_name_of(metric);
            &&& lines_of(shot_text(Some(shot))) == parts.0 + parts.1 + parts.2 + parts.3
            &&& parts.0 == seq![help_line(f, metric.descr@), type_line(f, "histogram"@)]
            &&& parts.1 == all_bucket_lines(
                f,
                metric.value@.buckets,
                shot.data->counts@,
                metric.value@.buckets.len() as int,
            )
            &&& forall|i: int| 0 <= i < parts.1.len() ==> is_prefix(f + "_bucket"@, #[trigger] parts.1[i])
            &&& forall|j: int, k: int|
                0 <= j < metric.value@.buckets.len() && 0 <= k < shot.data->counts@[j]@.len() ==> parts.1.contains(
                    #[trigger] bucket_lines(f, metric.value@.buckets[j], shot.data->counts@[j]@)[k],
                )
            &&& parts.2 == sample_lines(f + "_sum"@, shot.data->sum@)
            &&& parts.3 == sample_lines(f + "_count"@, shot.data->count@)
        }),
{
    let f = full_name_of(metric);
    let buckets = metric.value@.buckets;
    let counts = shot.data->counts@;
    let sum = shot.data->sum@;
    let count = shot.data->count@;
    let n = buckets.len() as int;
    lemma_full_name(metric);
    lemma_marks_on_one_line();
    lemma_list_fits(sum, metric.value@.sum);
    lemma_list_fits(count, metric.value@.count);
    assert forall|i: int| 0 <= i < counts.len() implies all_on_one_line((#[trigger] counts[i])@) by {
        assert(labels_fit(metric.value@.counts[i]));
        lemma_list_fits(counts[i]@, metric.value@.counts[i]);
    }
    let k = choose|k: int| 0 <= k < count.len() && labels_view((#[trigger] count[k]).0@) == labels;
    assert(count.len() > 0);
    lemma_heading_lines(f, metric.descr@, "histogram"@);
    lemma_all_bucket_lines(f, buckets, counts, n);
    lemma_joined_on_one_line(f, "_sum"@);
    lemma_joined_on_one_line(f, "_count"@);
    lemma_sample_lines(f + "_sum"@, sum);
    lemma_sample_lines(f + "_count"@, count);
    let head = heading(f, metric.descr@, "histogram"@);
    let middle = buckets_text(f, buckets, counts, n);
    lemma_lines_of_both(head, middle);
    lemma_lines_of_both(head + middle, samples(f + "_sum"@, sum));
    lemma_lines_of_both(head + middle + samples(f + "_sum"@, sum), samples(f + "_count"@, count));
    assert(shot.prefix@ + "_"@ + shot.name@ == f);
    assert(shot_text(Some(shot)) == histogram_text(f, metric.descr@, buckets, counts, sum, count));
    (
        seq![help_line(f, metric.descr@), type_line(f, "histogram"@)],
        all_bucket_lines(f, buckets, counts, n),
        sample_lines(f + "_sum"@, sum),
        sample_lines(f + "_count"@, count),
    )
}

/// In the text of a histogram the line that ends its name in `_sum` carries,
/// under each list of labels, the sum of the histogram, the one that ends in
/// `_count` its count, and the one that ends in `_bucket` and states a bound
/// the number of that bucket. Every line named `_sum` or `_count` carries such
/// a number. What the metric is about and its kind come first.
pub proof fn law_histogram_lines_carry_its_numbers(
    shot: Snapshot,
    metric: Metric<ShardedHistogram>,
    labels: LabelsView,
    sum: u64,
    count: u64,
)
    requires
        shows_histogram(shot, metric),
        words_fit(metric),
        labels_fit(metric.value@.sum),
        labels_fit(metric.value@.count),
        forall|j: int| 0 <= j < metric.value@.buckets.len() ==> labels_fit(#[trigger] metric.value@.counts[j]),
        is_load(metric.value@.sum, labels, Some(sum)),
        is_load(metric.value@.count, labels, Some(count)),
    ensures
        ({
            let f = full_name_of(metric);
            let lines = lines_of(shot_text(Some(shot)));
            &&& lines.len() >= 2
            &&& lines[0] == "# HELP "@ + f + " "@ + metric.descr@
            &&& lines[1] == "# TYPE "@ + f + " histogram"@
            &&& lines.contains(f + "_sum"@ + labels_text(labels) + " "@ + decimal(sum as nat))
            &&& lines.contains(f + "_count"@ + labels_text(labels) + " "@ + decimal(count as nat))
            &&& forall|j: int, value: u64|
                0 <= j < metric.value@.buckets.len() && #[trigger] is_load(
                    metric.value@.counts[j],
                    labels,
                    Some(value),
                ) ==> lines.contains(
                    f + "_bucket"@ + labels_text(with_bound(labels, metric.value@.buckets[j])) + " "@ + decimal(
                        value as nat,
                    ),
                )
            &&& forall|i: int|
                0 <= i < lines.len() && is_prefix(f + "_sum"@, #[trigger] lines[i]) ==> carries(
                    lines[i],
                    f + "_sum"@,
                    metric.value@.sum,
                )
            &&& forall|i: int|
                0 <= i < lines.len() && is_prefix(f + "_count"@, #[trigger] lines[i]) ==> carries(
                    lines[i],
                    f + "_count"@,
                    metric.value@.count,
                )
        }),
{
    let f = full_name_of(metric);
    let lines = lines_of(shot_text(Some(shot)));
    let (head, middle, sums, counts) = lemma_histogram_lines(shot, metric, labels);
    lemma_full_name(metric);
    reveal_strlit("_sum");
    reveal_strlit("_count");
    reveal_strlit("_bucket");
    reveal_strlit("# HELP ");
    reveal_strlit("# TYPE ");
    reveal_strlit(" ");
    reveal_strlit("histogram");
    reveal_strlit(" histogram");
    assert(lines[0] == head[0] && lines[1] == head[1]);
    assert(" "@ + "histogram"@ =~= " histogram"@);
    assert(type_line(f, "histogram"@) =~= "# TYPE "@ + f + (" "@ + "histogram"@));
    lemma_listed_lines(f + "_sum"@, shot.data->sum@, metric.value@.sum, labels, sum);
    lemma_listed_lines(f + "_count"@, shot.data->count@, metric.value@.count, labels, count);
    lemma_contained(head, middle, sums, counts, sample_line(f + "_sum"@, labels, sum));
    lemma_contained(head, middle, sums, counts, sample_line(f + "_count"@, labels, count));
    assert forall|j: int, value: u64|
        0 <= j < metric.value@.buckets.len() && #[trigger] is_load(
            metric.value@.counts[j],
            labels,
            Some(value),
        ) implies lines.contains(
        f + "_bucket"@ + labels_text(with_bound(labels, metric.value@.buckets[j])) + " "@ + decimal(value as nat),
    ) by {
        let list = shot.data->counts@[j]@;
        assert(lists_counts(list, metric.value@.counts[j]));
        lemma_listed_lines(f, list, metric.value@.counts[j], labels, value);
        let k = choose|k: int|
            0 <= k < list.len() && labels_view((#[trigger] list[k]).0@) == labels && list[k].1 == value;
        let line = bucket_lines(f, metric.value@.buckets[j], list)[k];
        assert(line == sample_line(f + "_bucket"@, with_bound(labels, metric.value@.buckets[j]), value));
        assert(middle.contains(line));
        lemma_contained(head, middle, sums, counts, line);
    }
    assert forall|i: int| 0 <= i < lines.len() && is_prefix(f + "_sum"@, #[trigger] lines[i]) implies carries(
        lines[i],
        f + "_sum"@,
        metric.value@.sum,
    ) by {
        lemma_named(lines[i], f, "_sum"@);
        lemma_which_part(shot, metric, head, middle, sums, counts, i);
    }
    assert forall|i: int| 0 <= i < lines.len() && is_prefix(f + "_count"@, #[trigger] lines[i]) implies carries(
        lines[i],
        f + "_count"@,
        metric.value@.count,
    ) by {
        lemma_named(lines[i], f, "_count"@);
        lemma_which_part(shot, metric, head, middle, sums, counts, i);
    }
}

/// A line that begins with a name has its characters.
proof fn lemma_named(line: Seq<char>, full_name: Seq<char>, ending: Seq<char>)
    requires
        is_prefix(full_name + ending, line),
        full_name.len() > 0,
        ending.len() > 1,
    ensures
        line.len() >= full_name.len() + ending.len(),
        line[0] == full_name[0],
        line[full_name.len() as int + 1] == ending[1],
{
    let name = full_name + ending;
    assert(line.subrange(0, name.len() as int)[0] == name[0]);
    assert(line.subrange(0, name.len() as int)[full_name.len() as int + 1] == name[full_name.len() as int + 1]);
}

/// What the parts of a text contain, it contains.
proof fn lemma_contained(
    a: Seq<Seq<char>>,
    b: Seq<Seq<char>>,
    c: Seq<Seq<char>>,
    d: Seq<Seq<char>>,
    line: Seq<char>,
)
    requires
        a.contains(line) || b.contains(line) || c.contains(line) || d.contains(line),
    ensures
        (a + b + c + d).contains(line),
{
    let all = a + b + c + d;
    if a.contains(line) {
        let i = choose|i: int| 0 <= i < a.len() && a[i] == line;
        assert(all[i] == line);
    } else if b.contains(line) {
        let i = choose|i: int| 0 <= i < b.len() && b[i] == line;
        assert(all[a.len() + i] == line);
    } else if c.contains(line) {
        let i = choose|i: int| 0 <= i < c.len() && c[i] == line;
        assert(all[a.len() + b.len() + i] == line);
    } else {
        let i = choose|i: int| 0 <= i < d.len() && d[i] == line;
        assert(all[a.len() + b.len() + c.len() + i] == line);
    }
}

/// Which part of a histogram a line is in shows in its name.
proof fn lemma_which_part(
    shot: Snapshot,
    metric: Metric<ShardedHistogram>,
    head: Seq<Seq<char>>,
    middle: Seq<Seq<char>>,
    sums: Seq<Seq<char>>,
    counts: Seq<Seq<char>>,
    i: int,
)
    requires
        shows_histogram(shot, metric),
        words_fit(metric),
        ({
            let f = full_name_of(metric);
            &&& head == seq![help_line(f, metric.descr@), type_line(f, "histogram"@)]
            &&& forall|k: int| 0 <= k < middle.len() ==> is_prefix(f + "_bucket"@, #[trigger] middle[k])
            &&& sums == sample_lines(f + "_sum"@, shot.data->sum@)
            &&& counts == sample_lines(f + "_count"@, shot.data->count@)
            &&& 0 <= i < (head + middle + sums + counts).len()
            &&& (head + middle + sums + counts)[i].len() > f.len() + 1
            &&& (head + middle + sums + counts)[i][0] == f[0]
        }),
    ensures
        ({
            let f = full_name_of(metric);
            let line = (head + middle + sums + counts)[i];
            &&& line[f.len() as int + 1] == 's' ==> carries(line, f + "_sum"@, metric.value@.sum)
            &&& line[f.len() as int + 1] == 'c' ==> carries(line, f + "_count"@, metric.value@.count)
        }),
{
    let f = full_name_of(metric);
    let line = (head + middle + sums + counts)[i];
    lemma_full_name(metric);
    reveal_strlit("_sum");
    reveal_strlit("_count");
    reveal_strlit("_bucket");
    reveal_strlit("# HELP ");
    reveal_strlit("# TYPE ");
    if i < head.len() {
        assert(line[0] == '#');
    } else if i < head.len() + middle.len() {
        assert(line == middle[i - head.len()]);
        lemma_named(line, f, "_bucket"@);
    } else if i < head.len() + middle.len() + sums.len() {
        let k = i - head.len() - middle.len();
        assert(line == sums[k]);
        lemma_lines_carry(f + "_sum"@, shot.data->sum@, metric.value@.sum, k);
        lemma_named(line, f, "_sum"@);
    } else {
        let k = i - head.len() - middle.len() - sums.len();
        assert(line == counts[k]);
        lemma_lines_carry(f + "_count"@, shot.data->count@, metric.value@.count, k);
        lemma_named(line, f, "_count"@);
    }
}

/// Whatever numbers a histogram was given, its text tells under each list of
/// labels their sum, how many they were, and how many of them are within each
/// bound, within the range of a counter.
pub proof fn law_recorded_numbers_are_shown(
    shot: Snapshot,
    metric: Metric<ShardedHistogram>,
    buckets: Seq<u64>,
    records: Seq<(u64, u64, LabelsView)>,
    labels: LabelsView,
)
    requires
        shows_histogram(shot, metric),
        words_fit(metric),
        metric.value@ == after_records(buckets, records),
        metric.value@.buckets == buckets,
        labels_fit(metric.value@.sum),
        labels_fit(metric.value@.count),
        forall|j: int| 0 <= j < buckets.len() ==> labels_fit(#[trigger] metric.value@.counts[j]),
        how_many(records, labels, u64::MAX) > 0,
    ensures
        ({
            let f = full_name_of(metric);
            let lines = lines_of(shot_text(Some(shot)));
            &&& lines.contains(
                f + "_sum"@ + labels_text(labels) + " "@ + decimal(in_range(sum_of_records(records, labels)) as nat),
            )
            &&& lines.contains(
                f + "_count"@ + labels_text(labels) + " "@ + decimal(
                    in_range(how_many(records, labels, u64::MAX) as int) as nat,
                ),
            )
            &&& forall|j: int|
                0 <= j < buckets.len() && how_many(records, labels, #[trigger] buckets[j]) > 0 ==> lines.contains(
                    f + "_bucket"@ + labels_text(with_bound(labels, buckets[j])) + " "@ + decimal(
                        in_range(how_many(records, labels, buckets[j]) as int) as nat,
                    ),
                )
        }),
{
    let v = metric.value@;
    let sum = some_load(v.sum, labels);
    let count = some_load(v.count, labels);
    lemma_some_load(v.sum, labels);
    lemma_some_load(v.count, labels);
    law_histogram_sums_and_counts(buckets, records, labels, sum, count);
    law_histogram_lines_carry_its_numbers(shot, metric, labels, sum->0, count->0);
    let lines = lines_of(shot_text(Some(shot)));
    assert forall|j: int| 0 <= j < buckets.len() && how_many(records, labels, #[trigger] buckets[j]) > 0 implies lines.contains(
        full_name_of(metric) + "_bucket"@ + labels_text(with_bound(labels, buckets[j])) + " "@ + decimal(
            in_range(how_many(records, labels, buckets[j]) as int) as nat,
        ),
    ) by {
        let loaded = some_load(v.counts[j], labels);
        lemma_some_load(v.counts[j], labels);
        law_bucket_counts_within_its_bound(buckets, records, labels, j, loaded);
        assert(is_load(v.counts[j], labels, Some(loaded->0)));
    }
}

/// What a counter loads.
spec fn some_load(v: CounterView, labels: LabelsView) -> Option<u64> {
    if present(v, labels) {
        Some(in_range(total(v, labels)) as u64)
    } else {
        None
    }
}

proof fn lemma_some_load(v: CounterView, labels: LabelsView)
    ensures
        is_load(v, labels, some_load(v, labels)),
{
    let n = total(v, labels);
    assert(0 <= in_range(n) <= u64::MAX) by (nonlinear_arith)
        requires
            in_range(n) == n % 0x1_0000_0000_0000_0000,
    ;
}

/// The lines of a metric of single numbers that has any.
proof fn lemma_metric_lines(
    full_name: Seq<char>,
    descr: Seq<char>,
    metric_type: Seq<char>,
    list: Seq<(Vec<(String, String)>, u64)>,
)
    requires
        on_one_line(full_name),
        on_one_line(descr),
        on_one_line(metric_type),
        all_on_one_line(list),
        list.len() > 0,
    ensures
        lines_of(metric_text(full_name, descr, metric_type, list)) == seq![
            help_line(full_name, descr),
            type_line(full_name, metric_type),
        ] + sample_lines(full_name, list),
{
    lemma_heading_lines(full_name, descr, metric_type);
    lemma_sample_lines(full_name, list);
    lemma_lines_of_both(heading(full_name, descr, metric_type), samples(full_name, list));
}

/// In the text of a counter the line with its name carries, under each list of
/// labels, what the counter loads, and nothing else stands behind the two lines
/// that tell what it is about and whether it can also go down.
pub proof fn law_counter_lines_carry_its_numbers(
    shot: Snapshot,
    metric: Metric<ShardedU64>,
    as_gauge: bool,
    labels: LabelsView,
    value: u64,
)
    requires
        shows_counter(shot, metric, as_gauge),
        words_fit(metric),
        labels_fit(metric.value@),
        is_load(metric.value@, labels, Some(value)),
    ensures
        ({
            let f = full_name_of(metric);
            let lines = lines_of(shot_text(Some(shot)));
            &&& lines.len() >= 2
            &&& lines[0] == "# HELP "@ + f + " "@ + metric.descr@
            &&& lines[1] == (if as_gauge {
                "# TYPE "@ + f + " gauge"@
            } else {
                "# TYPE "@ + f + " counter"@
            })
            &&& lines.contains(f + labels_text(labels) + " "@ + decimal(value as nat))
            &&& forall|i: int| 2 <= i < lines.len() ==> carries(#[trigger] lines[i], f, metric.value@)
        }),
{
    let f = full_name_of(metric);
    let list = shot.data->Counter_list@;
    let kind = if as_gauge {
        "gauge"@
    } else {
        "counter"@
    };
    lemma_full_name(metric);
    lemma_marks_on_one_line();
    lemma_list_fits(list, metric.value@);
    lemma_listed_lines(f, list, metric.value@, labels, value);
    lemma_metric_lines(f, metric.descr@, kind, list);
    lemma_kinds(f);
    let lines = lines_of(shot_text(Some(shot)));
    let head = seq![help_line(f, metric.descr@), type_line(f, kind)];
    assert(lines == head + sample_lines(f, list));
    assert(lines[0] == head[0] && lines[1] == head[1]);
    lemma_contained(head, sample_lines(f, list), Seq::empty(), Seq::empty(), sample_line(f, labels, value));
    assert(head + sample_lines(f, list) + Seq::empty() + Seq::empty() =~= lines);
    assert forall|i: int| 2 <= i < lines.len() implies carries(#[trigger] lines[i], f, metric.value@) by {
        lemma_lines_carry(f, list, metric.value@, i - 2);
        assert(lines[i] == sample_lines(f, list)[i - 2]);
    }
}

/// The kinds as they stand at the end of a line.
proof fn lemma_kinds(full_name: Seq<char>)
    ensures
        type_line(full_name, "gauge"@) == "# TYPE "@ + full_name + " gauge"@,
        type_line(full_name, "counter"@) == "# TYPE "@ + full_name + " counter"@,
{
    reveal_strlit(" ");
    reveal_strlit("gauge");
    reveal_strlit(" gauge");
    reveal_strlit("counter");
    reveal_strlit(" counter");
    assert(" "@ + "gauge"@ =~= " gauge"@);
    assert(" "@ + "counter"@ =~= " counter"@);
    assert(type_line(full_name, "gauge"@) =~= "# TYPE "@ + full_name + (" "@ + "gauge"@));
    assert(type_line(full_name, "counter"@) =~= "# TYPE "@ + full_name + (" "@ + "counter"@));
}

/// Whatever was counted, the text of a counter tells under each list of labels
/// the sum of it, within the range of a counter.
pub proof fn law_counted_numbers_are_shown(
    shot: Snapshot,
    metric: Metric<ShardedU64>,
    as_gauge: bool,
    calls: Seq<CounterCall>,
    labels: LabelsView,
)
    requires
        shows_counter(shot, metric, as_gauge),
        words_fit(metric),
        labels_fit(metric.value@),
        metric.value@ == after_calls(calls),
        takes_what_is_there(calls),
        adds_any(calls, labels),
    ensures
        lines_of(shot_text(Some(shot))).contains(
            full_name_of(metric) + labels_text(labels) + " "@ + decimal(in_range(sum_of_calls(calls, labels)) as nat),
        ),
{
    let loaded = some_load(metric.value@, labels);
    lemma_some_load(metric.value@, labels);
    law_load_is_sum_of_history(calls, labels, loaded);
    law_counter_lines_carry_its_numbers(shot, metric, as_gauge, labels, loaded->0);
}

/// In the text of a gauge the line with its name carries, under each list of
/// labels, the number that was set.
pub proof fn law_gauge_lines_carry_its_numbers(shot: Snapshot, metric: Metric<Gauge>, labels: LabelsView)
    requires
        shows_gauge(shot, metric),
        words_fit(metric),
        forall|l: LabelsView| #[trigger] metric.value@.contains_key(l) ==> keys_on_one_line(l),
        metric.value@.contains_key(labels),
    ensures
        ({
            let f = full_name_of(metric);
            let lines = lines_of(shot_text(Some(shot)));
            &&& lines.len() >= 2
            &&& lines[0] == "# HELP "@ + f + " "@ + metric.descr@
            &&& lines[1] == "# TYPE "@ + f + " gauge"@
            &&& lines.contains(f + labels_text(labels) + " "@ + decimal(metric.value@[labels] as nat))
        }),
{
    let f = full_name_of(metric);
    let list = shot.data->Gauge_list@;
    lemma_full_name(metric);
    lemma_marks_on_one_line();
    assert forall|i: int| 0 <= i < list.len() implies keys_on_one_line(labels_view((#[trigger] list[i]).0@)) by {
        assert(metric.value@.contains_key(labels_view(list[i].0@)));
    }
    let k = choose|k: int| 0 <= k < list.len() && labels_view((#[trigger] list[k]).0@) == labels;
    assert(metric.value@[labels_view(list[k].0@)] == list[k].1);
    lemma_metric_lines(f, metric.descr@, "gauge"@, list);
    lemma_kinds(f);
    let lines = lines_of(shot_text(Some(shot)));
    let head = seq![help_line(f, metric.descr@), type_line(f, "gauge"@)];
    assert(lines == head + sample_lines(f, list));
    assert(lines[0] == head[0] && lines[1] == head[1]);
    assert(lines[2 + k] == sample_line(f, labels, metric.value@[labels]));
}

/// The text of a metric is in whole lines.
proof fn lemma_shot_in_whole_lines(shot: Option<Snapshot>)
    ensures
        whole_lines(shot_text(shot)),
{
    reveal_strlit("\n");
    if shot is Some {
        let s = shot->0;
        let f = s.prefix@ + "_"@ + s.name@;
        match s.data {
            SnapshotData::Counter { is_gauge, list } => {
                lemma_samples_whole(f, list@);
            },
            SnapshotData::Gauge { list } => {
                lemma_samples_whole(f, list@);
            },
            SnapshotData::Histogram { buckets, counts, sum, count } => {
                lemma_samples_whole(f + "_count"@, count@);
            },
        }
    }
}

proof fn lemma_samples_whole(full_name: Seq<char>, list: Seq<(Vec<(String, String)>, u64)>)
    ensures
        list.len() > 0 ==> samples(full_name, list).len() > 0 && samples(full_name, list).last() == '\n',
{
    reveal_strlit("\n");
}

/// Whether a line is among those of some metric.
pub open spec fn is_line_of_some(shots: Seq<Option<Snapshot>>, line: Seq<char>) -> bool {
    exists|i: int| 0 <= i < shots.len() && is_line_of(#[trigger] shots[i], line)
}

/// Whether a line is among those of a metric.
pub open spec fn is_line_of(shot: Option<Snapshot>, line: Seq<char>) -> bool {
    lines_of(shot_text(shot)).contains(line)
}

proof fn lemma_line_of_some(shots: Seq<Option<Snapshot>>, line: Seq<char>)
    requires
        shots.len() > 0,
    ensures
        is_line_of_some(shots, line) <==> is_line_of_some(shots.drop_last(), line) || is_line_of(shots.last(), line),
{
    let front = shots.drop_last();
    if is_line_of_some(front, line) {
        let i = choose|i: int| 0 <= i < front.len() && is_line_of(#[trigger] front[i], line);
        assert(is_line_of(shots[i], line));
    }
    if is_line_of(shots.last(), line) {
        assert(is_line_of(shots[shots.len() - 1], line));
    }
    if is_line_of_some(shots, line) {
        let i = choose|i: int| 0 <= i < shots.len() && is_line_of(#[trigger] shots[i], line);
        if i < front.len() {
            assert(is_line_of(front[i], line));
        }
    }
}

/// The text of all metrics holds every line of each, and no other.
pub proof fn law_output_holds_the_lines_of_each(shots: Seq<Option<Snapshot>>, line: Seq<char>)
    ensures
        whole_lines(rendered(shots)),
        lines_of(rendered(shots)).contains(line) <==> is_line_of_some(shots, line),
    decreases shots.len(),
{
    if shots.len() > 0 {
        let front = shots.drop_last();
        law_output_holds_the_lines_of_each(front, line);
        lemma_shot_in_whole_lines(shots.last());
        lemma_lines_of_both(rendered(front), shot_text(shots.last()));
        lemma_in_either(lines_of(rendered(front)), lines_of(shot_text(shots.last())), line);
        lemma_line_of_some(shots, line);
    } else {
        assert(lines_of(rendered(shots)) =~= Seq::empty());
    }
}

} // verus!
