//! What can be read back from the metrics with one number to a line.

use crate::admin::canonical::{canonical_line, canonical_lines, canonical_text, label_path, rendered};
use crate::admin::lines::{
    lemma_another_line, lemma_in_either, lemma_joined_on_one_line, lemma_lines_of_both, lemma_number_on_one_line,
    lines_of, on_one_line, whole_lines,
};
use crate::admin::snapshot::{shows_counter, shows_gauge, shows_histogram, Snapshot, SnapshotData};
use crate::metrics::Metric;
use crate::sharded::{
    adds_any, after_calls, after_records, how_many, in_range, is_load, labels_view, law_histogram_sums_and_counts,
    law_load_is_sum_of_history, lists_counts, present, sum_of_calls, sum_of_records, takes_what_is_there, total,
    CounterCall, CounterView, Gauge, LabelsView, ShardedHistogram, ShardedU64,
};
use crate::text::decimal;
use vstd::prelude::*;

verus! {

/// Whether no value holds a line break.
pub open spec fn values_on_one_line(labels: LabelsView) -> bool {
    forall|i: int| 0 <= i < labels.len() ==> on_one_line((#[trigger] labels[i]).1)
}

/// The values of labels, the first first, each with a dot before it.
pub open spec fn dotted(labels: LabelsView) -> Seq<char>
    decreases labels.len(),
{
    if labels.len() == 0 {
        Seq::empty()
    } else {
        seq!['.'] + labels[0].1 + dotted(labels.drop_first())
    }
}

/// The path of labels holds their values in their order.
pub proof fn law_path_holds_the_values(labels: LabelsView)
    ensures
        label_path(labels) == dotted(labels),
    decreases labels.len(),
{
    reveal_strlit(".");
    if labels.len() > 0 {
        lemma_dotted_behind(labels.drop_last(), labels.last());
        law_path_holds_the_values(labels.drop_last());
        assert(labels.drop_last().push(labels.last()) =~= labels);
        assert("."@ =~= seq!['.']);
        assert(label_path(labels) =~= dotted(labels.drop_last()) + (seq!['.'] + labels.last().1));
    }
}

proof fn lemma_dotted_behind(labels: LabelsView, last: (Seq<char>, Seq<char>))
    ensures
        dotted(labels.push(last)) == dotted(labels) + (seq!['.'] + last.1),
    decreases labels.len(),
{
    let more = labels.push(last);
    if labels.len() == 0 {
        assert(more.drop_first() =~= Seq::empty());
        assert(dotted(more.drop_first()) =~= Seq::empty());
        assert(more[0] == last);
        assert(dotted(more) =~= dotted(labels) + (seq!['.'] + last.1));
    } else {
        lemma_dotted_behind(labels.drop_first(), last);
        assert(more.drop_first() =~= labels.drop_first().push(last));
        assert(more[0] == labels[0]);
        assert(dotted(more) =~= dotted(labels) + (seq!['.'] + last.1));
    }
}

/// The line of a number: the prefix of the metric, the values of its labels,
/// its name, and the number.
pub open spec fn number_line(prefix: Seq<char>, name: Seq<char>, labels: LabelsView, value: u64) -> Seq<char> {
    prefix + dotted(labels) + "."@ + name + ": "@ + decimal(value as nat)
}

proof fn lemma_dotted_on_one_line(labels: LabelsView)
    requires
        values_on_one_line(labels),
    ensures
        on_one_line(dotted(labels)),
    decreases labels.len(),
{
    if labels.len() > 0 {
        let rest = labels.drop_first();
        assert forall|i: int| 0 <= i < rest.len() implies on_one_line((#[trigger] rest[i]).1) by {
            assert(rest[i] == labels[i + 1]);
        }
        lemma_dotted_on_one_line(rest);
        assert(on_one_line(labels[0].1));
        lemma_joined_on_one_line(seq!['.'], labels[0].1);
        lemma_joined_on_one_line(seq!['.'] + labels[0].1, dotted(rest));
    }
}

proof fn lemma_number_line(prefix: Seq<char>, name: Seq<char>, labels: LabelsView, value: u64)
    requires
        on_one_line(prefix),
        on_one_line(name),
        values_on_one_line(labels),
    ensures
        on_one_line(number_line(prefix, name, labels, value)),
        canonical_line(prefix, name, labels, value) == number_line(prefix, name, labels, value) + "\n"@,
{
    reveal_strlit(".");
    reveal_strlit(": ");
    let n = decimal(value as nat);
    law_path_holds_the_values(labels);
    lemma_dotted_on_one_line(labels);
    lemma_number_on_one_line(value as nat);
    lemma_joined_on_one_line(prefix, dotted(labels));
    lemma_joined_on_one_line(prefix + dotted(labels), "."@);
    lemma_joined_on_one_line(prefix + dotted(labels) + "."@, name);
    lemma_joined_on_one_line(prefix + dotted(labels) + "."@ + name, ": "@);
    lemma_joined_on_one_line(prefix + dotted(labels) + "."@ + name + ": "@, n);
}

/// Whether the values of all labels that a counter has counted under are on one line.
pub open spec fn labels_fit(v: CounterView) -> bool {
    forall|labels: LabelsView| #[trigger] present(v, labels) ==> values_on_one_line(labels)
}

/// Whether the values of the labels of all numbers are on one line.
pub open spec fn all_fit(list: Seq<(Vec<(String, String)>, u64)>) -> bool {
    forall|i: int| 0 <= i < list.len() ==> values_on_one_line(labels_view((#[trigger] list[i]).0@))
}

/// The lines of some numbers.
pub open spec fn number_lines(prefix: Seq<char>, name: Seq<char>, list: Seq<(Vec<(String, String)>, u64)>) -> Seq<
    Seq<char>,
> {
    Seq::new(list.len(), |i: int| number_line(prefix, name, labels_view(list[i].0@), list[i].1))
}

proof fn lemma_number_lines(prefix: Seq<char>, name: Seq<char>, list: Seq<(Vec<(String, String)>, u64)>)
    requires
        on_one_line(prefix),
        on_one_line(name),
        all_fit(list),
    ensures
        lines_of(canonical_lines(prefix, name, list)) == number_lines(prefix, name, list),
        whole_lines(canonical_lines(prefix, name, list)),
    decreases list.len(),
{
    if list.len() > 0 {
        let front = list.drop_last();
        let (labels, value) = (labels_view(list.last().0@), list.last().1);
        assert forall|i: int| 0 <= i < front.len() implies values_on_one_line(
            labels_view((#[trigger] front[i]).0@),
        ) by {
            assert(front[i] == list[i]);
        }
        lemma_number_lines(prefix, name, front);
        assert(values_on_one_line(labels_view(list[list.len() - 1].0@)));
        lemma_number_line(prefix, name, labels, value);
        lemma_another_line(canonical_lines(prefix, name, front), number_line(prefix, name, labels, value));
        assert(number_lines(prefix, name, list) =~= number_lines(prefix, name, front).push(
            number_line(prefix, name, labels, value),
        ));
    } else {
        assert(lines_of(canonical_lines(prefix, name, list)) =~= number_lines(prefix, name, list));
    }
}

proof fn lemma_list_fits(list: Seq<(Vec<(String, String)>, u64)>, v: CounterView)
    requires
        lists_counts(list, v),
        labels_fit(v),
    ensures
        all_fit(list),
{
    assert forall|i: int| 0 <= i < list.len() implies values_on_one_line(labels_view((#[trigger] list[i]).0@)) by {
        assert(is_load(v, labels_view(list[i].0@), Some(list[i].1)));
        assert(present(v, labels_view(list[i].0@)));
    }
}

/// Whether a line carries a number of a counter: under some labels, the number
/// that the counter loads under them.
pub open spec fn carries(line: Seq<char>, prefix: Seq<char>, name: Seq<char>, v: CounterView) -> bool {
    exists|labels: LabelsView, value: u64|
        line == number_line(prefix, name, labels, value) && #[trigger] is_load(v, labels, Some(value))
}

/// Every number that was counted has its line, and there is no other.
proof fn lemma_listed_lines(
    prefix: Seq<char>,
    name: Seq<char>,
    list: Seq<(Vec<(String, String)>, u64)>,
    v: CounterView,
)
    requires
        lists_counts(list, v),
    ensures
        forall|labels: LabelsView, value: u64| #[trigger]
            is_load(v, labels, Some(value)) ==> number_lines(prefix, name, list).contains(
                number_line(prefix, name, labels, value),
            ),
        forall|i: int| 0 <= i < list.len() ==> carries(#[trigger] number_lines(prefix, name, list)[i], prefix, name, v),
{
    let lines = number_lines(prefix, name, list);
    assert forall|labels: LabelsView, value: u64| #[trigger] is_load(v, labels, Some(value)) implies lines.contains(
        number_line(prefix, name, labels, value),
    ) by {
        assert(present(v, labels));
        let i = choose|i: int| 0 <= i < list.len() && labels_view((#[trigger] list[i]).0@) == labels;
        assert(is_load(v, labels_view(list[i].0@), Some(list[i].1)));
        assert(lines[i] == number_line(prefix, name, labels, value));
    }
    assert forall|i: int| 0 <= i < list.len() implies carries(#[trigger] lines[i], prefix, name, v) by {
        assert(is_load(v, labels_view(list[i].0@), Some(list[i].1)));
    }
}

/// Whether the words of a metric are on one line.
pub open spec fn words_fit<T>(metric: Metric<T>) -> bool {
    on_one_line(metric.prefix@) && on_one_line(metric.name@)
}

/// The lines of a counter carry, under each list of labels, what the counter
/// loads, and nothing else.
pub proof fn law_counter_lines_carry_its_numbers(
    shot: Snapshot,
    metric: Metric<ShardedU64>,
    as_gauge: bool,
    labels: LabelsView,
    value: u64,
)
    requires
        shows_counter(shot, metric, as_gauge),
        words_fit(metric),
        labels_fit(metric.value@),
        is_load(metric.value@, labels, Some(value)),
    ensures
        ({
            let lines = lines_of(canonical_text(Some(shot)));
            &&& lines.contains(
                metric.prefix@ + dotted(labels) + "."@ + metric.name@ + ": "@ + decimal(value as nat),
            )
            &&& forall|i: int|
                0 <= i < lines.len() ==> carries(#[trigger] lines[i], metric.prefix@, metric.name@, metric.value@)
        }),
{
    let list = shot.data->Counter_list@;
    lemma_list_fits(list, metric.value@);
    lemma_number_lines(metric.prefix@, metric.name@, list);
    lemma_listed_lines(metric.prefix@, metric.name@, list, metric.value@);
}

/// Whatever was counted, the lines of a counter tell under each list of labels
/// the sum of it, within the range of a counter.
pub proof fn law_counted_numbers_are_shown(
    shot: Snapshot,
    metric: Metric<ShardedU64>,
    as_gauge: bool,
    calls: Seq<CounterCall>,
    labels: LabelsView,
)
    requires
        shows_counter(shot, metric, as_gauge),
        words_fit(metric),
        labels_fit(metric.value@),
        metric.value@ == after_calls(calls),
        takes_what_is_there(calls),
        adds_any(calls, labels),
    ensures
        lines_of(canonical_text(Some(shot))).contains(
            metric.prefix@ + dotted(labels) + "."@ + metric.name@ + ": "@ + decimal(
                in_range(sum_of_calls(calls, labels)) as nat,
            ),
        ),
{
    let loaded = some_load(metric.value@, labels);
    lemma_some_load(metric.value@, labels);
    law_load_is_sum_of_history(calls, labels, loaded);
    law_counter_lines_carry_its_numbers(shot, metric, as_gauge, labels, loaded->0);
}

/// The lines of a gauge carry, under each list of labels, the number that was set.
pub proof fn law_gauge_lines_carry_its_numbers(shot: Snapshot, metric: Metric<Gauge>, labels: LabelsView)
    requires
        shows_gauge(shot, metric),
        words_fit(metric),
        forall|l: LabelsView| #[trigger] metric.value@.contains_key(l) ==> values_on_one_line(l),
        metric.value@.contains_key(labels),
    ensures
        lines_of(canonical_text(Some(shot))).contains(
            metric.prefix@ + dotted(labels) + "."@ + metric.name@ + ": "@ + decimal(metric.value@[labels] as nat),
        ),
{
    let list = shot.data->Gauge_list@;
    assert forall|i: int| 0 <= i < list.len() implies values_on_one_line(labels_view((#[trigger] list[i]).0@)) by {
        assert(metric.value@.contains_key(labels_view(list[i].0@)));
    }
    let k = choose|k: int| 0 <= k < list.len() && labels_view((#[trigger] list[k]).0@) == labels;
    assert(metric.value@[labels_view(list[k].0@)] == list[k].1);
    lemma_number_lines(metric.prefix@, metric.name@, list);
    assert(number_lines(metric.prefix@, metric.name@, list)[k] == number_line(
        metric.prefix@,
        metric.name@,
        labels,
        metric.value@[labels],
    ));
}

/// The lines of a histogram carry, under each list of labels, its sum behind a
/// name that ends in `_sum`, and its count behind one that ends in `_count`.
/// There is no other line.
pub proof fn law_histogram_lines_carry_its_numbers(shot: Snapshot, metric: Metric<ShardedHistogram>)
    requires
        shows_histogram(shot, metric),
        words_fit(metric),
        labels_fit(metric.value@.sum),
        labels_fit(metric.value@.count),
    ensures
        ({
            let lines = lines_of(canonical_text(Some(shot)));
            let start = metric.prefix@;
            &&& forall|labels: LabelsView, value: u64| #[trigger]
                is_load(metric.value@.sum, labels, Some(value)) ==> lines.contains(
                    start + dotted(labels) + "."@ + (metric.name@ + "_sum"@) + ": "@ + decimal(value as nat),
                )
            &&& forall|labels: LabelsView, value: u64| #[trigger]
                is_load(metric.value@.count, labels, Some(value)) ==> lines.contains(
                    start + dotted(labels) + "."@ + (metric.name@ + "_count"@) + ": "@ + decimal(value as nat),
                )
            &&& forall|i: int|
                0 <= i < lines.len() ==> carries(
                    #[trigger] lines[i],
                    start,
                    metric.name@ + "_sum"@,
                    metric.value@.sum,
                ) || carries(lines[i], start, metric.name@ + "_count"@, metric.value@.count)
        }),
{
    reveal_strlit("_sum");
    reveal_strlit("_count");
    let sum = shot.data->sum@;
    let count = shot.data->count@;
    let start = metric.prefix@;
    let sum_name = metric.name@ + "_sum"@;
    let count_name = metric.name@ + "_count"@;
    lemma_joined_on_one_line(metric.name@, "_sum"@);
    lemma_joined_on_one_line(metric.name@, "_count"@);
    lemma_list_fits(sum, metric.value@.sum);
    lemma_list_fits(count, metric.value@.count);
    lemma_number_lines(start, sum_name, sum);
    lemma_number_lines(start, count_name, count);
    lemma_listed_lines(start, sum_name, sum, metric.value@.sum);
    lemma_listed_lines(start, count_name, count, metric.value@.count);
    lemma_lines_of_both(canonical_lines(start, sum_name, sum), canonical_lines(start, count_name, count));
    let a = number_lines(start, sum_name, sum);
    let b = number_lines(start, count_name, count);
    let lines = lines_of(canonical_text(Some(shot)));
    assert(lines == a + b);
    assert forall|line: Seq<char>| a.contains(line) || b.contains(line) implies #[trigger] lines.contains(line) by {
        if a.contains(line) {
            let i = choose|i: int| 0 <= i < a.len() && a[i] == line;
            assert(lines[i] == line);
        } else {
            let i = choose|i: int| 0 <= i < b.len() && b[i] == line;
            assert(lines[a.len() + i] == line);
        }
    }
    assert forall|i: int| 0 <= i < lines.len() implies carries(
        #[trigger] lines[i],
        start,
        sum_name,
        metric.value@.sum,
    ) || carries(lines[i], start, count_name, metric.value@.count) by {
        if i < a.len() {
            assert(lines[i] == a[i]);
        } else {
            assert(lines[i] == b[i - a.len()]);
        }
    }
    assert forall|labels: LabelsView, value: u64| #[trigger] is_load(
        metric.value@.sum,
        labels,
        Some(value),
    ) implies lines.contains(start + dotted(labels) + "."@ + sum_name + ": "@ + decimal(value as nat)) by {
        assert(a.contains(number_line(start, sum_name, labels, value)));
    }
    assert forall|labels: LabelsView, value: u64| #[trigger] is_load(
        metric.value@.count,
        labels,
        Some(value),
    ) implies lines.contains(start + dotted(labels) + "."@ + count_name + ": "@ + decimal(value as nat)) by {
        assert(b.contains(number_line(start, count_name, labels, value)));
    }
}

/// Whatever numbers a histogram was given, its lines tell under each list of
/// labels their sum and how many they were, within the range of a counter.
pub proof fn law_recorded_numbers_are_shown(
    shot: Snapshot,
    metric: Metric<ShardedHistogram>,
    buckets: Seq<u64>,
    records: Seq<(u64, u64, LabelsView)>,
    labels: LabelsView,
)
    requires
        shows_histogram(shot, metric),
        words_fit(metric),
        metric.value@ == after_records(buckets, records),
        labels_fit(metric.value@.sum),
        labels_fit(metric.value@.count),
        how_many(records, labels, u64::MAX) > 0,
    ensures
        ({
            let lines = lines_of(canonical_text(Some(shot)));
            let start = metric.prefix@ + dotted(labels) + "."@;
            &&& lines.contains(
                start + (metric.name@ + "_sum"@) + ": "@ + decimal(in_range(sum_of_records(records, labels)) as nat),
            )
            &&& lines.contains(
                start + (metric.name@ + "_count"@) + ": "@ + decimal(
                    in_range(how_many(records, labels, u64::MAX) as int) as nat,
                ),
            )
        }),
{
    let v = metric.value@;
    let sum = some_load(v.sum, labels);
    let count = some_load(v.count, labels);
    lemma_some_load(v.sum, labels);
    lemma_some_load(v.count, labels);
    law_histogram_sums_and_counts(buckets, records, labels, sum, count);
    law_histogram_lines_carry_its_numbers(shot, metric);
    assert(is_load(v.sum, labels, Some(sum->0)));
    assert(is_load(v.count, labels, Some(count->0)));
}

/// What a counter loads.
spec fn some_load(v: CounterView, labels: LabelsView) -> Option<u64> {
    if present(v, labels) {
        Some(in_range(total(v, labels)) as u64)
    } else {
        None
    }
}

proof fn lemma_some_load(v: CounterView, labels: LabelsView)
    ensures
        is_load(v, labels, some_load(v, labels)),
{
    let n = total(v, labels);
    assert(0 <= in_range(n) <= u64::MAX) by (nonlinear_arith)
        requires
            in_range(n) == n % 0x1_0000_0000_0000_0000,
    ;
}

/// Whether a line is among those of a metric.
pub open spec fn is_line_of(shot: Option<Snapshot>, line: Seq<char>) -> bool {
    lines_of(canonical_text(shot)).contains(line)
}

/// Whether a line is among those of some metric.
pub open spec fn is_line_of_some(shots: Seq<Option<Snapshot>>, line: Seq<char>) -> bool {
    exists|i: int| 0 <= i < shots.len() && is_line_of(#[trigger] shots[i], line)
}

proof fn lemma_line_of_some(shots: Seq<Option<Snapshot>>, line: Seq<char>)
    requires
        shots.len() > 0,
    ensures
        is_line_of_some(shots, line) <==> is_line_of_some(shots.drop_last(), line) || is_line_of(shots.last(), line),
{
    let front = shots.drop_last();
    if is_line_of_some(front, line) {
        let i = choose|i: int| 0 <= i < front.len() && is_line_of(#[trigger] front[i], line);
        assert(is_line_of(shots[i], line));
    }
    if is_line_of(shots.last(), line) {
        assert(is_line_of(shots[shots.len() - 1], line));
    }
    if is_line_of_some(shots, line) {
        let i = choose|i: int| 0 <= i < shots.len() && is_line_of(#[trigger] shots[i], line);
        if i < front.len() {
            assert(is_line_of(front[i], line));
        }
    }
}

proof fn lemma_lines_whole(prefix: Seq<char>, name: Seq<char>, list: Seq<(Vec<(String, String)>, u64)>)
    ensures
        whole_lines(canonical_lines(prefix, name, list)),
{
    reveal_strlit("\n");
}

proof fn lemma_shot_in_whole_lines(shot: Option<Snapshot>)
    ensures
        whole_lines(canonical_text(shot)),
{
    if shot is Some {
        let s = shot->0;
        match s.data {
            SnapshotData::Counter { is_gauge, list } => {
                lemma_lines_whole(s.prefix@, s.name@, list@);
            },
            SnapshotData::Gauge { list } => {
                lemma_lines_whole(s.prefix@, s.name@, list@);
            },
            SnapshotData::Histogram { buckets, counts, sum, count } => {
                lemma_lines_whole(s.prefix@, s.name@ + "_sum"@, sum@);
                lemma_lines_whole(s.prefix@, s.name@ + "_count"@, count@);
                lemma_lines_of_both(
                    canonical_lines(s.prefix@, s.name@ + "_sum"@, sum@),
                    canonical_lines(s.prefix@, s.name@ + "_count"@, count@),
                );
            },
        }
    }
}

/// The text of all metrics holds every line of each, and no other.
pub proof fn law_output_holds_the_lines_of_each(shots: Seq<Option<Snapshot>>, line: Seq<char>)
    ensures
        whole_lines(rendered(shots)),
        lines_of(rendered(shots)).contains(line) <==> is_line_of_some(shots, line),
    decreases shots.len(),
{
    if shots.len() > 0 {
        let front = shots.drop_last();
        law_output_holds_the_lines_of_each(front, line);
        lemma_shot_in_whole_lines(shots.last());
        lemma_lines_of_both(rendered(front), canonical_text(shots.last()));
        lemma_in_either(lines_of(rendered(front)), lines_of(canonical_text(shots.last())), line);
        lemma_line_of_some(shots, line);
    } else {
        assert(lines_of(rendered(shots)) =~= Seq::empty());
    }
}

} // verus!
