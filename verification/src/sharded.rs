//! Numbers that many threads count up, each in cells of its own.
//!
//! A cell belongs to one shard and one list of labels. A shard is mostly a
//! thread, by its number. What was counted under some labels is the sum over
//! all shards.

use crate::key_value::KeyValue;
use crate::text::str_eq;
use vstd::prelude::*;

verus! {

/// A list of labels as it is compared: keys and values in their order.
pub type LabelsView = Seq<(Seq<char>, Seq<char>)>;

/// The labels of a list, as they are compared.
pub open spec fn labels_view(labels: Seq<(String, String)>) -> LabelsView {
    Seq::new(labels.len(), |i: int| (labels[i].0@, labels[i].1@))
}

/// The labels of some pairs, as they are compared.
pub open spec fn pairs_view(pairs: Seq<KeyValue<'_>>) -> LabelsView {
    Seq::new(pairs.len(), |i: int| (pairs[i].key@, pairs[i].value@))
}

/// The labels that some pairs stand for.
pub fn labels_of(pairs: &Vec<KeyValue<'_>>) -> (labels: Vec<(String, String)>)
    ensures
        labels_view(labels@) == pairs_view(pairs@),
{
    let mut labels: Vec<(String, String)> = Vec::new();
    let mut i: usize = 0;
    while i < pairs.len()
        invariant
            i <= pairs@.len(),
            labels@.len() == i,
            forall|k: int|
                0 <= k < i ==> (#[trigger] labels@[k]).0@ == pairs@[k].key@ && labels@[k].1@ == pairs@[k].value@,
        decreases pairs@.len() - i,
    {
        let pair: KeyValue<'_> = pairs[i];
        labels.push((pair.key.to_owned(), pair.value.to_owned()));
        i = i + 1;
    }
    assert(labels_view(labels@) =~= pairs_view(pairs@));
    labels
}

/// Another copy of some labels.
pub fn copy_labels(labels: &Vec<(String, String)>) -> (copied: Vec<(String, String)>)
    ensures
        labels_view(copied@) == labels_view(labels@),
{
    let mut copied: Vec<(String, String)> = Vec::new();
    let mut i: usize = 0;
    while i < labels.len()
        invariant
            i <= labels@.len(),
            copied@.len() == i,
            forall|k: int|
                0 <= k < i ==> (#[trigger] copied@[k]).0@ == labels@[k].0@ && copied@[k].1@ == labels@[k].1@,
        decreases labels@.len() - i,
    {
        copied.push((labels[i].0.clone(), labels[i].1.clone()));
        i = i + 1;
    }
    assert(labels_view(copied@) =~= labels_view(labels@));
    copied
}

/// A single label.
pub fn one_label(key: &str, value: &str) -> (labels: Vec<(String, String)>)
    ensures
        labels_view(labels@) == seq![(key@, value@)],
{
    let mut labels: Vec<(String, String)> = Vec::new();
    labels.push((key.to_owned(), value.to_owned()));
    assert(labels_view(labels@) =~= seq![(key@, value@)]);
    labels
}

/// Some labels with one more.
pub fn with_label(labels: &Vec<(String, String)>, key: &str, value: &str) -> (all: Vec<(String, String)>)
    ensures
        labels_view(all@) == labels_view(labels@).push((key@, value@)),
{
    let mut all: Vec<(String, String)> = copy_labels(labels);
    let ghost before = all@;
    all.push((key.to_owned(), value.to_owned()));
    assert(labels_view(all@) =~= labels_view(before).push((key@, value@)));
    all
}

/// Whether two lists of labels are the same.
pub fn same_labels(a: &Vec<(String, String)>, b: &Vec<(String, String)>) -> (same: bool)
    ensures
        same == (labels_view(a@) == labels_view(b@)),
{
    if a.len() != b.len() {
        assert(labels_view(a@).len() != labels_view(b@).len());
        return false;
    }
    let mut i: usize = 0;
    while i < a.len()
        invariant
            i <= a@.len(),
            a@.len() == b@.len(),
            forall|k: int| 0 <= k < i ==> labels_view(a@)[k] == labels_view(b@)[k],
        decreases a@.len() - i,
    {
        if !str_eq(a[i].0.as_str(), b[i].0.as_str()) || !str_eq(a[i].1.as_str(), b[i].1.as_str()) {
            assert(labels_view(a@)[i as int] != labels_view(b@)[i as int]);
            return false;
        }
        i = i + 1;
    }
    assert(labels_view(a@) =~= labels_view(b@));
    true
}

/// What a map of cells holds: a number by shard and labels.
pub uninterp spec fn cell_contents(map: papaya::HashMap<(u64, Vec<(String, String)>), u64>) -> Map<
    (u64, Seq<(Seq<char>, Seq<char>)>),
    u64,
>;

/// What a map of gauges holds: a number by labels.
pub uninterp spec fn gauge_contents(map: papaya::HashMap<Vec<(String, String)>, u64>) -> Map<
    Seq<(Seq<char>, Seq<char>)>,
    u64,
>;

/// Cells of a counter that counted nothing yet.
pub open spec fn no_cells() -> Map<(u64, LabelsView), u64> {
    Map::empty()
}

/// Gauges of which none was set yet.
pub open spec fn no_gauges() -> Map<LabelsView, u64> {
    Map::empty()
}

/// The number in a cell, where there is one.
pub open spec fn cell_of(cells: Map<(u64, LabelsView), u64>, shard: u64, labels: LabelsView) -> Option<u64> {
    if cells.contains_key((shard, labels)) {
        Some(cells[(shard, labels)])
    } else {
        None
    }
}

/// Whether a list holds the keys of a map, each once.
pub open spec fn lists_cells(list: Seq<(u64, Vec<(String, String)>)>, cells: Map<(u64, LabelsView), u64>) -> bool {
    &&& forall|i: int| 0 <= i < list.len() ==> cells.contains_key((#[trigger] list[i].0, labels_view(list[i].1@)))
    &&& forall|shard: u64, labels: LabelsView| #[trigger]
        cells.contains_key((shard, labels)) ==> exists|i: int|
            0 <= i < list.len() && #[trigger] list[i].0 == shard && labels_view(list[i].1@) == labels
}

/// Whether a list holds the entries of a map.
pub open spec fn lists_gauges(list: Seq<(Vec<(String, String)>, u64)>, gauges: Map<LabelsView, u64>) -> bool {
    &&& forall|i: int|
        0 <= i < list.len() ==> gauges.contains_key(labels_view((#[trigger] list[i]).0@)) && gauges[labels_view(
            list[i].0@,
        )] == list[i].1
    &&& forall|labels: LabelsView| #[trigger]
        gauges.contains_key(labels) ==> exists|i: int|
            0 <= i < list.len() && labels_view((#[trigger] list[i]).0@) == labels
    &&& forall|i: int, j: int|
        0 <= i < j < list.len() ==> labels_view((#[trigger] list[i]).0@) != labels_view((#[trigger] list[j]).0@)
}

/// `papaya::HashMap::new`: an empty map of cells.
#[verifier::external_body]
fn cells_new() -> (map: papaya::HashMap<(u64, Vec<(String, String)>), u64>)
    ensures
        cell_contents(map) == no_cells(),
{
    papaya::HashMap::new()
}

/// `papaya::HashMap::get`, through a pinned reference: the number in a cell, if there is one.
#[verifier::external_body]
fn cells_get(map: &papaya::HashMap<(u64, Vec<(String, String)>), u64>, key: &(u64, Vec<(String, String)>)) -> (cell:
    Option<u64>)
    ensures
        cell == cell_of(cell_contents(*map), key.0, labels_view(key.1@)),
{
    map.pin().get(key).copied()
}

/// `papaya::HashMap::insert`, through a pinned reference: puts a number into a
/// cell. The map is borrowed mutably, so no other thread reaches it meanwhile.
#[verifier::external_body]
fn cells_insert(map: &mut papaya::HashMap<(u64, Vec<(String, String)>), u64>, key: (u64, Vec<(String, String)>), value: u64)
    ensures
        cell_contents(*final(map)) == cell_contents(*old(map)).insert((key.0, labels_view(key.1@)), value),
{
    map.pin().insert(key, value);
}

/// `papaya::HashMap::remove`, through a pinned reference: takes a cell out.
#[verifier::external_body]
fn cells_remove(map: &mut papaya::HashMap<(u64, Vec<(String, String)>), u64>, key: &(u64, Vec<(String, String)>))
    ensures
        cell_contents(*final(map)) == cell_contents(*old(map)).remove((key.0, labels_view(key.1@))),
{
    map.pin().remove(key);
}

/// `papaya::HashMap::iter`, through a pinned reference: the keys of all cells, in any order.
#[verifier::external_body]
fn cells_keys(map: &papaya::HashMap<(u64, Vec<(String, String)>), u64>) -> (list: Vec<(u64, Vec<(String, String)>)>)
    ensures
        lists_cells(list@, cell_contents(*map)),
{
    map.pin().iter().map(|(key, _)| key.clone()).collect()
}

/// `papaya::HashMap::new`: an empty map of gauges.
#[verifier::external_body]
fn gauges_new() -> (map: papaya::HashMap<Vec<(String, String)>, u64>)
    ensures
        gauge_contents(map) == no_gauges(),
{
    papaya::HashMap::new()
}

/// `papaya::HashMap::insert`, through a pinned reference: sets a gauge. The map
/// is borrowed mutably, so no other thread reaches it meanwhile.
#[verifier::external_body]
fn gauges_insert(map: &mut papaya::HashMap<Vec<(String, String)>, u64>, key: Vec<(String, String)>, value: u64)
    ensures
        gauge_contents(*final(map)) == gauge_contents(*old(map)).insert(labels_view(key@), value),
{
    map.pin().insert(key, value);
}

/// `papaya::HashMap::iter`, through a pinned reference: all gauges, each once, in any order.
#[verifier::external_body]
fn gauges_list(map: &papaya::HashMap<Vec<(String, String)>, u64>) -> (list: Vec<(Vec<(String, String)>, u64)>)
    ensures
        lists_gauges(list@, gauge_contents(*map)),
{
    map.pin().iter().map(|(key, value)| (key.clone(), *value)).collect()
}

/// What can be set back to its beginning.
pub trait Clearable {
    /// Whether nothing has been counted.
    spec fn is_clear(&self) -> bool;

    /// What stays when the counts go.
    spec fn same_kind(&self, other: &Self) -> bool;

    fn clear(&mut self)
        ensures
            final(self).is_clear(),
            final(self).same_kind(old(self)),
    ;
}

/// What a counter has counted: its shards in the order in which they came,
/// and its cells.
#[verifier::ext_equal]
pub ghost struct CounterView {
    pub shards: Seq<u64>,
    pub cells: Map<(u64, LabelsView), u64>,
}

/// A counter that counted nothing.
pub open spec fn nothing_counted() -> CounterView {
    CounterView { shards: Seq::empty(), cells: no_cells() }
}

/// The number in a cell; none counts for zero.
pub open spec fn counted(v: CounterView, shard: u64, labels: LabelsView) -> u64 {
    match cell_of(v.cells, shard, labels) {
        Some(n) => n,
        None => 0,
    }
}

/// The counter with a number added to a cell. A cell that runs over begins anew.
pub open spec fn added(v: CounterView, value: u64, shard: u64, labels: LabelsView) -> CounterView {
    CounterView {
        shards: if v.shards.contains(shard) {
            v.shards
        } else {
            v.shards.push(shard)
        },
        cells: v.cells.insert((shard, labels), counted(v, shard, labels).wrapping_add(value)),
    }
}

/// The counter with a number taken from a cell, down to zero. Nothing is
/// taken where nothing was ever added.
pub open spec fn subtracted(v: CounterView, value: u64, shard: u64, labels: LabelsView) -> CounterView {
    match cell_of(v.cells, shard, labels) {
        Some(n) => CounterView {
            shards: v.shards,
            cells: v.cells.insert(
                (shard, labels),
                if n > value {
                    (n - value) as u64
                } else {
                    0
                },
            ),
        },
        None => v,
    }
}

/// Whether anything was counted under some labels in one of the shards.
pub open spec fn present(v: CounterView, labels: LabelsView) -> bool {
    exists|i: int| 0 <= i < v.shards.len() && v.cells.contains_key((#[trigger] v.shards[i], labels))
}

/// The sum over some shards of what was counted under some labels.
pub open spec fn sum_over(shards: Seq<u64>, cells: Map<(u64, LabelsView), u64>, labels: LabelsView) -> int
    decreases shards.len(),
{
    if shards.len() == 0 {
        0
    } else {
        sum_over(shards.drop_last(), cells, labels) + match cell_of(cells, shards.last(), labels) {
            Some(n) => n as int,
            None => 0,
        }
    }
}

/// The sum of what was counted under some labels.
pub open spec fn total(v: CounterView, labels: LabelsView) -> int {
    sum_over(v.shards, v.cells, labels)
}

/// A number brought into the range of a counter.
pub open spec fn in_range(n: int) -> int {
    n % 0x1_0000_0000_0000_0000
}

/// What a counter has loaded under some labels.
pub open spec fn is_load(v: CounterView, labels: LabelsView, loaded: Option<u64>) -> bool {
    match loaded {
        Some(n) => present(v, labels) && n == in_range(total(v, labels)),
        None => !present(v, labels),
    }
}

/// Whether a list holds what was counted under every list of labels that
/// occurs, each once.
pub open spec fn lists_counts(list: Seq<(Vec<(String, String)>, u64)>, v: CounterView) -> bool {
    &&& forall|i: int| 0 <= i < list.len() ==> is_load(v, labels_view((#[trigger] list[i]).0@), Some(list[i].1))
    &&& forall|labels: LabelsView| #[trigger]
        present(v, labels) ==> exists|i: int| 0 <= i < list.len() && labels_view((#[trigger] list[i]).0@) == labels
    &&& forall|i: int, j: int|
        0 <= i < j < list.len() ==> labels_view((#[trigger] list[i]).0@) != labels_view((#[trigger] list[j]).0@)
}

/// Takes a number from a counter, down to zero.
pub fn saturating_sub(counter: &mut u64, value: u64)
    ensures
        *final(counter) == (if *old(counter) > value {
            (*old(counter) - value) as u64
        } else {
            0
        }),
{
    *counter = if *counter > value {
        *counter - value
    } else {
        0
    };
}

/// A counter.
#[derive(Debug)]
pub struct ShardedU64 {
    shards: Vec<u64>,
    cells: papaya::HashMap<(u64, Vec<(String, String)>), u64>,
}

impl View for ShardedU64 {
    type V = CounterView;

    closed spec fn view(&self) -> CounterView {
        CounterView { shards: self.shards@, cells: cell_contents(self.cells) }
    }
}

/// Whether every cell is in a known shard, and no shard is listed twice.
pub open spec fn well_sharded(v: CounterView) -> bool {
    &&& v.shards.no_duplicates()
    &&& forall|shard: u64, labels: LabelsView| #[trigger]
        v.cells.contains_key((shard, labels)) ==> v.shards.contains(shard)
}

impl ShardedU64 {
    #[verifier::type_invariant]
    spec fn inv(self) -> bool {
        well_sharded(self@)
    }

    pub fn new() -> (counter: ShardedU64)
        ensures
            counter@ == nothing_counted(),
    {
        let counter = ShardedU64 { shards: Vec::new(), cells: cells_new() };
        assert(counter@ =~= nothing_counted());
        counter
    }

    fn knows(&self, shard: u64) -> (yes: bool)
        ensures
            yes == self.shards@.contains(shard),
    {
        let mut i: usize = 0;
        while i < self.shards.len()
            invariant
                i <= self.shards@.len(),
                forall|k: int| 0 <= k < i ==> self.shards@[k] != shard,
            decreases self.shards@.len() - i,
        {
            if self.shards[i] == shard {
                return true;
            }
            i = i + 1;
        }
        false
    }

    /// Adds a number under some labels.
    pub fn add(&mut self, value: u64, shard_id: u64, key: &Vec<(String, String)>)
        ensures
            final(self)@ == added(old(self)@, value, shard_id, labels_view(key@)),
    {
        proof {
            use_type_invariant(&*self);
        }
        let known: bool = self.knows(shard_id);
        let mut cells = cells_new();
        std::mem::swap(&mut cells, &mut self.cells);
        let at: (u64, Vec<(String, String)>) = (shard_id, copy_labels(key));
        let before: u64 = match cells_get(&cells, &at) {
            Some(n) => n,
            None => 0,
        };
        cells_insert(&mut cells, at, before.wrapping_add(value));
        if !known {
            let mut shards: Vec<u64> = Vec::new();
            std::mem::swap(&mut shards, &mut self.shards);
            shards.push(shard_id);
            assert(shards@ == old(self).shards@.push(shard_id));
            assert(shards@[shards@.len() - 1] == shard_id);
            assert forall|s: u64| old(self).shards@.contains(s) implies shards@.contains(s) by {
                let i = choose|i: int| 0 <= i < old(self).shards@.len() && old(self).shards@[i] == s;
                assert(shards@[i] == s);
            }
            self.shards = shards;
        }
        proof {
            let after = CounterView { shards: self.shards@, cells: cell_contents(cells) };
            assert(after.shards.contains(shard_id));
            assert forall|s: u64, l: LabelsView| #[trigger] after.cells.contains_key((s, l)) implies after.shards.contains(
                s,
            ) by {
                if (s, l) != (shard_id, labels_view(key@)) {
                    assert(old(self)@.cells.contains_key((s, l)));
                }
            }
        }
        self.cells = cells;
        assert(self@ =~= added(old(self)@, value, shard_id, labels_view(key@)));
    }

    /// Takes a number away under some labels, down to zero. Where nothing was
    /// ever added, nothing happens.
    pub fn sub(&mut self, value: u64, shard_id: u64, key: &Vec<(String, String)>)
        ensures
            final(self)@ == subtracted(old(self)@, value, shard_id, labels_view(key@)),
    {
        proof {
            use_type_invariant(&*self);
        }
        let mut cells = cells_new();
        std::mem::swap(&mut cells, &mut self.cells);
        let at: (u64, Vec<(String, String)>) = (shard_id, copy_labels(key));
        match cells_get(&cells, &at) {
            Some(n) => {
                let mut left: u64 = n;
                saturating_sub(&mut left, value);
                cells_insert(&mut cells, at, left);
            },
            None => {},
        }
        proof {
            let after = CounterView { shards: self.shards@, cells: cell_contents(cells) };
            assert forall|s: u64, l: LabelsView| #[trigger] after.cells.contains_key((s, l)) implies after.shards.contains(
                s,
            ) by {
                assert(old(self)@.cells.contains_key((s, l)));
            }
        }
        self.cells = cells;
        assert(self@ =~= subtracted(old(self)@, value, shard_id, labels_view(key@)));
    }

    /// What was counted under some labels in all shards.
    pub fn load(&self, key: &Vec<(String, String)>) -> (loaded: Option<u64>)
        ensures
            is_load(self@, labels_view(key@), loaded),
    {
        let ghost labels = labels_view(key@);
        let mut found: Option<u64> = None;
        let mut at: (u64, Vec<(String, String)>) = (0, copy_labels(key));
        let mut i: usize = 0;
        while i < self.shards.len()
            invariant
                i <= self.shards@.len(),
                labels == labels_view(at.1@),
                found is Some <==> exists|k: int|
                    0 <= k < i && cell_contents(self.cells).contains_key((#[trigger] self.shards@[k], labels)),
                found matches Some(n) ==> n == in_range(
                    sum_over(self.shards@.take(i as int), cell_contents(self.cells), labels),
                ),
                found is None ==> sum_over(self.shards@.take(i as int), cell_contents(self.cells), labels) == 0,
            decreases self.shards@.len() - i,
        {
            let ghost taken = self.shards@.take(i + 1);
            assert(taken.drop_last() =~= self.shards@.take(i as int));
            assert(taken.last() == self.shards@[i as int]);
            at.0 = self.shards[i];
            let cell: Option<u64> = cells_get(&self.cells, &at);
            match cell {
                Some(n) => {
                    assert(cell_contents(self.cells).contains_key((self.shards@[i as int], labels)));
                    found = Some(
                        match found {
                            Some(before) => before.wrapping_add(n),
                            None => n,
                        },
                    );
                },
                None => {},
            }
            i = i + 1;
        }
        assert(self.shards@.take(self.shards@.len() as int) =~= self.shards@);
        found
    }

    /// What was counted, under every list of labels that occurs.
    pub fn load_all(&self) -> (all: Vec<(Vec<(String, String)>, u64)>)
        ensures
            lists_counts(all@, self@),
    {
        proof {
            use_type_invariant(self);
        }
        let keys: Vec<(u64, Vec<(String, String)>)> = cells_keys(&self.cells);
        let mut all: Vec<(Vec<(String, String)>, u64)> = Vec::new();
        let mut i: usize = 0;
        while i < keys.len()
            invariant
                i <= keys@.len(),
                well_sharded(self@),
                lists_cells(keys@, cell_contents(self.cells)),
                forall|k: int|
                    0 <= k < all@.len() ==> is_load(self@, labels_view((#[trigger] all@[k]).0@), Some(all@[k].1)),
                forall|k: int|
                    0 <= k < i ==> exists|m: int|
                        0 <= m < all@.len() && labels_view((#[trigger] all@[m]).0@) == labels_view(
                            (#[trigger] keys@[k]).1@,
                        ),
                forall|a: int, b: int|
                    0 <= a < b < all@.len() ==> labels_view((#[trigger] all@[a]).0@) != labels_view(
                        (#[trigger] all@[b]).0@,
                    ),
            decreases keys@.len() - i,
        {
            let ghost before = all@;
            let mut seen: bool = false;
            let mut j: usize = 0;
            while j < all.len() && !seen
                invariant
                    i < keys@.len(),
                    j <= all@.len(),
                    seen ==> exists|m: int|
                        0 <= m < all@.len() && labels_view((#[trigger] all@[m]).0@) == labels_view(
                            keys@[i as int].1@,
                        ),
                    !seen ==> forall|m: int|
                        0 <= m < j ==> labels_view((#[trigger] all@[m]).0@) != labels_view(keys@[i as int].1@),
                decreases all@.len() - j, !seen as int,
            {
                if same_labels(&all[j].0, &keys[i].1) {
                    assert(labels_view(all@[j as int].0@) == labels_view(keys@[i as int].1@));
                    seen = true;
                } else {
                    j = j + 1;
                }
            }
            if !seen {
                let labels: Vec<(String, String)> = copy_labels(&keys[i].1);
                match self.load(&labels) {
                    Some(n) => {
                        all.push((labels, n));
                        assert(labels_view(all@[all@.len() - 1].0@) == labels_view(keys@[i as int].1@));
                    },
                    None => {
                        proof {
                            let key = keys@[i as int];
                            let lv = labels_view(key.1@);
                            assert(cell_contents(self.cells).contains_key((key.0, lv)));
                            assert(self@.cells.contains_key((key.0, lv)));
                            assert(self@.shards.contains(key.0));
                            let s = choose|s: int| 0 <= s < self@.shards.len() && self@.shards[s] == key.0;
                            assert(self@.cells.contains_key((self@.shards[s], lv)));
                            assert(present(self@, lv));
                        }
                    },
                }
            }
            proof {
                assert forall|k: int| 0 <= k < i + 1 implies exists|m: int|
                    0 <= m < all@.len() && labels_view((#[trigger] all@[m]).0@) == labels_view(
                        (#[trigger] keys@[k]).1@,
                    ) by {
                    if k < i {
                        let m = choose|m: int|
                            0 <= m < before.len() && labels_view((#[trigger] before[m]).0@) == labels_view(keys@[k].1@);
                        assert(all@[m] == before[m]);
                    }
                }
            }
            i = i + 1;
        }
        proof {
            assert forall|labels: LabelsView| #[trigger] present(self@, labels) implies exists|m: int|
                0 <= m < all@.len() && labels_view((#[trigger] all@[m]).0@) == labels by {
                let s = choose|s: int|
                    0 <= s < self@.shards.len() && self@.cells.contains_key((#[trigger] self@.shards[s], labels));
                assert(cell_contents(self.cells).contains_key((self@.shards[s], labels)));
                let k = choose|k: int|
                    0 <= k < keys@.len() && #[trigger] keys@[k].0 == self@.shards[s] && labels_view(keys@[k].1@)
                        == labels;
                let m = choose|m: int|
                    0 <= m < all@.len() && labels_view((#[trigger] all@[m]).0@) == labels_view(keys@[k].1@);
                assert(labels_view(all@[m].0@) == labels);
            }
        }
        all
    }

    /// How many shards there are: each is listed once, and every cell is in one of them.
    pub fn shard_count(&self) -> (n: usize)
        ensures
            n == self@.shards.len(),
            well_sharded(self@),
    {
        proof {
            use_type_invariant(self);
        }
        self.shards.len()
    }

    /// Takes a cell out and returns what it held.
    pub fn remove(&mut self, shard_id: u64, key: &Vec<(String, String)>) -> (removed: Option<u64>)
        ensures
            removed == cell_of(old(self)@.cells, shard_id, labels_view(key@)),
            final(self)@ == (CounterView {
                shards: old(self)@.shards,
                cells: old(self)@.cells.remove((shard_id, labels_view(key@))),
            }),
    {
        proof {
            use_type_invariant(&*self);
        }
        let mut cells = cells_new();
        std::mem::swap(&mut cells, &mut self.cells);
        let at: (u64, Vec<(String, String)>) = (shard_id, copy_labels(key));
        let removed: Option<u64> = cells_get(&cells, &at);
        cells_remove(&mut cells, &at);
        self.cells = cells;
        assert(self@ =~= CounterView {
            shards: old(self)@.shards,
            cells: old(self)@.cells.remove((shard_id, labels_view(key@))),
        });
        removed
    }
}

impl Clearable for ShardedU64 {
    open spec fn is_clear(&self) -> bool {
        self@ == nothing_counted()
    }

    open spec fn same_kind(&self, other: &ShardedU64) -> bool {
        true
    }

    fn clear(&mut self) {
        *self = ShardedU64::new();
    }
}

impl Default for ShardedU64 {
    fn default() -> (counter: ShardedU64)
        ensures
            counter@ == nothing_counted(),
    {
        ShardedU64::new()
    }
}

/// Numbers that are set, one under each list of labels.
#[derive(Debug)]
pub struct Gauge {
    data: papaya::HashMap<Vec<(String, String)>, u64>,
}

impl View for Gauge {
    type V = Map<LabelsView, u64>;

    closed spec fn view(&self) -> Map<LabelsView, u64> {
        gauge_contents(self.data)
    }
}

impl Gauge {
    pub fn new() -> (gauge: Gauge)
        ensures
            gauge@ == no_gauges(),
    {
        Gauge { data: gauges_new() }
    }

    /// Sets the number under some labels.
    pub fn record(&mut self, value: u64, key: &Vec<(String, String)>)
        ensures
            final(self)@ == old(self)@.insert(labels_view(key@), value),
    {
        gauges_insert(&mut self.data, copy_labels(key), value);
    }

    /// Every number that was set, with its labels.
    pub fn load_all(&self) -> (all: Vec<(Vec<(String, String)>, u64)>)
        ensures
            lists_gauges(all@, self@),
    {
        gauges_list(&self.data)
    }
}

impl Clearable for Gauge {
    open spec fn is_clear(&self) -> bool {
        self@ == no_gauges()
    }

    open spec fn same_kind(&self, other: &Gauge) -> bool {
        true
    }

    fn clear(&mut self) {
        *self = Gauge::new();
    }
}

impl Default for Gauge {
    fn default() -> (gauge: Gauge)
        ensures
            gauge@ == no_gauges(),
    {
        Gauge::new()
    }
}

/// Whether numbers are in rising order.
pub open spec fn is_rising(numbers: Seq<u64>) -> bool {
    forall|i: int, j: int| 0 <= i <= j < numbers.len() ==> numbers[i] <= numbers[j]
}

/// The same numbers in rising order.
pub fn sorted(numbers: &Vec<u64>) -> (rising: Vec<u64>)
    ensures
        is_rising(rising@),
        rising@.to_multiset() == numbers@.to_multiset(),
        rising@.len() == numbers@.len(),
        is_rising(numbers@) ==> rising@ == numbers@,
{
    let mut rising: Vec<u64> = Vec::new();
    let mut i: usize = 0;
    assert(numbers@.take(0) =~= rising@);
    while i < numbers.len()
        invariant
            i <= numbers@.len(),
            is_rising(rising@),
            rising@.len() == i,
            rising@.to_multiset() == numbers@.take(i as int).to_multiset(),
            is_rising(numbers@) ==> rising@ == numbers@.take(i as int),
        decreases numbers@.len() - i,
    {
        let n: u64 = numbers[i];
        let mut at: usize = 0;
        while at < rising.len() && rising[at] <= n
            invariant
                at <= rising@.len(),
                forall|k: int| 0 <= k < at ==> rising@[k] <= n,
            decreases rising@.len() - at,
        {
            at = at + 1;
        }
        let ghost before = rising@;
        rising.insert(at, n);
        proof {
            vstd::seq_lib::to_multiset_insert(before, at as int, n);
            vstd::seq_lib::to_multiset_build(numbers@.take(i as int), n);
            assert(numbers@.take(i + 1) =~= numbers@.take(i as int).push(n));
            if is_rising(numbers@) && at < before.len() {
                assert(before[at as int] == numbers@[at as int] && numbers@[at as int] <= numbers@[i as int]);
            }
            assert(before.insert(before.len() as int, n) =~= before.push(n));
            assert forall|a: int, b: int| 0 <= a <= b < rising@.len() implies rising@[a] <= rising@[b] by {
                if a < at && b > at {
                    assert(before[a] <= before[b - 1]);
                } else if a > at {
                    assert(before[a - 1] <= before[b - 1]);
                } else if a == at && b > at {
                    assert(before[at as int] <= before[b - 1]);
                } else if b < at {
                    assert(before[a] <= before[b]);
                }
            }
        }
        i = i + 1;
    }
    assert(numbers@.take(numbers@.len() as int) =~= numbers@);
    rising
}

/// Numbers counted by how large they are.
#[derive(Debug)]
pub struct ShardedHistogram {
    buckets: Vec<u64>,
    counts: Vec<ShardedU64>,
    sum: ShardedU64,
    count: ShardedU64,
}

/// What a histogram has counted: how many numbers were up to each bound,
/// their sum, and how many there were.
#[verifier::ext_equal]
pub ghost struct HistogramView {
    pub buckets: Seq<u64>,
    pub counts: Seq<CounterView>,
    pub sum: CounterView,
    pub count: CounterView,
}

/// The histogram with another number.
pub open spec fn recorded(v: HistogramView, value: u64, shard: u64, labels: LabelsView) -> HistogramView {
    HistogramView {
        buckets: v.buckets,
        counts: Seq::new(
            v.counts.len(),
            |i: int|
                if value <= v.buckets[i] {
                    added(v.counts[i], 1, shard, labels)
                } else {
                    v.counts[i]
                },
        ),
        sum: added(v.sum, value, shard, labels),
        count: added(v.count, 1, shard, labels),
    }
}

/// A histogram over some bounds that counted nothing.
pub open spec fn nothing_recorded(buckets: Seq<u64>) -> HistogramView {
    HistogramView {
        buckets,
        counts: Seq::new(buckets.len(), |i: int| nothing_counted()),
        sum: nothing_counted(),
        count: nothing_counted(),
    }
}

/// What each of some counters has counted.
pub open spec fn counters_view(counters: Seq<ShardedU64>) -> Seq<CounterView> {
    Seq::new(counters.len(), |i: int| counters[i]@)
}

impl View for ShardedHistogram {
    type V = HistogramView;

    closed spec fn view(&self) -> HistogramView {
        HistogramView {
            buckets: self.buckets@,
            counts: counters_view(self.counts@),
            sum: self.sum@,
            count: self.count@,
        }
    }
}

impl ShardedHistogram {
    #[verifier::type_invariant]
    spec fn inv(self) -> bool {
        is_rising(self.buckets@) && self.counts@.len() == self.buckets@.len()
    }

    /// The bounds of the buckets, in rising order.
    pub fn buckets(&self) -> (buckets: &Vec<u64>)
        ensures
            buckets@ == self@.buckets,
            is_rising(buckets@),
            self@.counts.len() == buckets@.len(),
    {
        proof {
            use_type_invariant(self);
        }
        &self.buckets
    }

    pub fn counts(&self) -> (counts: &Vec<ShardedU64>)
        ensures
            counters_view(counts@) == self@.counts,
            counts@.len() == self@.buckets.len(),
    {
        proof {
            use_type_invariant(self);
        }
        &self.counts
    }

    pub fn sum(&self) -> (sum: &ShardedU64)
        ensures
            sum@ == self@.sum,
    {
        &self.sum
    }

    pub fn count(&self) -> (count: &ShardedU64)
        ensures
            count@ == self@.count,
    {
        &self.count
    }

    fn empty_counts(n: usize) -> (counts: Vec<ShardedU64>)
        ensures
            counts@.len() == n,
            forall|i: int| 0 <= i < n ==> (#[trigger] counts@[i])@ == nothing_counted(),
    {
        let mut counts: Vec<ShardedU64> = Vec::new();
        while counts.len() < n
            invariant
                counts@.len() <= n,
                forall|i: int| 0 <= i < counts@.len() ==> (#[trigger] counts@[i])@ == nothing_counted(),
            decreases n - counts@.len(),
        {
            counts.push(ShardedU64::new());
        }
        counts
    }

    /// A histogram over some bounds.
    pub fn new(buckets: &Vec<u64>) -> (histogram: ShardedHistogram)
        ensures
            histogram@ == nothing_recorded(histogram@.buckets),
            is_rising(histogram@.buckets),
            histogram@.buckets.to_multiset() == buckets@.to_multiset(),
            is_rising(buckets@) ==> histogram@.buckets == buckets@,
    {
        let buckets: Vec<u64> = sorted(buckets);
        let counts: Vec<ShardedU64> = ShardedHistogram::empty_counts(buckets.len());
        let histogram = ShardedHistogram { buckets, counts, sum: ShardedU64::new(), count: ShardedU64::new() };
        assert(histogram@ =~= nothing_recorded(histogram@.buckets)) by {
            assert(histogram@.counts =~= Seq::new(histogram@.buckets.len(), |i: int| nothing_counted()));
        }
        histogram
    }

    /// Counts a number in.
    pub fn record(&mut self, value: u64, shard_id: u64, key: &Vec<(String, String)>)
        ensures
            final(self)@ == recorded(old(self)@, value, shard_id, labels_view(key@)),
    {
        proof {
            use_type_invariant(&*self);
        }
        let ghost labels = labels_view(key@);
        let mut sum = ShardedU64::new();
        std::mem::swap(&mut sum, &mut self.sum);
        sum.add(value, shard_id, key);
        self.sum = sum;
        let mut count = ShardedU64::new();
        std::mem::swap(&mut count, &mut self.count);
        count.add(1, shard_id, key);
        self.count = count;
        let mut i: usize = 0;
        while i < self.buckets.len()
            invariant
                i <= self.buckets@.len(),
                self.buckets@ == old(self).buckets@,
                self.counts@.len() == self.buckets@.len(),
                old(self).counts@.len() == self.buckets@.len(),
                is_rising(self.buckets@),
                labels == labels_view(key@),
                self.sum@ == added(old(self).sum@, value, shard_id, labels),
                self.count@ == added(old(self).count@, 1, shard_id, labels),
                forall|k: int|
                    0 <= k < i ==> (#[trigger] self.counts@[k])@ == (if value <= old(self).buckets@[k] {
                        added(old(self).counts@[k]@, 1, shard_id, labels)
                    } else {
                        old(self).counts@[k]@
                    }),
                forall|k: int| i <= k < self.counts@.len() ==> #[trigger] self.counts@[k] == old(self).counts@[k],
            decreases self.buckets@.len() - i,
        {
            if value <= self.buckets[i] {
                let mut one = ShardedU64::new();
                let ghost mine = self.counts@;
                let mut counts: Vec<ShardedU64> = Vec::new();
                let n: usize = self.buckets.len();
                let mut spare: Vec<ShardedU64> = ShardedHistogram::empty_counts(n);
                std::mem::swap(&mut spare, &mut self.counts);
                std::mem::swap(&mut counts, &mut spare);
                std::mem::swap(&mut one, &mut counts[i]);
                one.add(1, shard_id, key);
                counts.set(i, one);
                self.counts = counts;
            }
            i = i + 1;
        }
        assert(self@.counts =~= recorded(old(self)@, value, shard_id, labels).counts);
        assert(self@ =~= recorded(old(self)@, value, shard_id, labels));
    }
}

impl Clearable for ShardedHistogram {
    open spec fn is_clear(&self) -> bool {
        self@ == nothing_recorded(self@.buckets)
    }

    open spec fn same_kind(&self, other: &ShardedHistogram) -> bool {
        self@.buckets == other@.buckets
    }

    fn clear(&mut self) {
        proof {
            use_type_invariant(&*self);
        }
        self.counts = ShardedHistogram::empty_counts(self.buckets.len());
        self.sum = ShardedU64::new();
        self.count = ShardedU64::new();
        assert(self@.counts =~= Seq::new(self@.buckets.len(), |i: int| nothing_counted()));
    }
}

proof fn lemma_sum_other_cell(
    shards: Seq<u64>,
    cells: Map<(u64, LabelsView), u64>,
    shard: u64,
    labels: LabelsView,
    other: LabelsView,
    value: u64,
)
    requires
        labels != other || !shards.contains(shard),
    ensures
        sum_over(shards, cells.insert((shard, labels), value), other) == sum_over(shards, cells, other),
    decreases shards.len(),
{
    if shards.len() > 0 {
        assert forall|s: u64| shards.drop_last().contains(s) implies shards.contains(s) by {
            let i = choose|i: int| 0 <= i < shards.drop_last().len() && shards.drop_last()[i] == s;
            assert(shards[i] == s);
        }
        lemma_sum_other_cell(shards.drop_last(), cells, shard, labels, other, value);
        assert(shards[shards.len() - 1] == shards.last());
    }
}

proof fn lemma_sum_this_cell(
    shards: Seq<u64>,
    cells: Map<(u64, LabelsView), u64>,
    shard: u64,
    labels: LabelsView,
    value: u64,
)
    requires
        shards.no_duplicates(),
        shards.contains(shard),
    ensures
        sum_over(shards, cells.insert((shard, labels), value), labels) == sum_over(shards, cells, labels) - (
        match cell_of(cells, shard, labels) {
            Some(n) => n as int,
            None => 0,
        }) + value,
    decreases shards.len(),
{
    let front = shards.drop_last();
    if shards.last() == shard {
        assert(!front.contains(shard)) by {
            if front.contains(shard) {
                let i = choose|i: int| 0 <= i < front.len() && front[i] == shard;
                assert(shards[i] == shards[shards.len() - 1]);
            }
        }
        lemma_sum_other_cell(front, cells, shard, labels, labels, value);
    } else {
        assert(front.contains(shard)) by {
            let i = choose|i: int| 0 <= i < shards.len() && shards[i] == shard;
            assert(front[i] == shard);
        }
        lemma_sum_this_cell(front, cells, shard, labels, value);
    }
}

/// What adding does to the sums: the cell it goes to is set anew.
proof fn lemma_added_total(v: CounterView, value: u64, shard: u64, labels: LabelsView, other: LabelsView)
    requires
        well_sharded(v),
    ensures
        present(added(v, value, shard, labels), labels),
        total(added(v, value, shard, labels), labels) == total(v, labels) - counted(v, shard, labels) + counted(
            v,
            shard,
            labels,
        ).wrapping_add(value),
        other != labels ==> total(added(v, value, shard, labels), other) == total(v, other),
        well_sharded(added(v, value, shard, labels)),
{
    let after = added(v, value, shard, labels);
    let cells = after.cells;
    if v.shards.contains(shard) {
        lemma_sum_this_cell(v.shards, v.cells, shard, labels, cells[(shard, labels)]);
        if other != labels {
            lemma_sum_other_cell(v.shards, v.cells, shard, labels, other, cells[(shard, labels)]);
        }
        let i = choose|i: int| 0 <= i < v.shards.len() && v.shards[i] == shard;
        assert(after.shards[i] == shard);
        assert(cells.contains_key((after.shards[i], labels)));
    } else {
        assert(after.shards.drop_last() =~= v.shards);
        assert(cell_of(v.cells, shard, labels) is None);
        assert(cell_of(v.cells, shard, other) is None);
        lemma_sum_other_cell(v.shards, v.cells, shard, labels, labels, cells[(shard, labels)]);
        if other != labels {
            lemma_sum_other_cell(v.shards, v.cells, shard, labels, other, cells[(shard, labels)]);
        }
        let i = after.shards.len() - 1;
        assert(after.shards[i] == shard);
        assert(cells.contains_key((after.shards[i], labels)));
        assert forall|s: u64| v.shards.contains(s) implies after.shards.contains(s) by {
            let k = choose|k: int| 0 <= k < v.shards.len() && v.shards[k] == s;
            assert(after.shards[k] == s);
        }
    }
    assert(after.shards.contains(shard)) by {
        let i = choose|i: int| 0 <= i < after.shards.len() && cells.contains_key((#[trigger] after.shards[i], labels))
            && after.shards[i] == shard;
    }
}

/// What is added under some labels, in whatever shard, adds to the sum under
/// those labels and to no other. No cell may run over.
pub proof fn law_adding_counts_once(v: CounterView, value: u64, shard: u64, labels: LabelsView, other: LabelsView)
    requires
        well_sharded(v),
        counted(v, shard, labels) + value <= u64::MAX,
    ensures
        present(added(v, value, shard, labels), labels),
        total(added(v, value, shard, labels), labels) == total(v, labels) + value,
        other != labels ==> total(added(v, value, shard, labels), other) == total(v, other),
        well_sharded(added(v, value, shard, labels)),
{
    lemma_added_total(v, value, shard, labels, other);
}

/// A call that changes a counter.
pub ghost enum CounterCall {
    Add(u64, u64, LabelsView),
    Sub(u64, u64, LabelsView),
    Clear,
}

/// The counter that a call leaves behind: numbers come with their shard and labels.
pub open spec fn after_call(v: CounterView, call: CounterCall) -> CounterView {
    match call {
        CounterCall::Add(value, shard, labels) => added(v, value, shard, labels),
        CounterCall::Sub(value, shard, labels) => subtracted(v, value, shard, labels),
        CounterCall::Clear => nothing_counted(),
    }
}

/// A new counter after some calls.
pub open spec fn after_calls(calls: Seq<CounterCall>) -> CounterView
    decreases calls.len(),
{
    if calls.len() == 0 {
        nothing_counted()
    } else {
        after_call(after_calls(calls.drop_last()), calls.last())
    }
}

/// Whether no call takes more from a cell than it holds.
pub open spec fn takes_what_is_there(calls: Seq<CounterCall>) -> bool
    decreases calls.len(),
{
    calls.len() > 0 ==> {
        &&& takes_what_is_there(calls.drop_last())
        &&& calls.last() matches CounterCall::Sub(value, shard, labels) ==> value <= counted(
            after_calls(calls.drop_last()),
            shard,
            labels,
        )
    }
}

/// The sum of what some calls added under some labels since the last clearing,
/// less what they took away.
pub open spec fn sum_of_calls(calls: Seq<CounterCall>, labels: LabelsView) -> int
    decreases calls.len(),
{
    if calls.len() == 0 {
        0
    } else {
        let earlier = sum_of_calls(calls.drop_last(), labels);
        match calls.last() {
            CounterCall::Add(value, _, l) => if l == labels {
                earlier + value
            } else {
                earlier
            },
            CounterCall::Sub(value, _, l) => if l == labels {
                earlier - value
            } else {
                earlier
            },
            CounterCall::Clear => 0,
        }
    }
}

/// Whether some calls added anything under some labels since the last clearing.
pub open spec fn adds_any(calls: Seq<CounterCall>, labels: LabelsView) -> bool
    decreases calls.len(),
{
    calls.len() > 0 && match calls.last() {
        CounterCall::Add(_, _, l) => l == labels || adds_any(calls.drop_last(), labels),
        CounterCall::Sub(_, _, _) => adds_any(calls.drop_last(), labels),
        CounterCall::Clear => false,
    }
}

/// What some calls, taken for one shard and one list of labels alone, come to.
pub open spec fn cell_after(calls: Seq<CounterCall>, shard: u64, labels: LabelsView) -> Option<u64>
    decreases calls.len(),
{
    if calls.len() == 0 {
        None
    } else {
        let earlier = cell_after(calls.drop_last(), shard, labels);
        match calls.last() {
            CounterCall::Add(value, s, l) => if s == shard && l == labels {
                Some(
                    match earlier {
                        Some(n) => n.wrapping_add(value),
                        None => value,
                    },
                )
            } else {
                earlier
            },
            CounterCall::Sub(value, s, l) => if s == shard && l == labels {
                match earlier {
                    Some(n) => Some(
                        if n > value {
                            (n - value) as u64
                        } else {
                            0
                        },
                    ),
                    None => None,
                }
            } else {
                earlier
            },
            CounterCall::Clear => None,
        }
    }
}

/// What a counter loads under some labels is the sum over its history, in
/// whatever shards it was counted: all that was added since the last
/// clearing, less what was taken away, within the range of the counter. It
/// loads nothing exactly where nothing was added.
pub proof fn law_load_is_sum_of_history(calls: Seq<CounterCall>, labels: LabelsView, loaded: Option<u64>)
    requires
        takes_what_is_there(calls),
        is_load(after_calls(calls), labels, loaded),
    ensures
        loaded is Some <==> adds_any(calls, labels),
        loaded matches Some(n) ==> n == in_range(sum_of_calls(calls, labels)),
{
    lemma_history(calls, labels);
}

/// A cell holds what the calls for its shard and its labels come to, also
/// where they take away more than is there: no other call changes it.
pub proof fn law_cell_has_a_history_of_its_own(calls: Seq<CounterCall>, shard: u64, labels: LabelsView)
    ensures
        cell_of(after_calls(calls).cells, shard, labels) == cell_after(calls, shard, labels),
    decreases calls.len(),
{
    if calls.len() > 0 {
        law_cell_has_a_history_of_its_own(calls.drop_last(), shard, labels);
        match calls.last() {
            CounterCall::Add(value, s, l) => {
                if s == shard && l == labels {
                    assert(0u64.wrapping_add(value) == value);
                }
            },
            _ => {},
        }
    }
}

proof fn lemma_history(calls: Seq<CounterCall>, labels: LabelsView)
    requires
        takes_what_is_there(calls),
    ensures
        well_sharded(after_calls(calls)),
        present(after_calls(calls), labels) <==> adds_any(calls, labels),
        in_range(total(after_calls(calls), labels)) == in_range(sum_of_calls(calls, labels)),
    decreases calls.len(),
{
    if calls.len() > 0 {
        let before = after_calls(calls.drop_last());
        lemma_history(calls.drop_last(), labels);
        match calls.last() {
            CounterCall::Add(value, shard, l) => {
                lemma_added_total(before, value, shard, l, labels);
                if l != labels {
                    lemma_added_present(before, value, shard, l, labels);
                }
            },
            CounterCall::Sub(value, shard, l) => {
                law_subtracting_stops_at_zero(before, value, shard, l);
                if l != labels {
                    lemma_subtracted_other(before, value, shard, l, labels);
                }
            },
            CounterCall::Clear => {},
        }
    }
}

proof fn lemma_added_present(v: CounterView, value: u64, shard: u64, labels: LabelsView, other: LabelsView)
    requires
        well_sharded(v),
        other != labels,
    ensures
        present(added(v, value, shard, labels), other) == present(v, other),
{
    let after = added(v, value, shard, labels);
    if present(v, other) {
        let i = choose|i: int| 0 <= i < v.shards.len() && v.cells.contains_key((#[trigger] v.shards[i], other));
        assert(after.cells.contains_key((after.shards[i], other)));
    }
    if present(after, other) {
        let i = choose|i: int|
            0 <= i < after.shards.len() && after.cells.contains_key((#[trigger] after.shards[i], other));
        assert(v.cells.contains_key((after.shards[i], other)));
        assert(v.shards.contains(after.shards[i]));
        let k = choose|k: int| 0 <= k < v.shards.len() && v.shards[k] == after.shards[i];
        assert(v.cells.contains_key((v.shards[k], other)));
    }
}

proof fn lemma_subtracted_other(v: CounterView, value: u64, shard: u64, labels: LabelsView, other: LabelsView)
    requires
        well_sharded(v),
        other != labels,
    ensures
        present(subtracted(v, value, shard, labels), other) == present(v, other),
        total(subtracted(v, value, shard, labels), other) == total(v, other),
{
    let after = subtracted(v, value, shard, labels);
    if v.cells.contains_key((shard, labels)) {
        lemma_sum_other_cell(v.shards, v.cells, shard, labels, other, after.cells[(shard, labels)]);
        assert forall|i: int| 0 <= i < v.shards.len() implies v.cells.contains_key((#[trigger] v.shards[i], other))
            == after.cells.contains_key((after.shards[i], other)) by {}
        if present(v, other) {
            let i = choose|i: int| 0 <= i < v.shards.len() && v.cells.contains_key((#[trigger] v.shards[i], other));
            assert(after.cells.contains_key((after.shards[i], other)));
        }
    }
}

/// Taking away never brings a sum below zero, and takes no more than was asked.
pub proof fn law_subtracting_stops_at_zero(v: CounterView, value: u64, shard: u64, labels: LabelsView)
    requires
        well_sharded(v),
    ensures
        ({
            let after = subtracted(v, value, shard, labels);
            let taken = if counted(v, shard, labels) < value {
                counted(v, shard, labels)
            } else {
                value
            };
            &&& total(after, labels) == total(v, labels) - taken
            &&& present(after, labels) == present(v, labels)
            &&& well_sharded(after)
        }),
{
    let after = subtracted(v, value, shard, labels);
    if v.cells.contains_key((shard, labels)) {
        assert(v.shards.contains(shard));
        lemma_sum_this_cell(v.shards, v.cells, shard, labels, after.cells[(shard, labels)]);
        let i = choose|i: int| 0 <= i < v.shards.len() && v.shards[i] == shard;
        assert(v.cells.contains_key((v.shards[i], labels)));
        assert(after.cells.contains_key((after.shards[i], labels)));
        assert(after.shards.contains(shard));
    }
}

/// What one shard adds another can take only from its own cell: taking in a
/// shard that never added changes nothing.
pub proof fn law_subtracting_needs_a_cell(v: CounterView, value: u64, shard: u64, labels: LabelsView)
    requires
        !v.cells.contains_key((shard, labels)),
    ensures
        subtracted(v, value, shard, labels) == v,
{
}

/// Adding and then taking the same number away in the same shard leaves the sum as it was.
pub proof fn law_subtracting_undoes_adding(v: CounterView, value: u64, shard: u64, labels: LabelsView)
    requires
        well_sharded(v),
        counted(v, shard, labels) + value <= u64::MAX,
    ensures
        total(subtracted(added(v, value, shard, labels), value, shard, labels), labels) == total(v, labels),
{
    law_adding_counts_once(v, value, shard, labels, labels);
    law_subtracting_stops_at_zero(added(v, value, shard, labels), value, shard, labels);
}

/// A number is counted in every bucket from the first that is large enough,
/// and in none before.
pub proof fn law_buckets_are_cumulative(v: HistogramView, value: u64, shard: u64, labels: LabelsView, i: int, j: int)
    requires
        is_rising(v.buckets),
        v.counts.len() == v.buckets.len(),
        0 <= i <= j < v.buckets.len(),
    ensures
        value <= v.buckets[i] ==> recorded(v, value, shard, labels).counts[j] == added(v.counts[j], 1, shard, labels),
        value > v.buckets[j] ==> recorded(v, value, shard, labels).counts[i] == v.counts[i],
{
}

/// A new histogram after some numbers, each with its shard and labels.
pub open spec fn after_records(buckets: Seq<u64>, records: Seq<(u64, u64, LabelsView)>) -> HistogramView
    decreases records.len(),
{
    if records.len() == 0 {
        nothing_recorded(buckets)
    } else {
        let (value, shard, labels) = records.last();
        recorded(after_records(buckets, records.drop_last()), value, shard, labels)
    }
}

/// How many of some numbers came under some labels and are within a bound.
pub open spec fn how_many(records: Seq<(u64, u64, LabelsView)>, labels: LabelsView, bound: u64) -> nat
    decreases records.len(),
{
    if records.len() == 0 {
        0
    } else {
        let earlier = how_many(records.drop_last(), labels, bound);
        if records.last().2 == labels && records.last().0 <= bound {
            earlier + 1
        } else {
            earlier
        }
    }
}

/// What was loaded, as a number: where nothing was counted, zero.
pub open spec fn or_zero(loaded: Option<u64>) -> int {
    match loaded {
        Some(n) => n as int,
        None => 0,
    }
}

/// Over any sequence of numbers, a bucket of a histogram counts those within
/// its bound, and the count counts all of them, within the range of a counter.
/// No bucket counts more than a later one, and none more than the count, as
/// long as the count has not run over.
pub proof fn law_buckets_within_count(
    buckets: Seq<u64>,
    records: Seq<(u64, u64, LabelsView)>,
    labels: LabelsView,
    i: int,
    j: int,
    in_i: Option<u64>,
    in_j: Option<u64>,
    all: Option<u64>,
)
    requires
        is_rising(buckets),
        0 <= i <= j < buckets.len(),
        is_load(after_records(buckets, records).counts[i], labels, in_i),
        is_load(after_records(buckets, records).counts[j], labels, in_j),
        is_load(after_records(buckets, records).count, labels, all),
    ensures
        or_zero(in_i) == in_range(how_many(records, labels, buckets[i]) as int),
        or_zero(all) == in_range(how_many(records, labels, u64::MAX) as int),
        how_many(records, labels, buckets[i]) <= how_many(records, labels, buckets[j]) <= how_many(
            records,
            labels,
            u64::MAX,
        ),
        how_many(records, labels, u64::MAX) <= u64::MAX ==> or_zero(in_i) <= or_zero(in_j) <= or_zero(all),
{
    let v = after_records(buckets, records);
    lemma_load_or_zero(v.counts[i], labels, in_i);
    lemma_load_or_zero(v.counts[j], labels, in_j);
    lemma_load_or_zero(v.count, labels, all);
    lemma_records(buckets, records, labels, i);
    lemma_records(buckets, records, labels, j);
    lemma_how_many(records, labels, buckets[i], buckets[j]);
    lemma_how_many(records, labels, buckets[j], u64::MAX);
}

/// The sum of those numbers that came under some labels.
pub open spec fn sum_of_records(records: Seq<(u64, u64, LabelsView)>, labels: LabelsView) -> int
    decreases records.len(),
{
    if records.len() == 0 {
        0
    } else {
        sum_of_records(records.drop_last(), labels) + if records.last().2 == labels {
            records.last().0 as int
        } else {
            0
        }
    }
}

/// Over any sequence of numbers, a histogram loads their sum and how many they
/// were, for each list of labels apart and within the range of a counter, and
/// nothing exactly where no number came under the labels.
pub proof fn law_histogram_sums_and_counts(
    buckets: Seq<u64>,
    records: Seq<(u64, u64, LabelsView)>,
    labels: LabelsView,
    sum: Option<u64>,
    count: Option<u64>,
)
    requires
        is_load(after_records(buckets, records).sum, labels, sum),
        is_load(after_records(buckets, records).count, labels, count),
    ensures
        sum is Some <==> how_many(records, labels, u64::MAX) > 0,
        count is Some <==> how_many(records, labels, u64::MAX) > 0,
        or_zero(sum) == in_range(sum_of_records(records, labels)),
        or_zero(count) == in_range(how_many(records, labels, u64::MAX) as int),
{
    let v = after_records(buckets, records);
    lemma_load_or_zero(v.sum, labels, sum);
    lemma_load_or_zero(v.count, labels, count);
    lemma_sum_and_count(buckets, records, labels);
}

/// Over any sequence of numbers, a bucket of a histogram loads how many of
/// them are within its bound, and nothing exactly where none is.
pub proof fn law_bucket_counts_within_its_bound(
    buckets: Seq<u64>,
    records: Seq<(u64, u64, LabelsView)>,
    labels: LabelsView,
    i: int,
    loaded: Option<u64>,
)
    requires
        0 <= i < buckets.len(),
        is_load(after_records(buckets, records).counts[i], labels, loaded),
    ensures
        loaded is Some <==> how_many(records, labels, buckets[i]) > 0,
        or_zero(loaded) == in_range(how_many(records, labels, buckets[i]) as int),
{
    lemma_load_or_zero(after_records(buckets, records).counts[i], labels, loaded);
    lemma_records(buckets, records, labels, i);
    lemma_bucket_present(buckets, records, labels, i);
}

proof fn lemma_sum_and_count(buckets: Seq<u64>, records: Seq<(u64, u64, LabelsView)>, labels: LabelsView)
    ensures
        ({
            let v = after_records(buckets, records);
            &&& well_sharded(v.sum)
            &&& well_sharded(v.count)
            &&& present(v.sum, labels) <==> how_many(records, labels, u64::MAX) > 0
            &&& present(v.count, labels) <==> how_many(records, labels, u64::MAX) > 0
            &&& in_range(total(v.sum, labels)) == in_range(sum_of_records(records, labels))
            &&& in_range(total(v.count, labels)) == in_range(how_many(records, labels, u64::MAX) as int)
        }),
    decreases records.len(),
{
    if records.len() > 0 {
        lemma_sum_and_count(buckets, records.drop_last(), labels);
        let before = after_records(buckets, records.drop_last());
        let (value, shard, l) = records.last();
        lemma_added_total(before.sum, value, shard, l, labels);
        lemma_added_total(before.count, 1, shard, l, labels);
        if l != labels {
            lemma_added_present(before.sum, value, shard, l, labels);
            lemma_added_present(before.count, 1, shard, l, labels);
        }
    }
}

proof fn lemma_bucket_present(buckets: Seq<u64>, records: Seq<(u64, u64, LabelsView)>, labels: LabelsView, i: int)
    requires
        0 <= i < buckets.len(),
    ensures
        present(after_records(buckets, records).counts[i], labels) <==> how_many(records, labels, buckets[i]) > 0,
    decreases records.len(),
{
    if records.len() > 0 {
        lemma_bucket_present(buckets, records.drop_last(), labels, i);
        lemma_records(buckets, records.drop_last(), labels, i);
        let before = after_records(buckets, records.drop_last());
        let (value, shard, l) = records.last();
        lemma_added_total(before.counts[i], 1, shard, l, labels);
        if l != labels {
            lemma_added_present(before.counts[i], 1, shard, l, labels);
        }
    }
}

proof fn lemma_load_or_zero(v: CounterView, labels: LabelsView, loaded: Option<u64>)
    requires
        is_load(v, labels, loaded),
    ensures
        or_zero(loaded) == in_range(total(v, labels)),
{
    if !present(v, labels) {
        lemma_sum_of_no_cells(v.shards, v.cells, labels);
    }
}

proof fn lemma_sum_of_no_cells(shards: Seq<u64>, cells: Map<(u64, LabelsView), u64>, labels: LabelsView)
    requires
        forall|i: int| 0 <= i < shards.len() ==> !cells.contains_key((#[trigger] shards[i], labels)),
    ensures
        sum_over(shards, cells, labels) == 0,
    decreases shards.len(),
{
    if shards.len() > 0 {
        lemma_sum_of_no_cells(shards.drop_last(), cells, labels);
        assert(!cells.contains_key((shards[shards.len() - 1], labels)));
    }
}

proof fn lemma_records(buckets: Seq<u64>, records: Seq<(u64, u64, LabelsView)>, labels: LabelsView, i: int)
    requires
        0 <= i < buckets.len(),
    ensures
        ({
            let v = after_records(buckets, records);
            &&& v.buckets == buckets
            &&& v.counts.len() == buckets.len()
            &&& well_sharded(v.counts[i])
            &&& well_sharded(v.count)
            &&& in_range(total(v.counts[i], labels)) == in_range(how_many(records, labels, buckets[i]) as int)
            &&& in_range(total(v.count, labels)) == in_range(how_many(records, labels, u64::MAX) as int)
        }),
    decreases records.len(),
{
    if records.len() > 0 {
        lemma_records(buckets, records.drop_last(), labels, i);
        let before = after_records(buckets, records.drop_last());
        let (value, shard, l) = records.last();
        lemma_added_total(before.counts[i], 1, shard, l, labels);
        lemma_added_total(before.count, 1, shard, l, labels);
    }
}

/// More numbers are within a larger bound.
proof fn lemma_how_many(records: Seq<(u64, u64, LabelsView)>, labels: LabelsView, bound: u64, larger: u64)
    requires
        bound <= larger,
    ensures
        how_many(records, labels, bound) <= how_many(records, labels, larger) <= records.len(),
    decreases records.len(),
{
    if records.len() > 0 {
        lemma_how_many(records.drop_last(), labels, bound, larger);
    }
}

} // verus!
