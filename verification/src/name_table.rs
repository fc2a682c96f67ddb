//! A table of values under names.

use crate::text::str_eq;
use vstd::prelude::*;

verus! {

/// Whether the entry at `at` is the one for `name`.
pub open spec fn named_at<V>(entries: Seq<(String, V)>, at: int, name: Seq<char>) -> bool {
    0 <= at < entries.len() && entries[at].0@ == name
}

/// Whether some entry is for `name`.
pub open spec fn has_name<V>(entries: Seq<(String, V)>, name: Seq<char>) -> bool {
    exists|at: int| named_at(entries, at, name)
}

/// The values of a list of entries by name.
pub open spec fn values_by_name<V>(entries: Seq<(String, V)>) -> Map<Seq<char>, V> {
    Map::new(
        |name: Seq<char>| has_name(entries, name),
        |name: Seq<char>| entries[choose|at: int| named_at(entries, at, name)].1,
    )
}

/// No two entries are for the same name.
pub open spec fn names_distinct<V>(entries: Seq<(String, V)>) -> bool {
    forall|i: int, j: int| 0 <= i < j < entries.len() ==> #[trigger] entries[i].0@ != #[trigger] entries[j].0@
}

/// Values under names; each name has at most one.
#[derive(Debug)]
pub struct NameTable<V> {
    entries: Vec<(String, V)>,
}

impl<V> View for NameTable<V> {
    type V = Map<Seq<char>, V>;

    closed spec fn view(&self) -> Map<Seq<char>, V> {
        values_by_name(self.entries@)
    }
}

impl<V> NameTable<V> {
    #[verifier::type_invariant]
    spec fn inv(self) -> bool {
        names_distinct(self.entries@)
    }

    pub fn new() -> (table: NameTable<V>)
        ensures
            table@ == Map::<Seq<char>, V>::empty(),
    {
        let table: NameTable<V> = NameTable { entries: Vec::new() };
        assert(table@ =~= Map::<Seq<char>, V>::empty());
        table
    }

    fn position(&self, name: &str) -> (at: Option<usize>)
        ensures
            match at {
                Some(i) => named_at(self.entries@, i as int, name@),
                None => !has_name(self.entries@, name@),
            },
    {
        let mut i: usize = 0;
        while i < self.entries.len()
            invariant
                i <= self.entries@.len(),
                forall|at: int| 0 <= at < i ==> !named_at(self.entries@, at, name@),
            decreases self.entries@.len() - i,
        {
            if str_eq(self.entries[i].0.as_str(), name) {
                return Some(i);
            }
            i = i + 1;
        }
        None
    }

    /// Puts a value under a name, in place of the one that was there.
    pub fn insert(&mut self, name: String, value: V)
        ensures
            final(self)@ == old(self)@.insert(name@, value),
    {
        proof {
            use_type_invariant(&*self);
        }
        let ghost before = self.entries@;
        match self.position(name.as_str()) {
            Some(at) => {
                let mut entries: Vec<(String, V)> = Vec::new();
                std::mem::swap(&mut entries, &mut self.entries);
                entries.set(at, (name, value));
                proof {
                    lemma_update(before, at as int, (name, value));
                }
                self.entries = entries;
            },
            None => {
                let mut entries: Vec<(String, V)> = Vec::new();
                std::mem::swap(&mut entries, &mut self.entries);
                entries.push((name, value));
                proof {
                    lemma_push(before, (name, value));
                }
                self.entries = entries;
            },
        }
    }

    /// The value under a name.
    pub fn get(&self, name: &str) -> (value: Option<&V>)
        ensures
            value == (if self@.contains_key(name@) {
                Some(&self@[name@])
            } else {
                None::<&V>
            }),
    {
        proof {
            use_type_invariant(self);
        }
        match self.position(name) {
            Some(at) => {
                proof {
                    lemma_value_at(self.entries@, at as int);
                }
                Some(&self.entries[at].1)
            },
            None => None,
        }
    }
}

/// In a list without repetition, the value under an entry's name is the entry's own.
proof fn lemma_value_at<V>(entries: Seq<(String, V)>, at: int)
    requires
        names_distinct(entries),
        0 <= at < entries.len(),
    ensures
        values_by_name(entries).contains_key(entries[at].0@),
        values_by_name(entries)[entries[at].0@] == entries[at].1,
{
    assert(named_at(entries, at, entries[at].0@));
    let found = choose|i: int| named_at(entries, i, entries[at].0@);
    assert(named_at(entries, found, entries[at].0@));
    if found < at {
        assert(entries[found].0@ != entries[at].0@);
    } else if at < found {
        assert(entries[at].0@ != entries[found].0@);
    }
}

proof fn lemma_push<V>(entries: Seq<(String, V)>, entry: (String, V))
    requires
        names_distinct(entries),
        !has_name(entries, entry.0@),
    ensures
        names_distinct(entries.push(entry)),
        values_by_name(entries.push(entry)) == values_by_name(entries).insert(entry.0@, entry.1),
{
    let after = entries.push(entry);
    assert forall|i: int, j: int| 0 <= i < j < after.len() implies #[trigger] after[i].0@
        != #[trigger] after[j].0@ by {
        if j == entries.len() {
            assert(!named_at(entries, i, entry.0@));
        }
    }
    let want = values_by_name(entries).insert(entry.0@, entry.1);
    lemma_value_at(after, entries.len() as int);
    assert forall|name: Seq<char>| values_by_name(after).contains_key(name) == want.contains_key(name) by {
        if has_name(after, name) {
            let at = choose|at: int| named_at(after, at, name);
            if at < entries.len() {
                assert(named_at(entries, at, name));
            }
        }
        if has_name(entries, name) {
            let at = choose|at: int| named_at(entries, at, name);
            assert(named_at(after, at, name));
        }
    }
    assert forall|name: Seq<char>| want.contains_key(name) implies values_by_name(after)[name] == want[name] by {
        if has_name(entries, name) {
            let at = choose|at: int| named_at(entries, at, name);
            lemma_value_at(entries, at);
            lemma_value_at(after, at);
        }
    }
    assert(values_by_name(after) =~= want);
}

proof fn lemma_update<V>(entries: Seq<(String, V)>, at: int, entry: (String, V))
    requires
        names_distinct(entries),
        named_at(entries, at, entry.0@),
    ensures
        names_distinct(entries.update(at, entry)),
        values_by_name(entries.update(at, entry)) == values_by_name(entries).insert(entry.0@, entry.1),
{
    let after = entries.update(at, entry);
    assert forall|i: int, j: int| 0 <= i < j < after.len() implies #[trigger] after[i].0@
        != #[trigger] after[j].0@ by {
        assert(entries[i].0@ != entries[j].0@);
    }
    let want = values_by_name(entries).insert(entry.0@, entry.1);
    lemma_value_at(after, at);
    assert forall|name: Seq<char>| values_by_name(after).contains_key(name) == want.contains_key(name) by {
        if has_name(after, name) {
            let i = choose|i: int| named_at(after, i, name);
            assert(named_at(entries, i, name));
        }
        if has_name(entries, name) {
            let i = choose|i: int| named_at(entries, i, name);
            assert(named_at(after, i, name));
        }
    }
    assert forall|name: Seq<char>| want.contains_key(name) implies values_by_name(after)[name] == want[name] by {
        if name != entry.0@ {
            let i = choose|i: int| named_at(entries, i, name);
            lemma_value_at(entries, i);
            lemma_value_at(after, i);
        }
    }
    assert(values_by_name(after) =~= want);
}

} // verus!
