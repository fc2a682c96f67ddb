//! Keys with their values.

use crate::name_table::NameTable;
use vstd::prelude::*;

verus! {

/// A key with a value.
#[derive(Debug, Clone, Copy)]
pub struct KeyValue<'a> {
    pub key: &'a str,
    pub value: &'a str,
}

impl<'a> KeyValue<'a> {
    pub fn new(key: &'a str, value: &'a str) -> (pair: KeyValue<'a>)
        ensures
            pair.key == key,
            pair.value == value,
    {
        KeyValue { key, value }
    }
}

/// The values that pairs put under their keys, one after the other.
pub open spec fn last_values(pairs: Seq<(Seq<char>, Seq<char>)>) -> Map<Seq<char>, Seq<char>>
    decreases pairs.len(),
{
    if pairs.len() == 0 {
        Map::empty()
    } else {
        last_values(pairs.drop_last()).insert(pairs.last().0, pairs.last().1)
    }
}

/// Values under keys; each key has at most one.
#[derive(Debug)]
pub struct KeyValueMap {
    table: NameTable<String>,
}

impl View for KeyValueMap {
    type V = Map<Seq<char>, Seq<char>>;

    closed spec fn view(&self) -> Map<Seq<char>, Seq<char>> {
        self.table@.map_values(|value: String| value@)
    }
}

impl KeyValueMap {
    pub fn new() -> (map: KeyValueMap)
        ensures
            map@ == Map::<Seq<char>, Seq<char>>::empty(),
    {
        let map = KeyValueMap { table: NameTable::new() };
        assert(map@ =~= Map::<Seq<char>, Seq<char>>::empty());
        map
    }

    /// Puts a value under a key, in place of the one that was there.
    pub fn insert(&mut self, key: &str, value: &str)
        ensures
            final(self)@ == old(self)@.insert(key@, value@),
    {
        self.table.insert(key.to_owned(), value.to_owned());
        assert(self@ =~= old(self)@.insert(key@, value@));
    }

    /// The value under a key.
    pub fn get(&self, key: &str) -> (value: Option<&str>)
        ensures
            match value {
                Some(text) => self@.contains_key(key@) && text@ == self@[key@],
                None => !self@.contains_key(key@),
            },
    {
        match self.table.get(key) {
            Some(text) => Some(text.as_str()),
            None => None,
        }
    }
}

/// The last value that was given for a key is the one that stands.
pub proof fn law_last_value_stands(pairs: Seq<(Seq<char>, Seq<char>)>, i: int)
    requires
        0 <= i < pairs.len(),
        forall|j: int| i < j < pairs.len() ==> (#[trigger] pairs[j]).0 != pairs[i].0,
    ensures
        last_values(pairs).contains_key(pairs[i].0),
        last_values(pairs)[pairs[i].0] == pairs[i].1,
    decreases pairs.len(),
{
    if i < pairs.len() - 1 {
        assert(pairs.drop_last()[i] == pairs[i]);
        assert forall|j: int| i < j < pairs.drop_last().len() implies (#[trigger] pairs.drop_last()[j]).0
            != pairs.drop_last()[i].0 by {
            assert(pairs.drop_last()[j] == pairs[j]);
        }
        law_last_value_stands(pairs.drop_last(), i);
        assert(pairs[pairs.len() - 1].0 != pairs[i].0);
    }
}

/// A key that was not given stands for nothing.
pub proof fn law_key_not_given_is_absent(pairs: Seq<(Seq<char>, Seq<char>)>, key: Seq<char>)
    requires
        forall|j: int| 0 <= j < pairs.len() ==> (#[trigger] pairs[j]).0 != key,
    ensures
        !last_values(pairs).contains_key(key),
    decreases pairs.len(),
{
    if pairs.len() > 0 {
        assert forall|j: int| 0 <= j < pairs.drop_last().len() implies (#[trigger] pairs.drop_last()[j]).0 != key by {
            assert(pairs.drop_last()[j] == pairs[j]);
        }
        law_key_not_given_is_absent(pairs.drop_last(), key);
        assert(pairs[pairs.len() - 1].0 != key);
    }
}

} // verus!
