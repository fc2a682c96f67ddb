//! The listeners that take connections from inside the process, per runtime.

use vstd::prelude::*;

verus! {

/// A registered listener: the runtime it runs on, its name, and the number of
/// the channel that takes its connections.
#[derive(Debug, Clone)]
pub struct Registration {
    pub runtime_id: usize,
    pub name: String,
    pub channel: u64,
}

/// The registered listeners. No two have the same runtime and name.
#[derive(Debug)]
pub struct InternalRegistry {
    entries: Vec<Registration>,
}

/// The channels by runtime and name.
pub type Channels = Map<(usize, Seq<char>), u64>;

/// Whether the entry under `at` is the one of that runtime and name.
pub open spec fn entry_is(entries: Seq<Registration>, at: int, runtime_id: usize, name: Seq<char>) -> bool {
    0 <= at < entries.len() && entries[at].runtime_id == runtime_id && entries[at].name@ == name
}

/// Whether the runtime and name are registered.
pub open spec fn has_entry(entries: Seq<Registration>, runtime_id: usize, name: Seq<char>) -> bool {
    exists|at: int| entry_is(entries, at, runtime_id, name)
}

/// The channels of a list of entries.
pub open spec fn channels_of(entries: Seq<Registration>) -> Channels {
    Map::new(
        |key: (usize, Seq<char>)| has_entry(entries, key.0, key.1),
        |key: (usize, Seq<char>)| entries[choose|at: int| entry_is(entries, at, key.0, key.1)].channel,
    )
}

/// No two entries are for the same runtime and name.
pub open spec fn distinct(entries: Seq<Registration>) -> bool {
    forall|i: int, j: int|
        0 <= i < j < entries.len() ==> !(#[trigger] entries[i].runtime_id == #[trigger] entries[j].runtime_id
            && entries[i].name@ == entries[j].name@)
}

impl View for InternalRegistry {
    type V = Channels;

    closed spec fn view(&self) -> Channels {
        channels_of(self.entries@)
    }
}

impl InternalRegistry {
    #[verifier::type_invariant]
    spec fn inv(self) -> bool {
        distinct(self.entries@)
    }

    pub fn new() -> (registry: InternalRegistry)
        ensures
            registry@ == Map::<(usize, Seq<char>), u64>::empty(),
    {
        let registry = InternalRegistry { entries: Vec::new() };
        assert(registry@ =~= Map::<(usize, Seq<char>), u64>::empty());
        registry
    }

    fn position(&self, runtime_id: usize, name: &str) -> (at: Option<usize>)
        ensures
            match at {
                Some(i) => entry_is(self.entries@, i as int, runtime_id, name@),
                None => !has_entry(self.entries@, runtime_id, name@),
            },
    {
        let mut i: usize = 0;
        while i < self.entries.len()
            invariant
                i <= self.entries@.len(),
                forall|at: int| 0 <= at < i ==> !entry_is(self.entries@, at, runtime_id, name@),
            decreases self.entries@.len() - i,
        {
            if self.entries[i].runtime_id == runtime_id && crate::text::str_eq(self.entries[i].name.as_str(), name) {
                return Some(i);
            }
            i = i + 1;
        }
        None
    }

    /// Registers a listener. A listener of the same name on the same runtime is
    /// replaced; the result tells whether there was one.
    pub fn register(&mut self, runtime_id: usize, name: &str, channel: u64) -> (replaced: bool)
        ensures
            replaced == old(self)@.contains_key((runtime_id, name@)),
            final(self)@ == old(self)@.insert((runtime_id, name@), channel),
    {
        proof {
            use_type_invariant(&*self);
        }
        let ghost before = self.entries@;
        match self.position(runtime_id, name) {
            Some(at) => {
                let mut entries: Vec<Registration> = Vec::new();
                std::mem::swap(&mut entries, &mut self.entries);
                entries.set(at, Registration { runtime_id, name: name.to_owned(), channel });
                proof {
                    lemma_channels_update(before, at as int, entries@[at as int]);
                }
                self.entries = entries;
                true
            },
            None => {
                let mut entries: Vec<Registration> = Vec::new();
                std::mem::swap(&mut entries, &mut self.entries);
                entries.push(Registration { runtime_id, name: name.to_owned(), channel });
                proof {
                    lemma_channels_push(before, entries@[before.len() as int]);
                }
                self.entries = entries;
                false
            },
        }
    }

    /// Removes a listener; the result tells whether it was registered.
    pub fn unregister(&mut self, runtime_id: usize, name: &str) -> (removed: bool)
        ensures
            removed == old(self)@.contains_key((runtime_id, name@)),
            final(self)@ == old(self)@.remove((runtime_id, name@)),
    {
        proof {
            use_type_invariant(&*self);
        }
        let ghost before = self.entries@;
        match self.position(runtime_id, name) {
            Some(at) => {
                let mut entries: Vec<Registration> = Vec::new();
                std::mem::swap(&mut entries, &mut self.entries);
                entries.remove(at);
                proof {
                    lemma_channels_remove(before, at as int);
                }
                self.entries = entries;
                true
            },
            None => {
                assert(old(self)@.remove((runtime_id, name@)) =~= old(self)@);
                false
            },
        }
    }

    /// The channel that takes the connections of a listener.
    pub fn get_connection_sender_for_listener(&self, runtime_id: usize, name: &str) -> (channel: Option<u64>)
        ensures
            channel == (if self@.contains_key((runtime_id, name@)) {
                Some(self@[(runtime_id, name@)])
            } else {
                None::<u64>
            }),
    {
        proof {
            use_type_invariant(self);
        }
        match self.position(runtime_id, name) {
            Some(at) => {
                proof {
                    lemma_channel_at(self.entries@, at as int);
                }
                Some(self.entries[at].channel)
            },
            None => None,
        }
    }
}

/// In a list without repetition, the channel under an entry's key is the entry's own.
proof fn lemma_channel_at(entries: Seq<Registration>, at: int)
    requires
        distinct(entries),
        0 <= at < entries.len(),
    ensures
        channels_of(entries).contains_key((entries[at].runtime_id, entries[at].name@)),
        channels_of(entries)[(entries[at].runtime_id, entries[at].name@)] == entries[at].channel,
{
    assert(entry_is(entries, at, entries[at].runtime_id, entries[at].name@));
    let found = choose|i: int| entry_is(entries, i, entries[at].runtime_id, entries[at].name@);
    assert(entry_is(entries, found, entries[at].runtime_id, entries[at].name@));
    if found < at {
        assert(!(entries[found].runtime_id == entries[at].runtime_id && entries[found].name@ == entries[at].name@));
    } else if at < found {
        assert(!(entries[at].runtime_id == entries[found].runtime_id && entries[at].name@ == entries[found].name@));
    }
}

proof fn lemma_channels_push(entries: Seq<Registration>, entry: Registration)
    requires
        distinct(entries),
        !has_entry(entries, entry.runtime_id, entry.name@),
    ensures
        distinct(entries.push(entry)),
        channels_of(entries.push(entry)) == channels_of(entries).insert((entry.runtime_id, entry.name@), entry.channel),
{
    let after = entries.push(entry);
    assert forall|i: int, j: int| 0 <= i < j < after.len() implies !(#[trigger] after[i].runtime_id
        == #[trigger] after[j].runtime_id && after[i].name@ == after[j].name@) by {
        if j == entries.len() {
            assert(!entry_is(entries, i, entry.runtime_id, entry.name@));
        }
    }
    let want = channels_of(entries).insert((entry.runtime_id, entry.name@), entry.channel);
    lemma_channel_at(after, entries.len() as int);
    assert forall|key: (usize, Seq<char>)| channels_of(after).contains_key(key) == want.contains_key(key) by {
        if has_entry(after, key.0, key.1) {
            let at = choose|at: int| entry_is(after, at, key.0, key.1);
            if at < entries.len() {
                assert(entry_is(entries, at, key.0, key.1));
            }
        }
        if has_entry(entries, key.0, key.1) {
            let at = choose|at: int| entry_is(entries, at, key.0, key.1);
            assert(entry_is(after, at, key.0, key.1));
        }
    }
    assert forall|key: (usize, Seq<char>)| want.contains_key(key) implies channels_of(after)[key] == want[key] by {
        if has_entry(entries, key.0, key.1) {
            let at = choose|at: int| entry_is(entries, at, key.0, key.1);
            lemma_channel_at(entries, at);
            lemma_channel_at(after, at);
        }
    }
    assert(channels_of(after) =~= want);
}

proof fn lemma_channels_update(entries: Seq<Registration>, at: int, entry: Registration)
    requires
        distinct(entries),
        entry_is(entries, at, entry.runtime_id, entry.name@),
    ensures
        distinct(entries.update(at, entry)),
        channels_of(entries.update(at, entry)) == channels_of(entries).insert(
            (entry.runtime_id, entry.name@),
            entry.channel,
        ),
{
    let after = entries.update(at, entry);
    assert forall|i: int, j: int| 0 <= i < j < after.len() implies !(#[trigger] after[i].runtime_id
        == #[trigger] after[j].runtime_id && after[i].name@ == after[j].name@) by {
        assert(!(entries[i].runtime_id == entries[j].runtime_id && entries[i].name@ == entries[j].name@));
    }
    let want = channels_of(entries).insert((entry.runtime_id, entry.name@), entry.channel);
    lemma_channel_at(after, at);
    assert forall|key: (usize, Seq<char>)| channels_of(after).contains_key(key) == want.contains_key(key) by {
        if has_entry(after, key.0, key.1) {
            let i = choose|i: int| entry_is(after, i, key.0, key.1);
            assert(entry_is(entries, i, key.0, key.1));
        }
        if has_entry(entries, key.0, key.1) {
            let i = choose|i: int| entry_is(entries, i, key.0, key.1);
            assert(entry_is(after, i, key.0, key.1));
        }
    }
    assert forall|key: (usize, Seq<char>)| want.contains_key(key) implies channels_of(after)[key] == want[key] by {
        if key != (entry.runtime_id, entry.name@) {
            let i = choose|i: int| entry_is(entries, i, key.0, key.1);
            lemma_channel_at(entries, i);
            lemma_channel_at(after, i);
        }
    }
    assert(channels_of(after) =~= want);
}

proof fn lemma_channels_remove(entries: Seq<Registration>, at: int)
    requires
        distinct(entries),
        0 <= at < entries.len(),
    ensures
        distinct(entries.remove(at)),
        channels_of(entries.remove(at)) == channels_of(entries).remove((entries[at].runtime_id, entries[at].name@)),
{
    let after = entries.remove(at);
    let gone = (entries[at].runtime_id, entries[at].name@);
    assert forall|i: int, j: int| 0 <= i < j < after.len() implies !(#[trigger] after[i].runtime_id
        == #[trigger] after[j].runtime_id && after[i].name@ == after[j].name@) by {
        let oi = if i < at { i } else { i + 1 };
        let oj = if j < at { j } else { j + 1 };
        assert(after[i] == entries[oi] && after[j] == entries[oj]);
        assert(!(entries[oi].runtime_id == entries[oj].runtime_id && entries[oi].name@ == entries[oj].name@));
    }
    let want = channels_of(entries).remove(gone);
    assert forall|key: (usize, Seq<char>)| channels_of(after).contains_key(key) == want.contains_key(key) by {
        if has_entry(after, key.0, key.1) {
            let i = choose|i: int| entry_is(after, i, key.0, key.1);
            let oi = if i < at { i } else { i + 1 };
            assert(after[i] == entries[oi]);
            assert(entry_is(entries, oi, key.0, key.1));
            if key == gone {
                if oi < at {
                    assert(!(entries[oi].runtime_id == entries[at].runtime_id && entries[oi].name@ == entries[at].name@));
                } else {
                    assert(!(entries[at].runtime_id == entries[oi].runtime_id && entries[at].name@ == entries[oi].name@));
                }
            }
        }
        if has_entry(entries, key.0, key.1) && key != gone {
            let oi = choose|i: int| entry_is(entries, i, key.0, key.1);
            let i = if oi < at { oi } else { oi - 1 };
            assert(after[i] == entries[oi]);
            assert(entry_is(after, i, key.0, key.1));
        }
    }
    assert forall|key: (usize, Seq<char>)| want.contains_key(key) implies channels_of(after)[key] == want[key] by {
        let oi = choose|i: int| entry_is(entries, i, key.0, key.1);
        let i = if oi < at { oi } else { oi - 1 };
        assert(after[i] == entries[oi]);
        lemma_channel_at(entries, oi);
        lemma_channel_at(after, i);
    }
    assert(channels_of(after) =~= want);
}

/// Removing what was just registered gives back a registry without the
/// listener, and every other listener keeps its channel.
pub proof fn law_unregister_undoes_register(
    channels: Channels,
    runtime_id: usize,
    name: Seq<char>,
    channel: u64,
    other: (usize, Seq<char>),
)
    requires
        other != (runtime_id, name),
    ensures
        !channels.contains_key((runtime_id, name)) ==> channels.insert((runtime_id, name), channel).remove(
            (runtime_id, name),
        ) == channels,
        channels.insert((runtime_id, name), channel).contains_key(other) == channels.contains_key(other),
        channels.contains_key(other) ==> channels.insert((runtime_id, name), channel)[other] == channels[other],
{
    if !channels.contains_key((runtime_id, name)) {
        assert(channels.insert((runtime_id, name), channel).remove((runtime_id, name)) =~= channels);
    }
}

} // verus!
