//! A limit on the connections that a filter chain serves at once.
//!
//! The counts are kept per listener and filter chain, outside the limits
//! themselves: a chain that is rebuilt goes on with the count it had.

use vstd::multiset::Multiset;
use vstd::prelude::*;

verus! {

/// The concurrent hash map that holds the counts.
#[verifier::external_type_specification]
#[verifier::external_body]
#[verifier::reject_recursive_types(K)]
#[verifier::reject_recursive_types(V)]
#[verifier::reject_recursive_types(S)]
pub struct ExPapayaMap<K, V, S>(papaya::HashMap<K, V, S>);

/// What a map of counts holds: for a listener's name and a chain's number, a count.
pub uninterp spec fn count_contents(map: papaya::HashMap<(String, u64), u64>) -> Map<(Seq<char>, u64), u64>;

/// A listener's name and a chain's number.
pub type ChainKey = (Seq<char>, u64);

/// The connections open per chain.
pub type CountsView = Map<ChainKey, u64>;

/// The counts of a proxy that has served no chain yet.
pub open spec fn no_counts() -> CountsView {
    Map::empty()
}

/// The connections open on a chain. A chain that was never seen has none.
pub open spec fn active_in(counts: CountsView, key: ChainKey) -> int {
    if counts.contains_key(key) {
        counts[key] as int
    } else {
        0
    }
}

/// The counts after a chain is seen.
pub open spec fn counts_seen(counts: CountsView, key: ChainKey) -> CountsView {
    if counts.contains_key(key) {
        counts
    } else {
        counts.insert(key, 0)
    }
}

/// The counts that an accepted connection leaves behind.
pub open spec fn counts_accepted(counts: CountsView, key: ChainKey) -> CountsView {
    counts.insert(key, (active_in(counts, key) + 1) as u64)
}

/// The counts that a released connection leaves behind.
pub open spec fn counts_released(counts: CountsView, key: ChainKey) -> CountsView {
    counts.insert(key, (active_in(counts, key) - 1) as u64)
}

/// `papaya::HashMap::new`: an empty map.
#[verifier::external_body]
fn count_map_new() -> (map: papaya::HashMap<(String, u64), u64>)
    ensures
        count_contents(map) == no_counts(),
{
    papaya::HashMap::new()
}

/// `papaya::HashMap::get`, through a pinned reference: the value under a key, if there is one.
#[verifier::external_body]
fn count_map_get(map: &papaya::HashMap<(String, u64), u64>, key: &(String, u64)) -> (count: Option<u64>)
    ensures
        count == (if count_contents(*map).contains_key((key.0@, key.1)) {
            Some(count_contents(*map)[(key.0@, key.1)])
        } else {
            None::<u64>
        }),
{
    map.pin().get(key).copied()
}

/// `papaya::HashMap::insert`, through a pinned reference: puts a value under a
/// key, in place of the one that was there. The map is borrowed mutably, so no
/// other thread reaches it meanwhile.
#[verifier::external_body]
fn count_map_insert(map: &mut papaya::HashMap<(String, u64), u64>, key: (String, u64), count: u64)
    ensures
        count_contents(*final(map)) == count_contents(*old(map)).insert((key.0@, key.1), count),
{
    map.pin().insert(key, count);
}

/// The connections open at the moment, per listener and filter chain.
pub struct ConnectionCounts {
    map: papaya::HashMap<(String, u64), u64>,
}

impl View for ConnectionCounts {
    type V = CountsView;

    closed spec fn view(&self) -> CountsView {
        count_contents(self.map)
    }
}

impl ConnectionCounts {
    /// The connections open on a chain. A chain that was never seen has none.
    pub open spec fn active_of(&self, listener: Seq<char>, chain: u64) -> int {
        active_in(self@, (listener, chain))
    }

    pub fn new() -> (counts: ConnectionCounts)
        ensures
            counts@ == no_counts(),
    {
        ConnectionCounts { map: count_map_new() }
    }
}

/// Why a connection was turned away.
#[derive(Debug, Clone, Copy, PartialEq, Eq)]
pub struct ConnectionLimitExceeded {
    /// How long to hold the connection before it is closed, in nanoseconds.
    pub delay: Option<u64>,
}

impl ConnectionLimitExceeded {
    /// The text shown to an operator.
    pub fn message(&self) -> (text: String)
        ensures
            text@ == "connection limit exceeded"@,
    {
        "connection limit exceeded".to_owned()
    }
}

/// A connection that counts against a limit until it is released.
#[derive(Debug)]
pub struct ConnectionGuard {
    key: (String, u64),
}

impl ConnectionGuard {
    pub closed spec fn listener(&self) -> Seq<char> {
        self.key.0@
    }

    pub closed spec fn chain(&self) -> u64 {
        self.key.1
    }

    /// Takes the connection off its count.
    pub fn release(self, counts: &mut ConnectionCounts)
        requires
            old(counts).active_of(self.listener(), self.chain()) > 0,
        ensures
            final(counts)@ == counts_released(old(counts)@, (self.listener(), self.chain())),
    {
        if let Some(active) = count_map_get(&counts.map, &self.key) {
            count_map_insert(&mut counts.map, self.key, active - 1);
        }
    }
}

/// The limit of one filter chain.
#[derive(Debug, Clone)]
pub struct NetworkConnectionLimit {
    listener: String,
    chain: u64,
    max_connections: u64,
    delay: Option<u64>,
}

impl NetworkConnectionLimit {
    pub closed spec fn listener(&self) -> Seq<char> {
        self.listener@
    }

    pub closed spec fn chain(&self) -> u64 {
        self.chain
    }

    pub closed spec fn max_connections(&self) -> u64 {
        self.max_connections
    }

    pub closed spec fn delay(&self) -> Option<u64> {
        self.delay
    }

    /// The limit of a chain. Its count starts at zero unless the chain is already counted.
    pub fn new(
        listener: String,
        chain: u64,
        max_connections: u64,
        delay: Option<u64>,
        counts: &mut ConnectionCounts,
    ) -> (limit: NetworkConnectionLimit)
        ensures
            limit.listener() == listener@,
            limit.chain() == chain,
            limit.max_connections() == max_connections,
            limit.delay() == delay,
            final(counts)@ == counts_seen(old(counts)@, (listener@, chain)),
    {
        let key: (String, u64) = (listener.clone(), chain);
        if count_map_get(&counts.map, &key).is_none() {
            count_map_insert(&mut counts.map, key, 0);
        }
        NetworkConnectionLimit { listener, chain, max_connections, delay }
    }

    /// The connections open on this chain.
    pub fn active(&self, counts: &ConnectionCounts) -> (active: u64)
        ensures
            active == counts.active_of(self.listener(), self.chain()),
    {
        let key: (String, u64) = (self.listener.clone(), self.chain);
        match count_map_get(&counts.map, &key) {
            Some(active) => active,
            None => 0,
        }
    }

    /// Counts a new connection, or turns it away when the limit is reached.
    pub fn check(&self, counts: &mut ConnectionCounts) -> (res: Result<ConnectionGuard, ConnectionLimitExceeded>)
        ensures
            old(counts).active_of(self.listener(), self.chain()) >= self.max_connections() <==> res is Err,
            res matches Err(e) ==> e.delay == self.delay() && final(counts)@ == old(counts)@,
            res matches Ok(guard) ==> {
                &&& guard.listener() == self.listener()
                &&& guard.chain() == self.chain()
                &&& final(counts)@ == counts_accepted(old(counts)@, (self.listener(), self.chain()))
            },
    {
        let active: u64 = self.active(counts);
        if active >= self.max_connections {
            return Err(ConnectionLimitExceeded { delay: self.delay });
        }
        let key: (String, u64) = (self.listener.clone(), self.chain);
        count_map_insert(&mut counts.map, key, active + 1);
        let key: (String, u64) = (self.listener.clone(), self.chain);
        Ok(ConnectionGuard { key })
    }
}

/// Accepting a connection and releasing it gives back the count, and the
/// counts of all other chains stay as they were.
pub proof fn law_release_undoes_accept(counts: CountsView, key: ChainKey, max_connections: u64)
    requires
        counts.contains_key(key),
        counts[key] < max_connections,
    ensures
        counts_released(counts_accepted(counts, key), key) == counts,
{
    assert(counts_released(counts_accepted(counts, key), key) =~= counts);
}

/// A count that respects its limit still does after a connection was accepted.
pub proof fn law_accept_keeps_limit(counts: CountsView, key: ChainKey, max_connections: u64)
    requires
        active_in(counts, key) < max_connections,
    ensures
        active_in(counts_accepted(counts, key), key) <= max_connections,
{
}

/// A call that concerns a chain: the making of a limit, a check against one,
/// and the release of a guard.
pub ghost enum LimitCall {
    New(ChainKey),
    Check(ChainKey, u64),
    Release(ChainKey),
}

/// The counts, and the chains of the guards that were given out and not yet released.
pub ghost struct LimitState {
    pub counts: CountsView,
    pub guards: Multiset<ChainKey>,
}

/// The counts and guards that a call leaves behind. A check gives out a guard
/// exactly when the count is below the limit.
pub open spec fn after_limit_call(state: LimitState, call: LimitCall) -> LimitState {
    match call {
        LimitCall::New(key) => LimitState { counts: counts_seen(state.counts, key), ..state },
        LimitCall::Check(key, max_connections) => if active_in(state.counts, key) >= max_connections {
            state
        } else {
            LimitState { counts: counts_accepted(state.counts, key), guards: state.guards.insert(key) }
        },
        LimitCall::Release(key) => LimitState {
            counts: counts_released(state.counts, key),
            guards: state.guards.remove(key),
        },
    }
}

/// The counts and guards after some calls, on any number of limits.
pub open spec fn limit_run(calls: Seq<LimitCall>) -> LimitState
    decreases calls.len(),
{
    if calls.len() == 0 {
        LimitState { counts: no_counts(), guards: Multiset::empty() }
    } else {
        after_limit_call(limit_run(calls.drop_last()), calls.last())
    }
}

/// Whether each guard that is released was given out and not released before.
pub open spec fn is_limit_run(calls: Seq<LimitCall>) -> bool
    decreases calls.len(),
{
    calls.len() > 0 ==> {
        &&& is_limit_run(calls.drop_last())
        &&& calls.last() matches LimitCall::Release(key) ==> limit_run(calls.drop_last()).guards.contains(key)
    }
}

/// Over any sequence of calls, in whatever order the guards are released, the
/// connections open on a chain are as many as its guards that are given out
/// and not yet released. With no guard left, none is open.
pub proof fn law_active_is_guards_outstanding(calls: Seq<LimitCall>, key: ChainKey)
    requires
        is_limit_run(calls),
    ensures
        active_in(limit_run(calls).counts, key) == limit_run(calls).guards.count(key),
        limit_run(calls).guards =~= Multiset::empty() ==> active_in(limit_run(calls).counts, key) == 0,
    decreases calls.len(),
{
    if calls.len() > 0 {
        law_active_is_guards_outstanding(calls.drop_last(), key);
    }
}

/// Over any sequence of calls, a guard that is released is still counted, so
/// that its release is in order.
pub proof fn law_outstanding_guard_can_be_released(calls: Seq<LimitCall>, key: ChainKey)
    requires
        is_limit_run(calls),
        limit_run(calls).guards.contains(key),
    ensures
        active_in(limit_run(calls).counts, key) > 0,
{
    law_active_is_guards_outstanding(calls, key);
}

/// Where a chain is always held to one limit, it never has more connections
/// than that, and a connection is let in exactly where it has fewer.
pub proof fn law_never_more_than_the_limit(calls: Seq<LimitCall>, key: ChainKey, max_connections: u64)
    requires
        is_limit_run(calls),
        forall|i: int|
            0 <= i < calls.len() ==> ((#[trigger] calls[i]) matches LimitCall::Check(k, max) ==> (k == key ==> max
                == max_connections)),
    ensures
        limit_run(calls).guards.count(key) <= max_connections,
        limit_run(calls.push(LimitCall::Check(key, max_connections))).guards.count(key) == limit_run(
            calls,
        ).guards.count(key) + (if limit_run(calls).guards.count(key) < max_connections {
            1nat
        } else {
            0nat
        }),
    decreases calls.len(),
{
    assert(calls.push(LimitCall::Check(key, max_connections)).drop_last() =~= calls);
    law_active_is_guards_outstanding(calls, key);
    if calls.len() > 0 {
        let earlier = calls.drop_last();
        assert forall|i: int| 0 <= i < earlier.len() implies ((#[trigger] earlier[i]) matches LimitCall::Check(k, max)
            ==> (k == key ==> max == max_connections)) by {
            assert(earlier[i] == calls[i]);
        }
        law_never_more_than_the_limit(earlier, key, max_connections);
        law_active_is_guards_outstanding(earlier, key);
        assert(calls[calls.len() - 1] == calls.last());
    }
}

/// A connection that ends gives its place back to its own chain, and no other
/// chain gains or loses one.
pub proof fn law_release_gives_one_place_back(calls: Seq<LimitCall>, key: ChainKey, other: ChainKey)
    requires
        is_limit_run(calls),
        limit_run(calls).guards.contains(key),
        other != key,
    ensures
        active_in(limit_run(calls.push(LimitCall::Release(key))).counts, key) == active_in(limit_run(calls).counts, key)
            - 1,
        active_in(limit_run(calls.push(LimitCall::Release(key))).counts, other) == active_in(
            limit_run(calls).counts,
            other,
        ),
{
    assert(calls.push(LimitCall::Release(key)).drop_last() =~= calls);
    law_active_is_guards_outstanding(calls, key);
}

} // verus!
