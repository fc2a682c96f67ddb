//! The choice of a filter chain for a connection.
//!
//! Each chain states criteria. They are looked at in a fixed order; after each
//! one only the chains that match it best stay in the running.

use crate::address::{IpAddr, IpNet, SocketAddr};
use crate::metadata::DownstreamConnectionMetadata;
use crate::text::{has_prefix, has_suffix, is_prefix, is_suffix, str_eq};
use vstd::prelude::*;

verus! {

/// How well a criterion fits, from worst to best.
#[derive(Debug, Clone, Copy, PartialEq, Eq, Structural)]
pub enum MatchResult {
    /// The chain has a rule and the connection does not meet it.
    FailedMatch,
    /// The chain has no rule.
    NoRule,
    /// The connection meets a rule; the number tells how specific the rule is.
    Matched(u64),
}

impl MatchResult {
    /// The place in the order of results. A failure has 0.
    pub open spec fn rank(self) -> int {
        match self {
            MatchResult::FailedMatch => 0,
            MatchResult::NoRule => 1,
            MatchResult::Matched(specificity) => 2 + specificity,
        }
    }

    /// Whether this result is better than another.
    pub fn better_than(self, other: MatchResult) -> (yes: bool)
        ensures
            yes == (self.rank() > other.rank()),
    {
        match (self, other) {
            (MatchResult::FailedMatch, _) => false,
            (_, MatchResult::FailedMatch) => true,
            (MatchResult::NoRule, _) => false,
            (_, MatchResult::NoRule) => true,
            (MatchResult::Matched(a), MatchResult::Matched(b)) => a > b,
        }
    }
}

/// A server name a chain is for: a name, or every name below one.
#[derive(Debug, Clone)]
pub struct ServerNameMatch {
    pub name: String,
    pub subdomains: bool,
}

impl ServerNameMatch {
    /// Reads a name. One that starts with `*.` stands for every name below the rest.
    pub fn from_text(text: &str) -> (m: ServerNameMatch)
        ensures
            is_prefix("*."@, text@) ==> m.subdomains && m.name@ == text@.subrange(2, text@.len() as int),
            !is_prefix("*."@, text@) ==> !m.subdomains && m.name@ == text@,
    {
        proof {
            reveal_strlit("*.");
        }
        if has_prefix(text, "*.") {
            let n: usize = text.unicode_len();
            ServerNameMatch { name: text.substring_char(2, n).to_owned(), subdomains: true }
        } else {
            ServerNameMatch { name: text.to_owned(), subdomains: false }
        }
    }

    /// How well a server name fits. A name stated in full fits best; among
    /// the others the longer name is the more specific.
    pub open spec fn spec_result(&self, server_name: Seq<char>) -> MatchResult {
        if self.subdomains {
            if is_suffix("."@ + self.name@, server_name) {
                MatchResult::Matched(self.name@.len() as u64)
            } else {
                MatchResult::FailedMatch
            }
        } else if self.name@ == server_name {
            MatchResult::Matched(u64::MAX)
        } else {
            MatchResult::FailedMatch
        }
    }

    pub fn result(&self, server_name: &str) -> (r: MatchResult)
        ensures
            r == self.spec_result(server_name@),
    {
        if self.subdomains {
            let mut below = ".".to_owned();
            below.append(self.name.as_str());
            if has_suffix(server_name, below.as_str()) {
                MatchResult::Matched(self.name.as_str().unicode_len() as u64)
            } else {
                MatchResult::FailedMatch
            }
        } else if str_eq(self.name.as_str(), server_name) {
            MatchResult::Matched(u64::MAX)
        } else {
            MatchResult::FailedMatch
        }
    }
}

/// The criteria of a chain. An empty list states no rule.
#[derive(Debug, Clone)]
pub struct FilterChainMatch {
    pub destination_port: Option<u16>,
    pub destination_prefix_ranges: Vec<IpNet>,
    pub server_names: Vec<ServerNameMatch>,
    pub source_prefix_ranges: Vec<IpNet>,
    pub source_ports: Vec<u16>,
}

impl Default for FilterChainMatch {
    /// A chain without rules.
    fn default() -> (m: FilterChainMatch)
        ensures
            m.destination_port is None,
            m.destination_prefix_ranges@.len() == 0,
            m.server_names@.len() == 0,
            m.source_prefix_ranges@.len() == 0,
            m.source_ports@.len() == 0,
    {
        FilterChainMatch {
            destination_port: None,
            destination_prefix_ranges: Vec::new(),
            server_names: Vec::new(),
            source_prefix_ranges: Vec::new(),
            source_ports: Vec::new(),
        }
    }
}

/// The better of two results; the first where they are equal.
pub open spec fn better(a: MatchResult, b: MatchResult) -> MatchResult {
    if b.rank() > a.rank() {
        b
    } else {
        a
    }
}

/// The best result among address ranges: the length of the longest prefix that holds the address.
pub open spec fn best_range(ranges: Seq<IpNet>, ip: IpAddr) -> MatchResult
    decreases ranges.len(),
{
    if ranges.len() == 0 {
        MatchResult::FailedMatch
    } else {
        let last = ranges.last();
        better(
            best_range(ranges.drop_last(), ip),
            if last.spec_contains(ip) {
                MatchResult::Matched(last.prefix_len as u64)
            } else {
                MatchResult::FailedMatch
            },
        )
    }
}

/// The best result among server names.
pub open spec fn best_name(names: Seq<ServerNameMatch>, server_name: Seq<char>) -> MatchResult
    decreases names.len(),
{
    if names.len() == 0 {
        MatchResult::FailedMatch
    } else {
        better(best_name(names.drop_last(), server_name), names.last().spec_result(server_name))
    }
}

/// Whether some address range holds an address.
pub open spec fn in_some_range(ranges: Seq<IpNet>, ip: IpAddr) -> bool {
    exists|k: int| 0 <= k < ranges.len() && (#[trigger] ranges[k]).spec_contains(ip)
}

/// Whether some range holds an address and is at least so long.
pub open spec fn in_range_of(ranges: Seq<IpNet>, ip: IpAddr, prefix_len: u8) -> bool {
    exists|k: int|
        0 <= k < ranges.len() && (#[trigger] ranges[k]).spec_contains(ip) && ranges[k].prefix_len >= prefix_len
}

/// Whether a server name is the one stated, or stands one or more labels below it.
pub open spec fn is_named(stated: ServerNameMatch, server_name: Seq<char>) -> bool {
    let at = server_name.len() - stated.name@.len();
    if stated.subdomains {
        &&& at >= 1
        &&& server_name[at - 1] == '.'
        &&& server_name.skip(at) == stated.name@
    } else {
        server_name == stated.name@
    }
}

/// Whether one of some stated names fits a server name.
pub open spec fn is_named_by_some(names: Seq<ServerNameMatch>, server_name: Seq<char>) -> bool {
    exists|k: int| 0 <= k < names.len() && is_named(#[trigger] names[k], server_name)
}

/// Whether one of some stated names fits a server name, and no worse than
/// another stated name would: in full where that one is stated in full, else
/// in full or by a name that is at least as long.
pub open spec fn is_named_as_well_as(
    names: Seq<ServerNameMatch>,
    server_name: Seq<char>,
    other: ServerNameMatch,
) -> bool {
    exists|k: int|
        {
            &&& 0 <= k < names.len()
            &&& is_named(#[trigger] names[k], server_name)
            &&& !names[k].subdomains || other.subdomains && names[k].name@.len() >= other.name@.len()
        }
}

/// Whether a connection meets every rule that a chain states.
pub open spec fn meets_rules(
    m: FilterChainMatch,
    destination: SocketAddr,
    source: SocketAddr,
    server_name: Seq<char>,
) -> bool {
    &&& m.destination_port matches Some(port) ==> destination.port == port
    &&& m.destination_prefix_ranges@.len() > 0 ==> in_some_range(m.destination_prefix_ranges@, destination.ip)
    &&& m.server_names@.len() > 0 ==> is_named_by_some(m.server_names@, server_name)
    &&& m.source_prefix_ranges@.len() > 0 ==> in_some_range(m.source_prefix_ranges@, source.ip)
    &&& m.source_ports@.len() > 0 ==> m.source_ports@.contains(source.port)
}

/// What the criteria are held against.
pub ghost struct Criteria {
    pub destination: SocketAddr,
    pub source: SocketAddr,
    pub server_name: Seq<char>,
}

/// The number of criteria.
pub open spec fn stages() -> nat {
    5
}

/// Whether a result tells how well an address fits some ranges: the longest of
/// the ranges that hold it counts.
pub open spec fn is_range_result(r: MatchResult, ranges: Seq<IpNet>, ip: IpAddr) -> bool {
    match r {
        MatchResult::NoRule => ranges.len() == 0,
        MatchResult::FailedMatch => ranges.len() > 0 && !in_some_range(ranges, ip),
        MatchResult::Matched(n) => {
            &&& exists|k: int|
                0 <= k < ranges.len() && (#[trigger] ranges[k]).spec_contains(ip) && ranges[k].prefix_len == n
            &&& forall|k: int|
                0 <= k < ranges.len() && (#[trigger] ranges[k]).spec_contains(ip) ==> ranges[k].prefix_len <= n
        },
    }
}

/// The best result among ranges comes from the longest range that holds the address.
proof fn lemma_best_range(ranges: Seq<IpNet>, ip: IpAddr)
    ensures
        ranges.len() > 0 ==> is_range_result(best_range(ranges, ip), ranges, ip),
        !(best_range(ranges, ip) is NoRule),
        best_range(ranges, ip) is Matched <==> in_some_range(ranges, ip),
    decreases ranges.len(),
{
    if ranges.len() > 0 {
        let front = ranges.drop_last();
        let last = ranges.len() - 1;
        lemma_best_range(front, ip);
        if in_some_range(front, ip) {
            let k = choose|k: int| 0 <= k < front.len() && (#[trigger] front[k]).spec_contains(ip);
            assert(ranges[k].spec_contains(ip));
        }
        if best_range(front, ip) is Matched {
            let n = best_range(front, ip)->Matched_0;
            let k = choose|k: int|
                0 <= k < front.len() && (#[trigger] front[k]).spec_contains(ip) && front[k].prefix_len == n;
            assert(ranges[k].spec_contains(ip) && ranges[k].prefix_len == n);
        }
        assert forall|k: int| 0 <= k < ranges.len() && (#[trigger] ranges[k]).spec_contains(ip) implies k == last
            || front[k].spec_contains(ip) by {
            if k < last {
                assert(front[k] == ranges[k]);
            }
        }
        assert(ranges.last() == ranges[last]);
    }
}

/// A name fits in the sense of the results exactly when it is the stated one or stands below it.
proof fn lemma_name_result(stated: ServerNameMatch, server_name: Seq<char>)
    ensures
        stated.spec_result(server_name) is Matched <==> is_named(stated, server_name),
        !(stated.spec_result(server_name) is NoRule),
{
    reveal_strlit(".");
    if stated.subdomains {
        let below = "."@ + stated.name@;
        let at = server_name.len() - stated.name@.len();
        if is_suffix(below, server_name) {
            let tail = server_name.subrange(server_name.len() - below.len(), server_name.len() as int);
            assert(tail[0] == server_name[at - 1]);
            assert(server_name.skip(at) =~= tail.skip(1));
            assert(below.skip(1) =~= stated.name@);
        }
        if is_named(stated, server_name) {
            assert(server_name.subrange(server_name.len() - below.len(), server_name.len() as int) =~= below) by {
                assert forall|i: int| 0 <= i < below.len() implies server_name[at - 1 + i] == below[i] by {
                    if i > 0 {
                        assert(server_name.skip(at)[i - 1] == stated.name@[i - 1]);
                    }
                }
            }
        }
    }
}

/// The best result among names comes from a name that fits, and no name that
/// fits is better.
proof fn lemma_best_name(names: Seq<ServerNameMatch>, server_name: Seq<char>)
    ensures
        !(best_name(names, server_name) is NoRule),
        best_name(names, server_name) is Matched <==> is_named_by_some(names, server_name),
        best_name(names, server_name) is Matched ==> exists|k: int|
            0 <= k < names.len() && (#[trigger] names[k]).spec_result(server_name) == best_name(names, server_name),
        forall|k: int|
            0 <= k < names.len() ==> (#[trigger] names[k]).spec_result(server_name).rank() <= best_name(
                names,
                server_name,
            ).rank(),
    decreases names.len(),
{
    if names.len() > 0 {
        let front = names.drop_last();
        let last = names.len() - 1;
        lemma_best_name(front, server_name);
        lemma_name_result(names[last], server_name);
        assert(names.last() == names[last]);
        assert forall|k: int| 0 <= k < names.len() implies (#[trigger] names[k]).spec_result(server_name).rank()
            <= best_name(names, server_name).rank() by {
            if k < last {
                assert(front[k] == names[k]);
            }
        }
        if best_name(front, server_name) is Matched {
            let k = choose|k: int|
                0 <= k < front.len() && (#[trigger] front[k]).spec_result(server_name) == best_name(front, server_name);
            assert(names[k].spec_result(server_name) == best_name(front, server_name));
        }
        if is_named_by_some(names, server_name) {
            let k = choose|k: int| 0 <= k < names.len() && is_named(#[trigger] names[k], server_name);
            lemma_name_result(names[k], server_name);
        }
        if best_name(names, server_name) is Matched {
            let k = choose|k: int|
                0 <= k < names.len() && (#[trigger] names[k]).spec_result(server_name) == best_name(names, server_name);
            lemma_name_result(names[k], server_name);
        }
    }
}

fn range_result(ranges: &Vec<IpNet>, ip: IpAddr) -> (r: MatchResult)
    ensures
        r == (if ranges@.len() == 0 {
            MatchResult::NoRule
        } else {
            best_range(ranges@, ip)
        }),
{
    if ranges.len() == 0 {
        return MatchResult::NoRule;
    }
    let mut best = MatchResult::FailedMatch;
    let mut i: usize = 0;
    while i < ranges.len()
        invariant
            i <= ranges@.len(),
            best == best_range(ranges@.take(i as int), ip),
        decreases ranges@.len() - i,
    {
        assert(ranges@.take(i + 1).drop_last() =~= ranges@.take(i as int));
        let result = if ranges[i].contains(ip) {
            MatchResult::Matched(ranges[i].prefix_len as u64)
        } else {
            MatchResult::FailedMatch
        };
        if result.better_than(best) {
            best = result;
        }
        i = i + 1;
    }
    assert(ranges@.take(ranges@.len() as int) =~= ranges@);
    best
}

impl FilterChainMatch {
    /// The result of the criterion at place `stage` of the order.
    pub open spec fn spec_result(&self, stage: nat, c: Criteria) -> MatchResult {
        if stage == 0 {
            match self.destination_port {
                None => MatchResult::NoRule,
                Some(port) => if port == c.destination.port {
                    MatchResult::Matched(0)
                } else {
                    MatchResult::FailedMatch
                },
            }
        } else if stage == 1 {
            if self.destination_prefix_ranges@.len() == 0 {
                MatchResult::NoRule
            } else {
                best_range(self.destination_prefix_ranges@, c.destination.ip)
            }
        } else if stage == 2 {
            if self.server_names@.len() == 0 {
                MatchResult::NoRule
            } else {
                best_name(self.server_names@, c.server_name)
            }
        } else if stage == 3 {
            if self.source_prefix_ranges@.len() == 0 {
                MatchResult::NoRule
            } else {
                best_range(self.source_prefix_ranges@, c.source.ip)
            }
        } else {
            if self.source_ports@.len() == 0 {
                MatchResult::NoRule
            } else if self.source_ports@.contains(c.source.port) {
                MatchResult::Matched(0)
            } else {
                MatchResult::FailedMatch
            }
        }
    }

    pub fn matches_destination_port(&self, port: u16) -> (r: MatchResult)
        ensures
            forall|c: Criteria| c.destination.port == port ==> r == #[trigger] self.spec_result(0, c),
            r is NoRule <==> self.destination_port is None,
            r is Matched <==> self.destination_port == Some(port),
    {
        match self.destination_port {
            None => MatchResult::NoRule,
            Some(p) => {
                if p == port {
                    MatchResult::Matched(0)
                } else {
                    MatchResult::FailedMatch
                }
            },
        }
    }

    pub fn matches_destination_ip(&self, ip: IpAddr) -> (r: MatchResult)
        ensures
            forall|c: Criteria| c.destination.ip == ip ==> r == #[trigger] self.spec_result(1, c),
            is_range_result(r, self.destination_prefix_ranges@, ip),
    {
        proof {
            lemma_best_range(self.destination_prefix_ranges@, ip);
        }
        range_result(&self.destination_prefix_ranges, ip)
    }

    pub fn matches_server_name(&self, server_name: &str) -> (r: MatchResult)
        ensures
            forall|c: Criteria| c.server_name == server_name@ ==> r == #[trigger] self.spec_result(2, c),
            r is NoRule <==> self.server_names@.len() == 0,
            r is Matched <==> is_named_by_some(self.server_names@, server_name@),
    {
        proof {
            lemma_best_name(self.server_names@, server_name@);
        }
        if self.server_names.len() == 0 {
            return MatchResult::NoRule;
        }
        let mut best = MatchResult::FailedMatch;
        let mut i: usize = 0;
        while i < self.server_names.len()
            invariant
                i <= self.server_names@.len(),
                best == best_name(self.server_names@.take(i as int), server_name@),
            decreases self.server_names@.len() - i,
        {
            assert(self.server_names@.take(i + 1).drop_last() =~= self.server_names@.take(i as int));
            let result = self.server_names[i].result(server_name);
            if result.better_than(best) {
                best = result;
            }
            i = i + 1;
        }
        assert(self.server_names@.take(self.server_names@.len() as int) =~= self.server_names@);
        best
    }

    pub fn matches_source_ip(&self, ip: IpAddr) -> (r: MatchResult)
        ensures
            forall|c: Criteria| c.source.ip == ip ==> r == #[trigger] self.spec_result(3, c),
            is_range_result(r, self.source_prefix_ranges@, ip),
    {
        proof {
            lemma_best_range(self.source_prefix_ranges@, ip);
        }
        range_result(&self.source_prefix_ranges, ip)
    }

    pub fn matches_source_port(&self, port: u16) -> (r: MatchResult)
        ensures
            forall|c: Criteria| c.source.port == port ==> r == #[trigger] self.spec_result(4, c),
            r is NoRule <==> self.source_ports@.len() == 0,
            r is Matched <==> self.source_ports@.contains(port),
    {
        if self.source_ports.len() == 0 {
            return MatchResult::NoRule;
        }
        let mut i: usize = 0;
        while i < self.source_ports.len()
            invariant
                i <= self.source_ports@.len(),
                forall|j: int| 0 <= j < i ==> self.source_ports@[j] != port,
            decreases self.source_ports@.len() - i,
        {
            if self.source_ports[i] == port {
                assert(self.source_ports@.contains(port));
                return MatchResult::Matched(0);
            }
            i = i + 1;
        }
        MatchResult::FailedMatch
    }
}

/// Whether chain `i`, one of those in the running, fits the criterion at place
/// `stage` and no other one in the running fits it better.
pub open spec fn fits_best<T>(
    chains: Seq<(FilterChainMatch, T)>,
    c: Criteria,
    stage: nat,
    running: Set<int>,
    i: int,
) -> bool {
    &&& running.contains(i)
    &&& chains[i].0.spec_result(stage, c).rank() > 0
    &&& forall|j: int| #[trigger]
        running.contains(j) ==> chains[j].0.spec_result(stage, c).rank() <= chains[i].0.spec_result(stage, c).rank()
}

/// The chains still in the running after the first `stage` criteria.
pub open spec fn running<T>(chains: Seq<(FilterChainMatch, T)>, c: Criteria, stage: nat) -> Set<int>
    decreases stage,
{
    if stage == 0 {
        Set::new(|i: int| 0 <= i < chains.len())
    } else {
        let before = running(chains, c, (stage - 1) as nat);
        Set::new(|i: int| fits_best(chains, c, (stage - 1) as nat, before, i))
    }
}

/// Whether chain `i` is still in the running after the first `stage` criteria.
pub open spec fn survives<T>(chains: Seq<(FilterChainMatch, T)>, c: Criteria, stage: nat, i: int) -> bool {
    running(chains, c, stage).contains(i)
}

/// More than one chain was left in the running.
#[derive(Debug, Clone, Copy, PartialEq, Eq, Structural)]
pub struct AmbiguousFilterChains;

impl AmbiguousFilterChains {
    /// The text shown to an operator.
    pub fn message(&self) -> (text: String)
        ensures
            text@ == "multiple filterchains matched a single connection. This is a bug in orion!"@,
    {
        "multiple filterchains matched a single connection. This is a bug in orion!".to_owned()
    }
}

/// The result of the criterion at place `stage`.
fn stage_result(m: &FilterChainMatch, stage: usize, destination: SocketAddr, source: SocketAddr, server_name: &str)
    -> (r: MatchResult)
    requires
        stage < 5,
    ensures
        r == m.spec_result(stage as nat, Criteria { destination, source, server_name: server_name@ }),
{
    let ghost c = Criteria { destination, source, server_name: server_name@ };
    if stage == 0 {
        m.matches_destination_port(destination.port)
    } else if stage == 1 {
        m.matches_destination_ip(destination.ip)
    } else if stage == 2 {
        m.matches_server_name(server_name)
    } else if stage == 3 {
        m.matches_source_ip(source.ip)
    } else {
        m.matches_source_port(source.port)
    }
}

/// Narrows the chains in the running by the criterion at place `stage`.
fn match_subitem<T>(
    chains: &Vec<(FilterChainMatch, T)>,
    stage: usize,
    destination: SocketAddr,
    source: SocketAddr,
    server_name: &str,
    possible: &mut Vec<bool>,
)
    requires
        stage < 5,
        old(possible)@.len() == chains@.len(),
        forall|i: int|
            0 <= i < chains@.len() ==> #[trigger] old(possible)@[i] == survives(
                chains@,
                (Criteria { destination, source, server_name: server_name@ }),
                stage as nat,
                i,
            ),
    ensures
        final(possible)@.len() == chains@.len(),
        forall|i: int|
            0 <= i < chains@.len() ==> #[trigger] final(possible)@[i] == survives(
                chains@,
                (Criteria { destination, source, server_name: server_name@ }),
                (stage + 1) as nat,
                i,
            ),
{
    let ghost c = Criteria { destination, source, server_name: server_name@ };
    let ghost before = possible@;
    let mut results: Vec<MatchResult> = Vec::new();
    let mut best = MatchResult::FailedMatch;
    let mut i: usize = 0;
    while i < chains.len()
        invariant
            stage < 5,
            c == (Criteria { destination, source, server_name: server_name@ }),
            i <= chains@.len(),
            possible@ == before,
            before.len() == chains@.len(),
            results@.len() == i,
            best.rank() >= 0,
            forall|j: int| 0 <= j < i && before[j] ==> results@[j] == #[trigger] chains@[j].0.spec_result(stage as nat, c),
            forall|j: int|
                0 <= j < i && before[j] ==> #[trigger] chains@[j].0.spec_result(stage as nat, c).rank() <= best.rank(),
            best == MatchResult::FailedMatch || exists|j: int|
                0 <= j < i && before[j] && #[trigger] chains@[j].0.spec_result(stage as nat, c) == best,
        decreases chains@.len() - i,
    {
        if possible[i] {
            let result = stage_result(&chains[i].0, stage, destination, source, server_name);
            results.push(result);
            if result.better_than(best) {
                best = result;
            }
        } else {
            results.push(MatchResult::NoRule);
        }
        i = i + 1;
    }
    assert(forall|j: int| survives(chains@, c, stage as nat, j) ==> 0 <= j < chains@.len()) by {
        lemma_survivor_in_range(chains@, c, stage as nat);
    }
    let mut k: usize = 0;
    while k < chains.len()
        invariant
            stage < 5,
            k <= chains@.len(),
            before.len() == chains@.len(),
            possible@.len() == chains@.len(),
            results@.len() == chains@.len(),
            forall|j: int| 0 <= j < chains@.len() ==> #[trigger] before[j] == survives(chains@, c, stage as nat, j),
            forall|j: int| survives(chains@, c, stage as nat, j) ==> 0 <= j < chains@.len(),
            forall|j: int|
                0 <= j < chains@.len() && before[j] ==> results@[j] == #[trigger] chains@[j].0.spec_result(
                    stage as nat,
                    c,
                ),
            forall|j: int|
                0 <= j < chains@.len() && before[j] ==> #[trigger] chains@[j].0.spec_result(stage as nat, c).rank()
                    <= best.rank(),
            best == MatchResult::FailedMatch || exists|j: int|
                0 <= j < chains@.len() && before[j] && #[trigger] chains@[j].0.spec_result(stage as nat, c) == best,
            forall|j: int| k <= j < chains@.len() ==> possible@[j] == before[j],
            forall|j: int|
                0 <= j < k ==> #[trigger] possible@[j] == survives(chains@, c, (stage + 1) as nat, j),
        decreases chains@.len() - k,
    {
        let keep: bool = possible[k] && results[k] == best && results[k] != MatchResult::FailedMatch;
        proof {
            assert(possible@[k as int] == before[k as int]);
            let me = chains@[k as int].0.spec_result(stage as nat, c);
            lemma_survives_step(chains@, c, stage as nat, k as int);
            if keep {
                assert(survives(chains@, c, stage as nat, k as int));
                assert forall|j: int| #[trigger] running(chains@, c, stage as nat).contains(j) implies chains@[j].0.spec_result(
                    stage as nat,
                    c,
                ).rank() <= me.rank() by {
                    assert(survives(chains@, c, stage as nat, j));
                    assert(before[j]);
                }
            } else if survives(chains@, c, (stage + 1) as nat, k as int) {
                assert(survives(chains@, c, stage as nat, k as int));
                assert(me.rank() > 0);
                assert(me != best);
                if best != MatchResult::FailedMatch {
                    let j = choose|j: int|
                        0 <= j < chains@.len() && before[j] && #[trigger] chains@[j].0.spec_result(stage as nat, c) == best;
                    assert(running(chains@, c, stage as nat).contains(j));
                    assert(best.rank() <= me.rank());
                    lemma_rank_injective(best, me);
                }
                assert(false);
            }
        }
        possible.set(k, keep);
        k = k + 1;
    }
}

proof fn lemma_rank_injective(a: MatchResult, b: MatchResult)
    ensures
        a.rank() == b.rank() ==> a == b,
{
}

/// One step of the narrowing.
proof fn lemma_survives_step<T>(chains: Seq<(FilterChainMatch, T)>, c: Criteria, stage: nat, i: int)
    ensures
        survives(chains, c, (stage + 1) as nat, i) <==> fits_best(chains, c, stage, running(chains, c, stage), i),
{
}

proof fn lemma_survivor_in_range<T>(chains: Seq<(FilterChainMatch, T)>, c: Criteria, stage: nat)
    ensures
        forall|j: int| survives(chains, c, stage, j) ==> 0 <= j < chains.len(),
    decreases stage,
{
    if stage > 0 {
        lemma_survivor_in_range(chains, c, (stage - 1) as nat);
        assert forall|j: int| survives(chains, c, stage, j) implies 0 <= j < chains.len() by {
            lemma_survives_step(chains, c, (stage - 1) as nat, j);
            assert(survives(chains, c, (stage - 1) as nat, j));
        }
    }
}

/// What the chains of a listener are held against for a connection. A
/// connection without a server name counts as one with an empty name.
pub open spec fn criteria_of(connection: &DownstreamConnectionMetadata, server_name: Option<&str>) -> Criteria {
    Criteria {
        destination: connection.spec_local_address(),
        source: connection.spec_peer_address(),
        server_name: match server_name {
            Some(name) => name@,
            None => Seq::<char>::empty(),
        },
    }
}

/// Whether a choice among chains is the right one: the only chain left in the
/// running, none where none is left, and an error where several are.
pub open spec fn is_choice<T>(
    chains: Seq<(FilterChainMatch, T)>,
    c: Criteria,
    choice: Result<Option<usize>, AmbiguousFilterChains>,
) -> bool {
    match choice {
        Ok(None) => forall|i: int| !#[trigger] survives(chains, c, stages(), i),
        Ok(Some(at)) => {
            &&& at < chains.len()
            &&& survives(chains, c, stages(), at as int)
            &&& forall|j: int| #[trigger] survives(chains, c, stages(), j) ==> j == at
        },
        Err(_) => exists|i: int, j: int|
            {
                &&& i != j
                &&& #[trigger] survives(chains, c, stages(), i)
                &&& #[trigger] survives(chains, c, stages(), j)
            },
    }
}

/// Whether a connection meets every rule of a chain: its own addresses, or
/// those that were stated in a proxy protocol header, and the server name that
/// the client asked for.
pub open spec fn serves(
    m: FilterChainMatch,
    connection: DownstreamConnectionMetadata,
    server_name: Option<&str>,
) -> bool {
    let name = match server_name {
        Some(name) => name@,
        None => Seq::<char>::empty(),
    };
    match connection {
        DownstreamConnectionMetadata::FromSocket { peer_address, local_address } => meets_rules(
            m,
            local_address,
            peer_address,
            name,
        ),
        DownstreamConnectionMetadata::FromProxyProtocol {
            original_peer_address,
            original_destination_address,
            ..
        } => meets_rules(m, original_destination_address, original_peer_address, name),
    }
}

/// Chooses the chain for a connection, by its place.
pub fn select_index<T>(
    filter_chains: &Vec<(FilterChainMatch, T)>,
    connection: &DownstreamConnectionMetadata,
    server_name: Option<&str>,
) -> (choice: Result<Option<usize>, AmbiguousFilterChains>)
    ensures
        is_choice(filter_chains@, criteria_of(connection, server_name), choice),
{
    let source: SocketAddr = connection.peer_address();
    let destination: SocketAddr = connection.local_address();
    let name: &str = match server_name {
        Some(name) => name,
        None => "",
    };
    let ghost c = criteria_of(connection, server_name);
    proof {
        reveal_strlit("");
        assert(""@ =~= Seq::<char>::empty());
    }
    let mut possible: Vec<bool> = Vec::new();
    let mut n: usize = 0;
    while n < filter_chains.len()
        invariant
            n <= filter_chains@.len(),
            possible@.len() == n,
            forall|i: int| 0 <= i < n ==> possible@[i],
        decreases filter_chains@.len() - n,
    {
        possible.push(true);
        n = n + 1;
    }
    let mut stage: usize = 0;
    while stage < 5
        invariant
            stage <= 5,
            c == (Criteria { destination, source, server_name: name@ }),
            possible@.len() == filter_chains@.len(),
            forall|i: int|
                0 <= i < filter_chains@.len() ==> #[trigger] possible@[i] == survives(filter_chains@, c, stage as nat, i),
        decreases 5 - stage,
    {
        match_subitem(filter_chains, stage, destination, source, name, &mut possible);
        stage = stage + 1;
    }
    proof {
        lemma_survivor_in_range(filter_chains@, c, stages());
    }
    let mut found: Option<usize> = None;
    let mut i: usize = 0;
    while i < filter_chains.len()
        invariant
            i <= filter_chains@.len(),
            c == criteria_of(connection, server_name),
            possible@.len() == filter_chains@.len(),
            forall|j: int|
                0 <= j < filter_chains@.len() ==> #[trigger] possible@[j] == survives(filter_chains@, c, stages(), j),
            found matches Some(f) ==> f < i && survives(filter_chains@, c, stages(), f as int) && forall|j: int|
                0 <= j < i && #[trigger] survives(filter_chains@, c, stages(), j) ==> j == f,
            found is None ==> forall|j: int| 0 <= j < i ==> !#[trigger] survives(filter_chains@, c, stages(), j),
        decreases filter_chains@.len() - i,
    {
        if possible[i] {
            assert(possible@[i as int] && survives(filter_chains@, c, stages(), i as int));
            if found.is_some() {
                return Err(AmbiguousFilterChains);
            }
            found = Some(i);
        } else {
            assert(!possible@[i as int] && !survives(filter_chains@, c, stages(), i as int));
        }
        i = i + 1;
    }
    Ok(found)
}

/// Chooses the chain for a connection: the one left in the running after all
/// criteria, if any is.
pub fn select_filterchain<'a, T>(
    filter_chains: &'a Vec<(FilterChainMatch, T)>,
    connection: &DownstreamConnectionMetadata,
    server_name: Option<&str>,
) -> (res: Result<Option<&'a T>, AmbiguousFilterChains>)
    ensures
        match res {
            Ok(None) => forall|i: int|
                !#[trigger] survives(filter_chains@, criteria_of(connection, server_name), stages(), i),
            Ok(Some(chosen)) => exists|i: int|
                {
                    &&& #[trigger] survives(filter_chains@, criteria_of(connection, server_name), stages(), i)
                    &&& serves(filter_chains@[i].0, *connection, server_name)
                    &&& *chosen == filter_chains@[i].1
                    &&& forall|j: int|
                        #[trigger] survives(filter_chains@, criteria_of(connection, server_name), stages(), j) ==> j == i
                },
            Err(_) => exists|i: int, j: int|
                {
                    &&& i != j
                    &&& #[trigger] survives(filter_chains@, criteria_of(connection, server_name), stages(), i)
                    &&& #[trigger] survives(filter_chains@, criteria_of(connection, server_name), stages(), j)
                },
        },
{
    match select_index(filter_chains, connection, server_name) {
        Ok(Some(at)) => {
            assert(survives(filter_chains@, criteria_of(connection, server_name), stages(), at as int));
            proof {
                law_chosen_chain_meets_every_rule(filter_chains@, connection, server_name, at);
            }
            Ok(Some(&filter_chains[at].1))
        },
        Ok(None) => Ok(None),
        Err(e) => Err(e),
    }
}

/// A chain in the running after some criteria met every one of them.
pub proof fn law_chosen_chain_meets_its_rules<T>(
    chains: Seq<(FilterChainMatch, T)>,
    c: Criteria,
    stage: nat,
    i: int,
    earlier: nat,
)
    requires
        survives(chains, c, stage, i),
        earlier < stage,
    ensures
        chains[i].0.spec_result(earlier, c) != MatchResult::FailedMatch,
    decreases stage,
{
    lemma_survives_step(chains, c, (stage - 1) as nat, i);
    if earlier + 1 < stage {
        law_chosen_chain_meets_its_rules(chains, c, (stage - 1) as nat, i, earlier);
    }
}

/// No result is a failure exactly when the connection meets every rule.
proof fn lemma_no_failure(m: FilterChainMatch, c: Criteria)
    ensures
        meets_rules(m, c.destination, c.source, c.server_name) <==> forall|stage: nat|
            stage < stages() ==> #[trigger] m.spec_result(stage, c) != MatchResult::FailedMatch,
{
    lemma_best_range(m.destination_prefix_ranges@, c.destination.ip);
    lemma_best_range(m.source_prefix_ranges@, c.source.ip);
    lemma_best_name(m.server_names@, c.server_name);
    if forall|stage: nat| stage < stages() ==> #[trigger] m.spec_result(stage, c) != MatchResult::FailedMatch {
        assert(m.spec_result(0, c) != MatchResult::FailedMatch);
        assert(m.spec_result(1, c) != MatchResult::FailedMatch);
        assert(m.spec_result(2, c) != MatchResult::FailedMatch);
        assert(m.spec_result(3, c) != MatchResult::FailedMatch);
        assert(m.spec_result(4, c) != MatchResult::FailedMatch);
    }
    if meets_rules(m, c.destination, c.source, c.server_name) {
        assert forall|stage: nat| stage < stages() implies #[trigger] m.spec_result(stage, c)
            != MatchResult::FailedMatch by {}
    }
}

/// The chain that is chosen for a connection is one whose every rule the
/// connection meets: the port and the ranges of its destination, a server
/// name, and the ranges and ports of its source, as far as they are stated.
pub proof fn law_chosen_chain_meets_every_rule<T>(
    chains: Seq<(FilterChainMatch, T)>,
    connection: &DownstreamConnectionMetadata,
    server_name: Option<&str>,
    at: usize,
)
    requires
        is_choice(chains, criteria_of(connection, server_name), Ok(Some(at))),
    ensures
        at < chains.len(),
        serves(chains[at as int].0, *connection, server_name),
{
    let c = criteria_of(connection, server_name);
    assert forall|stage: nat| stage < stages() implies #[trigger] chains[at as int].0.spec_result(stage, c)
        != MatchResult::FailedMatch by {
        law_chosen_chain_meets_its_rules(chains, c, stages(), at as int, stage);
    }
    lemma_no_failure(chains[at as int].0, c);
}

/// The chosen chain is one whose every rule the criteria meet.
pub proof fn law_choice_meets_every_rule<T>(chains: Seq<(FilterChainMatch, T)>, c: Criteria, at: usize)
    requires
        is_choice(chains, c, Ok(Some(at))),
    ensures
        at < chains.len(),
        meets_rules(chains[at as int].0, c.destination, c.source, c.server_name),
{
    assert forall|stage: nat| stage < stages() implies #[trigger] chains[at as int].0.spec_result(stage, c)
        != MatchResult::FailedMatch by {
        law_chosen_chain_meets_its_rules(chains, c, stages(), at as int, stage);
    }
    lemma_no_failure(chains[at as int].0, c);
}

/// A choice fails only where two chains are met in every rule.
pub proof fn law_ambiguity_needs_two_suitable_chains<T>(
    chains: Seq<(FilterChainMatch, T)>,
    connection: &DownstreamConnectionMetadata,
    server_name: Option<&str>,
)
    requires
        is_choice(chains, criteria_of(connection, server_name), Err(AmbiguousFilterChains)),
    ensures
        exists|i: int, j: int|
            0 <= i < chains.len() && 0 <= j < chains.len() && i != j && serves(
                (#[trigger] chains[i]).0,
                *connection,
                server_name,
            ) && serves((#[trigger] chains[j]).0, *connection, server_name),
{
    let c = criteria_of(connection, server_name);
    let (i, j) = choose|i: int, j: int|
        i != j && #[trigger] survives(chains, c, stages(), i) && #[trigger] survives(chains, c, stages(), j);
    lemma_survivor_in_range(chains, c, stages());
    assert forall|k: int| survives(chains, c, stages(), k) implies serves(
        (#[trigger] chains[k]).0,
        *connection,
        server_name,
    ) by {
        assert forall|stage: nat| stage < stages() implies #[trigger] chains[k].0.spec_result(stage, c)
            != MatchResult::FailedMatch by {
            law_chosen_chain_meets_its_rules(chains, c, stages(), k, stage);
        }
        lemma_no_failure(chains[k].0, c);
    }
    assert(serves(chains[i].0, *connection, server_name) && serves(chains[j].0, *connection, server_name));
}

/// Whether two chains state the same rules on the first `stage` criteria.
pub open spec fn same_rules(a: FilterChainMatch, b: FilterChainMatch, stage: nat) -> bool {
    &&& stage > 0 ==> a.destination_port == b.destination_port
    &&& stage > 1 ==> a.destination_prefix_ranges@ == b.destination_prefix_ranges@
    &&& stage > 2 ==> a.server_names@ == b.server_names@
    &&& stage > 3 ==> a.source_prefix_ranges@ == b.source_prefix_ranges@
    &&& stage > 4 ==> a.source_ports@ == b.source_ports@
}

/// Whether a chain is out because of another: they state the same rules on
/// the first criteria, and on the next one it states a rule that the
/// connection does not meet, or none where the other states one.
pub open spec fn gives_way(a: FilterChainMatch, b: FilterChainMatch, c: Criteria) -> bool {
    ||| a.destination_port matches Some(port) && port != c.destination.port
    ||| a.destination_port is None && b.destination_port is Some
    ||| same_rules(a, b, 1) && a.destination_prefix_ranges@.len() > 0 && !in_some_range(
        a.destination_prefix_ranges@,
        c.destination.ip,
    )
    ||| same_rules(a, b, 1) && a.destination_prefix_ranges@.len() == 0 && b.destination_prefix_ranges@.len() > 0
    ||| same_rules(a, b, 2) && a.server_names@.len() > 0 && !is_named_by_some(a.server_names@, c.server_name)
    ||| same_rules(a, b, 2) && a.server_names@.len() == 0 && b.server_names@.len() > 0
    ||| same_rules(a, b, 3) && a.source_prefix_ranges@.len() > 0 && !in_some_range(
        a.source_prefix_ranges@,
        c.source.ip,
    )
    ||| same_rules(a, b, 3) && a.source_prefix_ranges@.len() == 0 && b.source_prefix_ranges@.len() > 0
    ||| same_rules(a, b, 4) && a.source_ports@.len() > 0 && !a.source_ports@.contains(c.source.port)
    ||| same_rules(a, b, 4) && a.source_ports@.len() == 0 && b.source_ports@.len() > 0
}

/// The criterion on which a chain gives way to another whose rules are met.
proof fn lemma_gives_way(a: FilterChainMatch, b: FilterChainMatch, c: Criteria) -> (stage: nat)
    requires
        gives_way(a, b, c),
        meets_rules(b, c.destination, c.source, c.server_name),
    ensures
        stage < stages(),
        a.spec_result(stage, c).rank() < b.spec_result(stage, c).rank(),
        forall|earlier: nat|
            earlier < stage ==> #[trigger] a.spec_result(earlier, c) == b.spec_result(earlier, c),
{
    lemma_best_range(a.destination_prefix_ranges@, c.destination.ip);
    lemma_best_range(b.destination_prefix_ranges@, c.destination.ip);
    lemma_best_range(a.source_prefix_ranges@, c.source.ip);
    lemma_best_range(b.source_prefix_ranges@, c.source.ip);
    lemma_best_name(a.server_names@, c.server_name);
    lemma_best_name(b.server_names@, c.server_name);
    if (a.destination_port matches Some(port) && port != c.destination.port) || a.destination_port is None
        && b.destination_port is Some {
        0
    } else if same_rules(a, b, 1) && (a.destination_prefix_ranges@.len() > 0 && !in_some_range(
        a.destination_prefix_ranges@,
        c.destination.ip,
    ) || a.destination_prefix_ranges@.len() == 0 && b.destination_prefix_ranges@.len() > 0) {
        1
    } else if same_rules(a, b, 2) && (a.server_names@.len() > 0 && !is_named_by_some(a.server_names@, c.server_name)
        || a.server_names@.len() == 0 && b.server_names@.len() > 0) {
        2
    } else if same_rules(a, b, 3) && (a.source_prefix_ranges@.len() > 0 && !in_some_range(
        a.source_prefix_ranges@,
        c.source.ip,
    ) || a.source_prefix_ranges@.len() == 0 && b.source_prefix_ranges@.len() > 0) {
        3
    } else {
        4
    }
}

/// A chain whose rules are all met stays in the running where all others give way to it.
proof fn lemma_sole_survivor<T>(chains: Seq<(FilterChainMatch, T)>, c: Criteria, i: int, stage: nat)
    requires
        0 <= i < chains.len(),
        stage <= stages(),
        meets_rules(chains[i].0, c.destination, c.source, c.server_name),
        forall|j: int| 0 <= j < chains.len() && j != i ==> gives_way((#[trigger] chains[j]).0, chains[i].0, c),
    ensures
        survives(chains, c, stage, i),
        forall|j: int| #[trigger]
            survives(chains, c, stage, j) ==> 0 <= j < chains.len() && forall|earlier: nat|
                earlier < stage ==> #[trigger] chains[j].0.spec_result(earlier, c) == chains[i].0.spec_result(
                    earlier,
                    c,
                ),
    decreases stage,
{
    lemma_survivor_in_range(chains, c, stage);
    if stage > 0 {
        let last = (stage - 1) as nat;
        lemma_sole_survivor(chains, c, i, last);
        lemma_no_failure(chains[i].0, c);
        assert(chains[i].0.spec_result(last, c) != MatchResult::FailedMatch);
        lemma_survives_step(chains, c, last, i);
        assert(survives(chains, c, last, i));
        assert forall|j: int| #[trigger] running(chains, c, last).contains(j) implies chains[j].0.spec_result(last, c).rank()
            <= chains[i].0.spec_result(last, c).rank() by {
            assert(survives(chains, c, last, j));
            if j != i {
                let out = lemma_gives_way(chains[j].0, chains[i].0, c);
                if out < last {
                    assert(chains[j].0.spec_result(out, c) == chains[i].0.spec_result(out, c));
                } else if out > last {
                    assert(chains[j].0.spec_result(last, c) == chains[i].0.spec_result(last, c));
                }
            }
        }
        assert forall|j: int| #[trigger] survives(chains, c, stage, j) implies forall|earlier: nat|
            earlier < stage ==> #[trigger] chains[j].0.spec_result(earlier, c) == chains[i].0.spec_result(
                earlier,
                c,
            ) by {
            assert forall|earlier: nat| earlier < stage implies #[trigger] chains[j].0.spec_result(earlier, c)
                == chains[i].0.spec_result(earlier, c) by {
                law_survivors_are_equally_specific(chains, c, stage, i, j, earlier);
            }
        }
    }
}

/// A chain whose every rule is met is chosen where all others give way to it:
/// they state a rule that is not met, or none where it states one, on the
/// first criterion on which they differ. So a listener with a single chain
/// serves exactly the connections that meet its rules.
pub proof fn law_suitable_chain_is_chosen<T>(
    chains: Seq<(FilterChainMatch, T)>,
    connection: &DownstreamConnectionMetadata,
    server_name: Option<&str>,
    at: int,
    choice: Result<Option<usize>, AmbiguousFilterChains>,
)
    requires
        0 <= at < chains.len(),
        serves(chains[at].0, *connection, server_name),
        forall|j: int|
            0 <= j < chains.len() && j != at ==> gives_way(
                (#[trigger] chains[j]).0,
                chains[at].0,
                criteria_of(connection, server_name),
            ),
        is_choice(chains, criteria_of(connection, server_name), choice),
    ensures
        choice matches Ok(Some(chosen)) && chosen == at,
{
    let c = criteria_of(connection, server_name);
    lemma_sole_survivor(chains, c, at, stages());
    assert(survives(chains, c, stages(), at));
    assert forall|j: int| #[trigger] survives(chains, c, stages(), j) implies j == at by {
        if j != at {
            let out = lemma_gives_way(chains[j].0, chains[at].0, c);
            assert(chains[j].0.spec_result(out, c) == chains[at].0.spec_result(out, c));
        }
    }
}

/// Where two chains state the same rules on the first criteria, the chosen
/// one fits the next criterion no worse than the other: it states the port of
/// the destination if the other does, a range of the destination that is as
/// long as any range of the other that holds it, a server name that fits as
/// well, a range of the source that is as long, and the port of the source.
pub proof fn law_more_specific_chain_is_chosen<T>(
    chains: Seq<(FilterChainMatch, T)>,
    connection: &DownstreamConnectionMetadata,
    server_name: Option<&str>,
    at: usize,
    other: int,
    k: int,
)
    requires
        is_choice(chains, criteria_of(connection, server_name), Ok(Some(at))),
        0 <= other < chains.len(),
        forall|n: int|
            0 <= n < chains[other].0.server_names@.len() ==> (
            #[trigger] chains[other].0.server_names@[n]).name@.len() < u64::MAX,
        forall|n: int|
            0 <= n < chains[at as int].0.server_names@.len() ==> (
            #[trigger] chains[at as int].0.server_names@[n]).name@.len() < u64::MAX,
    ensures
        ({
            let c = criteria_of(connection, server_name);
            let m = chains[at as int].0;
            let o = chains[other].0;
            &&& o.destination_port == Some(c.destination.port) ==> m.destination_port == Some(c.destination.port)
            &&& same_rules(m, o, 1) && 0 <= k < o.destination_prefix_ranges@.len()
                && o.destination_prefix_ranges@[k].spec_contains(c.destination.ip) ==> in_range_of(
                m.destination_prefix_ranges@,
                c.destination.ip,
                o.destination_prefix_ranges@[k].prefix_len,
            )
            &&& same_rules(m, o, 2) && 0 <= k < o.server_names@.len() && is_named(o.server_names@[k], c.server_name)
                ==> is_named_as_well_as(m.server_names@, c.server_name, o.server_names@[k])
            &&& same_rules(m, o, 3) && 0 <= k < o.source_prefix_ranges@.len()
                && o.source_prefix_ranges@[k].spec_contains(c.source.ip) ==> in_range_of(
                m.source_prefix_ranges@,
                c.source.ip,
                o.source_prefix_ranges@[k].prefix_len,
            )
            &&& same_rules(m, o, 4) && o.source_ports@.contains(c.source.port) ==> m.source_ports@.contains(
                c.source.port,
            )
        }),
{
    let c = criteria_of(connection, server_name);
    let m = chains[at as int].0;
    let o = chains[other].0;
    let i = at as int;
    lemma_best_range(m.destination_prefix_ranges@, c.destination.ip);
    lemma_best_range(o.destination_prefix_ranges@, c.destination.ip);
    lemma_best_range(m.source_prefix_ranges@, c.source.ip);
    lemma_best_range(o.source_prefix_ranges@, c.source.ip);
    lemma_best_name(m.server_names@, c.server_name);
    lemma_best_name(o.server_names@, c.server_name);
    lemma_no_better_alike(chains, c, i, other, 0);
    if same_rules(m, o, 1) {
        lemma_no_better_alike(chains, c, i, other, 1);
    }
    if same_rules(m, o, 2) {
        lemma_no_better_alike(chains, c, i, other, 2);
        if 0 <= k < o.server_names@.len() && is_named(o.server_names@[k], c.server_name) {
            lemma_name_result(o.server_names@[k], c.server_name);
            let best = best_name(m.server_names@, c.server_name);
            let n = choose|n: int|
                0 <= n < m.server_names@.len() && (#[trigger] m.server_names@[n]).spec_result(c.server_name) == best;
            lemma_name_result(m.server_names@[n], c.server_name);
            assert(is_named(m.server_names@[n], c.server_name));
        }
    }
    if same_rules(m, o, 3) {
        lemma_no_better_alike(chains, c, i, other, 3);
    }
    if same_rules(m, o, 4) {
        lemma_no_better_alike(chains, c, i, other, 4);
    }
}

/// A chain left in the running fits a criterion no worse than one that states
/// the same rules before it.
proof fn lemma_no_better_alike<T>(chains: Seq<(FilterChainMatch, T)>, c: Criteria, i: int, j: int, stage: nat)
    requires
        survives(chains, c, stages(), i),
        0 <= j < chains.len(),
        stage < stages(),
        same_rules(chains[i].0, chains[j].0, stage),
    ensures
        chains[j].0.spec_result(stage, c).rank() <= chains[i].0.spec_result(stage, c).rank(),
{
    lemma_survivor_in_range(chains, c, stages());
    lemma_survived_before(chains, c, stages(), i, stage);
    lemma_survived_before(chains, c, stages(), i, stage + 1);
    lemma_alike_survives(chains, c, i, j, stage);
    lemma_survives_step(chains, c, stage, i);
    assert(running(chains, c, stage).contains(j));
}

/// A chain left in the running was so before.
proof fn lemma_survived_before<T>(chains: Seq<(FilterChainMatch, T)>, c: Criteria, stage: nat, i: int, earlier: nat)
    requires
        survives(chains, c, stage, i),
        earlier <= stage,
    ensures
        survives(chains, c, earlier, i),
    decreases stage,
{
    if earlier < stage {
        lemma_survives_step(chains, c, (stage - 1) as nat, i);
        lemma_survived_before(chains, c, (stage - 1) as nat, i, earlier);
    }
}

/// A chain that states the same rules as one in the running is so too.
proof fn lemma_alike_survives<T>(chains: Seq<(FilterChainMatch, T)>, c: Criteria, i: int, j: int, stage: nat)
    requires
        survives(chains, c, stage, i),
        0 <= j < chains.len(),
        stage < stages(),
        same_rules(chains[i].0, chains[j].0, stage),
    ensures
        survives(chains, c, stage, j),
    decreases stage,
{
    if stage > 0 {
        let last = (stage - 1) as nat;
        lemma_survives_step(chains, c, last, i);
        lemma_survives_step(chains, c, last, j);
        lemma_alike_survives(chains, c, i, j, last);
        assert(chains[i].0.spec_result(last, c) == chains[j].0.spec_result(last, c));
    }
}

/// Two chains that are both left in the running fit every criterion equally well.
pub proof fn law_survivors_are_equally_specific<T>(
    chains: Seq<(FilterChainMatch, T)>,
    c: Criteria,
    stage: nat,
    i: int,
    j: int,
    earlier: nat,
)
    requires
        survives(chains, c, stage, i),
        survives(chains, c, stage, j),
        earlier < stage,
    ensures
        chains[i].0.spec_result(earlier, c) == chains[j].0.spec_result(earlier, c),
    decreases stage,
{
    let last = (stage - 1) as nat;
    lemma_survives_step(chains, c, last, i);
    lemma_survives_step(chains, c, last, j);
    assert(running(chains, c, last).contains(i) && running(chains, c, last).contains(j));
    if earlier == last {
        lemma_rank_injective(chains[i].0.spec_result(earlier, c), chains[j].0.spec_result(earlier, c));
    } else {
        law_survivors_are_equally_specific(chains, c, last, i, j, earlier);
    }
}

/// The order in which the chains are listed does not matter: a chain is in
/// the running in one order exactly when it is in another.
pub proof fn law_order_does_not_matter<T>(
    chains: Seq<(FilterChainMatch, T)>,
    reordered: Seq<(FilterChainMatch, T)>,
    to: spec_fn(int) -> int,
    from: spec_fn(int) -> int,
    c: Criteria,
    stage: nat,
    i: int,
)
    requires
        chains.len() == reordered.len(),
        forall|k: int| 0 <= k < chains.len() ==> 0 <= #[trigger] to(k) < chains.len() && from(to(k)) == k,
        forall|k: int| 0 <= k < chains.len() ==> 0 <= #[trigger] from(k) < chains.len() && to(from(k)) == k,
        forall|k: int| 0 <= k < chains.len() ==> #[trigger] reordered[k] == chains[to(k)],
        0 <= i < chains.len(),
    ensures
        survives(reordered, c, stage, i) == survives(chains, c, stage, to(i)),
    decreases stage,
{
    if stage > 0 {
        let last = (stage - 1) as nat;
        law_order_does_not_matter(chains, reordered, to, from, c, last, i);
        lemma_survives_step(chains, c, last, to(i));
        lemma_survives_step(reordered, c, last, i);
        lemma_survivor_in_range(chains, c, last);
        lemma_survivor_in_range(reordered, c, last);
        assert(reordered[i] == chains[to(i)]);
        if survives(reordered, c, stage, i) {
            assert forall|j: int| #[trigger] running(chains, c, last).contains(j) implies chains[j].0.spec_result(
                last,
                c,
            ).rank() <= chains[to(i)].0.spec_result(last, c).rank() by {
                assert(survives(chains, c, last, j));
                law_order_does_not_matter(chains, reordered, to, from, c, last, from(j));
                assert(to(from(j)) == j);
                assert(reordered[from(j)] == chains[to(from(j))]);
                assert(running(reordered, c, last).contains(from(j)));
            }
        }
        if survives(chains, c, stage, to(i)) {
            assert forall|j: int| #[trigger] running(reordered, c, last).contains(j) implies reordered[j].0.spec_result(
                last,
                c,
            ).rank() <= reordered[i].0.spec_result(last, c).rank() by {
                assert(survives(reordered, c, last, j));
                law_order_does_not_matter(chains, reordered, to, from, c, last, j);
                assert(reordered[j] == chains[to(j)]);
                assert(running(chains, c, last).contains(to(j)));
            }
        }
    }
}

/// A chain without rules stays in the running when every other chain has a
/// rule that the connection does not meet on the first criterion.
pub proof fn law_catch_all_takes_the_rest<T>(chains: Seq<(FilterChainMatch, T)>, c: Criteria, i: int, stage: nat)
    requires
        0 <= i < chains.len(),
        chains[i].0.destination_port is None,
        chains[i].0.destination_prefix_ranges@.len() == 0,
        chains[i].0.server_names@.len() == 0,
        chains[i].0.source_prefix_ranges@.len() == 0,
        chains[i].0.source_ports@.len() == 0,
        forall|j: int|
            0 <= j < chains.len() && j != i ==> #[trigger] chains[j].0.spec_result(0, c) == MatchResult::FailedMatch,
    ensures
        survives(chains, c, stage, i),
        stage > 0 ==> forall|j: int| #[trigger] survives(chains, c, stage, j) ==> j == i,
    decreases stage,
{
    if stage > 0 {
        let last = (stage - 1) as nat;
        law_catch_all_takes_the_rest(chains, c, i, last);
        assert(chains[i].0.spec_result(last, c) == MatchResult::NoRule);
        lemma_survivor_in_range(chains, c, last);
        lemma_survives_step(chains, c, last, i);
        assert(survives(chains, c, last, i));
        assert forall|j: int| #[trigger] running(chains, c, last).contains(j) implies chains[j].0.spec_result(last, c).rank()
            <= chains[i].0.spec_result(last, c).rank() by {
            assert(survives(chains, c, last, j));
        }
        assert forall|j: int| #[trigger] survives(chains, c, stage, j) implies j == i by {
            lemma_survives_step(chains, c, last, j);
            assert(survives(chains, c, last, j));
        }
    }
}

} // verus!
