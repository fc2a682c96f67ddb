//! The connections to an upstream that speaks HTTP/2, each shared by many
//! requests at once.
//!
//! A connection goes by its number. Whether it is closed, the caller finds out
//! and tells.

use crate::authority::Authority;
use crate::http1_pool::{elapsed, pool_uri};
use vstd::prelude::*;

verus! {

/// A connection, how many requests are on it, and when it was last taken.
#[derive(Debug, Clone, Copy, PartialEq, Eq, Structural)]
pub struct H2Conn {
    pub tx: u64,
    pub in_flight: u32,
    pub last_used: u64,
}

/// Whether a connection is kept.
pub open spec fn h2_stays(conn: H2Conn, closed: bool, idle_timeout: u64, now: u64) -> bool {
    !closed && (conn.in_flight > 0 || elapsed(conn.last_used, now) <= idle_timeout)
}

/// The connections that are kept, in their order.
pub open spec fn h2_kept(conns: Seq<H2Conn>, closed: Seq<bool>, idle_timeout: u64, now: u64) -> Seq<H2Conn>
    decreases conns.len(),
{
    if conns.len() == 0 {
        Seq::empty()
    } else {
        let front = h2_kept(conns.drop_last(), closed, idle_timeout, now);
        if h2_stays(conns.last(), closed[conns.len() - 1], idle_timeout, now) {
            front.push(conns.last())
        } else {
            front
        }
    }
}

/// Whether a connection can take another request.
pub open spec fn has_capacity(conn: H2Conn, closed: bool, max: Option<u32>) -> bool {
    !closed && match max {
        Some(m) => conn.in_flight < m,
        None => true,
    }
}

/// Whether `at` is the first connection that can take another request.
pub open spec fn is_first_free(conns: Seq<H2Conn>, closed: Seq<bool>, max: Option<u32>, at: int) -> bool {
    &&& 0 <= at < conns.len()
    &&& has_capacity(conns[at], closed[at], max)
    &&& forall|i: int| 0 <= i < at ==> !has_capacity(#[trigger] conns[i], closed[i], max)
}

/// The connections with one request more on the one at a position. The count
/// starts anew after its largest number.
pub open spec fn one_request_more(conns: Seq<H2Conn>, at: int, now: u64) -> Seq<H2Conn> {
    conns.update(
        at,
        H2Conn { tx: conns[at].tx, in_flight: conns[at].in_flight.wrapping_add(1), last_used: now },
    )
}

/// The connections to one upstream.
#[derive(Debug)]
pub struct Http2PoolInner {
    conns: Vec<H2Conn>,
    idle_timeout: u64,
    max_concurrent_streams: Option<u32>,
}

impl View for Http2PoolInner {
    type V = Seq<H2Conn>;

    closed spec fn view(&self) -> Seq<H2Conn> {
        self.conns@
    }
}

impl Http2PoolInner {
    pub closed spec fn timeout(&self) -> u64 {
        self.idle_timeout
    }

    pub closed spec fn max_streams(&self) -> Option<u32> {
        self.max_concurrent_streams
    }

    /// Whether the two pools have the same limits.
    pub open spec fn same_limits(&self, other: &Http2PoolInner) -> bool {
        self.timeout() == other.timeout() && self.max_streams() == other.max_streams()
    }

    /// A pool. A limit on streams beyond 32 bits is no limit.
    pub fn new(idle_timeout: u64, max_concurrent_streams: Option<u64>) -> (pool: Http2PoolInner)
        ensures
            pool@ == Seq::<H2Conn>::empty(),
            pool.timeout() == idle_timeout,
            pool.max_streams() == (match max_concurrent_streams {
                Some(max) => if max <= u32::MAX {
                    Some(max as u32)
                } else {
                    None
                },
                None => None,
            }),
    {
        let max: Option<u32> = match max_concurrent_streams {
            Some(max) => {
                if max <= u32::MAX as u64 {
                    Some(max as u32)
                } else {
                    None
                }
            },
            None => None,
        };
        Http2PoolInner { conns: Vec::new(), idle_timeout, max_concurrent_streams: max }
    }

    /// Drops the connections that are closed, and those without requests that
    /// have not been taken for too long.
    pub fn cleanup_expired(&mut self, closed: &Vec<bool>, now: u64)
        requires
            closed@.len() == old(self)@.len(),
        ensures
            final(self)@ == h2_kept(old(self)@, closed@, old(self).timeout(), now),
            final(self).same_limits(old(self)),
    {
        let mut conns: Vec<H2Conn> = Vec::new();
        let mut i: usize = 0;
        while i < self.conns.len()
            invariant
                i <= self.conns@.len(),
                closed@.len() == self.conns@.len(),
                conns@ == h2_kept(self.conns@.take(i as int), closed@, self.idle_timeout, now),
            decreases self.conns@.len() - i,
        {
            assert(self.conns@.take(i + 1).drop_last() =~= self.conns@.take(i as int));
            let conn: H2Conn = self.conns[i];
            let age: u64 = if now > conn.last_used {
                now - conn.last_used
            } else {
                0
            };
            if !closed[i] && (conn.in_flight > 0 || age <= self.idle_timeout) {
                conns.push(conn);
            }
            i = i + 1;
        }
        assert(self.conns@.take(self.conns@.len() as int) =~= self.conns@);
        self.conns = conns;
    }

    /// Takes the first connection that can take another request, and counts
    /// the request on it. `None` when a new connection has to be made.
    pub fn checkout(&mut self, closed: &Vec<bool>, now: u64) -> (taken: Option<u64>)
        requires
            closed@.len() == old(self)@.len(),
        ensures
            match taken {
                None => final(self)@ == old(self)@ && forall|i: int|
                    0 <= i < old(self)@.len() ==> !has_capacity(
                        #[trigger] old(self)@[i],
                        closed@[i],
                        old(self).max_streams(),
                    ),
                Some(tx) => exists|at: int|
                    {
                        &&& #[trigger] is_first_free(old(self)@, closed@, old(self).max_streams(), at)
                        &&& tx == old(self)@[at].tx
                        &&& final(self)@ == one_request_more(old(self)@, at, now)
                    },
            },
            final(self).same_limits(old(self)),
    {
        let mut i: usize = 0;
        while i < self.conns.len()
            invariant
                i <= self.conns@.len(),
                *self == *old(self),
                closed@.len() == self.conns@.len(),
                forall|k: int|
                    0 <= k < i ==> !has_capacity(
                        #[trigger] old(self)@[k],
                        closed@[k],
                        self.max_concurrent_streams,
                    ),
            decreases self.conns@.len() - i,
        {
            let conn: H2Conn = self.conns[i];
            let free: bool = !closed[i] && match self.max_concurrent_streams {
                Some(max) => conn.in_flight < max,
                None => true,
            };
            if free {
                assert(is_first_free(old(self)@, closed@, old(self).max_streams(), i as int));
                self.conns.set(
                    i,
                    H2Conn { tx: conn.tx, in_flight: conn.in_flight.wrapping_add(1), last_used: now },
                );
                return Some(conn.tx);
            }
            i = i + 1;
        }
        None
    }

    /// Adds a new connection, with one request on it.
    pub fn insert(&mut self, tx: u64, now: u64)
        ensures
            final(self)@ == old(self)@.push(H2Conn { tx, in_flight: 1, last_used: now }),
            final(self).same_limits(old(self)),
    {
        self.conns.push(H2Conn { tx, in_flight: 1, last_used: now });
    }

    /// The numbers of the connections, in the order in which `closed` is told.
    pub fn numbers(&self) -> (numbers: Vec<u64>)
        ensures
            numbers@ == self@.map_values(|conn: H2Conn| conn.tx),
    {
        let mut numbers: Vec<u64> = Vec::new();
        let mut i: usize = 0;
        while i < self.conns.len()
            invariant
                i <= self.conns@.len(),
                numbers@ == self@.take(i as int).map_values(|conn: H2Conn| conn.tx),
            decreases self.conns@.len() - i,
        {
            numbers.push(self.conns[i].tx);
            i = i + 1;
            assert(numbers@ =~= self@.take(i as int).map_values(|conn: H2Conn| conn.tx));
        }
        assert(self@.take(i as int) =~= self@);
        numbers
    }

    pub fn len(&self) -> (n: usize)
        ensures
            n == self@.len(),
    {
        self.conns.len()
    }

    /// Takes a request off the connection of that number, if it is still there.
    fn request_done(&mut self, tx: u64)
        ensures
            final(self)@ == one_request_less(old(self)@, tx),
            final(self).same_limits(old(self)),
    {
        let mut i: usize = 0;
        while i < self.conns.len()
            invariant
                i <= self.conns@.len(),
                *self == *old(self),
                forall|k: int| 0 <= k < i ==> (#[trigger] self.conns@[k]).tx != tx,
            decreases self.conns@.len() - i,
        {
            let conn: H2Conn = self.conns[i];
            if conn.tx == tx {
                proof {
                    lemma_position(self.conns@, tx, i as int);
                }
                self.conns.set(
                    i,
                    H2Conn { tx, in_flight: conn.in_flight.wrapping_sub(1), last_used: conn.last_used },
                );
                return;
            }
            i = i + 1;
        }
        proof {
            lemma_position(self.conns@, tx, self.conns@.len() as int);
        }
    }
}

/// The position of the connection of a number, or the length of the list.
pub open spec fn position_of(conns: Seq<H2Conn>, tx: u64) -> int
    decreases conns.len(),
{
    if conns.len() == 0 || conns[0].tx == tx {
        0
    } else {
        1 + position_of(conns.drop_first(), tx)
    }
}

proof fn lemma_position(conns: Seq<H2Conn>, tx: u64, at: int)
    requires
        0 <= at <= conns.len(),
        at < conns.len() ==> conns[at].tx == tx,
        forall|k: int| 0 <= k < at ==> (#[trigger] conns[k]).tx != tx,
    ensures
        position_of(conns, tx) == at,
    decreases conns.len(),
{
    if at > 0 {
        assert(conns[0].tx != tx);
        let rest = conns.drop_first();
        assert forall|k: int| 0 <= k < at - 1 implies (#[trigger] rest[k]).tx != tx by {
            assert(rest[k] == conns[k + 1]);
        }
        lemma_position(rest, tx, at - 1);
    }
}

/// The connections with one request less on the one of a number.
pub open spec fn one_request_less(conns: Seq<H2Conn>, tx: u64) -> Seq<H2Conn> {
    let at = position_of(conns, tx);
    if at < conns.len() {
        conns.update(
            at,
            H2Conn {
                tx,
                in_flight: conns[at].in_flight.wrapping_sub(1),
                last_used: conns[at].last_used,
            },
        )
    } else {
        conns
    }
}

/// A request on a shared connection, until the body of its response ends.
#[derive(Debug)]
pub struct Http2StreamPermit {
    tx: u64,
}

impl Http2StreamPermit {
    pub closed spec fn conn(&self) -> u64 {
        self.tx
    }

    /// Takes the request off its connection, whether or not the body was read to its end.
    pub fn on_body_end(self, pool: &mut Http2PoolInner, _completed: bool)
        ensures
            final(pool)@ == one_request_less(old(pool)@, self.conn()),
            final(pool).same_limits(old(pool)),
    {
        pool.request_done(self.tx);
    }
}

/// Ties a request to the response that came: one without a body is done at
/// once, any other when the body ends.
pub fn attach_stream_permit(pool: &mut Http2PoolInner, tx: u64, end_stream: bool) -> (permit: Option<
    Http2StreamPermit,
>)
    ensures
        end_stream ==> permit is None && final(pool)@ == one_request_less(old(pool)@, tx),
        !end_stream ==> permit is Some && permit->0.conn() == tx && final(pool)@ == old(pool)@,
        final(pool).same_limits(old(pool)),
{
    if end_stream {
        pool.request_done(tx);
        None
    } else {
        Some(Http2StreamPermit { tx })
    }
}

/// Takes a request that could not be sent off its connection.
pub fn send_failed(pool: &mut Http2PoolInner, tx: u64)
    ensures
        final(pool)@ == one_request_less(old(pool)@, tx),
        final(pool).same_limits(old(pool)),
{
    pool.request_done(tx);
}

/// The address that a pool connects to.
pub fn dst_uri(authority: &Authority, tls: bool) -> (uri: String)
    ensures
        uri@ == pool_uri(authority@, tls),
{
    crate::http1_pool::dst_uri(authority, tls)
}

/// The options of a connection.
#[derive(Debug, Clone, Copy, PartialEq, Eq, Structural)]
pub struct Http2ProtocolOptions {
    pub keep_alive_interval: Option<u64>,
    pub keep_alive_timeout: Option<u64>,
    pub initial_stream_window_size: Option<u32>,
    pub initial_connection_window_size: Option<u32>,
    pub max_concurrent_streams: Option<u64>,
}

/// How a connection is set up.
#[derive(Debug, Clone, Copy, PartialEq, Eq, Structural)]
pub struct HandshakeSettings {
    pub keep_alive_interval: Option<u64>,
    pub keep_alive_timeout: Option<u64>,
    pub keep_alive_while_idle: bool,
    pub adaptive_window: bool,
    pub initial_stream_window_size: Option<u32>,
    pub initial_connection_window_size: Option<u32>,
    pub initial_max_send_streams: Option<u64>,
    pub max_concurrent_reset_streams: Option<u64>,
    pub max_concurrent_streams: Option<u32>,
}

/// How a connection with some options is set up. Without a window of a fixed
/// size the windows adapt; pings go out only where an interval is given.
pub fn handshake_settings(opts: &Http2ProtocolOptions) -> (settings: HandshakeSettings)
    ensures
        settings.keep_alive_interval == opts.keep_alive_interval,
        settings.keep_alive_while_idle == opts.keep_alive_interval is Some,
        settings.keep_alive_timeout == (if opts.keep_alive_interval is Some {
            opts.keep_alive_timeout
        } else {
            None
        }),
        settings.adaptive_window == (opts.initial_stream_window_size is None && opts.initial_connection_window_size
            is None),
        settings.initial_stream_window_size == opts.initial_stream_window_size,
        settings.initial_connection_window_size == opts.initial_connection_window_size,
        settings.initial_max_send_streams == opts.max_concurrent_streams,
        settings.max_concurrent_reset_streams == opts.max_concurrent_streams,
        settings.max_concurrent_streams == (match opts.max_concurrent_streams {
            Some(max) => if max <= u32::MAX {
                Some(max as u32)
            } else {
                None
            },
            None => None,
        }),
{
    let pings: bool = opts.keep_alive_interval.is_some();
    HandshakeSettings {
        keep_alive_interval: opts.keep_alive_interval,
        keep_alive_timeout: if pings {
            opts.keep_alive_timeout
        } else {
            None
        },
        keep_alive_while_idle: pings,
        adaptive_window: opts.initial_stream_window_size.is_none() && opts.initial_connection_window_size.is_none(),
        initial_stream_window_size: opts.initial_stream_window_size,
        initial_connection_window_size: opts.initial_connection_window_size,
        initial_max_send_streams: opts.max_concurrent_streams,
        max_concurrent_reset_streams: opts.max_concurrent_streams,
        max_concurrent_streams: match opts.max_concurrent_streams {
            Some(max) => {
                if max <= u32::MAX as u64 {
                    Some(max as u32)
                } else {
                    None
                }
            },
            None => None,
        },
    }
}

/// Whether no connection has more requests on it than allowed.
pub open spec fn within_limit(conns: Seq<H2Conn>, max: u32) -> bool {
    forall|i: int| 0 <= i < conns.len() ==> (#[trigger] conns[i]).in_flight <= max
}

/// Taking connections never puts more requests on one than the limit allows.
pub proof fn law_checkout_respects_limit(conns: Seq<H2Conn>, closed: Seq<bool>, max: u32, at: int, now: u64)
    requires
        within_limit(conns, max),
        is_first_free(conns, closed, Some(max), at),
    ensures
        within_limit(one_request_more(conns, at, now), max),
{
    let after = one_request_more(conns, at, now);
    assert forall|i: int| 0 <= i < after.len() implies (#[trigger] after[i]).in_flight <= max by {
        if i != at {
            assert(conns[i].in_flight <= max);
        }
    }
}

/// A request that is done leaves the count of its connection as it was before
/// the request was taken on.
pub proof fn law_done_undoes_checkout(conns: Seq<H2Conn>, at: int, now: u64)
    requires
        0 <= at < conns.len(),
        forall|k: int| 0 <= k < conns.len() && k != at ==> (#[trigger] conns[k]).tx != conns[at].tx,
    ensures
        one_request_less(one_request_more(conns, at, now), conns[at].tx) == conns.update(
            at,
            (H2Conn { last_used: now, ..conns[at] }),
        ),
{
    let taken = one_request_more(conns, at, now);
    assert forall|k: int| 0 <= k < at implies (#[trigger] taken[k]).tx != conns[at].tx by {
        assert(conns[k].tx != conns[at].tx);
    }
    lemma_position(taken, conns[at].tx, at);
}

/// An open connection with requests on it is never dropped by a cleanup.
pub proof fn law_cleanup_spares_busy(
    conns: Seq<H2Conn>,
    closed: Seq<bool>,
    idle_timeout: u64,
    now: u64,
    i: int,
)
    requires
        closed.len() >= conns.len(),
        0 <= i < conns.len(),
        !closed[i],
        conns[i].in_flight > 0,
    ensures
        h2_kept(conns, closed, idle_timeout, now).contains(conns[i]),
    decreases conns.len(),
{
    let front = h2_kept(conns.drop_last(), closed, idle_timeout, now);
    let all = h2_kept(conns, closed, idle_timeout, now);
    if i == conns.len() - 1 {
        assert(all[all.len() - 1] == conns[i]);
    } else {
        assert(conns.drop_last()[i] == conns[i]);
        law_cleanup_spares_busy(conns.drop_last(), closed, idle_timeout, now, i);
        let k = choose|k: int| 0 <= k < front.len() && front[k] == conns[i];
        assert(all[k] == conns[i]);
    }
}

/// Cleaning up keeps exactly the connections that are open and either busy or
/// idle for no longer than they may.
pub proof fn law_h2_cleanup_is_by_use_and_age(
    conns: Seq<H2Conn>,
    closed: Seq<bool>,
    idle_timeout: u64,
    now: u64,
    conn: H2Conn,
)
    requires
        closed.len() >= conns.len(),
    ensures
        h2_kept(conns, closed, idle_timeout, now).contains(conn) <==> exists|i: int|
            0 <= i < conns.len() && #[trigger] conns[i] == conn && !closed[i] && (conn.in_flight > 0 || now
                <= conn.last_used + idle_timeout),
    decreases conns.len(),
{
    let all = h2_kept(conns, closed, idle_timeout, now);
    if conns.len() > 0 {
        let last = conns.len() - 1;
        let front = conns.drop_last();
        let kept = h2_kept(front, closed, idle_timeout, now);
        law_h2_cleanup_is_by_use_and_age(front, closed, idle_timeout, now, conn);
        assert(conns.last() == conns[last]);
        if kept.contains(conn) {
            let i = choose|i: int|
                0 <= i < front.len() && #[trigger] front[i] == conn && !closed[i] && (conn.in_flight > 0 || now
                    <= conn.last_used + idle_timeout);
            assert(conns[i] == conn);
            let k = choose|k: int| 0 <= k < kept.len() && kept[k] == conn;
            assert(all[k] == conn);
        }
        if all.contains(conn) && !kept.contains(conn) {
            let k = choose|k: int| 0 <= k < all.len() && all[k] == conn;
            if k < kept.len() {
                assert(kept[k] == conn);
            }
        }
        if exists|i: int|
            0 <= i < conns.len() && #[trigger] conns[i] == conn && !closed[i] && (conn.in_flight > 0 || now
                <= conn.last_used + idle_timeout) {
            let i = choose|i: int|
                0 <= i < conns.len() && #[trigger] conns[i] == conn && !closed[i] && (conn.in_flight > 0 || now
                    <= conn.last_used + idle_timeout);
            if i < last {
                assert(front[i] == conn);
            } else {
                assert(all[all.len() - 1] == conn);
            }
        }
    }
}

/// A request takes the first open connection with room for it, whatever the
/// limit: the one before had to be closed or full. It counts on that
/// connection alone, which is used at that instant.
pub proof fn law_checkout_takes_the_first_with_room(
    conns: Seq<H2Conn>,
    closed: Seq<bool>,
    max: Option<u32>,
    at: int,
    now: u64,
    i: int,
)
    requires
        closed.len() >= conns.len(),
        is_first_free(conns, closed, max, at),
        0 <= i < conns.len(),
        conns[at].in_flight < u32::MAX,
    ensures
        !closed[at],
        max matches Some(m) ==> conns[at].in_flight < m,
        i < at ==> closed[i] || (max matches Some(m) && conns[i].in_flight >= m),
        ({
            let after = one_request_more(conns, at, now);
            &&& after.len() == conns.len()
            &&& i != at ==> after[i] == conns[i]
            &&& after[at].tx == conns[at].tx
            &&& after[at].in_flight == conns[at].in_flight + 1
            &&& after[at].last_used == now
        }),
{
    if i < at {
        assert(!has_capacity(conns[i], closed[i], max));
    }
}

/// A request that is done counts no longer on its connection, and on no other;
/// when the connection was last used stays.
pub proof fn law_done_request_is_taken_off(conns: Seq<H2Conn>, at: int, i: int)
    requires
        0 <= at < conns.len(),
        0 <= i < conns.len(),
        conns[at].in_flight > 0,
        forall|k: int| 0 <= k < at ==> (#[trigger] conns[k]).tx != conns[at].tx,
    ensures
        ({
            let after = one_request_less(conns, conns[at].tx);
            &&& after.len() == conns.len()
            &&& i != at ==> after[i] == conns[i]
            &&& after[at].tx == conns[at].tx
            &&& after[at].in_flight == conns[at].in_flight - 1
            &&& after[at].last_used == conns[at].last_used
        }),
{
    lemma_position(conns, conns[at].tx, at);
}

} // verus!
