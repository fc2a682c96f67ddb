//! The idle connections to an upstream that speaks HTTP/1.
//!
//! A connection goes by its number. Whether it is closed, and whether it can
//! take a request, the caller finds out and tells.

use crate::authority::Authority;
use vstd::prelude::*;

verus! {

/// A connection that waits for a request, and since when, in nanoseconds.
#[derive(Debug, Clone, Copy, PartialEq, Eq, Structural)]
pub struct IdleConn {
    pub tx: u64,
    pub idle_at: u64,
}

/// The time from one instant to another; none where the clock went back.
pub open spec fn elapsed(from: u64, to: u64) -> int {
    if to > from {
        to - from
    } else {
        0
    }
}

/// Whether an idle connection is kept.
pub open spec fn stays(conn: IdleConn, closed: bool, idle_timeout: u64, now: u64) -> bool {
    !closed && elapsed(conn.idle_at, now) <= idle_timeout
}

/// The connections that are kept, in their order.
pub open spec fn kept(idle: Seq<IdleConn>, closed: Seq<bool>, idle_timeout: u64, now: u64) -> Seq<IdleConn>
    decreases idle.len(),
{
    if idle.len() == 0 {
        Seq::empty()
    } else {
        let front = kept(idle.drop_last(), closed, idle_timeout, now);
        if stays(idle.last(), closed[idle.len() - 1], idle_timeout, now) {
            front.push(idle.last())
        } else {
            front
        }
    }
}

/// The idle connections to one upstream.
#[derive(Debug)]
pub struct Http1PoolInner {
    idle: Vec<IdleConn>,
    idle_timeout: u64,
}

impl View for Http1PoolInner {
    type V = Seq<IdleConn>;

    closed spec fn view(&self) -> Seq<IdleConn> {
        self.idle@
    }
}

impl Http1PoolInner {
    pub closed spec fn timeout(&self) -> u64 {
        self.idle_timeout
    }

    pub fn new(idle_timeout: u64) -> (pool: Http1PoolInner)
        ensures
            pool@ == Seq::<IdleConn>::empty(),
            pool.timeout() == idle_timeout,
    {
        Http1PoolInner { idle: Vec::new(), idle_timeout }
    }

    /// Drops the connections that are closed or have been idle for too long.
    /// `closed` tells for each connection whether it is closed.
    pub fn cleanup_expired(&mut self, closed: &Vec<bool>, now: u64)
        requires
            closed@.len() == old(self)@.len(),
        ensures
            final(self)@ == kept(old(self)@, closed@, old(self).timeout(), now),
            final(self).timeout() == old(self).timeout(),
    {
        let mut idle: Vec<IdleConn> = Vec::new();
        let mut i: usize = 0;
        while i < self.idle.len()
            invariant
                i <= self.idle@.len(),
                closed@.len() == self.idle@.len(),
                idle@ == kept(self.idle@.take(i as int), closed@, self.idle_timeout, now),
            decreases self.idle@.len() - i,
        {
            assert(self.idle@.take(i + 1).drop_last() =~= self.idle@.take(i as int));
            let conn: IdleConn = self.idle[i];
            let age: u64 = if now > conn.idle_at {
                now - conn.idle_at
            } else {
                0
            };
            if !closed[i] && age <= self.idle_timeout {
                idle.push(conn);
            }
            i = i + 1;
        }
        assert(self.idle@.take(self.idle@.len() as int) =~= self.idle@);
        self.idle = idle;
    }

    /// Takes the connection that became idle last.
    pub fn pop(&mut self) -> (tx: Option<u64>)
        ensures
            old(self)@.len() == 0 ==> tx is None && final(self)@ == old(self)@,
            old(self)@.len() > 0 ==> tx == Some(old(self)@.last().tx) && final(self)@ == old(self)@.drop_last(),
            final(self).timeout() == old(self).timeout(),
    {
        match self.idle.pop() {
            Some(conn) => Some(conn.tx),
            None => None,
        }
    }

    /// Keeps a connection for later, unless it is closed.
    pub fn release(&mut self, tx: u64, closed: bool, now: u64)
        ensures
            final(self)@ == (if closed {
                old(self)@
            } else {
                old(self)@.push(IdleConn { tx, idle_at: now })
            }),
            final(self).timeout() == old(self).timeout(),
    {
        if !closed {
            self.idle.push(IdleConn { tx, idle_at: now });
        }
    }

    /// The numbers of the connections, in the order in which `closed` is told.
    pub fn numbers(&self) -> (numbers: Vec<u64>)
        ensures
            numbers@ == self@.map_values(|conn: IdleConn| conn.tx),
    {
        let mut numbers: Vec<u64> = Vec::new();
        let mut i: usize = 0;
        while i < self.idle.len()
            invariant
                i <= self.idle@.len(),
                numbers@ == self@.take(i as int).map_values(|conn: IdleConn| conn.tx),
            decreases self.idle@.len() - i,
        {
            numbers.push(self.idle[i].tx);
            i = i + 1;
            assert(numbers@ =~= self@.take(i as int).map_values(|conn: IdleConn| conn.tx));
        }
        assert(self@.take(i as int) =~= self@);
        numbers
    }

    pub fn len(&self) -> (n: usize)
        ensures
            n == self@.len(),
    {
        self.idle.len()
    }

    /// Takes a connection to send a request on, newest first. `Connect` when
    /// none is idle; else the connection has to be looked at first.
    pub fn checkout(&mut self) -> (step: CheckoutStep)
        ensures
            old(self)@.len() == 0 ==> step is Connect && final(self)@ == old(self)@,
            old(self)@.len() > 0 ==> step == CheckoutStep::Look(old(self)@.last().tx) && final(self)@ == old(
                self,
            )@.drop_last(),
            final(self).timeout() == old(self).timeout(),
    {
        match self.pop() {
            Some(tx) => CheckoutStep::Look(tx),
            None => CheckoutStep::Connect,
        }
    }
}

/// What a request needs next to get a connection.
#[derive(Debug, Clone, Copy, PartialEq, Eq, Structural)]
pub enum CheckoutStep {
    /// Find out how the connection is.
    Look(u64),
    /// Make a new connection.
    Connect,
}

/// How an idle connection was found.
#[derive(Debug, Clone, Copy, PartialEq, Eq, Structural)]
pub enum ConnState {
    Closed,
    Ready,
    Busy,
}

/// What to do with an idle connection.
#[derive(Debug, Clone, Copy, PartialEq, Eq, Structural)]
pub enum ConnUse {
    /// Send the request on it.
    Use,
    /// Wait until it can take a request; try the next one if that fails.
    AwaitReady,
    /// Try the next one.
    TryNext,
}

/// What to do with an idle connection that was looked at.
pub fn after_look(state: ConnState) -> (next: ConnUse)
    ensures
        next == (match state {
            ConnState::Closed => ConnUse::TryNext,
            ConnState::Ready => ConnUse::Use,
            ConnState::Busy => ConnUse::AwaitReady,
        }),
{
    match state {
        ConnState::Closed => ConnUse::TryNext,
        ConnState::Ready => ConnUse::Use,
        ConnState::Busy => ConnUse::AwaitReady,
    }
}

/// A connection in use until the body of its response ends.
#[derive(Debug)]
pub struct Http1Permit {
    tx: u64,
}

impl Http1Permit {
    pub closed spec fn conn(&self) -> u64 {
        self.tx
    }

    pub fn new(tx: u64) -> (permit: Http1Permit)
        ensures
            permit.conn() == tx,
    {
        Http1Permit { tx }
    }

    /// Ends the use. The connection is kept if the body was read to its end, or
    /// if the connection can take another request all the same.
    pub fn on_body_end(self, pool: &mut Http1PoolInner, completed: bool, closed: bool, ready: bool, now: u64)
        ensures
            final(pool)@ == (if !closed && (completed || ready) {
                old(pool)@.push(IdleConn { tx: self.conn(), idle_at: now })
            } else {
                old(pool)@
            }),
            final(pool).timeout() == old(pool).timeout(),
    {
        if closed {
            return;
        }
        if completed || ready {
            pool.release(self.tx, false, now);
        }
    }
}

/// Ties a connection to the response that came on it. One that switched
/// protocols is never used again; one whose response has no body is free at
/// once; any other is free when the body ends.
pub fn attach_permit(
    pool: &mut Http1PoolInner,
    tx: u64,
    status: u16,
    end_stream: bool,
    closed: bool,
    now: u64,
) -> (permit: Option<Http1Permit>)
    ensures
        status == 101 ==> permit is None && final(pool)@ == old(pool)@,
        status != 101 && end_stream ==> permit is None && final(pool)@ == (if closed {
            old(pool)@
        } else {
            old(pool)@.push(IdleConn { tx, idle_at: now })
        }),
        status != 101 && !end_stream ==> permit is Some && permit->0.conn() == tx && final(pool)@ == old(pool)@,
        final(pool).timeout() == old(pool).timeout(),
{
    if status == 101 {
        return None;
    }
    if end_stream {
        pool.release(tx, closed, now);
        return None;
    }
    Some(Http1Permit::new(tx))
}

/// The address that a pool connects to.
pub open spec fn pool_uri(authority: Seq<char>, tls: bool) -> Seq<char> {
    (if tls {
        "https://"@
    } else {
        "http://"@
    }) + authority + "/"@
}

pub fn dst_uri(authority: &Authority, tls: bool) -> (uri: String)
    ensures
        uri@ == pool_uri(authority@, tls),
{
    let mut uri: String = if tls {
        "https://".to_owned()
    } else {
        "http://".to_owned()
    };
    uri.append(authority.as_str());
    uri.append("/");
    uri
}

/// A connection that was released is the next one taken.
pub proof fn law_last_in_first_out(idle: Seq<IdleConn>, tx: u64, now: u64)
    ensures
        idle.push(IdleConn { tx, idle_at: now }).last().tx == tx,
        idle.push(IdleConn { tx, idle_at: now }).drop_last() == idle,
{
    assert(idle.push(IdleConn { tx, idle_at: now }).drop_last() =~= idle);
}

/// Cleaning up makes no connection, and keeps none that is closed or stale.
pub proof fn law_cleanup_keeps_only_fresh(
    idle: Seq<IdleConn>,
    closed: Seq<bool>,
    idle_timeout: u64,
    now: u64,
    conn: IdleConn,
)
    requires
        closed.len() >= idle.len(),
        kept(idle, closed, idle_timeout, now).contains(conn),
    ensures
        exists|i: int| 0 <= i < idle.len() && #[trigger] idle[i] == conn && !closed[i],
        elapsed(conn.idle_at, now) <= idle_timeout,
    decreases idle.len(),
{
    if idle.len() > 0 {
        let front = kept(idle.drop_last(), closed, idle_timeout, now);
        let last = idle.len() - 1;
        if stays(idle.last(), closed[last], idle_timeout, now) && conn == idle.last() {
            assert(idle[last] == conn);
        } else {
            assert(front.contains(conn)) by {
                let all = kept(idle, closed, idle_timeout, now);
                let k = choose|k: int| 0 <= k < all.len() && all[k] == conn;
                assert(front[k] == conn);
            }
            law_cleanup_keeps_only_fresh(idle.drop_last(), closed, idle_timeout, now, conn);
            let i = choose|i: int| 0 <= i < idle.drop_last().len() && #[trigger] idle.drop_last()[i] == conn && !closed[i];
            assert(idle[i] == conn);
        }
    }
}

/// Every open connection that is not stale survives a cleanup.
pub proof fn law_cleanup_drops_only_stale(
    idle: Seq<IdleConn>,
    closed: Seq<bool>,
    idle_timeout: u64,
    now: u64,
    i: int,
)
    requires
        closed.len() >= idle.len(),
        0 <= i < idle.len(),
        stays(idle[i], closed[i], idle_timeout, now),
    ensures
        kept(idle, closed, idle_timeout, now).contains(idle[i]),
    decreases idle.len(),
{
    let front = kept(idle.drop_last(), closed, idle_timeout, now);
    let all = kept(idle, closed, idle_timeout, now);
    if i == idle.len() - 1 {
        assert(all[all.len() - 1] == idle[i]);
    } else {
        assert(idle.drop_last()[i] == idle[i]);
        law_cleanup_drops_only_stale(idle.drop_last(), closed, idle_timeout, now, i);
        let k = choose|k: int| 0 <= k < front.len() && front[k] == idle[i];
        assert(all[k] == idle[i]);
    }
}

/// Cleaning up keeps exactly the connections that are open and have been idle
/// for no longer than they may, in their order.
pub proof fn law_cleanup_is_by_age(idle: Seq<IdleConn>, closed: Seq<bool>, idle_timeout: u64, now: u64, conn: IdleConn)
    requires
        closed.len() >= idle.len(),
    ensures
        kept(idle, closed, idle_timeout, now).contains(conn) <==> exists|i: int|
            0 <= i < idle.len() && #[trigger] idle[i] == conn && !closed[i] && now <= conn.idle_at + idle_timeout,
        kept(idle, closed, idle_timeout, now).len() <= idle.len(),
{
    if kept(idle, closed, idle_timeout, now).contains(conn) {
        law_cleanup_keeps_only_fresh(idle, closed, idle_timeout, now, conn);
    }
    if exists|i: int|
        0 <= i < idle.len() && #[trigger] idle[i] == conn && !closed[i] && now <= conn.idle_at + idle_timeout {
        let i = choose|i: int|
            0 <= i < idle.len() && #[trigger] idle[i] == conn && !closed[i] && now <= conn.idle_at + idle_timeout;
        law_cleanup_drops_only_stale(idle, closed, idle_timeout, now, i);
    }
    lemma_kept_is_no_longer(idle, closed, idle_timeout, now);
}

/// Where all connections are open and fresh, cleaning up changes nothing.
pub proof fn law_cleanup_of_fresh_changes_nothing(idle: Seq<IdleConn>, closed: Seq<bool>, idle_timeout: u64, now: u64)
    requires
        closed.len() >= idle.len(),
        forall|i: int| 0 <= i < idle.len() ==> !(#[trigger] closed[i]),
        forall|i: int| 0 <= i < idle.len() ==> now <= (#[trigger] idle[i]).idle_at + idle_timeout,
    ensures
        kept(idle, closed, idle_timeout, now) == idle,
    decreases idle.len(),
{
    if idle.len() > 0 {
        let front = idle.drop_last();
        assert forall|i: int| 0 <= i < front.len() implies now <= (#[trigger] front[i]).idle_at + idle_timeout by {
            assert(front[i] == idle[i]);
        }
        law_cleanup_of_fresh_changes_nothing(front, closed, idle_timeout, now);
        assert(idle.last() == idle[idle.len() - 1]);
        assert(front.push(idle.last()) =~= idle);
    } else {
        assert(kept(idle, closed, idle_timeout, now) =~= idle);
    }
}

proof fn lemma_kept_is_no_longer(idle: Seq<IdleConn>, closed: Seq<bool>, idle_timeout: u64, now: u64)
    ensures
        kept(idle, closed, idle_timeout, now).len() <= idle.len(),
    decreases idle.len(),
{
    if idle.len() > 0 {
        lemma_kept_is_no_longer(idle.drop_last(), closed, idle_timeout, now);
    }
}

} // verus!
