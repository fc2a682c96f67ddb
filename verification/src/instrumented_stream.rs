//! A stream that counts what goes through it.

use crate::metrics::user::UserMetrics;
use crate::metrics::{count_down, counter_subtracted};
use crate::sharded::{in_range, one_label};
use vstd::prelude::*;

verus! {

/// The kind of an error of the system.
#[derive(Debug, Clone, Copy, PartialEq, Eq, Structural)]
pub enum IoErrorKind {
    AddrNotAvailable,
    ConnectionRefused,
    /// Any other kind, by number.
    Numbered(u64),
}

/// An error of a stream.
#[derive(Debug)]
pub enum IoError {
    /// An error of the operating system, by its number.
    Os(i32),
    /// Any other error: its kind and its text.
    Custom(IoErrorKind, String),
}

impl IoError {
    /// The same error once more.
    pub fn clone_io_error(&self) -> (copied: IoError)
        ensures
            copied == *self,
    {
        match self {
            IoError::Os(code) => IoError::Os(*code),
            IoError::Custom(kind, text) => IoError::Custom(*kind, text.clone()),
        }
    }
}

/// The operation that failed, and how.
#[derive(Debug)]
pub enum ErrorSource {
    Read(IoError),
    Write(IoError),
}

/// What waits for a stream to be flushed, in the order in which it came.
#[derive(Debug)]
pub struct CallbackQueue<T> {
    queue: Vec<T>,
}

impl<T> View for CallbackQueue<T> {
    type V = Seq<T>;

    closed spec fn view(&self) -> Seq<T> {
        self.queue@
    }
}

impl<T> CallbackQueue<T> {
    pub fn new() -> (queue: CallbackQueue<T>)
        ensures
            queue@ == Seq::<T>::empty(),
    {
        CallbackQueue { queue: Vec::new() }
    }

    pub fn push(&mut self, cb: T)
        ensures
            final(self)@ == old(self)@.push(cb),
    {
        self.queue.push(cb);
    }

    /// Takes out all that waits. `None` where nothing waits.
    pub fn drain(&mut self) -> (taken: Option<Vec<T>>)
        ensures
            final(self)@ == Seq::<T>::empty(),
            match taken {
                Some(all) => all@ == old(self)@ && old(self)@.len() > 0,
                None => old(self)@.len() == 0,
            },
    {
        if self.queue.len() == 0 {
            assert(self@ =~= Seq::<T>::empty());
            return None;
        }
        let mut taken: Vec<T> = Vec::new();
        std::mem::swap(&mut taken, &mut self.queue);
        Some(taken)
    }
}

/// What is counted of a stream. Instants are in nanoseconds.
#[derive(Debug)]
pub struct StreamMetrics<C> {
    total_bytes_read: u64,
    total_bytes_written: u64,
    txn_bytes_read_start: u64,
    txn_bytes_written_start: u64,
    raw_clock: u64,
    requests_counter: u64,
    error: Option<ErrorSource>,
    flush_callbacks: CallbackQueue<C>,
    user_partition_key: Option<String>,
}

/// What is counted of a stream, as it is described.
pub ghost struct StreamView<C> {
    pub bytes_read: u64,
    pub bytes_written: u64,
    /// Where the transaction that is under way began.
    pub read_start: u64,
    pub written_start: u64,
    /// When anything last went through.
    pub clock: u64,
    pub requests: u64,
    pub error: Option<ErrorSource>,
    pub waiting: Seq<C>,
    pub user: Option<Seq<char>>,
}

/// What is counted of a stream that is new.
pub open spec fn nothing_through<C>(now: u64) -> StreamView<C> {
    StreamView {
        bytes_read: 0,
        bytes_written: 0,
        read_start: 0,
        written_start: 0,
        clock: now,
        requests: 0,
        error: None,
        waiting: Seq::<C>::empty(),
        user: None,
    }
}

impl<C> View for StreamMetrics<C> {
    type V = StreamView<C>;

    closed spec fn view(&self) -> StreamView<C> {
        StreamView {
            bytes_read: self.total_bytes_read,
            bytes_written: self.total_bytes_written,
            read_start: self.txn_bytes_read_start,
            written_start: self.txn_bytes_written_start,
            clock: self.raw_clock,
            requests: self.requests_counter,
            error: self.error,
            waiting: self.flush_callbacks@,
            user: match self.user_partition_key {
                Some(key) => Some(key@),
                None => None,
            },
        }
    }
}

/// What a stream that ended leaves to do.
#[derive(Debug)]
pub struct StreamEnd<C> {
    /// What waited for a flush.
    pub callbacks: Option<Vec<C>>,
    /// How long nothing had gone through.
    pub idle: u64,
}

impl<C> StreamMetrics<C> {
    pub fn new(now: u64) -> (metrics: StreamMetrics<C>)
        ensures
            metrics@ == nothing_through::<C>(now),
    {
        StreamMetrics {
            total_bytes_read: 0,
            total_bytes_written: 0,
            txn_bytes_read_start: 0,
            txn_bytes_written_start: 0,
            raw_clock: now,
            requests_counter: 0,
            error: None,
            flush_callbacks: CallbackQueue::new(),
            user_partition_key: None,
        }
    }

    /// Adds something to do when the stream is flushed.
    pub fn add_flush_callback(&mut self, cb: C)
        ensures
            final(self)@ == (StreamView { waiting: old(self)@.waiting.push(cb), ..old(self)@ }),
    {
        self.flush_callbacks.push(cb);
    }

    /// What is to do now that the stream is flushed, in the order in which it was added.
    pub fn on_flush(&mut self) -> (callbacks: Option<Vec<C>>)
        ensures
            final(self)@ == (StreamView { waiting: Seq::<C>::empty(), ..old(self)@ }),
            match callbacks {
                Some(all) => all@ == old(self)@.waiting && old(self)@.waiting.len() > 0,
                None => old(self)@.waiting.len() == 0,
            },
    {
        self.flush_callbacks.drain()
    }

    /// The bytes of the transaction that is under way, which ends here.
    pub fn txn_take_metrics(&mut self) -> (taken: (u64, u64))
        ensures
            taken.0 == old(self)@.bytes_read.wrapping_sub(old(self)@.read_start),
            taken.1 == old(self)@.bytes_written.wrapping_sub(old(self)@.written_start),
            final(self)@ == (StreamView {
                read_start: old(self)@.bytes_read,
                written_start: old(self)@.bytes_written,
                ..old(self)@
            }),
    {
        let read: u64 = self.txn_bytes_read();
        let written: u64 = self.txn_bytes_written();
        self.txn_bytes_read_start = self.total_bytes_read;
        self.txn_bytes_written_start = self.total_bytes_written;
        (read, written)
    }

    pub fn txn_bytes_read(&self) -> (n: u64)
        ensures
            n == self@.bytes_read.wrapping_sub(self@.read_start),
    {
        self.total_bytes_read.wrapping_sub(self.txn_bytes_read_start)
    }

    pub fn txn_bytes_written(&self) -> (n: u64)
        ensures
            n == self@.bytes_written.wrapping_sub(self@.written_start),
    {
        self.total_bytes_written.wrapping_sub(self.txn_bytes_written_start)
    }

    pub fn bytes_read(&self) -> (n: u64)
        ensures
            n == self@.bytes_read,
    {
        self.total_bytes_read
    }

    pub fn bytes_written(&self) -> (n: u64)
        ensures
            n == self@.bytes_written,
    {
        self.total_bytes_written
    }

    pub fn requests_counter(&self) -> (n: u64)
        ensures
            n == self@.requests,
    {
        self.requests_counter
    }

    /// Counts a request, and returns how many there were before.
    pub fn inc_requests(&mut self) -> (before: u64)
        ensures
            before == old(self)@.requests,
            final(self)@ == (StreamView { requests: old(self)@.requests.wrapping_add(1), ..old(self)@ }),
    {
        let before: u64 = self.requests_counter;
        self.requests_counter = before.wrapping_add(1);
        before
    }

    pub fn update_raw_clock(&mut self, now: u64)
        ensures
            final(self)@ == (StreamView { clock: now, ..old(self)@ }),
    {
        self.raw_clock = now;
    }

    pub fn set_user_partition_key(&mut self, key: String)
        ensures
            final(self)@ == (StreamView { user: Some(key@), ..old(self)@ }),
    {
        self.user_partition_key = Some(key);
    }

    /// The error that came last.
    pub fn error(&self) -> (error: Option<&IoError>)
        ensures
            error == (match self@.error {
                Some(ErrorSource::Read(e)) => Some(&e),
                Some(ErrorSource::Write(e)) => Some(&e),
                None => None::<&IoError>,
            }),
    {
        match &self.error {
            None => None,
            Some(ErrorSource::Read(e)) => Some(e),
            Some(ErrorSource::Write(e)) => Some(e),
        }
    }

    fn on_read(&mut self, bytes: u64, now: u64)
        ensures
            final(self)@ == after_read(old(self)@, bytes, now),
    {
        if bytes == 0 {
            return;
        }
        self.total_bytes_read = self.total_bytes_read.wrapping_add(bytes);
        self.raw_clock = now;
    }

    fn on_write(&mut self, bytes: u64, now: u64)
        ensures
            final(self)@ == after_write(old(self)@, bytes, now),
    {
        if bytes == 0 {
            return;
        }
        self.total_bytes_written = self.total_bytes_written.wrapping_add(bytes);
        self.raw_clock = now;
    }

    /// Ends the count: what waits for a flush is to be done, and the user has
    /// one active connection less. The idle time is none where the clock went back.
    pub fn finish(&mut self, now: u64, users: &mut UserMetrics, user_label: &str, shard: u64) -> (end: StreamEnd<C>)
        ensures
            match end.callbacks {
                Some(all) => all@ == old(self)@.waiting && old(self)@.waiting.len() > 0,
                None => old(self)@.waiting.len() == 0,
            },
            end.idle == (if now > old(self)@.clock {
                now - old(self)@.clock
            } else {
                0
            }),
            match old(self)@.user {
                Some(user) => {
                    &&& counter_subtracted(
                        old(users).connections_active,
                        final(users).connections_active,
                        1,
                        shard,
                        seq![(user_label@, user)],
                    )
                    &&& *final(users) == (UserMetrics {
                        connections_active: final(users).connections_active,
                        ..*old(users)
                    })
                },
                None => *final(users) == *old(users),
            },
            final(self)@ == (StreamView { waiting: Seq::<C>::empty(), ..old(self)@ }),
    {
        let callbacks: Option<Vec<C>> = self.on_flush();
        let idle: u64 = if now > self.raw_clock {
            now - self.raw_clock
        } else {
            0
        };
        match &self.user_partition_key {
            Some(user) => {
                count_down(&mut users.connections_active, 1, shard, &one_label(user_label, user.as_str()));
            },
            None => {},
        }
        StreamEnd { callbacks, idle }
    }
}

/// What is counted after a read.
pub open spec fn after_read<C>(before: StreamView<C>, bytes: u64, now: u64) -> StreamView<C> {
    if bytes == 0 {
        before
    } else {
        StreamView { bytes_read: before.bytes_read.wrapping_add(bytes), clock: now, ..before }
    }
}

/// What is counted after a write.
pub open spec fn after_write<C>(before: StreamView<C>, bytes: u64, now: u64) -> StreamView<C> {
    if bytes == 0 {
        before
    } else {
        StreamView { bytes_written: before.bytes_written.wrapping_add(bytes), clock: now, ..before }
    }
}

/// What came of an operation on a stream: nothing yet, a result, or an error.
#[derive(Debug)]
pub enum PollResult<T> {
    Pending,
    Ready(T),
    Failed(IoError),
}

/// An operation on a stream and what came of it. Reads and writes come with
/// the instant at which they were noted.
pub ghost enum StreamPoll {
    BeforeRead,
    Read(PollResult<u64>, u64),
    Write(PollResult<u64>, u64),
    /// A flush or a shutdown.
    Flush(PollResult<()>),
}

/// The error of an operation that failed.
pub open spec fn failure_of(poll: StreamPoll) -> Option<ErrorSource> {
    match poll {
        StreamPoll::Read(PollResult::Failed(e), _) => Some(ErrorSource::Read(e)),
        StreamPoll::Write(PollResult::Failed(e), _) => Some(ErrorSource::Write(e)),
        StreamPoll::Flush(PollResult::Failed(e)) => Some(ErrorSource::Write(e)),
        _ => None,
    }
}

/// What is counted after an operation.
pub open spec fn after_poll<C>(before: StreamView<C>, poll: StreamPoll) -> StreamView<C> {
    if failure_of(poll) is Some {
        StreamView { error: failure_of(poll), ..before }
    } else {
        match poll {
            StreamPoll::Read(PollResult::Ready(bytes), now) => after_read(before, bytes, now),
            StreamPoll::Write(PollResult::Ready(bytes), now) => after_write(before, bytes, now),
            StreamPoll::BeforeRead | StreamPoll::Flush(PollResult::Ready(_)) => StreamView {
                waiting: Seq::<C>::empty(),
                ..before
            },
            _ => before,
        }
    }
}

/// What is counted after some operations.
pub open spec fn after_polls<C>(before: StreamView<C>, polls: Seq<StreamPoll>) -> StreamView<C>
    decreases polls.len(),
{
    if polls.len() == 0 {
        before
    } else {
        after_poll(after_polls(before, polls.drop_last()), polls.last())
    }
}

/// A stream that counts what goes through it.
#[derive(Debug)]
pub struct InstrumentedStream<S, C> {
    inner: S,
    metrics: StreamMetrics<C>,
}

impl<S, C> InstrumentedStream<S, C> {
    pub closed spec fn spec_inner(&self) -> S {
        self.inner
    }

    pub closed spec fn counts(&self) -> StreamView<C> {
        self.metrics@
    }

    pub fn new(inner: S, now: u64) -> (stream: InstrumentedStream<S, C>)
        ensures
            stream.spec_inner() == inner,
            stream.counts() == nothing_through::<C>(now),
    {
        InstrumentedStream { inner, metrics: StreamMetrics::new(now) }
    }

    pub fn into_inner(self) -> (inner: S)
        ensures
            inner == self.spec_inner(),
    {
        self.inner
    }

    /// The error that came last.
    pub fn error(&self) -> (error: Option<&IoError>)
        ensures
            error == (match self.counts().error {
                Some(ErrorSource::Read(e)) => Some(&e),
                Some(ErrorSource::Write(e)) => Some(&e),
                None => None::<&IoError>,
            }),
    {
        self.metrics.error()
    }

    pub fn metrics(&self) -> (metrics: &StreamMetrics<C>)
        ensures
            metrics@ == self.counts(),
    {
        &self.metrics
    }

    /// What waits for a flush is to be done before the stream is read.
    pub fn before_read(&mut self) -> (callbacks: Option<Vec<C>>)
        ensures
            final(self).spec_inner() == old(self).spec_inner(),
            final(self).counts() == after_poll(old(self).counts(), StreamPoll::BeforeRead),
            match callbacks {
                Some(all) => all@ == old(self).counts().waiting && old(self).counts().waiting.len() > 0,
                None => old(self).counts().waiting.len() == 0,
            },
    {
        self.metrics.on_flush()
    }

    /// Takes note of what came of a read: how many bytes, or an error.
    pub fn poll_read(&mut self, res: &PollResult<u64>, now: u64)
        ensures
            final(self).spec_inner() == old(self).spec_inner(),
            final(self).counts() == after_poll(old(self).counts(), StreamPoll::Read(*res, now)),
    {
        match res {
            PollResult::Ready(bytes) => self.metrics.on_read(*bytes, now),
            PollResult::Failed(e) => {
                self.metrics.error = Some(ErrorSource::Read(e.clone_io_error()));
            },
            PollResult::Pending => {},
        }
    }

    /// Takes note of what came of a write, of one buffer or of several.
    pub fn poll_write(&mut self, res: &PollResult<u64>, now: u64)
        ensures
            final(self).spec_inner() == old(self).spec_inner(),
            final(self).counts() == after_poll(old(self).counts(), StreamPoll::Write(*res, now)),
    {
        match res {
            PollResult::Ready(bytes) => self.metrics.on_write(*bytes, now),
            PollResult::Failed(e) => {
                self.metrics.error = Some(ErrorSource::Write(e.clone_io_error()));
            },
            PollResult::Pending => {},
        }
    }

    /// Takes note of what came of a flush or a shutdown. Once it is done, what
    /// waited for it is to be done.
    pub fn poll_flush(&mut self, res: &PollResult<()>) -> (callbacks: Option<Vec<C>>)
        ensures
            final(self).spec_inner() == old(self).spec_inner(),
            final(self).counts() == after_poll(old(self).counts(), StreamPoll::Flush(*res)),
            match callbacks {
                Some(all) => res is Ready && all@ == old(self).counts().waiting && all@.len() > 0,
                None => res is Ready ==> old(self).counts().waiting.len() == 0,
            },
    {
        match res {
            PollResult::Ready(_) => self.metrics.on_flush(),
            PollResult::Failed(e) => {
                self.metrics.error = Some(ErrorSource::Write(e.clone_io_error()));
                None
            },
            PollResult::Pending => None,
        }
    }
}

/// The bytes that some operations read.
pub open spec fn bytes_in(polls: Seq<StreamPoll>) -> int
    decreases polls.len(),
{
    if polls.len() == 0 {
        0
    } else {
        bytes_in(polls.drop_last()) + match polls.last() {
            StreamPoll::Read(PollResult::Ready(bytes), _) => bytes as int,
            _ => 0,
        }
    }
}

/// The bytes that some operations wrote.
pub open spec fn bytes_out(polls: Seq<StreamPoll>) -> int
    decreases polls.len(),
{
    if polls.len() == 0 {
        0
    } else {
        bytes_out(polls.drop_last()) + match polls.last() {
            StreamPoll::Write(PollResult::Ready(bytes), _) => bytes as int,
            _ => 0,
        }
    }
}

/// A transaction counts the bytes that were read and written since it began,
/// and no others, over any sequence of operations. Counts are kept within
/// their range.
pub proof fn law_transaction_counts_its_bytes<C>(before: StreamView<C>, polls: Seq<StreamPoll>)
    requires
        before.read_start == before.bytes_read,
        before.written_start == before.bytes_written,
    ensures
        ({
            let after = after_polls(before, polls);
            &&& after.bytes_read.wrapping_sub(after.read_start) == in_range(bytes_in(polls))
            &&& after.bytes_written.wrapping_sub(after.written_start) == in_range(bytes_out(polls))
        }),
{
    lemma_bytes_over_polls(before, polls);
}

/// What operations read and wrote is added to the counts.
proof fn lemma_bytes_over_polls<C>(before: StreamView<C>, polls: Seq<StreamPoll>)
    ensures
        ({
            let after = after_polls(before, polls);
            &&& after.bytes_read == in_range(before.bytes_read + bytes_in(polls))
            &&& after.bytes_written == in_range(before.bytes_written + bytes_out(polls))
            &&& after.read_start == before.read_start
            &&& after.written_start == before.written_start
        }),
    decreases polls.len(),
{
    if polls.len() > 0 {
        lemma_bytes_over_polls(before, polls.drop_last());
    }
}

/// Over any sequence of operations, the error of a stream is that of the
/// operation that failed last.
pub proof fn law_last_failure_is_kept<C>(before: StreamView<C>, polls: Seq<StreamPoll>, at: int)
    requires
        0 <= at < polls.len(),
        failure_of(polls[at]) is Some,
        forall|k: int| at < k < polls.len() ==> failure_of(#[trigger] polls[k]) is None,
    ensures
        after_polls(before, polls).error == failure_of(polls[at]),
    decreases polls.len(),
{
    if at < polls.len() - 1 {
        assert(failure_of(polls[polls.len() - 1]) is None);
        law_last_failure_is_kept(before, polls.drop_last(), at);
    }
}

/// Over any sequence of operations of which none failed, the error of a
/// stream stays what it was.
pub proof fn law_no_failure_no_error<C>(before: StreamView<C>, polls: Seq<StreamPoll>)
    requires
        forall|k: int| 0 <= k < polls.len() ==> failure_of(#[trigger] polls[k]) is None,
    ensures
        after_polls(before, polls).error == before.error,
    decreases polls.len(),
{
    if polls.len() > 0 {
        assert(failure_of(polls[polls.len() - 1]) is None);
        law_no_failure_no_error(before, polls.drop_last());
    }
}

/// Reading or writing nothing leaves every count as it was.
pub proof fn law_nothing_counts_for_nothing<C>(before: StreamView<C>, now: u64)
    ensures
        after_read(before, 0, now) == before,
        after_write(before, 0, now) == before,
{
}

} // verus!
