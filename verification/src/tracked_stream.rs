//! A stream that remembers on which side it failed.

use vstd::prelude::*;

verus! {

/// The operation that failed last.
#[derive(Debug, Clone, Copy, PartialEq, Eq, Structural)]
pub enum ErrorSource {
    NoError,
    Read,
    Write,
}

/// What came of an operation on a stream.
#[derive(Debug, Clone, Copy, PartialEq, Eq, Structural)]
pub enum PollOutcome {
    Pending,
    Ready,
    Failed,
}

/// A stream that remembers on which side it failed.
#[derive(Debug)]
pub struct TrackedStream<T> {
    pub inner: T,
    pub error_source: ErrorSource,
}

impl<T> TrackedStream<T> {
    pub fn new(inner: T) -> (stream: TrackedStream<T>)
        ensures
            stream.inner == inner,
            stream.error_source == ErrorSource::NoError,
    {
        TrackedStream { inner, error_source: ErrorSource::NoError }
    }

    /// Takes note of what came of a read.
    pub fn poll_read(&mut self, outcome: PollOutcome)
        ensures
            final(self).inner == old(self).inner,
            final(self).error_source == (if outcome == PollOutcome::Failed {
                ErrorSource::Read
            } else {
                old(self).error_source
            }),
    {
        if outcome == PollOutcome::Failed {
            self.error_source = ErrorSource::Read;
        }
    }

    /// Takes note of what came of a write, a flush or a shutdown.
    pub fn poll_write(&mut self, outcome: PollOutcome)
        ensures
            final(self).inner == old(self).inner,
            final(self).error_source == (if outcome == PollOutcome::Failed {
                ErrorSource::Write
            } else {
                old(self).error_source
            }),
    {
        if outcome == PollOutcome::Failed {
            self.error_source = ErrorSource::Write;
        }
    }
}

} // verus!
