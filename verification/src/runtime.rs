//! The runtimes that the proxy works on.

use crate::text::{append_decimal, decimal, decimal_string};
use vstd::prelude::*;

verus! {

/// The number of a runtime.
#[derive(Debug, Clone, Copy, PartialEq, Eq, Hash, Structural)]
pub struct RuntimeId(pub usize);

impl RuntimeId {
    /// The text of the number.
    pub fn text(&self) -> (text: String)
        ensures
            text@ == decimal(self.0 as nat),
    {
        decimal_string(self.0 as u64)
    }

    pub fn get(&self) -> (id: usize)
        ensures
            id == self.0,
    {
        self.0
    }
}

/// How many workers a runtime has: at least one.
pub fn worker_threads(num_threads: usize) -> (n: usize)
    ensures
        n == (if num_threads == 0 {
            1
        } else {
            num_threads
        }),
{
    if num_threads == 0 {
        1
    } else {
        num_threads
    }
}

/// The name of a worker: that of the runtime, with the number of the worker
/// where there are several.
pub open spec fn worker_name(thread_name: Seq<char>, num_threads: usize, worker_id: usize) -> Seq<char> {
    if num_threads <= 1 {
        thread_name
    } else {
        thread_name + "_"@ + decimal(worker_id as nat)
    }
}

/// The name of a worker.
pub fn worker_thread_name(thread_name: &str, num_threads: usize, worker_id: usize) -> (name: String)
    ensures
        name@ == worker_name(thread_name@, num_threads, worker_id),
{
    let mut name: String = thread_name.to_owned();
    if worker_threads(num_threads) > 1 {
        name.append("_");
        append_decimal(&mut name, worker_id as u64);
    }
    name
}

} // verus!
