//! What the server tells of itself.

use crate::token_bucket::MAX_INSTANT;
use vstd::prelude::*;

verus! {

/// Where the server is in its life.
#[derive(Debug, Clone, Copy, PartialEq, Eq, Structural)]
pub enum ProxyState {
    Initializing,
    Draining,
    PreInitializing,
    Live,
}

impl Default for ProxyState {
    fn default() -> (state: ProxyState)
        ensures
            state == ProxyState::Initializing,
    {
        ProxyState::Initializing
    }
}

/// When the server started, in nanoseconds, and what it has said of its state.
#[derive(Debug, Clone, Copy, PartialEq, Eq, Structural)]
pub struct ServerStats {
    pub startup_time: Option<u128>,
    pub proxy_state: Option<ProxyState>,
}

impl Default for ServerStats {
    fn default() -> (stats: ServerStats)
        ensures
            stats == (ServerStats { startup_time: None, proxy_state: None }),
    {
        ServerStats { startup_time: None, proxy_state: None }
    }
}

/// What is known of a server that says it started now.
pub open spec fn started(stats: ServerStats, now: u128) -> ServerStats {
    ServerStats {
        startup_time: match stats.startup_time {
            Some(at) => Some(at),
            None => Some(now),
        },
        proxy_state: stats.proxy_state,
    }
}

/// Notes when the server started. Only the first call counts.
pub fn init_startup_time(stats: &mut ServerStats, now: u128)
    ensures
        *final(stats) == started(*old(stats), now),
{
    if stats.startup_time.is_none() {
        stats.startup_time = Some(now);
    }
}

pub fn get_startup_time(stats: &ServerStats) -> (at: Option<u128>)
    ensures
        at == stats.startup_time,
{
    stats.startup_time
}

pub fn set_proxy_state(stats: &mut ServerStats, state: ProxyState)
    ensures
        *final(stats) == (ServerStats { startup_time: old(stats).startup_time, proxy_state: Some(state) }),
{
    stats.proxy_state = Some(state);
}

pub fn get_proxy_state(stats: &ServerStats) -> (state: Option<ProxyState>)
    ensures
        state == stats.proxy_state,
{
    stats.proxy_state
}

/// Nanoseconds in a second.
pub const SECOND: u128 = 1_000_000_000;

/// For how many whole seconds a server has been up: none before it noted when
/// it started.
pub open spec fn uptime(stats: ServerStats, now: u128) -> nat {
    match stats.startup_time {
        Some(at) => if now > at {
            ((now - at) / SECOND as int) as nat
        } else {
            0
        },
        None => 0,
    }
}

/// For how many whole seconds the server has been up.
pub fn server_uptime(stats: &ServerStats, now: u128) -> (secs: u64)
    requires
        now <= MAX_INSTANT,
    ensures
        secs == uptime(*stats, now),
{
    match stats.startup_time {
        Some(at) => {
            if now > at {
                ((now - at) / SECOND) as u64
            } else {
                0
            }
        },
        None => 0,
    }
}

/// `memory_stats::memory_stats`: the physical memory of the process in bytes,
/// where the machine tells. Nothing is promised of the number.
#[verifier::external_body]
pub fn get_memory_physical_size() -> (size: Option<usize>) {
    memory_stats::memory_stats().map(|stats| stats.physical_mem)
}

/// `tikv_jemalloc_ctl::stats::allocated`, after `tikv_jemalloc_ctl::epoch::advance`
/// has brought the numbers up to date: the bytes that are allocated on the heap,
/// where the allocator tells. Nothing is promised of the number.
#[verifier::external_body]
pub fn get_memory_allocated() -> (size: Option<usize>) {
    tikv_jemalloc_ctl::epoch::advance().ok()?;
    tikv_jemalloc_ctl::stats::allocated::mib().ok()?.read().ok()
}

/// `tikv_jemalloc_ctl::stats::active`, after `tikv_jemalloc_ctl::epoch::advance`
/// has brought the numbers up to date: the bytes in the pages of the heap, where
/// the allocator tells. Nothing is promised of the number.
#[verifier::external_body]
pub fn get_memory_heap_size() -> (size: Option<usize>) {
    tikv_jemalloc_ctl::epoch::advance().ok()?;
    tikv_jemalloc_ctl::stats::active::mib().ok()?.read().ok()
}

/// The memory that the server uses, in bytes.
#[derive(Debug, Clone, Copy, PartialEq, Eq, Structural)]
pub struct MemoryReport {
    pub physical: u64,
    pub heap_size: u64,
    pub allocated: u64,
}

/// The report on the memory. What the allocator does not tell is taken to be
/// the physical memory.
pub open spec fn reported(physical: Option<usize>, heap_size: Option<usize>, allocated: Option<usize>) -> MemoryReport {
    let physical = match physical {
        Some(bytes) => bytes as u64,
        None => 0,
    };
    MemoryReport {
        physical,
        heap_size: match heap_size {
            Some(bytes) => bytes as u64,
            None => physical,
        },
        allocated: match allocated {
            Some(bytes) => bytes as u64,
            None => physical,
        },
    }
}

/// The report on the memory.
pub fn memory_report_of(physical: Option<usize>, heap_size: Option<usize>, allocated: Option<usize>) -> (report:
    MemoryReport)
    ensures
        report == reported(physical, heap_size, allocated),
{
    let physical: u64 = match physical {
        Some(bytes) => bytes as u64,
        None => 0,
    };
    MemoryReport {
        physical,
        heap_size: match heap_size {
            Some(bytes) => bytes as u64,
            None => physical,
        },
        allocated: match allocated {
            Some(bytes) => bytes as u64,
            None => physical,
        },
    }
}

/// The report on the memory as it is now.
pub fn memory_report() -> (report: MemoryReport)
    ensures
        exists|physical: Option<usize>, heap_size: Option<usize>, allocated: Option<usize>|
            report == #[trigger] reported(physical, heap_size, allocated),
{
    let physical: Option<usize> = get_memory_physical_size();
    let heap_size: Option<usize> = get_memory_heap_size();
    memory_report_of(physical, heap_size, get_memory_allocated())
}

/// The time of the start never changes once it is noted.
pub proof fn law_startup_time_is_kept(stats: ServerStats, first: u128, second: u128)
    ensures
        started(started(stats, first), second) == started(stats, first),
{
}

/// The uptime is the whole seconds that have passed since the first start was
/// told, and nothing before that.
pub proof fn law_uptime_counts_from_the_first_start(stats: ServerStats, first: u128, second: u128, now: u128)
    requires
        stats.startup_time is None,
        now >= first,
    ensures
        ({
            let up = uptime(started(started(stats, first), second), now);
            up * 1_000_000_000 <= now - first < (up + 1) * 1_000_000_000
        }),
        uptime(stats, now) == 0,
        started(stats, first).proxy_state == stats.proxy_state,
{
}

/// A size that is known is reported as it is; one of the heap that is not
/// known is told by the physical size, which counts as nothing if it is not known.
pub proof fn law_known_sizes_are_reported(
    physical: Option<usize>,
    heap_size: Option<usize>,
    allocated: Option<usize>,
)
    ensures
        ({
            let report = reported(physical, heap_size, allocated);
            &&& physical is Some ==> report.physical == physical->0
            &&& physical is None ==> report.physical == 0
            &&& heap_size is Some ==> report.heap_size == heap_size->0
            &&& heap_size is None ==> report.heap_size == report.physical
            &&& allocated is Some ==> report.allocated == allocated->0
            &&& allocated is None ==> report.allocated == report.physical
        }),
{
}

} // verus!
