//! What happened in TLS handshakes.

use crate::metrics::Metric;
use crate::sharded::{Clearable, ShardedU64};
use vstd::prelude::*;

verus! {

/// What happened in TLS handshakes.
pub struct TlsMetrics {
    pub handshakes: Option<Metric<ShardedU64>>,
}

/// Whether no metric is set up.
pub open spec fn unset(metrics: TlsMetrics) -> bool {
    metrics.handshakes is None
}

impl Default for TlsMetrics {
    fn default() -> (metrics: TlsMetrics)
        ensures
            unset(metrics),
    {
        TlsMetrics { handshakes: None }
    }
}

/// Whether the metric is back at its beginning, and described as before.
pub open spec fn was_reset(before: TlsMetrics, after: TlsMetrics) -> bool {
    after.handshakes.is_clear() && after.handshakes.same_kind(&before.handshakes)
}

/// Sets the metric back to its beginning.
pub fn reset_metrics(metrics: &mut TlsMetrics)
    ensures
        was_reset(*old(metrics), *final(metrics)),
{
    metrics.handshakes.clear();
}

} // verus!
