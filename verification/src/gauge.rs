//! A gauge: a numeric value that can arbitrarily go up and down.
//!
//! A [`StdGauge`] is a cloneable handle to one shared atomic value, like
//! [`crate::counter::StdCounter`].  The sequential meaning of the operations
//! is stated by the `spec_gauge_*` functions and the law below; the handle
//! methods promise atomicity only.

use core::sync::atomic::AtomicIsize;
use core::sync::atomic::Ordering;
use std::sync::Arc;
use vstd::prelude::*;

verus! {

/// The value a gauge shows after `set(x)`: exactly `x`, whatever it held.
pub open spec fn spec_gauge_set(value: int, x: int) -> int {
    x
}

/// The value a snapshot taken at gauge value `value` holds, now and forever:
/// a snapshot is a plain copied value, so later mutation cannot reach it.
pub open spec fn spec_gauge_snapshot(value: int) -> int {
    value
}

/// A shared handle to an atomic gauge value; clones share the value.
#[derive(Clone, Debug)]
pub struct StdGauge {
    value: Arc<AtomicIsize>,
}

/// A snapshot of the value of a gauge.
#[derive(Clone, Copy, Debug)]
pub struct GaugeSnapshot {
    /// The snapshot of the gauge value.
    pub value: isize,
}

impl StdGauge {
    /// Creates a new gauge holding zero.
    pub fn new() -> StdGauge {
        StdGauge { value: Arc::new(AtomicIsize::new(0)) }
    }

    /// Increments the shared value by 1, atomically and wrapping.
    pub fn inc(&self) {
        self.value.fetch_add(1, Ordering::Relaxed);
    }

    /// Decrements the shared value by 1, atomically and wrapping.
    pub fn dec(&self) {
        self.value.fetch_sub(1, Ordering::Relaxed);
    }

    /// Increments the shared value by `value`, atomically and wrapping.
    pub fn add(&self, value: isize) {
        self.value.fetch_add(value, Ordering::Relaxed);
    }

    /// Decrements the shared value by `value`, atomically and wrapping.
    pub fn sub(&self, value: isize) {
        self.value.fetch_sub(value, Ordering::Relaxed);
    }

    /// Sets the shared value to `value` with a single atomic write.
    pub fn set(&self, value: isize) {
        self.value.store(value, Ordering::Relaxed);
    }

    /// Takes a snapshot of the current value with a single atomic read; the
    /// snapshot is a plain value and is never affected by later updates.
    pub fn snapshot(&self) -> GaugeSnapshot {
        GaugeSnapshot { value: self.value.load(Ordering::Relaxed) }
    }
}

/// A snapshot taken before a `set` still shows the earlier value: the
/// snapshot's content is fixed at the value read, and a later `set` replaces
/// only the shared value, for any pair of values.
pub proof fn lemma_snapshot_unaffected_by_later_set(before: int, x: int)
    ensures
        spec_gauge_snapshot(before) == before,
        spec_gauge_set(before, x) == x,
{
}

} // verus!
