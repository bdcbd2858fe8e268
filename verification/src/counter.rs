//! A monotonically increasing event counter.
//!
//! A [`StdCounter`] is a cloneable handle to one shared atomic value, so the
//! application and the registry can both hold it while writers update it
//! lock-free.  A concurrent atomic carries no value the verifier could pin
//! down, so the sequential meaning of the operations is stated by the
//! `spec_counter_*` functions and the laws below, and the handle methods
//! promise atomicity only, as the design asks.

use core::sync::atomic::AtomicUsize;
use core::sync::atomic::Ordering;
use std::sync::Arc;
use vstd::prelude::*;

verus! {

/// One more than the largest counter value: the modulus at which the
/// machine-word atomic wraps.
pub open spec fn spec_word_modulus() -> nat {
    (usize::MAX + 1) as nat
}

/// The value a counter shows after `add(n)` ran on value `value`:
/// the sum, wrapping at the machine word as the atomic does.
pub open spec fn spec_counter_add(value: nat, n: nat) -> nat {
    (value + n) % spec_word_modulus()
}

/// The value a counter shows after `inc` ran on value `value`.
pub open spec fn spec_counter_inc(value: nat) -> nat {
    spec_counter_add(value, 1)
}

/// The value a counter shows after `clear` ran.
pub open spec fn spec_counter_clear() -> nat {
    0
}

/// A shared handle to an atomic counter value; clones share the value.
#[derive(Clone, Debug)]
pub struct StdCounter {
    value: Arc<AtomicUsize>,
}

/// A snapshot of the current value of a counter.
#[derive(Clone, Copy, Debug)]
pub struct CounterSnapshot {
    /// The snapshot of the counter value.
    pub value: usize,
}

impl StdCounter {
    /// Creates a new counter holding zero.
    pub fn new() -> StdCounter {
        StdCounter { value: Arc::new(AtomicUsize::new(0)) }
    }

    /// Clears the counter, setting the shared value to `0`.
    pub fn clear(&self) {
        self.value.store(0, Ordering::Relaxed);
    }

    /// Increments the shared value by 1, atomically and wrapping.
    pub fn inc(&self) {
        self.value.fetch_add(1, Ordering::Relaxed);
    }

    /// Increments the shared value by `value`, atomically and wrapping.
    pub fn add(&self, value: usize) {
        self.value.fetch_add(value, Ordering::Relaxed);
    }

    /// Takes a snapshot of the current value with a single atomic read; the
    /// snapshot is a plain value and is never affected by later updates.
    pub fn snapshot(&self) -> CounterSnapshot {
        CounterSnapshot { value: self.value.load(Ordering::Relaxed) }
    }
}

/// A fresh counter holds zero, so for every `n` that fits the machine word,
/// `add(n)` right after `new()` shows exactly `n`.
pub proof fn lemma_add_to_fresh_counter_is_exact(n: nat)
    requires
        n <= usize::MAX,
    ensures
        spec_counter_add(spec_counter_clear(), n) == n,
{
    vstd::arithmetic::div_mod::lemma_small_mod(n, spec_word_modulus());
}

/// `inc` means exactly `add(1)`, from any counter value.
pub proof fn lemma_inc_is_add_one(value: nat)
    ensures
        spec_counter_inc(value) == spec_counter_add(value, 1),
{
}

} // verus!
