//! A meter: an event count plus decayed rate estimates over one, five and
//! fifteen minute windows.
//!
//! The verified core is [`MeterData`], whose methods carry exact contracts.
//! A [`StdMeter`] is a cloneable handle sharing one `MeterData` behind a
//! reader-writer lock whose invariant is [`MeterData::wf`]; every mutation
//! through a handle is proved to preserve that invariant.  What a handle
//! reads depends on concurrent writers, so its contracts say only that the
//! result was produced from some well-formed state, as the design asks.

use crate::ewma::EWMA;
use crate::ewma::RATE_SCALE;
use crate::ewma::Window;
use crate::ewma::ALPHA_FIFTEEN_MINUTES;
use crate::ewma::ALPHA_FIVE_MINUTES;
use crate::ewma::ALPHA_ONE_MINUTE;
use crate::ewma::sat_add_u64;
use crate::ewma::spec_rate_after_tick;
use std::sync::Arc;
use vstd::prelude::*;
use vstd::rwlock::RwLock;
use vstd::rwlock::RwLockPredicate;

verus! {

/// A snapshot of a meter: the count, the three window rates in fixed point,
/// and the mean rate since start in fixed point.
#[derive(Clone, Copy, Debug)]
pub struct MeterSnapshot {
    /// Events counted so far; never negative.
    pub count: i64,
    /// The one, five and fifteen minute rates, in `RATE_SCALE` units per second.
    pub rates: [u64; 3],
    /// The mean rate since start, in `RATE_SCALE` units per second.
    pub mean: u64,
}

/// The number of events `mark(n)` feeds into each window average: `n`,
/// clamped to what the accumulator argument can carry.
pub open spec fn spec_mark_step(n: i64) -> u64
    recommends
        0 <= n,
{
    if n <= usize::MAX {
        n as u64
    } else {
        usize::MAX as u64
    }
}

/// The mean rate of `count` events over `elapsed_ms` milliseconds, in
/// `RATE_SCALE` units per second; zero while nothing was counted or no time
/// has passed, so it is total.
pub open spec fn spec_mean(count: i64, elapsed_ms: u64) -> u64
    recommends
        0 <= count,
{
    if count == 0 || elapsed_ms == 0 {
        0
    } else if count * RATE_SCALE * 1000 / (elapsed_ms as int) > u64::MAX {
        u64::MAX
    } else {
        (count * RATE_SCALE * 1000 / (elapsed_ms as int)) as u64
    }
}

/// The state shared by all handles to one meter.
#[derive(Clone, Debug)]
pub struct MeterData {
    /// Events counted so far; never negative.
    pub count: i64,
    /// The one-minute window average.
    pub m1: EWMA,
    /// The five-minute window average.
    pub m5: EWMA,
    /// The fifteen-minute window average.
    pub m15: EWMA,
}

impl MeterData {
    /// The count is non-negative and each window average carries the decay
    /// factor of its window.
    pub open spec fn wf(&self) -> bool {
        &&& 0 <= self.count
        &&& self.m1.wf()
        &&& self.m1.spec_alpha() == ALPHA_ONE_MINUTE
        &&& self.m5.wf()
        &&& self.m5.spec_alpha() == ALPHA_FIVE_MINUTES
        &&& self.m15.wf()
        &&& self.m15.spec_alpha() == ALPHA_FIFTEEN_MINUTES
    }

    /// The window average a given window selects.
    pub open spec fn spec_window(&self, window: Window) -> EWMA {
        match window {
            Window::OneMinute => self.m1,
            Window::FiveMinutes => self.m5,
            Window::FifteenMinutes => self.m15,
        }
    }

    /// Whether `s` is the snapshot of this state at `elapsed_ms`.
    pub open spec fn spec_snapshot_is(&self, elapsed_ms: u64, s: MeterSnapshot) -> bool {
        &&& s.count == self.count
        &&& s.rates@.len() == 3
        &&& s.rates@[0] == self.m1.spec_rate()
        &&& s.rates@[1] == self.m5.spec_rate()
        &&& s.rates@[2] == self.m15.spec_rate()
        &&& s.mean == spec_mean(self.count, elapsed_ms)
    }

    /// A fresh meter state: nothing counted, every rate zero.
    pub fn new() -> (d: MeterData)
        ensures
            d.wf(),
            d.count == 0,
            d.m1.spec_rate() == 0 && !d.m1.spec_init() && d.m1.spec_uncounted() == 0,
            d.m5.spec_rate() == 0 && !d.m5.spec_init() && d.m5.spec_uncounted() == 0,
            d.m15.spec_rate() == 0 && !d.m15.spec_init() && d.m15.spec_uncounted() == 0,
    {
        MeterData {
            count: 0,
            m1: EWMA::new(Window::OneMinute),
            m5: EWMA::new(Window::FiveMinutes),
            m15: EWMA::new(Window::FifteenMinutes),
        }
    }

    /// Counts `n` events: the count grows by `n` (saturating at `i64::MAX`)
    /// and each window accumulator takes the events; no rate changes until
    /// the next tick.
    pub fn mark(&mut self, n: i64)
        requires
            old(self).wf(),
            0 <= n,
        ensures
            final(self).wf(),
            final(self).count == if old(self).count + n <= i64::MAX {
                old(self).count + n
            } else {
                i64::MAX as int
            },
            final(self).count >= old(self).count,
            final(self).m1.spec_uncounted() == sat_add_u64(
                old(self).m1.spec_uncounted(),
                spec_mark_step(n),
            ),
            final(self).m5.spec_uncounted() == sat_add_u64(
                old(self).m5.spec_uncounted(),
                spec_mark_step(n),
            ),
            final(self).m15.spec_uncounted() == sat_add_u64(
                old(self).m15.spec_uncounted(),
                spec_mark_step(n),
            ),
            final(self).m1.spec_rate() == old(self).m1.spec_rate(),
            final(self).m5.spec_rate() == old(self).m5.spec_rate(),
            final(self).m15.spec_rate() == old(self).m15.spec_rate(),
            final(self).m1.spec_init() == old(self).m1.spec_init(),
            final(self).m5.spec_init() == old(self).m5.spec_init(),
            final(self).m15.spec_init() == old(self).m15.spec_init(),
    {
        if self.count <= i64::MAX - n {
            self.count = self.count + n;
        } else {
            self.count = i64::MAX;
        }
        let step: usize = if (n as u64) <= (usize::MAX as u64) {
            n as usize
        } else {
            usize::MAX
        };
        self.m1.update(step);
        self.m5.update(step);
        self.m15.update(step);
    }

    /// Ticks all three window averages once.
    pub fn tick(&mut self)
        requires
            old(self).wf(),
        ensures
            final(self).wf(),
            final(self).count == old(self).count,
            final(self).m1.spec_rate() == spec_rate_after_tick(
                old(self).m1,
                old(self).m1.spec_uncounted(),
            ),
            final(self).m5.spec_rate() == spec_rate_after_tick(
                old(self).m5,
                old(self).m5.spec_uncounted(),
            ),
            final(self).m15.spec_rate() == spec_rate_after_tick(
                old(self).m15,
                old(self).m15.spec_uncounted(),
            ),
            final(self).m1.spec_uncounted() == 0,
            final(self).m5.spec_uncounted() == 0,
            final(self).m15.spec_uncounted() == 0,
            final(self).m1.spec_init(),
            final(self).m5.spec_init(),
            final(self).m15.spec_init(),
    {
        self.m1.tick();
        self.m5.tick();
        self.m15.tick();
    }

    /// The mean rate since start, given the elapsed wall time in milliseconds.
    pub fn mean(&self, elapsed_ms: u64) -> (r: u64)
        requires
            self.wf(),
        ensures
            r == spec_mean(self.count, elapsed_ms),
    {
        if self.count == 0 || elapsed_ms == 0 {
            0
        } else {
            proof {
                assert(0 <= (self.count as int) * (RATE_SCALE as int) * 1000 <= u128::MAX)
                    by (nonlinear_arith)
                    requires
                        0 <= self.count <= i64::MAX,
                ;
            }
            let scaled: u128 = (self.count as u128) * (RATE_SCALE as u128) * 1000;
            let wide: u128 = scaled / (elapsed_ms as u128);
            if wide > (u64::MAX as u128) {
                u64::MAX
            } else {
                wide as u64
            }
        }
    }

    /// The snapshot of this state at `elapsed_ms`.
    pub fn snapshot(&self, elapsed_ms: u64) -> (s: MeterSnapshot)
        requires
            self.wf(),
        ensures
            self.spec_snapshot_is(elapsed_ms, s),
    {
        MeterSnapshot {
            count: self.count,
            rates: [self.m1.rate(), self.m5.rate(), self.m15.rate()],
            mean: self.mean(elapsed_ms),
        }
    }
}

/// The lock invariant of a shared meter: the guarded state is well formed.
pub struct MeterLockInv {}

impl RwLockPredicate<MeterData> for MeterLockInv {
    open spec fn inv(self, v: MeterData) -> bool {
        v.wf()
    }
}

/// A shared handle to one meter; clones share the state.
#[derive(Clone)]
pub struct StdMeter {
    data: Arc<RwLock<MeterData, MeterLockInv>>,
}

impl StdMeter {
    /// Creates a new meter with nothing counted and every rate zero.
    pub fn new() -> StdMeter {
        let d = MeterData::new();
        let lock = RwLock::<MeterData, MeterLockInv>::new(d, Ghost(MeterLockInv {  }));
        StdMeter { data: Arc::new(lock) }
    }

    /// Counts `n` events into the shared state; rates change only on ticks.
    pub fn mark(&self, n: i64)
        requires
            0 <= n,
    {
        let (mut d, handle) = self.data.acquire_write();
        d.mark(n);
        handle.release_write(d);
    }

    /// Ticks all three window averages of the shared state once.
    pub fn tick(&self) {
        let (mut d, handle) = self.data.acquire_write();
        d.tick();
        handle.release_write(d);
    }

    /// Snapshots the shared state: the result is a plain value taken from
    /// one well-formed state, and later mutation cannot reach it.
    pub fn snapshot(&self, elapsed_ms: u64) -> (s: MeterSnapshot)
        ensures
            exists|d: MeterData| d.wf() && #[trigger] d.spec_snapshot_is(elapsed_ms, s),
    {
        let read = self.data.acquire_read();
        let s = read.borrow().snapshot(elapsed_ms);
        proof {
            assert(read.view().spec_snapshot_is(elapsed_ms, s));
        }
        read.release_read();
        s
    }

    /// Reads the current count; it is never negative.
    pub fn count(&self) -> (c: i64)
        ensures
            0 <= c,
    {
        let read = self.data.acquire_read();
        let c = read.borrow().count;
        read.release_read();
        c
    }

    /// Reads the decayed rate of the given window, in `RATE_SCALE` units per
    /// second.
    pub fn rate(&self, window: Window) -> (r: u64)
        ensures
            exists|d: MeterData| d.wf() && #[trigger] d.spec_window(window).spec_rate() == r,
    {
        let read = self.data.acquire_read();
        let d = read.borrow();
        let r = match window {
            Window::OneMinute => d.m1.rate(),
            Window::FiveMinutes => d.m5.rate(),
            Window::FifteenMinutes => d.m15.rate(),
        };
        proof {
            assert(read.view().spec_window(window).spec_rate() == r);
        }
        read.release_read();
        r
    }

    /// Reads the mean rate since start, given the elapsed wall time in
    /// milliseconds.
    pub fn mean(&self, elapsed_ms: u64) -> (r: u64)
        ensures
            exists|c: i64| 0 <= c && r == #[trigger] spec_mean(c, elapsed_ms),
    {
        let read = self.data.acquire_read();
        let r = read.borrow().mean(elapsed_ms);
        read.release_read();
        r
    }
}

} // verus!
