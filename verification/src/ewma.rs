//! Exponentially weighted moving average of an event rate.
//!
//! Events are accumulated into an `uncounted` bucket by [`EWMA::update`] and
//! drained exactly once per [`EWMA::tick`], which is meant to be driven every
//! [`TICK_RATE_SECS`] seconds.  The decayed rate is kept in fixed point:
//! a rate of one event per second is stored as [`RATE_SCALE`].

use vstd::prelude::*;

verus! {

/// Fixed-point scale of all rates: one event per second is `RATE_SCALE` units.
pub const RATE_SCALE: u64 = 1_000_000_000_000;

/// The cadence in seconds at which `EWMA::tick` should be called.
pub const TICK_RATE_SECS: u64 = 5;

/// `(1 - e^(-5 / 60 / 1)) * RATE_SCALE`, the decay factor of a one-minute window.
pub const ALPHA_ONE_MINUTE: u64 = 79_955_585_371;

/// `(1 - e^(-5 / 60 / 5)) * RATE_SCALE`, the decay factor of a five-minute window.
pub const ALPHA_FIVE_MINUTES: u64 = 16_528_546_178;

/// `(1 - e^(-5 / 60 / 15)) * RATE_SCALE`, the decay factor of a fifteen-minute window.
pub const ALPHA_FIFTEEN_MINUTES: u64 = 5_540_151_995;

/// The averaging windows a [`crate::meter::StdMeter`] keeps, in minutes.
#[derive(Clone, Copy, PartialEq, Eq, Structural, Debug)]
pub enum Window {
    OneMinute,
    FiveMinutes,
    FifteenMinutes,
}

/// The decay factor that belongs to an averaging window.
pub open spec fn spec_alpha_for(w: Window) -> u64 {
    match w {
        Window::OneMinute => ALPHA_ONE_MINUTE,
        Window::FiveMinutes => ALPHA_FIVE_MINUTES,
        Window::FifteenMinutes => ALPHA_FIFTEEN_MINUTES,
    }
}

/// `a + b`, saturating at `u64::MAX`.
pub open spec fn sat_add_u64(a: u64, b: u64) -> u64 {
    if a + b > u64::MAX {
        u64::MAX
    } else {
        (a + b) as u64
    }
}

/// The instantaneous rate of one tick interval: `drained / TICK_RATE_SECS`
/// events per second in fixed point, saturating at `u64::MAX`.
pub open spec fn spec_instant_rate(drained: u64) -> u64 {
    if (drained as int) * (RATE_SCALE as int) / (TICK_RATE_SECS as int) > u64::MAX {
        u64::MAX
    } else {
        ((drained as int) * (RATE_SCALE as int) / (TICK_RATE_SECS as int)) as u64
    }
}

/// One decay step: the weighted average `rate + alpha * (instant - rate)`,
/// written without subtraction so that fixed-point rounding is a single
/// floor division.
pub open spec fn spec_blend(rate: u64, instant: u64, alpha: u64) -> int
    recommends
        alpha <= RATE_SCALE,
{
    ((RATE_SCALE - alpha) * rate + alpha * instant) / (RATE_SCALE as int)
}

/// The rate an EWMA shows after a tick that drained `drained` events.
pub open spec fn spec_rate_after_tick(e: EWMA, drained: u64) -> int {
    if e.spec_init() {
        spec_blend(e.spec_rate(), spec_instant_rate(drained), e.spec_alpha())
    } else {
        spec_instant_rate(drained) as int
    }
}

/// An exponentially weighted moving average.
///
/// `uncounted` tracks events seen since the last tick; `rate` only ever
/// reflects fully ticked intervals.
#[derive(Clone, Debug)]
pub struct EWMA {
    uncounted: u64,
    alpha: u64,
    rate: u64,
    init: bool,
}

/// An immutable snapshot of an EWMA's decayed rate.
#[derive(Clone, Copy, Debug)]
pub struct EWMASnapshot {
    value: u64,
}

impl EWMASnapshot {
    /// The fixed-point rate this snapshot holds.
    pub closed spec fn spec_rate(&self) -> u64 {
        self.value
    }

    /// Returns the snapshot's fixed-point rate, in `RATE_SCALE` units per second.
    pub fn rate(&self) -> (r: u64)
        ensures
            r == self.spec_rate(),
    {
        self.value
    }
}

impl EWMA {
    /// Events accumulated since the last tick.
    pub closed spec fn spec_uncounted(&self) -> u64 {
        self.uncounted
    }

    /// The fixed-point decay factor.
    pub closed spec fn spec_alpha(&self) -> u64 {
        self.alpha
    }

    /// The decayed fixed-point rate, per second.
    pub closed spec fn spec_rate(&self) -> u64 {
        self.rate
    }

    /// Whether a first tick has happened.
    pub closed spec fn spec_init(&self) -> bool {
        self.init
    }

    /// A decay factor never exceeds one, i.e. `RATE_SCALE` in fixed point.
    pub open spec fn wf(&self) -> bool {
        self.spec_alpha() <= RATE_SCALE
    }

    /// Constructs an EWMA from a fixed-point decay factor.
    pub fn new_by_alpha(alpha: u64) -> (e: EWMA)
        requires
            alpha <= RATE_SCALE,
        ensures
            e.wf(),
            e.spec_alpha() == alpha,
            e.spec_rate() == 0,
            e.spec_uncounted() == 0,
            !e.spec_init(),
    {
        EWMA { uncounted: 0, alpha, rate: 0, init: false }
    }

    /// Constructs an EWMA for the given averaging window.
    pub fn new(window: Window) -> (e: EWMA)
        ensures
            e.wf(),
            e.spec_alpha() == spec_alpha_for(window),
            e.spec_rate() == 0,
            e.spec_uncounted() == 0,
            !e.spec_init(),
    {
        match window {
            Window::OneMinute => EWMA::new_by_alpha(ALPHA_ONE_MINUTE),
            Window::FiveMinutes => EWMA::new_by_alpha(ALPHA_FIVE_MINUTES),
            Window::FifteenMinutes => EWMA::new_by_alpha(ALPHA_FIFTEEN_MINUTES),
        }
    }

    /// Returns the decayed rate, in `RATE_SCALE` units per second.
    pub fn rate(&self) -> (r: u64)
        ensures
            r == self.spec_rate(),
    {
        self.rate
    }

    /// Takes a snapshot of the decayed rate.
    pub fn snapshot(&self) -> (s: EWMASnapshot)
        ensures
            s.spec_rate() == self.spec_rate(),
    {
        EWMASnapshot { value: self.rate }
    }

    /// Accumulates `n` events into the uncounted bucket, saturating at
    /// `u64::MAX`; the decayed rate is untouched until the next tick.
    pub fn update(&mut self, n: usize)
        ensures
            final(self).spec_uncounted() == sat_add_u64(
                old(self).spec_uncounted(),
                n as u64,
            ),
            final(self).spec_alpha() == old(self).spec_alpha(),
            final(self).spec_rate() == old(self).spec_rate(),
            final(self).spec_init() == old(self).spec_init(),
    {
        let n64: u64 = n as u64;
        if self.uncounted <= u64::MAX - n64 {
            self.uncounted = self.uncounted + n64;
        } else {
            self.uncounted = u64::MAX;
        }
    }

    /// Drains the uncounted bucket and folds its instantaneous rate into the
    /// decayed rate: the first tick adopts the instantaneous rate, later
    /// ticks blend it in with the decay factor.
    pub fn tick(&mut self)
        requires
            old(self).wf(),
        ensures
            final(self).wf(),
            final(self).spec_uncounted() == 0,
            final(self).spec_alpha() == old(self).spec_alpha(),
            final(self).spec_init(),
            final(self).spec_rate() == spec_rate_after_tick(*old(self), old(self).spec_uncounted()),
    {
        let drained: u64 = self.uncounted;
        self.uncounted = 0;

        proof {
            assert(0 <= (drained as int) * (RATE_SCALE as int) <= u128::MAX) by (nonlinear_arith);
        }
        let product: u128 = (drained as u128) * (RATE_SCALE as u128);
        let wide_instant: u128 = product / (TICK_RATE_SECS as u128);
        let instant: u64 = if wide_instant > (u64::MAX as u128) {
            u64::MAX
        } else {
            wide_instant as u64
        };
        assert(instant == spec_instant_rate(drained));

        if self.init {
            let keep: u64 = RATE_SCALE - self.alpha;
        proof {
                assert(0 <= (keep as int) * (self.rate as int) + (self.alpha as int) * (
                instant as int) <= u128::MAX) by (nonlinear_arith)
                    requires
                        keep <= RATE_SCALE,
                        self.alpha <= RATE_SCALE,
                ;
            }
            let weighted: u128 = (keep as u128) * (self.rate as u128) + (self.alpha as u128) * (
            instant as u128);
            let blended: u128 = weighted / (RATE_SCALE as u128);
            assert(blended == spec_blend(self.rate, instant, self.alpha));
            assert(blended <= u64::MAX) by {
                lemma_blend_bounded(self.rate, instant, self.alpha);
            }
            self.rate = blended as u64;
        } else {
            self.init = true;
            self.rate = instant;
        }
    }
}

/// A tick that drained no events never raises the rate: the decay curve of
/// an idle average is non-increasing.
pub proof fn lemma_idle_tick_never_raises_rate(e: EWMA)
    requires
        e.wf(),
    ensures
        spec_rate_after_tick(e, 0) <= e.spec_rate(),
{
    if e.spec_init() {
        lemma_blend_bounded(e.spec_rate(), spec_instant_rate(0), e.spec_alpha());
    }
}

/// The blended rate is a weighted average, so it never exceeds the larger of
/// the decayed and the instantaneous rate.
pub proof fn lemma_blend_bounded(rate: u64, instant: u64, alpha: u64)
    requires
        alpha <= RATE_SCALE,
    ensures
        0 <= spec_blend(rate, instant, alpha),
        spec_blend(rate, instant, alpha) <= if rate >= instant {
            rate
        } else {
            instant
        },
{
    let hi: u64 = if rate >= instant {
        rate
    } else {
        instant
    };
    assert((RATE_SCALE - alpha) * rate + alpha * instant <= RATE_SCALE * hi) by (nonlinear_arith)
        requires
            alpha <= RATE_SCALE,
            rate <= hi,
            instant <= hi,
    ;
    assert(((RATE_SCALE - alpha) * rate + alpha * instant) / (RATE_SCALE as int) <= hi)
        by (nonlinear_arith)
        requires
            (RATE_SCALE - alpha) * rate + alpha * instant <= RATE_SCALE * hi,
    ;
    assert((RATE_SCALE - alpha) * rate + alpha * instant >= 0) by (nonlinear_arith)
        requires
            alpha <= RATE_SCALE,
    ;
}

} // verus!
