//! In-process metrics instrumentation: counters, gauges, meters backed by an
//! exponentially weighted moving average engine, a shared registry, and
//! encoders for a plaintext line protocol and a binary exposition format.
//!
//! Rates are represented in fixed point: a rate of one event per second is
//! stored as [`ewma::RATE_SCALE`] units, so that the decay arithmetic is exact
//! integer arithmetic with fully specified rounding.

pub mod cache;
pub mod carbon;
pub mod counter;
pub mod ewma;
pub mod gauge;
pub mod meter;
pub mod metric;
pub mod numfmt;
pub mod prometheus;
pub mod proto;
pub mod registry;
pub mod reporter;
