//! The closed set of metric kinds, and the snapshot values they export.
//!
//! A [`Metric`] is the live, possibly shared object an application mutates; a
//! [`MetricValue`] is the immutable snapshot a reporter ships.  A histogram
//! is an external collaborator: the library holds only a
//! [`HistogramSnapshot`] of the plain numbers it reads from one (count,
//! extremes and fixed percentiles), which the caller extracts at the
//! boundary.

use crate::counter::CounterSnapshot;
use crate::counter::StdCounter;
use crate::gauge::GaugeSnapshot;
use crate::gauge::StdGauge;
use crate::meter::MeterData;
use crate::meter::MeterSnapshot;
use crate::meter::StdMeter;
use vstd::prelude::*;

verus! {

/// The plain numbers the library reads from an external histogram: the
/// sample count, the extremes, and the eight fixed percentiles the line
/// protocol reports.
#[derive(Clone, Copy, Debug)]
pub struct HistogramSnapshot {
    /// Number of recorded samples.
    pub count: u64,
    /// The highest recorded value (the 100th percentile).
    pub max: u64,
    /// The lowest recorded value (the 0th percentile).
    pub min: u64,
    /// The 50th percentile.
    pub p50: u64,
    /// The 75th percentile.
    pub p75: u64,
    /// The 95th percentile.
    pub p95: u64,
    /// The 98th percentile.
    pub p98: u64,
    /// The 99th percentile.
    pub p99: u64,
    /// The 99.9th percentile.
    pub p999: u64,
    /// The 99.99th percentile.
    pub p9999: u64,
    /// The 99.999th percentile.
    pub p99999: u64,
}

/// A live metric: a shared handle for the mutable kinds, a plain snapshot
/// for a histogram.
#[derive(Clone)]
pub enum Metric {
    /// A shared counter handle.
    Counter(StdCounter),
    /// A shared gauge handle.
    Gauge(StdGauge),
    /// A shared meter handle.
    Meter(StdMeter),
    /// The snapshot of an external histogram.
    Histogram(HistogramSnapshot),
}

/// An immutable snapshot of a metric; never mutated after creation.
#[derive(Clone, Copy, Debug)]
pub enum MetricValue {
    /// A counter snapshot.
    Counter(CounterSnapshot),
    /// A gauge snapshot.
    Gauge(GaugeSnapshot),
    /// A meter snapshot.
    Meter(MeterSnapshot),
    /// A histogram snapshot.
    Histogram(HistogramSnapshot),
}

impl Metric {
    /// Exports the metric as a fresh snapshot value.  The kind is preserved;
    /// a histogram exports its stored numbers unchanged; a meter snapshot
    /// comes from one well-formed shared state at the given elapsed wall
    /// time; counter and gauge values are single atomic reads, on which the
    /// design promises atomicity only.
    pub fn export_metric(&self, elapsed_ms: u64) -> (v: MetricValue)
        ensures
            (*self) is Counter ==> v is Counter,
            (*self) is Gauge ==> v is Gauge,
            (*self) is Meter ==> v is Meter,
            (*self) is Meter ==> exists|d: MeterData|
                d.wf() && #[trigger] d.spec_snapshot_is(elapsed_ms, v->Meter_0),
            (*self) matches Metric::Histogram(h) ==> v == MetricValue::Histogram(h),
    {
        match self {
            Metric::Counter(c) => MetricValue::Counter(c.snapshot()),
            Metric::Gauge(g) => MetricValue::Gauge(g.snapshot()),
            Metric::Meter(m) => {
                let s = m.snapshot(elapsed_ms);
                let v = MetricValue::Meter(s);
                proof {
                    let d0 = choose|d: MeterData|
                        d.wf() && #[trigger] d.spec_snapshot_is(elapsed_ms, s);
                    assert(d0.spec_snapshot_is(elapsed_ms, v->Meter_0));
                }
                v
            },
            Metric::Histogram(h) => MetricValue::Histogram(*h),
        }
    }
}

} // verus!
