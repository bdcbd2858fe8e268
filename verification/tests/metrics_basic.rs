use metrics::counter::StdCounter;
use metrics::gauge::StdGauge;
use metrics::meter::MeterData;
use metrics::meter::StdMeter;
use metrics::metric::HistogramSnapshot;
use metrics::metric::Metric;
use metrics::registry::StdRegistry;

#[test]
fn a_counting_counter() {
    let c = StdCounter::new();
    c.add(1);

    assert_eq!(c.snapshot().value, 1);

    let c = StdCounter::new();
    c.inc();

    assert_eq!(c.snapshot().value, 1);
}

#[test]
fn validate_snapshots() {
    let c = StdCounter::new();
    let snapshot_1 = c.snapshot();
    c.add(1);
    let snapshot_2 = c.snapshot();
    assert_eq!(snapshot_1.value, 0);
    assert_eq!(snapshot_2.value, 1);
}

#[test]
fn counter_add_from_fresh_is_exact() {
    for n in [0usize, 1, 2, 10, 1000, 123_456_789] {
        let c = StdCounter::new();
        c.add(n);
        assert_eq!(c.snapshot().value, n);
    }
    let by_inc = StdCounter::new();
    let by_add = StdCounter::new();
    by_inc.inc();
    by_add.add(1);
    assert_eq!(by_inc.snapshot().value, by_add.snapshot().value);
}

#[test]
fn counter_wraps_at_the_machine_word() {
    let c = StdCounter::new();
    c.add(usize::MAX);
    c.inc();
    assert_eq!(c.snapshot().value, 0);
}

#[test]
fn counter_clear_resets() {
    let c = StdCounter::new();
    c.add(41);
    c.clear();
    assert_eq!(c.snapshot().value, 0);
}

#[test]
fn create_and_snapshot() {
    let g = StdGauge::new();
    let snapshot_1 = g.snapshot();
    g.set(10);
    let snapshot_2 = g.snapshot();

    assert_eq!(g.snapshot().value, 10);
    assert_eq!(snapshot_1.value, 0);
    assert_eq!(snapshot_2.value, 10);
}

#[test]
fn gauge_arithmetic() {
    let g = StdGauge::new();
    g.inc();
    g.add(5);
    g.dec();
    g.sub(2);
    assert_eq!(g.snapshot().value, 3);
    g.set(-7);
    assert_eq!(g.snapshot().value, -7);
}

#[test]
fn zero() {
    let m = StdMeter::new();
    let s = m.snapshot(0);

    assert_eq!(s.count, 0);
}

#[test]
fn non_zero() {
    let m = StdMeter::new();
    m.mark(3);

    let s = m.snapshot(0);

    assert_eq!(s.count, 3);
}

#[test]
fn snapshot() {
    let m = StdMeter::new();
    m.mark(1);
    m.mark(1);

    let s = m.snapshot(0);

    m.mark(1);

    assert_eq!(s.count, 2);
    assert_eq!(m.snapshot(0).count, 3);
}

#[test]
fn decay() {
    let m = StdMeter::new();

    m.tick();
}

#[test]
fn meter_mean_is_count_over_elapsed() {
    let mut d = MeterData::new();
    d.mark(3);
    // three events over one and a half seconds: two per second
    assert_eq!(d.mean(1500), 2_000_000_000_000);
    // no elapsed time yet: mean is defined as zero
    assert_eq!(d.mean(0), 0);
    let fresh = MeterData::new();
    assert_eq!(fresh.mean(5000), 0);
}

fn one_sample_histogram() -> HistogramSnapshot {
    let mut h = histogram::Histogram::new(7, 64).unwrap();
    h.increment(1).unwrap();
    let count: u64 = h.as_slice().iter().sum();
    let at = |p: f64| -> u64 {
        match h.percentile(p) {
            Ok(Some(bucket)) => bucket.end(),
            _ => 0,
        }
    };
    HistogramSnapshot {
        count,
        max: at(100.0),
        min: at(0.0),
        p50: at(50.0),
        p75: at(75.0),
        p95: at(95.0),
        p98: at(98.0),
        p99: at(99.0),
        p999: at(99.9),
        p9999: at(99.99),
        p99999: at(99.999),
    }
}

#[test]
fn registry_meter() {
    let mut r = StdRegistry::new();
    let m = StdMeter::new();
    m.mark(100);
    r.insert("meter1", Metric::Meter(m.clone()));
    m.mark(200);
    if let Metric::Meter(ref meter) = *r.get("meter1").expect("We didn't get a meter back.") {
        assert_eq!(meter.snapshot(0).count, 300);
    } else {
        panic!("We didn't get a meter back.");
    }
}

#[test]
fn gauge() {
    let mut r = StdRegistry::new();
    let g = StdGauge::new();
    g.set(3);
    r.insert("gauge1", Metric::Gauge(g.clone()));
    g.set(5);
    if let Metric::Gauge(ref gauge) = *r.get("gauge1").expect("We didn't get a gauge back.") {
        assert_eq!(gauge.snapshot().value, 5);
    } else {
        panic!("We didn't get a gauge back.");
    }
}

#[test]
fn counter() {
    let mut r = StdRegistry::new();
    let c = StdCounter::new();
    c.add(1);
    r.insert("counter1", Metric::Counter(c.clone()));
    c.inc();
    if let Metric::Counter(ref counter) = *r.get("counter1").expect("We didn't get a counter back.")
    {
        assert_eq!(counter.snapshot().value, 2);
    } else {
        panic!("We didn't get a counter back.");
    }
}

#[test]
fn histogram() {
    let mut r = StdRegistry::new();
    let h = one_sample_histogram();
    assert_eq!(h.count, 1);
    r.insert("histogram", Metric::Histogram(h));
}

#[test]
fn registry_missing_name_is_none() {
    let r = StdRegistry::new();
    assert!(r.get("absent").is_none());
}

#[test]
fn registry_insert_overwrites_and_lists_names() {
    let mut r = StdRegistry::new();
    r.insert("a", Metric::Counter(StdCounter::new()));
    let g = StdGauge::new();
    g.set(9);
    r.insert("a", Metric::Gauge(g));
    r.insert("b", Metric::Counter(StdCounter::new()));
    let names = r.get_metrics_names();
    assert_eq!(names, vec!["a".to_string(), "b".to_string()]);
    match r.get("a") {
        Some(Metric::Gauge(gauge)) => assert_eq!(gauge.snapshot().value, 9),
        _ => panic!("expected the overwritten entry to be a gauge"),
    }
}

#[test]
fn registry_tracks_scheduled_reporters() {
    let mut r = StdRegistry::new();
    assert!(r.reporter_names().is_empty());
    r.add_scheduled_reporter("console".to_string());
    r.add_scheduled_reporter("carbon".to_string());
    assert_eq!(
        r.reporter_names(),
        &vec!["console".to_string(), "carbon".to_string()]
    );
}

#[test]
fn registry_labels_are_copied() {
    let labels = vec![("host".to_string(), "a1".to_string())];
    let r = StdRegistry::new_with_labels(labels);
    let copy = r.labels();
    assert_eq!(copy.len(), 1);
    assert_eq!(copy[0].0, "host");
    assert_eq!(copy[0].1, "a1");
}
