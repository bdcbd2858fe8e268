use metrics::carbon::CarbonMetricEntry;
use metrics::carbon::CarbonReporterState;
use metrics::counter::StdCounter;
use metrics::gauge::StdGauge;
use metrics::metric::HistogramSnapshot;
use metrics::metric::Metric;
use metrics::prometheus::make_metric;
use metrics::prometheus::metric_entries_to_family;
use metrics::prometheus::LabelPair;
use metrics::prometheus::MetricFamily;
use metrics::prometheus::MetricType;
use metrics::prometheus::PromMetric;
use metrics::prometheus::PrometheusMetricEntry;
use metrics::prometheus::PrometheusReporter;
use metrics::prometheus::SampleValue;
use metrics::reporter::ReporterMsg;
use metrics::reporter::ReporterTaskState;

fn a_metric_family_name() -> String {
    "MetricFamily".to_string()
}

fn a_metric_family() -> MetricFamily {
    MetricFamily {
        name: a_metric_family_name(),
        field_type: MetricType::Gauge,
        metrics: vec![PromMetric {
            labels: vec![LabelPair { name: "name".to_string(), value: "value".to_string() }],
            timestamp_ms: 0,
            sample: SampleValue::Gauge(0.1f64.to_bits()),
        }],
    }
}

#[test]
fn add_and_remove_metric() {
    let mut reporter = PrometheusReporter::new();
    reporter.add(vec![a_metric_family()]).unwrap();
    if let Ok(number_removed) = reporter.remove(vec![a_metric_family_name()]) {
        assert_eq!(number_removed, 1);
    }
    if let Ok(number_removed) = reporter.remove(vec![a_metric_family_name()]) {
        assert_eq!(number_removed, 0);
    }
}

#[test]
fn scrape_payload_is_length_delimited_records() {
    let family = MetricFamily {
        name: "t".to_string(),
        field_type: MetricType::Gauge,
        metrics: vec![PromMetric {
            labels: Vec::new(),
            timestamp_ms: 7,
            sample: SampleValue::Gauge(2.0f64.to_bits()),
        }],
    };
    let mut reporter = PrometheusReporter::new();
    assert_eq!(reporter.add(vec![family]).unwrap(), 1);
    let payload = reporter.scrape_payload();
    assert_eq!(
        payload,
        vec![20u8, 10, 1, 116, 24, 1, 34, 13, 18, 9, 9, 0, 0, 0, 0, 0, 0, 0, 64, 48, 7]
    );
    assert_eq!(reporter.remove(vec!["t".to_string()]).unwrap(), 1);
    assert!(reporter.scrape_payload().is_empty());
}

#[test]
fn adding_a_family_twice_keeps_one_record() {
    let mut reporter = PrometheusReporter::new();
    reporter.add(vec![a_metric_family()]).unwrap();
    reporter.add(vec![a_metric_family()]).unwrap();
    assert_eq!(reporter.remove(vec![a_metric_family_name()]).unwrap(), 1);
    assert_eq!(reporter.remove(vec![a_metric_family_name()]).unwrap(), 0);
}

#[test]
fn make_metric_renders_counter_value_as_float_bits() {
    let c = StdCounter::new();
    c.add(1);
    let labels = vec![("k".to_string(), "v".to_string())];
    let (sample, kind) = make_metric(&Metric::Counter(c), &labels, 99);
    assert_eq!(kind, MetricType::Counter);
    assert_eq!(sample.timestamp_ms, 99);
    assert_eq!(sample.labels.len(), 1);
    assert_eq!(sample.labels[0].name, "k");
    assert_eq!(sample.labels[0].value, "v");
    match sample.sample {
        SampleValue::Counter(bits) => assert_eq!(bits, 1.0f64.to_bits()),
        _ => panic!("expected a counter sample"),
    }
}

fn entry(name: &str, metric: Metric) -> PrometheusMetricEntry {
    PrometheusMetricEntry { name: name.to_string(), metric, labels: Vec::new() }
}

#[test]
fn families_group_by_name_in_first_seen_order() {
    let entries = vec![
        entry("a", Metric::Counter(StdCounter::new())),
        entry("b", Metric::Gauge(StdGauge::new())),
        entry("a", Metric::Counter(StdCounter::new())),
    ];
    let families = metric_entries_to_family(&entries, 5);
    assert_eq!(families.len(), 2);
    assert_eq!(families[0].name, "application_name_a_bytes");
    assert_eq!(families[1].name, "application_name_b_bytes");
    assert_eq!(families[0].field_type, MetricType::Counter);
    assert_eq!(families[1].field_type, MetricType::Gauge);
    assert_eq!(families[0].metrics.len(), 2);
    assert_eq!(families[1].metrics.len(), 1);
    assert!(families.iter().all(|f| f.metrics.iter().all(|m| m.timestamp_ms == 5)));
}

#[test]
fn stopped_reporter_refuses_add() {
    let mut state = ReporterTaskState::new();
    state
        .add("c".to_string(), Metric::Counter(StdCounter::new()), None)
        .unwrap();
    state.stop();
    let refused = state.add("d".to_string(), Metric::Counter(StdCounter::new()), None);
    assert!(refused.is_err());
}

#[test]
fn stopped_reporter_ignores_every_message() {
    let mut state = ReporterTaskState::new();
    state.stop();
    assert!(!state.running());
    state.step(ReporterMsg::AddMetric(
        "late".to_string(),
        Metric::Counter(StdCounter::new()),
        None,
    ));
    state.step(ReporterMsg::RemoveMetric("late".to_string()));
    assert!(!state.running());
}

#[test]
fn carbon_task_stages_and_stops() {
    let mut state = CarbonReporterState::new();
    assert!(state.running());
    let c = StdCounter::new();
    c.inc();
    state.apply_message(Ok(CarbonMetricEntry {
        metric_name: "counter1".to_string(),
        metric: Metric::Counter(c),
    }));
    let g = StdGauge::new();
    g.set(2);
    state.apply_message(Ok(CarbonMetricEntry {
        metric_name: "gauge1".to_string(),
        metric: Metric::Gauge(g),
    }));
    state.apply_message(Ok(CarbonMetricEntry {
        metric_name: "histogram".to_string(),
        metric: Metric::Histogram(HistogramSnapshot {
            count: 1,
            max: 1,
            min: 1,
            p50: 1,
            p75: 1,
            p95: 1,
            p98: 1,
            p99: 1,
            p999: 1,
            p9999: 1,
            p99999: 1,
        }),
    }));
    let lines = state.cycle_lines("asd.asdf", 1234, 0);
    // one line for the counter, one for the gauge, eleven for the histogram
    assert_eq!(lines.len(), 13);
    assert!(lines.iter().all(|l| l.starts_with("asd.asdf.")));
    assert!(lines.contains(&"asd.asdf.counter1 1 1234\n".to_string()));
    assert!(lines.contains(&"asd.asdf.gauge1 2 1234\n".to_string()));
    assert!(lines.iter().any(|l| l.starts_with("asd.asdf.histogram.p95 ")));
    for line in &lines {
        let tokens: Vec<&str> = line.trim_end().split(' ').collect();
        assert_eq!(tokens.len(), 3);
        assert!(tokens[1].parse::<f64>().is_ok());
        assert_eq!(tokens[2], "1234");
    }

    state.apply_message(Err("stop"));
    assert!(!state.running());
}
