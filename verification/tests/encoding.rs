use metrics::carbon::next_aligned_tick_ms;
use metrics::carbon::parse_host_port;
use metrics::carbon::prefix;
use metrics::carbon::send_counter_metric;
use metrics::carbon::send_gauge_metric;
use metrics::carbon::send_histogram_metric;
use metrics::carbon::send_meter_metric;
use metrics::counter::CounterSnapshot;
use metrics::gauge::GaugeSnapshot;
use metrics::metric::HistogramSnapshot;
use metrics::meter::MeterSnapshot;
use metrics::numfmt::fixed_to_dec_string;
use metrics::numfmt::i64_to_dec_string;
use metrics::numfmt::u64_to_dec_string;
use metrics::proto::f64_bits_from_i64;
use metrics::proto::f64_bits_from_u64;
use metrics::proto::msb_u64;
use metrics::proto::pow2_u64;
use metrics::proto::write_varint;

fn flat_histogram(v: u64) -> HistogramSnapshot {
    HistogramSnapshot {
        count: 1,
        max: v,
        min: v,
        p50: v,
        p75: v,
        p95: v,
        p98: v,
        p99: v,
        p999: v,
        p9999: v,
        p99999: v,
    }
}

#[test]
fn decimal_rendering() {
    assert_eq!(u64_to_dec_string(0), "0");
    assert_eq!(u64_to_dec_string(105), "105");
    assert_eq!(u64_to_dec_string(u64::MAX), "18446744073709551615");
    assert_eq!(i64_to_dec_string(42), "42");
    assert_eq!(i64_to_dec_string(-42), "-42");
    assert_eq!(i64_to_dec_string(i64::MIN), "-9223372036854775808");
    assert_eq!(fixed_to_dec_string(600_000_000_000), "0.600000000000");
    assert_eq!(fixed_to_dec_string(2_000_000_000_001), "2.000000000001");
    assert_eq!(fixed_to_dec_string(0), "0.000000000000");
}

#[test]
fn varint_bytes() {
    let mut out: Vec<u8> = Vec::new();
    write_varint(&mut out, 0);
    assert_eq!(out, vec![0u8]);
    let mut out: Vec<u8> = Vec::new();
    write_varint(&mut out, 150);
    assert_eq!(out, vec![0x96, 0x01]);
    let mut out: Vec<u8> = Vec::new();
    write_varint(&mut out, 300);
    assert_eq!(out, vec![0xAC, 0x02]);
    let mut out: Vec<u8> = Vec::new();
    write_varint(&mut out, u64::MAX);
    assert_eq!(out, vec![0xFF, 0xFF, 0xFF, 0xFF, 0xFF, 0xFF, 0xFF, 0xFF, 0xFF, 0x01]);
}

#[test]
fn float_bits_match_the_machine() {
    for n in [
        0u64,
        1,
        2,
        3,
        10,
        1024,
        (1u64 << 52) - 1,
        1u64 << 52,
        1u64 << 53,
        (1u64 << 53) + 1,
        (1u64 << 53) + 2,
        (1u64 << 53) + 3,
        (1u64 << 60) + 12345,
        u64::MAX,
    ] {
        assert_eq!(f64_bits_from_u64(n), (n as f64).to_bits(), "bits of {}", n);
    }
    for n in [0i64, 1, -1, -2, 7, -999_999_999_999, i64::MAX, i64::MIN] {
        assert_eq!(f64_bits_from_i64(n), (n as f64).to_bits(), "bits of {}", n);
    }
}

#[test]
fn bit_helpers() {
    assert_eq!(pow2_u64(0), 1);
    assert_eq!(pow2_u64(10), 1024);
    assert_eq!(pow2_u64(63), 1u64 << 63);
    assert_eq!(msb_u64(1), 0);
    assert_eq!(msb_u64(2), 1);
    assert_eq!(msb_u64(1023), 9);
    assert_eq!(msb_u64(u64::MAX), 63);
}

#[test]
fn prefix_joins_with_a_dot() {
    assert_eq!(prefix("counter1".to_string(), "asd.asdf"), "asd.asdf.counter1");
}

#[test]
fn counter_and_gauge_lines() {
    let lines = send_counter_metric("counter1", CounterSnapshot { value: 1 }, "asd.asdf", 1234);
    assert_eq!(lines, vec!["asd.asdf.counter1 1 1234\n".to_string()]);

    let lines = send_gauge_metric("gauge1", GaugeSnapshot { value: -2 }, "asd.asdf", 1234);
    assert_eq!(lines, vec!["asd.asdf.gauge1 -2 1234\n".to_string()]);
}

#[test]
fn meter_lines() {
    let snap = MeterSnapshot {
        count: 3,
        rates: [600_000_000_000, 0, 0],
        mean: 2_000_000_000_000,
    };
    let lines = send_meter_metric("meter1", snap, "p", 9);
    assert_eq!(
        lines,
        vec![
            "p.meter1.count 3 9\n".to_string(),
            "p.meter1.m1 0.600000000000 9\n".to_string(),
            "p.meter1.m5 0.000000000000 9\n".to_string(),
            "p.meter1.m15 0.000000000000 9\n".to_string(),
            "p.meter1.mean 2.000000000000 9\n".to_string(),
        ]
    );
}

#[test]
fn histogram_lines_count_eleven() {
    let lines = send_histogram_metric("histogram", &flat_histogram(7), "asd.asdf", 55);
    assert_eq!(lines.len(), 11);
    assert_eq!(lines[0], "asd.asdf.histogram.count 1 55\n");
    assert!(lines.iter().any(|l| l.starts_with("asd.asdf.histogram.p95 ")));
    for line in &lines {
        let tokens: Vec<&str> = line.trim_end().split(' ').collect();
        assert_eq!(tokens.len(), 3);
        assert!(tokens[1].parse::<f64>().is_ok());
        assert_eq!(tokens[2], "55");
    }
}

#[test]
fn sink_addresses_are_checked_up_front() {
    assert_eq!(
        parse_host_port("127.0.0.1:2003"),
        Some(("127.0.0.1".to_string(), 2003))
    );
    assert_eq!(parse_host_port("localhost:0"), Some(("localhost".to_string(), 0)));
    assert_eq!(parse_host_port("[::1]:80"), Some(("[::1]".to_string(), 80)));
    assert!(parse_host_port("nohost").is_none());
    assert!(parse_host_port(":81").is_none());
    assert!(parse_host_port("h:").is_none());
    assert!(parse_host_port("h:99999").is_none());
    assert!(parse_host_port("h:12a3").is_none());
}

#[test]
fn aligned_ticks_do_not_drift() {
    assert_eq!(next_aligned_tick_ms(999, 1000), 1000);
    assert_eq!(next_aligned_tick_ms(1000, 1000), 2000);
    assert_eq!(next_aligned_tick_ms(1001, 1000), 2000);
    assert_eq!(next_aligned_tick_ms(0, 250), 250);
}
