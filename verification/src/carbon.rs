//! The plaintext line protocol of the carbon sink.
//!
//! Every sample becomes one line `<dotted.path> <value> <unix-seconds>\n`,
//! with the metric path prefixed by a configured namespace.  A counter or a
//! gauge yields one line, a meter five, a histogram eleven.  The background
//! task that owns the socket lives outside the library; it drives
//! [`CarbonReporterState`] with the received messages and ships the lines a
//! cycle computes.

use crate::counter::CounterSnapshot;
use crate::gauge::GaugeSnapshot;
use crate::metric::HistogramSnapshot;
use crate::metric::Metric;
use crate::metric::MetricValue;
use crate::meter::MeterSnapshot;
use crate::numfmt::spec_dec_digits;
use crate::numfmt::spec_fixed_dec_digits;
use crate::numfmt::spec_signed_dec_digits;
use crate::numfmt::fixed_to_dec_string;
use crate::numfmt::i64_to_dec_string;
use crate::numfmt::u64_to_dec_string;
use vstd::prelude::*;

verus! {

/// `rest` under the namespace `prefix`: the two joined by a dot.
pub open spec fn spec_dotted(prefix: Seq<char>, rest: Seq<char>) -> Seq<char> {
    prefix + seq!['.'] + rest
}

/// One line of the wire protocol: path, value and timestamp separated by
/// single spaces and closed by a newline.
pub open spec fn spec_carbon_line(path: Seq<char>, value: Seq<char>, ts: u64) -> Seq<char> {
    path + seq![' '] + value + seq![' '] + spec_dec_digits(ts as nat) + seq!['\n']
}

/// Whether the strings in `r` are exactly the character sequences in `s`.
pub open spec fn spec_lines_match(r: Seq<String>, s: Seq<Seq<char>>) -> bool {
    r.len() == s.len() && forall|i: int| 0 <= i < r.len() ==> #[trigger] r[i]@ == s[i]
}

/// Prefixes a metric line with the configured namespace and a dot.
pub fn prefix(metric_line: String, prefix_str: &str) -> (r: String)
    ensures
        r@ == spec_dotted(prefix_str@, metric_line@),
{
    proof {
        reveal_strlit(".");
    }
    let mut s = prefix_str.to_owned();
    s.append(".");
    s.append(metric_line.as_str());
    proof {
        assert(s@ =~= spec_dotted(prefix_str@, metric_line@));
    }
    s
}

/// Builds one protocol line from a finished path and value.
fn carbon_line(path: String, value: &String, ts: u64) -> (r: String)
    ensures
        r@ == spec_carbon_line(path@, value@, ts),
{
    proof {
        reveal_strlit(" ");
        reveal_strlit("\n");
    }
    let ghost p0 = path@;
    let mut s = path;
    s.append(" ");
    s.append(value.as_str());
    s.append(" ");
    let t = u64_to_dec_string(ts);
    s.append(t.as_str());
    s.append("\n");
    proof {
        assert(s@ =~= spec_carbon_line(p0, value@, ts));
    }
    s
}

/// Joins a metric name and a suffix literal.
fn suffixed(metric_name: &str, suffix: &str) -> (r: String)
    ensures
        r@ == metric_name@ + suffix@,
{
    let mut s = metric_name.to_owned();
    s.append(suffix);
    s
}

/// The single line a counter snapshot yields.
pub open spec fn spec_counter_lines(
    name: Seq<char>,
    c: CounterSnapshot,
    prefix: Seq<char>,
    ts: u64,
) -> Seq<Seq<char>> {
    seq![spec_carbon_line(spec_dotted(prefix, name), spec_dec_digits(c.value as nat), ts)]
}

/// The single line a gauge snapshot yields.
pub open spec fn spec_gauge_lines(
    name: Seq<char>,
    g: GaugeSnapshot,
    prefix: Seq<char>,
    ts: u64,
) -> Seq<Seq<char>> {
    seq![spec_carbon_line(spec_dotted(prefix, name), spec_signed_dec_digits(g.value as int), ts)]
}

/// The five lines a meter snapshot yields: count, the three window rates,
/// and the mean rate.
pub open spec fn spec_meter_lines(
    name: Seq<char>,
    m: MeterSnapshot,
    prefix: Seq<char>,
    ts: u64,
) -> Seq<Seq<char>> {
    seq![
        spec_carbon_line(
            spec_dotted(prefix, name + (".count")@),
            spec_signed_dec_digits(m.count as int),
            ts,
        ),
        spec_carbon_line(spec_dotted(prefix, name + (".m1")@), spec_fixed_dec_digits(m.rates@[0]), ts),
        spec_carbon_line(spec_dotted(prefix, name + (".m5")@), spec_fixed_dec_digits(m.rates@[1]), ts),
        spec_carbon_line(
            spec_dotted(prefix, name + (".m15")@),
            spec_fixed_dec_digits(m.rates@[2]),
            ts,
        ),
        spec_carbon_line(spec_dotted(prefix, name + (".mean")@), spec_fixed_dec_digits(m.mean), ts),
    ]
}

/// The eleven lines a histogram snapshot yields: count, extremes, and the
/// eight fixed percentiles.
pub open spec fn spec_histogram_lines(
    name: Seq<char>,
    h: HistogramSnapshot,
    prefix: Seq<char>,
    ts: u64,
) -> Seq<Seq<char>> {
    seq![
        spec_carbon_line(spec_dotted(prefix, name + (".count")@), spec_dec_digits(h.count as nat), ts),
        spec_carbon_line(spec_dotted(prefix, name + (".max")@), spec_dec_digits(h.max as nat), ts),
        spec_carbon_line(spec_dotted(prefix, name + (".min")@), spec_dec_digits(h.min as nat), ts),
        spec_carbon_line(spec_dotted(prefix, name + (".p50")@), spec_dec_digits(h.p50 as nat), ts),
        spec_carbon_line(spec_dotted(prefix, name + (".p75")@), spec_dec_digits(h.p75 as nat), ts),
        spec_carbon_line(spec_dotted(prefix, name + (".p95")@), spec_dec_digits(h.p95 as nat), ts),
        spec_carbon_line(spec_dotted(prefix, name + (".p98")@), spec_dec_digits(h.p98 as nat), ts),
        spec_carbon_line(spec_dotted(prefix, name + (".p99")@), spec_dec_digits(h.p99 as nat), ts),
        spec_carbon_line(spec_dotted(prefix, name + (".p999")@), spec_dec_digits(h.p999 as nat), ts),
        spec_carbon_line(
            spec_dotted(prefix, name + (".p9999")@),
            spec_dec_digits(h.p9999 as nat),
            ts,
        ),
        spec_carbon_line(
            spec_dotted(prefix, name + (".p99999")@),
            spec_dec_digits(h.p99999 as nat),
            ts,
        ),
    ]
}

/// The lines any snapshot value yields, by kind.
pub open spec fn spec_value_lines(
    name: Seq<char>,
    v: MetricValue,
    prefix: Seq<char>,
    ts: u64,
) -> Seq<Seq<char>> {
    match v {
        MetricValue::Counter(c) => spec_counter_lines(name, c, prefix, ts),
        MetricValue::Gauge(g) => spec_gauge_lines(name, g, prefix, ts),
        MetricValue::Meter(m) => spec_meter_lines(name, m, prefix, ts),
        MetricValue::Histogram(h) => spec_histogram_lines(name, h, prefix, ts),
    }
}

/// Encodes a counter snapshot as its one protocol line.
pub fn send_counter_metric(metric_name: &str, counter: CounterSnapshot, prefix_string: &str, ts: u64) -> (r: Vec<String>)
    ensures
        spec_lines_match(r@, spec_counter_lines(metric_name@, counter, prefix_string@, ts)),
{
    let mut out: Vec<String> = Vec::new();
    let value = u64_to_dec_string(counter.value as u64);
    out.push(carbon_line(prefix(metric_name.to_owned(), prefix_string), &value, ts));
    out
}

/// Encodes a gauge snapshot as its one protocol line.
pub fn send_gauge_metric(metric_name: &str, gauge: GaugeSnapshot, prefix_string: &str, ts: u64) -> (r: Vec<String>)
    ensures
        spec_lines_match(r@, spec_gauge_lines(metric_name@, gauge, prefix_string@, ts)),
{
    let mut out: Vec<String> = Vec::new();
    let value = i64_to_dec_string(gauge.value as i64);
    out.push(carbon_line(prefix(metric_name.to_owned(), prefix_string), &value, ts));
    out
}

/// Encodes a meter snapshot as its five protocol lines.
pub fn send_meter_metric(metric_name: &str, meter: MeterSnapshot, prefix_string: &str, ts: u64) -> (r: Vec<String>)
    ensures
        spec_lines_match(r@, spec_meter_lines(metric_name@, meter, prefix_string@, ts)),
{
    let mut out: Vec<String> = Vec::new();
    let count = i64_to_dec_string(meter.count);
    out.push(carbon_line(prefix(suffixed(metric_name, ".count"), prefix_string), &count, ts));
    let m1 = fixed_to_dec_string(meter.rates[0]);
    out.push(carbon_line(prefix(suffixed(metric_name, ".m1"), prefix_string), &m1, ts));
    let m5 = fixed_to_dec_string(meter.rates[1]);
    out.push(carbon_line(prefix(suffixed(metric_name, ".m5"), prefix_string), &m5, ts));
    let m15 = fixed_to_dec_string(meter.rates[2]);
    out.push(carbon_line(prefix(suffixed(metric_name, ".m15"), prefix_string), &m15, ts));
    let mean = fixed_to_dec_string(meter.mean);
    out.push(carbon_line(prefix(suffixed(metric_name, ".mean"), prefix_string), &mean, ts));
    out
}

/// Encodes a histogram snapshot as its eleven protocol lines.
pub fn send_histogram_metric(metric_name: &str, histogram: &HistogramSnapshot, prefix_string: &str, ts: u64) -> (r: Vec<String>)
    ensures
        spec_lines_match(r@, spec_histogram_lines(metric_name@, *histogram, prefix_string@, ts)),
{
    let mut out: Vec<String> = Vec::new();
    let count = u64_to_dec_string(histogram.count);
    out.push(carbon_line(prefix(suffixed(metric_name, ".count"), prefix_string), &count, ts));
    let max = u64_to_dec_string(histogram.max);
    out.push(carbon_line(prefix(suffixed(metric_name, ".max"), prefix_string), &max, ts));
    let min = u64_to_dec_string(histogram.min);
    out.push(carbon_line(prefix(suffixed(metric_name, ".min"), prefix_string), &min, ts));
    let p50 = u64_to_dec_string(histogram.p50);
    out.push(carbon_line(prefix(suffixed(metric_name, ".p50"), prefix_string), &p50, ts));
    let p75 = u64_to_dec_string(histogram.p75);
    out.push(carbon_line(prefix(suffixed(metric_name, ".p75"), prefix_string), &p75, ts));
    let p95 = u64_to_dec_string(histogram.p95);
    out.push(carbon_line(prefix(suffixed(metric_name, ".p95"), prefix_string), &p95, ts));
    let p98 = u64_to_dec_string(histogram.p98);
    out.push(carbon_line(prefix(suffixed(metric_name, ".p98"), prefix_string), &p98, ts));
    let p99 = u64_to_dec_string(histogram.p99);
    out.push(carbon_line(prefix(suffixed(metric_name, ".p99"), prefix_string), &p99, ts));
    let p999 = u64_to_dec_string(histogram.p999);
    out.push(carbon_line(prefix(suffixed(metric_name, ".p999"), prefix_string), &p999, ts));
    let p9999 = u64_to_dec_string(histogram.p9999);
    out.push(carbon_line(prefix(suffixed(metric_name, ".p9999"), prefix_string), &p9999, ts));
    let p99999 = u64_to_dec_string(histogram.p99999);
    out.push(carbon_line(prefix(suffixed(metric_name, ".p99999"), prefix_string), &p99999, ts));
    out
}

/// Encodes any snapshot value as its protocol lines, by kind.
pub fn metric_value_lines(metric_name: &str, v: &MetricValue, prefix_string: &str, ts: u64) -> (r: Vec<String>)
    ensures
        spec_lines_match(r@, spec_value_lines(metric_name@, *v, prefix_string@, ts)),
{
    match v {
        MetricValue::Counter(c) => send_counter_metric(metric_name, *c, prefix_string, ts),
        MetricValue::Gauge(g) => send_gauge_metric(metric_name, *g, prefix_string, ts),
        MetricValue::Meter(m) => send_meter_metric(metric_name, *m, prefix_string, ts),
        MetricValue::Histogram(h) => send_histogram_metric(metric_name, h, prefix_string, ts),
    }
}

/// A staged metric with the name it reports under.
pub struct CarbonMetricEntry {
    /// The name the lines carry, under the namespace prefix.
    pub metric_name: String,
    /// The live metric snapshotted each cycle.
    pub metric: Metric,
}

/// Whether a snapshot value has the kind its live metric would export.
pub open spec fn spec_kind_matches(m: Metric, v: MetricValue) -> bool {
    match m {
        Metric::Counter(_) => v is Counter,
        Metric::Gauge(_) => v is Gauge,
        Metric::Meter(_) => v is Meter,
        Metric::Histogram(h) => v == MetricValue::Histogram(h),
    }
}

/// Encodes one staged entry at one reporting instant: a fresh snapshot of
/// its metric, rendered by kind.  A histogram's lines are pinned exactly;
/// for the shared kinds the snapshot is whatever one atomic read returned.
pub fn entry_lines(entry: &CarbonMetricEntry, prefix_string: &str, ts: u64, elapsed_ms: u64) -> (r: Vec<String>)
    ensures
        exists|v: MetricValue|
            spec_kind_matches(entry.metric, v) && #[trigger] spec_lines_match(
                r@,
                spec_value_lines(entry.metric_name@, v, prefix_string@, ts),
            ),
{
    let v = entry.metric.export_metric(elapsed_ms);
    let r = metric_value_lines(entry.metric_name.as_str(), &v, prefix_string, ts);
    proof {
        assert(spec_kind_matches(entry.metric, v) && spec_lines_match(
            r@,
            spec_value_lines(entry.metric_name@, v, prefix_string@, ts),
        ));
    }
    r
}

/// The state of a carbon reporter's background task: the staged entries and
/// whether a stop has been observed.
pub struct CarbonReporterState {
    staged: Vec<CarbonMetricEntry>,
    stopped: bool,
}

impl CarbonReporterState {
    /// The staged entries, oldest first.
    pub closed spec fn spec_staged(&self) -> Seq<CarbonMetricEntry> {
        self.staged@
    }

    /// Whether a stop has been observed.
    pub closed spec fn spec_stopped(&self) -> bool {
        self.stopped
    }

    /// A fresh task: nothing staged, not stopped.
    pub fn new() -> (s: CarbonReporterState)
        ensures
            s.spec_staged() =~= Seq::<CarbonMetricEntry>::empty(),
            !s.spec_stopped(),
    {
        CarbonReporterState { staged: Vec::new(), stopped: false }
    }

    /// Applies one received channel item: a metric entry is staged, an error
    /// marks the task stopped; each item is consumed exactly once.
    pub fn apply_message(&mut self, msg: Result<CarbonMetricEntry, &'static str>)
        ensures
            msg matches Ok(e) ==> final(self).spec_staged() == old(self).spec_staged().push(e)
                && final(self).spec_stopped() == old(self).spec_stopped(),
            msg is Err ==> final(self).spec_staged() == old(self).spec_staged()
                && final(self).spec_stopped(),
            (final(self).spec_staged(), final(self).spec_stopped()) == spec_apply_message(
                (old(self).spec_staged(), old(self).spec_stopped()),
                msg,
            ),
    {
        match msg {
            Ok(entry) => {
                self.staged.push(entry);
            },
            Err(_) => {
                self.stopped = true;
            },
        }
    }

    /// Whether the task should run another reporting cycle.
    pub fn running(&self) -> (r: bool)
        ensures
            r == !self.spec_stopped(),
    {
        !self.stopped
    }

    /// The staged entries, for a cycle driver to walk.
    pub fn staged_entries(&self) -> (r: &Vec<CarbonMetricEntry>)
        ensures
            r@ == self.spec_staged(),
    {
        &self.staged
    }

    /// The lines of one reporting cycle: every staged entry snapshotted and
    /// rendered, in staging order.
    pub fn cycle_lines(&self, prefix_string: &str, ts: u64, elapsed_ms: u64) -> (r: Vec<String>)
        ensures
            exists|vals: Seq<MetricValue>|
                vals.len() == self.spec_staged().len() && (forall|i: int|
                    0 <= i < vals.len() ==> spec_kind_matches(
                        self.spec_staged()[i].metric,
                        #[trigger] vals[i],
                    )) && #[trigger] spec_lines_match(
                    r@,
                    spec_cycle_lines(self.spec_staged(), vals, prefix_string@, ts),
                ),
    {
        let mut out: Vec<String> = Vec::new();
        let ghost mut vals: Seq<MetricValue> = Seq::empty();
        let n = self.staged.len();
        let mut k: usize = 0;
        proof {
            assert(self.spec_staged().take(0) =~= Seq::<CarbonMetricEntry>::empty());
        }
        while k < n
            invariant
                n == self.spec_staged().len(),
                k <= n,
                vals.len() == k,
                forall|i: int|
                    0 <= i < k ==> spec_kind_matches(
                        self.spec_staged()[i].metric,
                        #[trigger] vals[i],
                    ),
                spec_lines_match(
                    out@,
                    spec_cycle_lines(self.spec_staged().take(k as int), vals, prefix_string@, ts),
                ),
            decreases n - k,
        {
            let ghost prev_out = out@;
            let ghost prev_vals = vals;
            let lines = entry_lines(&self.staged[k], prefix_string, ts, elapsed_ms);
            let ghost v = choose|v: MetricValue|
                spec_kind_matches(self.spec_staged()[k as int].metric, v)
                    && #[trigger] spec_lines_match(
                    lines@,
                    spec_value_lines(self.spec_staged()[k as int].metric_name@, v, prefix_string@, ts),
                );
            let mut lines = lines;
            out.append(&mut lines);
            proof {
                vals = prev_vals.push(v);
                let taken = self.spec_staged().take(k as int + 1);
                assert(taken.drop_last() =~= self.spec_staged().take(k as int));
                assert(vals.drop_last() =~= prev_vals);
                assert(spec_cycle_lines(taken, vals, prefix_string@, ts) =~= spec_cycle_lines(
                    self.spec_staged().take(k as int),
                    prev_vals,
                    prefix_string@,
                    ts,
                ) + spec_value_lines(
                    self.spec_staged()[k as int].metric_name@,
                    v,
                    prefix_string@,
                    ts,
                ));
            }
            k = k + 1;
        }
        proof {
            assert(self.spec_staged().take(n as int) =~= self.spec_staged());
        }
        out
    }
}

/// The lines of one cycle over `entries`, where `vals[i]` is the snapshot
/// entry `i` exported.
pub open spec fn spec_cycle_lines(
    entries: Seq<CarbonMetricEntry>,
    vals: Seq<MetricValue>,
    prefix: Seq<char>,
    ts: u64,
) -> Seq<Seq<char>>
    recommends
        entries.len() == vals.len(),
    decreases entries.len(),
{
    if entries.len() == 0 || vals.len() == 0 {
        Seq::empty()
    } else {
        spec_cycle_lines(entries.drop_last(), vals.drop_last(), prefix, ts) + spec_value_lines(
            entries.last().metric_name@,
            vals.last(),
            prefix,
            ts,
        )
    }
}

/// What applying one channel item does to a task state, as a pure function
/// over (staged entries, stopped flag).
pub open spec fn spec_apply_message(
    s: (Seq<CarbonMetricEntry>, bool),
    msg: Result<CarbonMetricEntry, &'static str>,
) -> (Seq<CarbonMetricEntry>, bool) {
    match msg {
        Ok(e) => (s.0.push(e), s.1),
        Err(_) => (s.0, true),
    }
}

/// Once a task observed a stop it can never run again: no later channel
/// item, whatever it is, clears the stopped flag.
pub proof fn lemma_stop_is_final(
    s: (Seq<CarbonMetricEntry>, bool),
    msg: Result<CarbonMetricEntry, &'static str>,
)
    requires
        s.1,
    ensures
        spec_apply_message(s, msg).1,
{
}

/// Whether `c` is a decimal digit.
pub open spec fn spec_is_digit(c: char) -> bool {
    48 <= c as u32 && c as u32 <= 57
}

/// The numeric value of the digit `c`.
pub open spec fn spec_digit_val(c: char) -> nat {
    (c as u32 - 48) as nat
}

/// The value of a non-empty run of decimal digits.
pub open spec fn spec_dec_value(s: Seq<char>) -> nat
    decreases s.len(),
{
    if s.len() == 0 {
        0
    } else {
        spec_dec_value(s.drop_last()) * 10 + spec_digit_val(s.last())
    }
}

/// The index of the last colon in `s`, or a negative number if none.
pub open spec fn spec_last_colon(s: Seq<char>) -> int
    decreases s.len(),
{
    if s.len() == 0 {
        -1
    } else if s.last() == ':' {
        s.len() - 1
    } else {
        spec_last_colon(s.drop_last())
    }
}

/// Whether `s` is a well-formed `host:port` address: a non-empty host, a
/// final colon, and a non-empty all-digit port that fits a port number.
pub open spec fn spec_valid_host_port(s: Seq<char>) -> bool {
    let i = spec_last_colon(s);
    &&& 0 < i
    &&& i + 1 < s.len()
    &&& (forall|j: int| i < j < s.len() ==> spec_is_digit(#[trigger] s[j]))
    &&& spec_dec_value(s.subrange(i + 1, s.len() as int)) <= 65535
}

/// A colon never lies past the last colon.
proof fn lemma_colon_below_last(s: Seq<char>, t: int)
    requires
        0 <= t < s.len(),
        s[t] == ':',
    ensures
        spec_last_colon(s) >= t,
    decreases s.len(),
{
    if t < s.len() - 1 && s.last() != ':' {
        lemma_colon_below_last(s.drop_last(), t);
    }
}

/// The last-colon index always lies below the length.
proof fn lemma_last_colon_range(s: Seq<char>)
    ensures
        -1 <= spec_last_colon(s) < s.len(),
    decreases s.len(),
{
    if s.len() > 0 && s.last() != ':' {
        lemma_last_colon_range(s.drop_last());
    }
}

/// Where a last colon exists, it is a colon.
proof fn lemma_last_colon_is_colon(s: Seq<char>)
    requires
        spec_last_colon(s) >= 0,
    ensures
        spec_last_colon(s) < s.len(),
        s[spec_last_colon(s)] == ':',
    decreases s.len(),
{
    if s.len() > 0 && s.last() != ':' {
        lemma_last_colon_is_colon(s.drop_last());
    }
}

/// Splits a sink address into its host and port, exactly when it is well
/// formed: the host is everything before the last colon and the port the
/// digits after it.  A malformed address yields `None`, so a caller can
/// fail at construction time instead of deep inside a reporting cycle.
pub fn parse_host_port(s: &str) -> (r: Option<(String, u16)>)
    ensures
        r is Some <==> spec_valid_host_port(s@),
        r matches Some(hp) ==> {
            let i = spec_last_colon(s@);
            &&& hp.0@ == s@.subrange(0, i)
            &&& hp.1 == spec_dec_value(s@.subrange(i + 1, s@.len() as int))
        },
{
    let n = s.unicode_len();
    let mut colon: Option<usize> = None;
    let mut j: usize = n;
    proof {
        lemma_last_colon_range(s@);
    }
    while j > 0 && colon.is_none()
        invariant
            n == s@.len(),
            j <= n,
            match colon {
                Some(c) => c < n && s@[c as int] == ':' && spec_last_colon(s@) == c,
                None => spec_last_colon(s@) < j,
            },
        decreases j,
    {
        let is_colon = s.get_char(j - 1) == ':';
        proof {
            if is_colon {
                lemma_colon_below_last(s@, j as int - 1);
            } else if spec_last_colon(s@) == j - 1 {
                lemma_last_colon_is_colon(s@);
                assert(false);
            }
        }
        if is_colon {
            colon = Some(j - 1);
        }
        j = j - 1;
    }
    let i = match colon {
        Some(i) => i,
        None => {
            return None;
        },
    };
    if i == 0 || i + 1 >= n {
        return None;
    }
    let mut value: u32 = 0;
    let mut k: usize = i + 1;
    proof {
        assert(s@.subrange(i + 1, i + 1 as int) =~= Seq::<char>::empty());
    }
    while k < n
        invariant
            n == s@.len(),
            i + 1 <= k <= n,
            0 < i,
            i + 1 < n,
            spec_last_colon(s@) == i,
            forall|j2: int| i < j2 < k ==> spec_is_digit(#[trigger] s@[j2]),
            ({
                let v = spec_dec_value(s@.subrange(i + 1, k as int));
                if v <= 65535 {
                    value == v
                } else {
                    65535 < value <= 700000
                }
            }),
        decreases n - k,
    {
        let c = s.get_char(k);
        let code = c as u32;
        if code < 48 || code > 57 {
            return None;
        }
        proof {
            assert(s@.subrange(i + 1, k as int + 1).drop_last() =~= s@.subrange(i + 1, k as int));
        }
        if value <= 65535 {
            value = value * 10 + (code - 48);
        } else {
            value = 70000;
        }
        k = k + 1;
    }
    if value > 65535 {
        return None;
    }
    let host = s.substring_char(0, i).to_owned();
    proof {
        assert(s@.subrange(0, i as int) =~= s@.subrange(0, i as int));
    }
    Some((host, value as u16))
}

/// The calendar-aligned instant of the next reporting cycle: the first
/// multiple of `delay_ms` strictly after `now_ms`, so cycles do not drift
/// with loop overhead.
pub fn next_aligned_tick_ms(now_ms: u64, delay_ms: u64) -> (r: u64)
    requires
        0 < delay_ms,
        now_ms + delay_ms <= u64::MAX,
    ensures
        r % delay_ms == 0,
        now_ms < r,
        r <= now_ms + delay_ms,
{
    let q: u64 = now_ms / delay_ms;
    proof {
        assert((q + 1) * delay_ms <= now_ms + delay_ms) by (nonlinear_arith)
            requires
                0 < delay_ms,
                q == now_ms / delay_ms,
        ;
        assert(now_ms < (q + 1) * delay_ms) by (nonlinear_arith)
            requires
                0 < delay_ms,
                q == now_ms / delay_ms,
        ;
        assert(((q + 1) * delay_ms) % (delay_ms as int) == 0) by (nonlinear_arith)
            requires
                0 < delay_ms,
        ;
    }
    (q + 1) * delay_ms
}

} // verus!
