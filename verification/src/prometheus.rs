//! The binary exposition format: staged metrics are grouped by name into
//! typed families, serialized with the wire primitives of [`crate::proto`],
//! and held in a bounded cache keyed by family name, from which the scrape
//! payload — a concatenation of length-delimited family records — is
//! produced on demand.
//!
//! The cache is an outside least-recently-used map; the library trusts a
//! stated contract for each of its operations and proves everything above
//! them.

use crate::cache::cache_capacity;
use crate::cache::cache_entries;
use crate::cache::cache_insert;
use crate::cache::cache_items;
use crate::cache::cache_new;
use crate::cache::cache_remove;
use crate::cache::spec_cache_lookup;
use crate::cache::spec_cache_without;
use crate::metric::Metric;
use lru_cache::LruCache;
use crate::proto::spec_double_field;
use crate::proto::spec_len_delimited;
use crate::proto::spec_string_field;
use crate::proto::spec_varint;
use crate::proto::spec_varint_field;
use crate::proto::spec_f64_bits_of_i64;
use crate::proto::spec_f64_bits_of_u64;
use crate::proto::f64_bits_from_i64;
use crate::proto::f64_bits_from_u64;
use crate::proto::write_bytes_field;
use crate::proto::write_double_field;
use crate::proto::write_string_field;
use crate::proto::write_varint;
use crate::proto::write_varint_field;
use vstd::prelude::*;

verus! {

/// A label attached to a sample: a name and a value.
pub struct LabelPair {
    /// The label name.
    pub name: String,
    /// The label value.
    pub value: String,
}

/// The exposition type of a family.
#[derive(Clone, Copy, PartialEq, Eq, Structural, Debug)]
pub enum MetricType {
    Counter,
    Gauge,
    Summary,
    Untyped,
    Histogram,
}

/// The value a sample carries: counters and gauges hold the bit pattern of
/// their 64-bit float value; meters export an empty summary record and
/// histograms an empty histogram record.
#[derive(Clone, Copy, PartialEq, Eq, Structural, Debug)]
pub enum SampleValue {
    /// A counter sample: the float's bit pattern.
    Counter(u64),
    /// A gauge sample: the float's bit pattern.
    Gauge(u64),
    /// An empty summary.
    Summary,
    /// An empty histogram.
    Histogram,
}

/// One sample of a family: labels, a millisecond timestamp, and a value.
pub struct PromMetric {
    /// The labels of this sample.
    pub labels: Vec<LabelPair>,
    /// The sample's timestamp in milliseconds.
    pub timestamp_ms: u64,
    /// The sample's value.
    pub sample: SampleValue,
}

/// A family: a name, an exposition type, and the samples grouped under it.
pub struct MetricFamily {
    /// The external metric name.
    pub name: String,
    /// The exposition type, taken from the first staged entry of the name.
    pub field_type: MetricType,
    /// The samples of this family.
    pub metrics: Vec<PromMetric>,
}

/// The wire tag of an exposition type.
pub open spec fn spec_metric_type_tag(t: MetricType) -> nat {
    match t {
        MetricType::Counter => 0,
        MetricType::Gauge => 1,
        MetricType::Summary => 2,
        MetricType::Untyped => 3,
        MetricType::Histogram => 4,
    }
}

/// The field number under which a sample value nests in its sample record.
pub open spec fn spec_sample_field(s: SampleValue) -> nat {
    match s {
        SampleValue::Gauge(_) => 2,
        SampleValue::Counter(_) => 3,
        SampleValue::Summary => 4,
        SampleValue::Histogram => 7,
    }
}

/// The payload of a sample value's nested message: one double field for a
/// counter or a gauge, nothing for the empty messages.
pub open spec fn spec_sample_payload(s: SampleValue) -> Seq<u8> {
    match s {
        SampleValue::Counter(bits) => spec_double_field(1, bits),
        SampleValue::Gauge(bits) => spec_double_field(1, bits),
        SampleValue::Summary => Seq::empty(),
        SampleValue::Histogram => Seq::empty(),
    }
}

/// The encoding of one label pair: its name and value string fields.
pub open spec fn spec_label_pair_bytes(lp: LabelPair) -> Seq<u8> {
    spec_string_field(1, lp.name@) + spec_string_field(2, lp.value@)
}

/// The encoding of a label list: each pair as a length-delimited field 1.
pub open spec fn spec_labels_bytes(labels: Seq<LabelPair>) -> Seq<u8>
    decreases labels.len(),
{
    if labels.len() == 0 {
        Seq::empty()
    } else {
        spec_labels_bytes(labels.drop_last()) + spec_len_delimited(
            1,
            spec_label_pair_bytes(labels.last()),
        )
    }
}

/// The encoding of one sample record: labels, the nested value message in
/// field-number order around the timestamp, which is field 6.
pub open spec fn spec_prom_metric_bytes(m: PromMetric) -> Seq<u8> {
    let value_field = spec_len_delimited(spec_sample_field(m.sample), spec_sample_payload(m.sample));
    if spec_sample_field(m.sample) < 6 {
        spec_labels_bytes(m.labels@) + value_field + spec_varint_field(6, m.timestamp_ms as nat)
    } else {
        spec_labels_bytes(m.labels@) + spec_varint_field(6, m.timestamp_ms as nat) + value_field
    }
}

/// The encoding of a sample list: each as a length-delimited field 4.
pub open spec fn spec_metrics_bytes(ms: Seq<PromMetric>) -> Seq<u8>
    decreases ms.len(),
{
    if ms.len() == 0 {
        Seq::empty()
    } else {
        spec_metrics_bytes(ms.drop_last()) + spec_len_delimited(
            4,
            spec_prom_metric_bytes(ms.last()),
        )
    }
}

/// The encoding of a family record: name, type tag, then every sample.
pub open spec fn spec_family_bytes(f: MetricFamily) -> Seq<u8> {
    spec_string_field(1, f.name@) + spec_varint_field(3, spec_metric_type_tag(f.field_type))
        + spec_metrics_bytes(f.metrics@)
}

/// A family record framed for the scrape payload: its length as a varint,
/// then the record.
pub open spec fn spec_delimited_family_bytes(f: MetricFamily) -> Seq<u8> {
    spec_varint(spec_family_bytes(f).len()) + spec_family_bytes(f)
}

/// Encodes one label pair.
fn encode_label_pair(lp: &LabelPair) -> (r: Vec<u8>)
    ensures
        r@ == spec_label_pair_bytes(*lp),
{
    let mut out: Vec<u8> = Vec::new();
    write_string_field(&mut out, 1, lp.name.as_str());
    write_string_field(&mut out, 2, lp.value.as_str());
    proof {
        assert(out@ =~= spec_label_pair_bytes(*lp));
    }
    out
}

/// Encodes one sample record.
fn encode_prom_metric(m: &PromMetric) -> (r: Vec<u8>)
    ensures
        r@ == spec_prom_metric_bytes(*m),
{
    let mut out: Vec<u8> = Vec::new();
    let n = m.labels.len();
    let mut k: usize = 0;
    proof {
        assert(m.labels@.take(0) =~= Seq::<LabelPair>::empty());
    }
    while k < n
        invariant
            n == m.labels@.len(),
            k <= n,
            out@ == spec_labels_bytes(m.labels@.take(k as int)),
        decreases n - k,
    {
        let pair = encode_label_pair(&m.labels[k]);
        write_bytes_field(&mut out, 1, &pair);
        proof {
            assert(m.labels@.take(k as int + 1).drop_last() =~= m.labels@.take(k as int));
        }
        k = k + 1;
    }
    proof {
        assert(m.labels@.take(n as int) =~= m.labels@);
    }
    let payload: Vec<u8> = match m.sample {
        SampleValue::Counter(bits) => {
            let mut p: Vec<u8> = Vec::new();
            write_double_field(&mut p, 1, bits);
            p
        },
        SampleValue::Gauge(bits) => {
            let mut p: Vec<u8> = Vec::new();
            write_double_field(&mut p, 1, bits);
            p
        },
        SampleValue::Summary => Vec::new(),
        SampleValue::Histogram => Vec::new(),
    };
    proof {
        assert(payload@ =~= spec_sample_payload(m.sample));
    }
    match m.sample {
        SampleValue::Histogram => {
            write_varint_field(&mut out, 6, m.timestamp_ms);
            write_bytes_field(&mut out, 7, &payload);
        },
        SampleValue::Summary => {
            write_bytes_field(&mut out, 4, &payload);
            write_varint_field(&mut out, 6, m.timestamp_ms);
        },
        SampleValue::Counter(_) => {
            write_bytes_field(&mut out, 3, &payload);
            write_varint_field(&mut out, 6, m.timestamp_ms);
        },
        SampleValue::Gauge(_) => {
            write_bytes_field(&mut out, 2, &payload);
            write_varint_field(&mut out, 6, m.timestamp_ms);
        },
    }
    proof {
        assert(out@ =~= spec_prom_metric_bytes(*m));
    }
    out
}

/// Encodes one family record, unframed.
pub fn encode_family(f: &MetricFamily) -> (r: Vec<u8>)
    ensures
        r@ == spec_family_bytes(*f),
{
    let mut out: Vec<u8> = Vec::new();
    write_string_field(&mut out, 1, f.name.as_str());
    let tag: u64 = match f.field_type {
        MetricType::Counter => 0,
        MetricType::Gauge => 1,
        MetricType::Summary => 2,
        MetricType::Untyped => 3,
        MetricType::Histogram => 4,
    };
    write_varint_field(&mut out, 3, tag);
    let n = f.metrics.len();
    let mut k: usize = 0;
    let ghost head = out@;
    proof {
        assert(f.metrics@.take(0) =~= Seq::<PromMetric>::empty());
        assert(out@ =~= head + spec_metrics_bytes(f.metrics@.take(0)));
    }
    while k < n
        invariant
            n == f.metrics@.len(),
            k <= n,
            out@ == head + spec_metrics_bytes(f.metrics@.take(k as int)),
        decreases n - k,
    {
        let sample = encode_prom_metric(&f.metrics[k]);
        write_bytes_field(&mut out, 4, &sample);
        proof {
            assert(f.metrics@.take(k as int + 1).drop_last() =~= f.metrics@.take(k as int));
        }
        k = k + 1;
    }
    proof {
        assert(f.metrics@.take(n as int) =~= f.metrics@);
        assert(out@ =~= spec_family_bytes(*f));
    }
    out
}

/// Encodes one family record framed for the scrape payload.
pub fn encode_delimited_family(f: &MetricFamily) -> (r: Vec<u8>)
    ensures
        r@ == spec_delimited_family_bytes(*f),
{
    let body = encode_family(f);
    let mut out: Vec<u8> = Vec::new();
    write_varint(&mut out, body.len() as u64);
    let mut body = body;
    out.append(&mut body);
    proof {
        assert(out@ =~= spec_delimited_family_bytes(*f));
    }
    out
}

/// A staged metric with the name and labels it reports under.
pub struct PrometheusMetricEntry {
    /// The metric name entries are grouped by.
    pub name: String,
    /// The live metric snapshotted when families are built.
    pub metric: Metric,
    /// The labels attached to this entry's samples.
    pub labels: Vec<(String, String)>,
}

/// The exposition type a metric kind maps to: meters export as summaries.
pub open spec fn spec_type_of_metric(m: Metric) -> MetricType {
    match m {
        Metric::Counter(_) => MetricType::Counter,
        Metric::Gauge(_) => MetricType::Gauge,
        Metric::Meter(_) => MetricType::Summary,
        Metric::Histogram(_) => MetricType::Histogram,
    }
}

/// Whether the label pairs in `a` carry exactly the strings in `b`.
pub open spec fn spec_labels_views_match(a: Seq<LabelPair>, b: Seq<(String, String)>) -> bool {
    a.len() == b.len() && forall|i: int|
        0 <= i < a.len() ==> (#[trigger] a[i]).name@ == b[i].0@ && a[i].value@ == b[i].1@
}

/// Whether `s` is a sample value that snapshotting `m` can produce: for a
/// counter or a gauge, the float bits of some value its atomic can hold;
/// for a meter an empty summary; for a histogram an empty histogram.
pub open spec fn spec_sample_matches_metric(s: SampleValue, m: Metric) -> bool {
    match m {
        Metric::Counter(_) => exists|v: usize|
            s == SampleValue::Counter((#[trigger] spec_f64_bits_of_u64(v as nat)) as u64),
        Metric::Gauge(_) => exists|v: isize|
            s == SampleValue::Gauge((#[trigger] spec_f64_bits_of_i64(v as int)) as u64),
        Metric::Meter(_) => s == SampleValue::Summary,
        Metric::Histogram(_) => s == SampleValue::Histogram,
    }
}

/// Converts a list of label strings into the exposition's label pairs.
pub fn to_repeated_fields_labels(labels: &Vec<(String, String)>) -> (r: Vec<LabelPair>)
    ensures
        spec_labels_views_match(r@, labels@),
{
    let n = labels.len();
    let mut out: Vec<LabelPair> = Vec::new();
    let mut k: usize = 0;
    while k < n
        invariant
            n == labels@.len(),
            k <= n,
            out@.len() == k,
            forall|i: int|
                0 <= i < k ==> (#[trigger] out@[i]).name@ == labels@[i].0@ && out@[i].value@
                    == labels@[i].1@,
        decreases n - k,
    {
        out.push(LabelPair { name: labels[k].0.clone(), value: labels[k].1.clone() });
        k = k + 1;
    }
    out
}

/// Builds one sample record from a live metric: a fresh snapshot rendered
/// as float bits or an empty nested message, the entry's labels, the given
/// timestamp, and the family type the metric's kind selects.
pub fn make_metric(metric: &Metric, labels: &Vec<(String, String)>, timestamp_ms: u64) -> (r: (
    PromMetric,
    MetricType,
))
    ensures
        r.1 == spec_type_of_metric(*metric),
        spec_labels_views_match(r.0.labels@, labels@),
        r.0.timestamp_ms == timestamp_ms,
        spec_sample_matches_metric(r.0.sample, *metric),
{
    let pairs = to_repeated_fields_labels(labels);
    match metric {
        Metric::Counter(c) => {
            let snap = c.snapshot();
            let bits = f64_bits_from_u64(snap.value as u64);
            proof {
                assert(spec_f64_bits_of_u64(snap.value as nat) == bits);
            }
            (
                PromMetric {
                    labels: pairs,
                    timestamp_ms,
                    sample: SampleValue::Counter(bits),
                },
                MetricType::Counter,
            )
        },
        Metric::Gauge(g) => {
            let snap = g.snapshot();
            let bits = f64_bits_from_i64(snap.value as i64);
            proof {
                assert(spec_f64_bits_of_i64(snap.value as int) == bits);
            }
            (
                PromMetric { labels: pairs, timestamp_ms, sample: SampleValue::Gauge(bits) },
                MetricType::Gauge,
            )
        },
        Metric::Meter(_) => (
            PromMetric { labels: pairs, timestamp_ms, sample: SampleValue::Summary },
            MetricType::Summary,
        ),
        Metric::Histogram(_) => (
            PromMetric { labels: pairs, timestamp_ms, sample: SampleValue::Histogram },
            MetricType::Histogram,
        ),
    }
}

/// The distinct entry names, in order of first appearance.
pub open spec fn spec_distinct_names(entries: Seq<PrometheusMetricEntry>) -> Seq<Seq<char>>
    decreases entries.len(),
{
    if entries.len() == 0 {
        Seq::empty()
    } else {
        let prev = spec_distinct_names(entries.drop_last());
        if prev.contains(entries.last().name@) {
            prev
        } else {
            prev.push(entries.last().name@)
        }
    }
}

/// The entries staged under one name, in arrival order.
pub open spec fn spec_group(entries: Seq<PrometheusMetricEntry>, name: Seq<char>) -> Seq<
    PrometheusMetricEntry,
> {
    entries.filter(|e: PrometheusMetricEntry| e.name@ == name)
}

/// The external name of a family: the application, the metric name and the
/// unit, joined by underscores.
pub open spec fn spec_formatted_name(name: Seq<char>) -> Seq<char> {
    ("application_name_")@ + name + ("_bytes")@
}

/// Every distinct name has a non-empty group.
proof fn lemma_distinct_names_have_entries(entries: Seq<PrometheusMetricEntry>, i: int)
    requires
        0 <= i < spec_distinct_names(entries).len(),
    ensures
        spec_group(entries, spec_distinct_names(entries)[i]).len() > 0,
    decreases entries.len(),
{
    reveal(Seq::filter);
    if entries.len() > 0 {
        let prev = spec_distinct_names(entries.drop_last());
        let name = spec_distinct_names(entries)[i];
        if prev.contains(entries.last().name@) || i < prev.len() {
            lemma_distinct_names_have_entries(entries.drop_last(), i);
            assert(spec_group(entries.drop_last(), name).len() <= spec_group(entries, name).len());
        } else {
            assert(name == entries.last().name@);
        }
    }
}

/// Extending the scanned entries by one grows a name's group by that entry
/// exactly when the names agree.
proof fn lemma_group_take_step(entries: Seq<PrometheusMetricEntry>, k: int, name: Seq<char>)
    requires
        0 <= k < entries.len(),
    ensures
        entries[k].name@ == name ==> spec_group(entries.take(k + 1), name) == spec_group(
            entries.take(k),
            name,
        ).push(entries[k]),
        entries[k].name@ != name ==> spec_group(entries.take(k + 1), name) == spec_group(
            entries.take(k),
            name,
        ),
{
    reveal(Seq::filter);
    assert(entries.take(k + 1).drop_last() =~= entries.take(k));
    assert(entries.take(k + 1).last() == entries[k]);
}

/// Groups staged entries into families: one per distinct name, in order of
/// first appearance, named by [`spec_formatted_name`], typed by the first
/// entry of the name, holding one sample per entry of the name, each
/// stamped with `timestamp_ms` and carrying its entry's labels.
pub fn metric_entries_to_family(entries: &Vec<PrometheusMetricEntry>, timestamp_ms: u64) -> (r: Vec<
    MetricFamily,
>)
    ensures
        r@.len() == spec_distinct_names(entries@).len(),
        forall|i: int|
            0 <= i < r@.len() ==> (#[trigger] r@[i]).name@ == spec_formatted_name(
                spec_distinct_names(entries@)[i],
            ),
        forall|i: int|
            0 <= i < r@.len() ==> (#[trigger] r@[i]).metrics@.len() == spec_group(
                entries@,
                spec_distinct_names(entries@)[i],
            ).len(),
        forall|i: int|
            0 <= i < r@.len() ==> (#[trigger] r@[i]).field_type == spec_type_of_metric(
                spec_group(entries@, spec_distinct_names(entries@)[i])[0].metric,
            ),
        forall|i: int, j: int|
            0 <= i < r@.len() && 0 <= j < r@[i].metrics@.len() ==> {
                let group = spec_group(entries@, spec_distinct_names(entries@)[i]);
                let sample = #[trigger] r@[i].metrics@[j];
                &&& sample.timestamp_ms == timestamp_ms
                &&& spec_labels_views_match(sample.labels@, group[j].labels@)
                &&& spec_sample_matches_metric(sample.sample, group[j].metric)
            },
{
    let n = entries.len();
    let mut names: Vec<String> = Vec::new();
    let mut k: usize = 0;
    proof {
        assert(entries@.take(0) =~= Seq::<PrometheusMetricEntry>::empty());
    }
    while k < n
        invariant
            n == entries@.len(),
            k <= n,
            names@.len() == spec_distinct_names(entries@.take(k as int)).len(),
            forall|j: int|
                0 <= j < names@.len() ==> (#[trigger] names@[j])@ == spec_distinct_names(
                    entries@.take(k as int),
                )[j],
        decreases n - k,
    {
        let ghost prev = spec_distinct_names(entries@.take(k as int));
        let mut seen = false;
        let m = names.len();
        let mut j: usize = 0;
        while j < m
            invariant
                m == names@.len(),
                j <= m,
                names@.len() == prev.len(),
                forall|t: int| 0 <= t < names@.len() ==> (#[trigger] names@[t])@ == prev[t],
                seen == exists|t: int| 0 <= t < j && prev[t] == entries@[k as int].name@,
                k < n == entries@.len(),
            decreases m - j,
        {
            if names[j] == entries[k].name {
                seen = true;
            }
            j = j + 1;
        }
        proof {
            assert(entries@.take(k as int + 1).drop_last() =~= entries@.take(k as int));
            if seen {
                assert(prev.contains(entries@[k as int].name@));
            } else {
                if prev.contains(entries@[k as int].name@) {
                    let t = choose|t: int|
                        0 <= t < prev.len() && prev[t] == entries@[k as int].name@;
                    assert(false);
                }
            }
        }
        if !seen {
            names.push(entries[k].name.clone());
        }
        k = k + 1;
    }
    proof {
        assert(entries@.take(n as int) =~= entries@);
    }
    let ghost all_names = spec_distinct_names(entries@);

    let mut families: Vec<MetricFamily> = Vec::new();
    let fcount = names.len();
    let mut i: usize = 0;
    while i < fcount
        invariant
            all_names == spec_distinct_names(entries@),
            fcount == names@.len(),
            i <= fcount,
            names@.len() == all_names.len(),
            forall|j: int| 0 <= j < names@.len() ==> (#[trigger] names@[j])@ == all_names[j],
            n == entries@.len(),
            families@.len() == i,
            forall|t: int|
                0 <= t < i ==> (#[trigger] families@[t]).name@ == spec_formatted_name(
                    all_names[t],
                ),
            forall|t: int|
                0 <= t < i ==> (#[trigger] families@[t]).metrics@.len() == spec_group(
                    entries@,
                    all_names[t],
                ).len(),
            forall|t: int|
                0 <= t < i ==> (#[trigger] families@[t]).field_type == spec_type_of_metric(
                    spec_group(entries@, all_names[t])[0].metric,
                ),
            forall|t: int, j: int|
                0 <= t < i && 0 <= j < families@[t].metrics@.len() ==> {
                    let group = spec_group(entries@, all_names[t]);
                    let sample = #[trigger] families@[t].metrics@[j];
                    &&& sample.timestamp_ms == timestamp_ms
                    &&& spec_labels_views_match(sample.labels@, group[j].labels@)
                    &&& spec_sample_matches_metric(sample.sample, group[j].metric)
                },
        decreases fcount - i,
    {
        let ghost gname = all_names[i as int];
        let mut metrics: Vec<PromMetric> = Vec::new();
        let mut family_type = MetricType::Untyped;
        let mut k2: usize = 0;
        proof {
            assert(entries@.take(0) =~= Seq::<PrometheusMetricEntry>::empty());
            reveal(Seq::filter);
        }
        while k2 < n
            invariant
                n == entries@.len(),
                k2 <= n,
                i < names@.len(),
                names@[i as int]@ == gname,
                metrics@.len() == spec_group(entries@.take(k2 as int), gname).len(),
                metrics@.len() > 0 ==> family_type == spec_type_of_metric(
                    spec_group(entries@.take(k2 as int), gname)[0].metric,
                ),
                forall|j: int|
                    0 <= j < metrics@.len() ==> {
                        let group = spec_group(entries@.take(k2 as int), gname);
                        let sample = #[trigger] metrics@[j];
                        &&& sample.timestamp_ms == timestamp_ms
                        &&& spec_labels_views_match(sample.labels@, group[j].labels@)
                        &&& spec_sample_matches_metric(sample.sample, group[j].metric)
                    },
            decreases n - k2,
        {
            proof {
                lemma_group_take_step(entries@, k2 as int, gname);
            }
            if entries[k2].name == names[i] {
                let (sample, t) = make_metric(
                    &entries[k2].metric,
                    &entries[k2].labels,
                    timestamp_ms,
                );
                if metrics.len() == 0 {
                    family_type = t;
                }
                metrics.push(sample);
            }
            k2 = k2 + 1;
        }
        proof {
            assert(entries@.take(n as int) =~= entries@);
            assert(names@.len() == all_names.len());
            assert((i as int) < all_names.len());
            assert(all_names == spec_distinct_names(entries@));
            lemma_distinct_names_have_entries(entries@, i as int);
            assert(spec_group(entries@, gname).len() > 0);
            assert(metrics@.len() == spec_group(entries@, gname).len());
            assert(family_type == spec_type_of_metric(spec_group(entries@, gname)[0].metric));
        }
        let mut fname: String = ("application_name_").to_owned();
        fname.append(names[i].as_str());
        fname.append("_bytes");
        families.push(MetricFamily { name: fname, field_type: family_type, metrics });
        i = i + 1;
    }
    families
}

/// How many pairs the reporter's cache holds at most.
pub const PROMETHEUS_CACHE_CAPACITY: usize = 86400;

/// The cache contents after adding `fams` in order, while no pair is
/// evicted: each family's framed record is stored under its name,
/// overwriting that name.
pub open spec fn spec_entries_after_add(
    s: Seq<(Seq<char>, Seq<u8>)>,
    fams: Seq<MetricFamily>,
) -> Seq<(Seq<char>, Seq<u8>)>
    decreases fams.len(),
{
    if fams.len() == 0 {
        s
    } else {
        spec_entries_after_add(
            spec_cache_without(s, fams[0].name@).push(
                (fams[0].name@, spec_delimited_family_bytes(fams[0])),
            ),
            fams.drop_first(),
        )
    }
}

/// The cache contents after removing the named families in order.
pub open spec fn spec_entries_after_removes(
    s: Seq<(Seq<char>, Seq<u8>)>,
    names: Seq<String>,
) -> Seq<(Seq<char>, Seq<u8>)>
    decreases names.len(),
{
    if names.len() == 0 {
        s
    } else {
        spec_entries_after_removes(spec_cache_without(s, names[0]@), names.drop_first())
    }
}

/// How many of the named removals found their family present, counting each
/// removal against the cache as it then stood.
pub open spec fn spec_removed_count(s: Seq<(Seq<char>, Seq<u8>)>, names: Seq<String>) -> int
    decreases names.len(),
{
    if names.len() == 0 {
        0int
    } else {
        (if spec_cache_lookup(s, names[0]@) is Some {
            1int
        } else {
            0int
        }) + spec_removed_count(spec_cache_without(s, names[0]@), names.drop_first())
    }
}

/// The concatenation of the stored family records, least recent first: the
/// scrape payload.
pub open spec fn spec_concat_records(s: Seq<(Seq<char>, Seq<u8>)>) -> Seq<u8>
    decreases s.len(),
{
    if s.len() == 0 {
        Seq::empty()
    } else {
        spec_concat_records(s.drop_last()) + s.last().1
    }
}

/// Adding one more family folds onto the end of an add sequence.
proof fn lemma_after_add_snoc(
    s: Seq<(Seq<char>, Seq<u8>)>,
    fams: Seq<MetricFamily>,
    f: MetricFamily,
)
    ensures
        spec_entries_after_add(s, fams.push(f)) == spec_cache_without(
            spec_entries_after_add(s, fams),
            f.name@,
        ).push((f.name@, spec_delimited_family_bytes(f))),
    decreases fams.len(),
{
    reveal_with_fuel(spec_entries_after_add, 3);
    if fams.len() == 0 {
        assert(fams.push(f).drop_first() =~= Seq::<MetricFamily>::empty());
        assert(fams.push(f)[0] == f);
    } else {
        assert(fams.push(f)[0] == fams[0]);
        assert(fams.push(f).drop_first() =~= fams.drop_first().push(f));
        lemma_after_add_snoc(
            spec_cache_without(s, fams[0].name@).push(
                (fams[0].name@, spec_delimited_family_bytes(fams[0])),
            ),
            fams.drop_first(),
            f,
        );
    }
}

/// Removing one more name folds onto the end of a removal sequence.
proof fn lemma_after_removes_snoc(s: Seq<(Seq<char>, Seq<u8>)>, names: Seq<String>, n: String)
    ensures
        spec_entries_after_removes(s, names.push(n)) == spec_cache_without(
            spec_entries_after_removes(s, names),
            n@,
        ),
        spec_removed_count(s, names.push(n)) == spec_removed_count(s, names) + (
        if spec_cache_lookup(spec_entries_after_removes(s, names), n@) is Some {
            1int
        } else {
            0int
        }),
    decreases names.len(),
{
    reveal_with_fuel(spec_entries_after_removes, 3);
    reveal_with_fuel(spec_removed_count, 3);
    if names.len() == 0 {
        assert(names.push(n).drop_first() =~= Seq::<String>::empty());
        assert(names.push(n)[0] == n);
        assert(spec_entries_after_removes(s, names) == s);
        assert(spec_removed_count(s, names) == 0);
    } else {
        assert(names.push(n)[0] == names[0]);
        assert(names.push(n).drop_first() =~= names.drop_first().push(n));
        let s1 = spec_cache_without(s, names[0]@);
        lemma_after_removes_snoc(s1, names.drop_first(), n);
        assert(spec_entries_after_removes(s, names) == spec_entries_after_removes(
            s1,
            names.drop_first(),
        ));
        assert(spec_removed_count(s, names.push(n)) == (
        if spec_cache_lookup(s, names[0]@) is Some {
            1int
        } else {
            0int
        }) + spec_removed_count(s1, names.drop_first().push(n)));
        assert(spec_removed_count(s, names) == (
        if spec_cache_lookup(s, names[0]@) is Some {
            1int
        } else {
            0int
        }) + spec_removed_count(s1, names.drop_first()));
    }
}

/// The aggregator's store: family records under their names, bounded by
/// [`PROMETHEUS_CACHE_CAPACITY`], serving their concatenation on demand.
/// The network listener that exposes the payload is an external
/// collaborator.
pub struct PrometheusReporter {
    cache: LruCache<String, Vec<u8>>,
}

impl PrometheusReporter {
    /// The stored pairs, least recently inserted first.
    pub closed spec fn spec_entries(&self) -> Seq<(Seq<char>, Seq<u8>)> {
        cache_entries(self.cache)
    }

    /// The capacity the store was created with.
    pub closed spec fn spec_capacity(&self) -> nat {
        cache_capacity(self.cache)
    }

    /// The cache never exceeds its fixed capacity.
    pub open spec fn wf(&self) -> bool {
        &&& self.spec_capacity() == PROMETHEUS_CACHE_CAPACITY
        &&& self.spec_entries().len() <= PROMETHEUS_CACHE_CAPACITY
    }

    /// Creates an empty aggregator store.
    pub fn new() -> (r: PrometheusReporter)
        ensures
            r.wf(),
            r.spec_entries() =~= Seq::<(Seq<char>, Seq<u8>)>::empty(),
    {
        PrometheusReporter { cache: cache_new(PROMETHEUS_CACHE_CAPACITY) }
    }

    /// Stores each family's framed record under its name, in order, and
    /// reports how many families were taken — always all of them.  While
    /// the store stays within its capacity no other pair is touched; at
    /// capacity the least-recently-stored pairs make room.
    pub fn add(&mut self, metric_families: Vec<MetricFamily>) -> (r: Result<i64, String>)
        requires
            old(self).wf(),
            metric_families@.len() <= i64::MAX,
        ensures
            final(self).wf(),
            r == Ok::<i64, String>(metric_families@.len() as i64),
            old(self).spec_entries().len() + metric_families@.len() <= PROMETHEUS_CACHE_CAPACITY
                ==> final(self).spec_entries() == spec_entries_after_add(
                old(self).spec_entries(),
                metric_families@,
            ),
    {
        broadcast use vstd::seq_lib::group_filter_ensures;

        let ghost orig = self.spec_entries();
        let ghost no_evict = orig.len() + metric_families@.len() <= PROMETHEUS_CACHE_CAPACITY;
        let n = metric_families.len();
        let mut counter: i64 = 0;
        let mut k: usize = 0;
        proof {
            assert(metric_families@.take(0) =~= Seq::<MetricFamily>::empty());
        }
        while k < n
            invariant
                old(self).wf(),
                n == metric_families@.len() <= i64::MAX,
                k <= n,
                counter == k,
                orig == old(self).spec_entries(),
                no_evict == (orig.len() + metric_families@.len() <= PROMETHEUS_CACHE_CAPACITY),
                self.spec_capacity() == PROMETHEUS_CACHE_CAPACITY,
                self.spec_entries().len() <= PROMETHEUS_CACHE_CAPACITY,
                no_evict ==> self.spec_entries() == spec_entries_after_add(
                    orig,
                    metric_families@.take(k as int),
                ) && self.spec_entries().len() <= orig.len() + k,
            decreases n - k,
        {
            let f = &metric_families[k];
            let bytes = encode_delimited_family(f);
            let name = f.name.clone();
            let ghost before = self.spec_entries();
            cache_insert(&mut self.cache, name, bytes);
            proof {
                if no_evict {
                    assert(metric_families@.take(k as int + 1).drop_last() =~= metric_families@.take(
                        k as int,
                    ));
                    assert(metric_families@.take(k as int + 1) =~= metric_families@.take(
                        k as int,
                    ).push(metric_families@[k as int]));
                    lemma_after_add_snoc(orig, metric_families@.take(k as int), metric_families@[k as int]);
                    assert(spec_cache_without(before, metric_families@[k as int].name@).len()
                        <= before.len());
                }
            }
            counter = counter + 1;
            k = k + 1;
        }
        proof {
            assert(metric_families@.take(n as int) =~= metric_families@);
        }
        Ok(counter)
    }

    /// Removes the named families, in order, and reports how many were
    /// present when their removal ran.
    pub fn remove(&mut self, metrics_to_remove: Vec<String>) -> (r: Result<i64, String>)
        requires
            old(self).wf(),
            metrics_to_remove@.len() <= i64::MAX,
        ensures
            final(self).wf(),
            final(self).spec_entries() == spec_entries_after_removes(
                old(self).spec_entries(),
                metrics_to_remove@,
            ),
            r == Ok::<i64, String>(
                spec_removed_count(old(self).spec_entries(), metrics_to_remove@) as i64,
            ),
    {
        broadcast use vstd::seq_lib::group_filter_ensures;

        let ghost orig = self.spec_entries();
        let n = metrics_to_remove.len();
        let mut counter: i64 = 0;
        let mut k: usize = 0;
        proof {
            assert(metrics_to_remove@.take(0) =~= Seq::<String>::empty());
        }
        while k < n
            invariant
                old(self).wf(),
                n == metrics_to_remove@.len() <= i64::MAX,
                k <= n,
                orig == old(self).spec_entries(),
                self.spec_capacity() == PROMETHEUS_CACHE_CAPACITY,
                self.spec_entries().len() <= PROMETHEUS_CACHE_CAPACITY,
                self.spec_entries() == spec_entries_after_removes(
                    orig,
                    metrics_to_remove@.take(k as int),
                ),
                counter == spec_removed_count(orig, metrics_to_remove@.take(k as int)),
                0 <= counter <= k,
            decreases n - k,
        {
            let ghost before = self.spec_entries();
            let found = cache_remove(&mut self.cache, &metrics_to_remove[k]);
            proof {
                assert(metrics_to_remove@.take(k as int + 1) =~= metrics_to_remove@.take(
                    k as int,
                ).push(metrics_to_remove@[k as int]));
                lemma_after_removes_snoc(
                    orig,
                    metrics_to_remove@.take(k as int),
                    metrics_to_remove@[k as int],
                );
            }
            match found {
                Some(_) => {
                    counter = counter + 1;
                },
                None => {
                },
            }
            k = k + 1;
        }
        proof {
            assert(metrics_to_remove@.take(n as int) =~= metrics_to_remove@);
        }
        Ok(counter)
    }

    /// Produces the scrape payload: every stored family record, least
    /// recently stored first, concatenated into one byte buffer.
    pub fn scrape_payload(&self) -> (r: Vec<u8>)
        ensures
            r@ == spec_concat_records(self.spec_entries()),
    {
        let items = cache_items(&self.cache);
        let mut out: Vec<u8> = Vec::new();
        let n = items.len();
        let mut k: usize = 0;
        proof {
            assert(self.spec_entries().take(0) =~= Seq::<(Seq<char>, Seq<u8>)>::empty());
        }
        while k < n
            invariant
                n == items@.len() == self.spec_entries().len(),
                k <= n,
                forall|i: int|
                    0 <= i < n ==> (#[trigger] items@[i]).0@ == self.spec_entries()[i].0
                        && items@[i].1@ == self.spec_entries()[i].1,
                out@ == spec_concat_records(self.spec_entries().take(k as int)),
            decreases n - k,
        {
            crate::proto::write_bytes(&mut out, &items[k].1);
            proof {
                assert(self.spec_entries().take(k as int + 1).drop_last() =~= self.spec_entries()
                    .take(k as int));
            }
            k = k + 1;
        }
        proof {
            assert(self.spec_entries().take(n as int) =~= self.spec_entries());
        }
        out
    }
}

} // verus!
