//! A named store of live metrics with optional process-wide labels.
//!
//! The registry keeps shared handles, not copies: application code and
//! reporters hold the same metric, so mutation through either side is seen
//! by both.  Names are unique; inserting an existing name overwrites its
//! entry.  A missing name is an explicit `None`, never a crash.

use crate::metric::Metric;
use vstd::prelude::*;

verus! {

/// The metric a name maps to among `entries`, where a later entry would
/// shadow an earlier one; the registry keeps names unique, so at most one
/// entry can match.
pub open spec fn spec_lookup(entries: Seq<(String, Metric)>, name: Seq<char>) -> Option<Metric>
    decreases entries.len(),
{
    if entries.len() == 0 {
        None
    } else if entries.last().0@ == name {
        Some(entries.last().1)
    } else {
        spec_lookup(entries.drop_last(), name)
    }
}

/// Removing an entry whose name is not `name` leaves `name`'s lookup alone.
proof fn lemma_lookup_skips_other(entries: Seq<(String, Metric)>, i: int, name: Seq<char>)
    requires
        0 <= i < entries.len(),
        entries[i].0@ != name,
    ensures
        spec_lookup(entries.remove(i), name) == spec_lookup(entries, name),
    decreases entries.len(),
{
    if i == entries.len() - 1 {
        assert(entries.remove(i) =~= entries.drop_last());
    } else {
        assert(entries.remove(i).last() == entries.last());
        assert(entries.remove(i).drop_last() =~= entries.drop_last().remove(i));
        lemma_lookup_skips_other(entries.drop_last(), i, name);
    }
}

/// A name that heads no entry looks up to `None`.
proof fn lemma_lookup_absent(entries: Seq<(String, Metric)>, name: Seq<char>)
    requires
        forall|i: int| 0 <= i < entries.len() ==> entries[i].0@ != name,
    ensures
        spec_lookup(entries, name) is None,
    decreases entries.len(),
{
    if entries.len() > 0 {
        lemma_lookup_absent(entries.drop_last(), name);
    }
}

/// A named store of metrics and a set of process-wide labels.
pub struct StdRegistry {
    metrics: Vec<(String, Metric)>,
    labels: Vec<(String, String)>,
    reporters: Vec<String>,
}

impl StdRegistry {
    /// The stored entries, oldest first.
    pub closed spec fn spec_entries(&self) -> Seq<(String, Metric)> {
        self.metrics@
    }

    /// The stored process-wide labels.
    pub closed spec fn spec_labels(&self) -> Seq<(String, String)> {
        self.labels@
    }

    /// The names of the scheduled reporters, in scheduling order.
    pub closed spec fn spec_reporters(&self) -> Seq<String> {
        self.reporters@
    }

    /// Names are unique among the entries.
    pub open spec fn wf(&self) -> bool {
        forall|i: int, j: int|
            0 <= i < j < self.spec_entries().len() ==> #[trigger] self.spec_entries()[i].0@
                != #[trigger] self.spec_entries()[j].0@
    }

    /// Creates an empty registry with no labels.
    pub fn new() -> (r: StdRegistry)
        ensures
            r.wf(),
            r.spec_entries() =~= Seq::<(String, Metric)>::empty(),
            r.spec_labels() =~= Seq::<(String, String)>::empty(),
    {
        StdRegistry { metrics: Vec::new(), labels: Vec::new(), reporters: Vec::new() }
    }

    /// Creates an empty registry carrying the given process-wide labels.
    pub fn new_with_labels(labels: Vec<(String, String)>) -> (r: StdRegistry)
        ensures
            r.wf(),
            r.spec_entries() =~= Seq::<(String, Metric)>::empty(),
            r.spec_labels() == labels@,
    {
        StdRegistry { metrics: Vec::new(), labels, reporters: Vec::new() }
    }

    /// Index of the entry named `name`, if any.
    fn find(&self, name: &String) -> (r: Option<usize>)
        ensures
            match r {
                Some(i) => i < self.spec_entries().len() && self.spec_entries()[i as int].0@
                    == name@,
                None => forall|i: int|
                    0 <= i < self.spec_entries().len() ==> #[trigger] self.spec_entries()[i].0@
                        != name@,
            },
    {
        let n = self.metrics.len();
        let mut k: usize = 0;
        while k < n
            invariant
                n == self.spec_entries().len(),
                k <= n,
                forall|i: int| 0 <= i < k ==> #[trigger] self.spec_entries()[i].0@ != name@,
            decreases n - k,
        {
            if self.metrics[k].0 == *name {
                return Some(k);
            }
            k = k + 1;
        }
        None
    }

    /// Stores `metric` under `name`, overwriting an entry of that name: the
    /// lookup of `name` afterwards is exactly `metric`, every other name is
    /// untouched, and names stay unique.
    pub fn insert(&mut self, name: &str, metric: Metric)
        requires
            old(self).wf(),
        ensures
            final(self).wf(),
            spec_lookup(final(self).spec_entries(), name@) == Some(metric),
            forall|other: Seq<char>|
                other != name@ ==> #[trigger] spec_lookup(final(self).spec_entries(), other)
                    == spec_lookup(old(self).spec_entries(), other),
            final(self).spec_labels() == old(self).spec_labels(),
            final(self).spec_reporters() == old(self).spec_reporters(),
    {
        let owned: String = name.to_owned();
        let found = self.find(&owned);
        match found {
            Some(i) => {
                self.metrics.remove(i);
                proof {
                    assert(forall|k: int|
                        0 <= k < self.spec_entries().len()
                            ==> #[trigger] self.spec_entries()[k].0@ != name@);
                }
            },
            None => {
            },
        }
        proof {
            lemma_lookup_absent(self.spec_entries(), name@);
        }
        let ghost before = self.spec_entries();
        self.metrics.push((owned, metric));
        proof {
            assert(self.spec_entries().drop_last() =~= before);
            assert forall|other: Seq<char>| other != name@ implies #[trigger] spec_lookup(
                self.spec_entries(),
                other,
            ) == spec_lookup(old(self).spec_entries(), other) by {
                assert(spec_lookup(self.spec_entries(), other) == spec_lookup(before, other));
                match found {
                    Some(i) => {
                        if old(self).spec_entries()[i as int].0@ != other {
                            lemma_lookup_skips_other(old(self).spec_entries(), i as int, other);
                        }
                    },
                    None => {
                    },
                }
            }
        }
    }

    /// Returns the metric stored under `name`: `Some` exactly when the name
    /// was inserted and not overwritten, `None` otherwise.
    pub fn get(&self, name: &str) -> (r: Option<&Metric>)
        requires
            self.wf(),
        ensures
            match r {
                Some(m) => spec_lookup(self.spec_entries(), name@) == Some(*m),
                None => spec_lookup(self.spec_entries(), name@) is None,
            },
    {
        let owned: String = name.to_owned();
        let found = self.find(&owned);
        match found {
            Some(i) => {
                let m: &Metric = &self.metrics[i].1;
                proof {
                    let entries = self.spec_entries();
                    if i + 1 < entries.len() {
                        lemma_lookup_present(entries, i as int, name@);
                    }
                }
                Some(m)
            },
            None => {
                proof {
                    lemma_lookup_absent(self.spec_entries(), name@);
                }
                None
            },
        }
    }

    /// Returns the stored names, oldest first.
    pub fn get_metrics_names(&self) -> (r: Vec<String>)
        ensures
            r@.len() == self.spec_entries().len(),
            forall|i: int|
                0 <= i < r@.len() ==> #[trigger] r@[i]@ == self.spec_entries()[i].0@,
    {
        let n = self.metrics.len();
        let mut names: Vec<String> = Vec::new();
        let mut k: usize = 0;
        while k < n
            invariant
                n == self.spec_entries().len(),
                k <= n,
                names@.len() == k,
                forall|i: int| 0 <= i < k ==> #[trigger] names@[i]@ == self.spec_entries()[i].0@,
            decreases n - k,
        {
            names.push(self.metrics[k].0.clone());
            k = k + 1;
        }
        names
    }

    /// Schedules a reporter under its unique name; the reporter object
    /// itself, with its background task, lives with the caller.
    pub fn add_scheduled_reporter(&mut self, reporter_name: String)
        ensures
            final(self).spec_reporters() == old(self).spec_reporters().push(reporter_name),
            final(self).spec_entries() == old(self).spec_entries(),
            final(self).spec_labels() == old(self).spec_labels(),
    {
        self.reporters.push(reporter_name);
    }

    /// The names of the scheduled reporters, in scheduling order.
    pub fn reporter_names(&self) -> (r: &Vec<String>)
        ensures
            r@ == self.spec_reporters(),
    {
        &self.reporters
    }

    /// Returns a copy of the process-wide labels.
    pub fn labels(&self) -> (r: Vec<(String, String)>)
        ensures
            r@.len() == self.spec_labels().len(),
            forall|i: int|
                0 <= i < r@.len() ==> #[trigger] r@[i].0@ == self.spec_labels()[i].0@ && r@[i].1@
                    == self.spec_labels()[i].1@,
    {
        let n = self.labels.len();
        let mut out: Vec<(String, String)> = Vec::new();
        let mut k: usize = 0;
        while k < n
            invariant
                n == self.spec_labels().len(),
                k <= n,
                out@.len() == k,
                forall|i: int|
                    0 <= i < k ==> #[trigger] out@[i].0@ == self.spec_labels()[i].0@ && out@[i].1@
                        == self.spec_labels()[i].1@,
            decreases n - k,
        {
            out.push((self.labels[k].0.clone(), self.labels[k].1.clone()));
            k = k + 1;
        }
        out
    }
}

/// In a registry with unique names, the entry at `i` named `name` is what
/// `name` looks up to.
proof fn lemma_lookup_present(entries: Seq<(String, Metric)>, i: int, name: Seq<char>)
    requires
        0 <= i < entries.len(),
        entries[i].0@ == name,
        forall|a: int, b: int|
            0 <= a < b < entries.len() ==> #[trigger] entries[a].0@ != #[trigger] entries[b].0@,
    ensures
        spec_lookup(entries, name) == Some(entries[i].1),
    decreases entries.len(),
{
    if i == entries.len() - 1 {
    } else {
        assert(entries.last().0@ != name);
        lemma_lookup_present(entries.drop_last(), i, name);
    }
}

} // verus!
