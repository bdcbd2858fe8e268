//! The uniform reporter lifecycle: a background task owns a staged set of
//! named metrics and is driven by a message channel.
//!
//! [`ReporterTaskState`] is the verified decision core of that task: adding
//! stages a metric under its name (overwriting that name), removing drops
//! the name, and a stop is final — once observed, every later message
//! leaves the state unchanged and staging is refused with an explicit
//! error.  The channel, the thread and the sleep between cycles live
//! outside the library and only call [`ReporterTaskState::step`].

use crate::metric::Metric;
use vstd::prelude::*;

verus! {

/// A message a reporter's background task consumes exactly once.
pub enum ReporterMsg {
    /// Stage a metric for the coming reporting cycles, with optional labels.
    AddMetric(String, Metric, Option<Vec<(String, String)>>),
    /// Drop the metric staged under the name.
    RemoveMetric(String),
    /// Finish the in-flight cycle and terminate the task.
    Stop,
}

/// A staged metric: what a reporter ships each cycle under a name.
pub struct StagedMetric {
    /// The name the metric reports under.
    pub name: String,
    /// The live metric, snapshotted each cycle.
    pub metric: Metric,
    /// Labels attached to the samples, if any.
    pub labels: Option<Vec<(String, String)>>,
}

/// The staged entries with `name` dropped.
pub open spec fn spec_drop_name(s: Seq<StagedMetric>, name: Seq<char>) -> Seq<StagedMetric> {
    s.filter(|e: StagedMetric| e.name@ != name)
}

/// What one message does to a task state `(staged, stopped)`: nothing once
/// stopped; otherwise add overwrites the name, remove drops it, stop sets
/// the flag.
pub open spec fn spec_step(
    staged: Seq<StagedMetric>,
    stopped: bool,
    msg: ReporterMsg,
) -> (Seq<StagedMetric>, bool) {
    if stopped {
        (staged, true)
    } else {
        match msg {
            ReporterMsg::AddMetric(n, m, l) => (
                spec_drop_name(staged, n@).push(StagedMetric { name: n, metric: m, labels: l }),
                false,
            ),
            ReporterMsg::RemoveMetric(n) => (spec_drop_name(staged, n@), false),
            ReporterMsg::Stop => (staged, true),
        }
    }
}

/// Filtering changes nothing when every element passes.
proof fn lemma_filter_all_pass(s: Seq<StagedMetric>, name: Seq<char>)
    requires
        forall|i: int| 0 <= i < s.len() ==> #[trigger] s[i].name@ != name,
    ensures
        spec_drop_name(s, name) == s,
    decreases s.len(),
{
    reveal(Seq::filter);
    if s.len() > 0 {
        lemma_filter_all_pass(s.drop_last(), name);
        assert(spec_drop_name(s, name) =~= s);
    }
}

/// When exactly the entry at `i` bears `name`, dropping the name is
/// removing that entry.
proof fn lemma_drop_name_is_remove(s: Seq<StagedMetric>, i: int, name: Seq<char>)
    requires
        0 <= i < s.len(),
        s[i].name@ == name,
        forall|j: int| 0 <= j < s.len() && j != i ==> #[trigger] s[j].name@ != name,
    ensures
        spec_drop_name(s, name) == s.remove(i),
    decreases s.len(),
{
    reveal(Seq::filter);
    if i == s.len() - 1 {
        lemma_filter_all_pass(s.drop_last(), name);
        assert(s.remove(i) =~= s.drop_last());
    } else {
        assert(s.remove(i).last() == s.last());
        assert(s.drop_last().remove(i) =~= s.remove(i).drop_last());
        lemma_drop_name_is_remove(s.drop_last(), i, name);
        assert(spec_drop_name(s, name) =~= s.remove(i));
    }
}

/// The state of a reporter's background task.
pub struct ReporterTaskState {
    staged: Vec<StagedMetric>,
    stopped: bool,
}

impl ReporterTaskState {
    /// The staged metrics, oldest name first.
    pub closed spec fn spec_staged(&self) -> Seq<StagedMetric> {
        self.staged@
    }

    /// Whether a stop has been observed.
    pub closed spec fn spec_stopped(&self) -> bool {
        self.stopped
    }

    /// Staged names are unique.
    pub open spec fn wf(&self) -> bool {
        forall|i: int, j: int|
            0 <= i < j < self.spec_staged().len() ==> #[trigger] self.spec_staged()[i].name@
                != #[trigger] self.spec_staged()[j].name@
    }

    /// A fresh task: nothing staged, not stopped.
    pub fn new() -> (s: ReporterTaskState)
        ensures
            s.wf(),
            s.spec_staged() =~= Seq::<StagedMetric>::empty(),
            !s.spec_stopped(),
    {
        ReporterTaskState { staged: Vec::new(), stopped: false }
    }

    /// Whether the task should run another reporting cycle.
    pub fn running(&self) -> (r: bool)
        ensures
            r == !self.spec_stopped(),
    {
        !self.stopped
    }

    /// The staged metrics, for a reporting cycle to walk.
    pub fn staged_metrics(&self) -> (r: &Vec<StagedMetric>)
        ensures
            r@ == self.spec_staged(),
    {
        &self.staged
    }

    /// Index of the staged entry named `name`, if any.
    fn find(&self, name: &String) -> (r: Option<usize>)
        ensures
            match r {
                Some(i) => i < self.spec_staged().len() && self.spec_staged()[i as int].name@
                    == name@,
                None => forall|i: int|
                    0 <= i < self.spec_staged().len() ==> #[trigger] self.spec_staged()[i].name@
                        != name@,
            },
    {
        let n = self.staged.len();
        let mut k: usize = 0;
        while k < n
            invariant
                n == self.spec_staged().len(),
                k <= n,
                forall|i: int| 0 <= i < k ==> #[trigger] self.spec_staged()[i].name@ != name@,
            decreases n - k,
        {
            if self.staged[k].name == *name {
                return Some(k);
            }
            k = k + 1;
        }
        None
    }

    /// Drops the entry staged under `name`, if any.
    fn drop_name(&mut self, name: &String)
        requires
            old(self).wf(),
        ensures
            final(self).wf(),
            final(self).spec_staged() == spec_drop_name(old(self).spec_staged(), name@),
            final(self).spec_stopped() == old(self).spec_stopped(),
    {
        let found = self.find(name);
        match found {
            Some(i) => {
                self.staged.remove(i);
                proof {
                    lemma_drop_name_is_remove(old(self).spec_staged(), i as int, name@);
                }
            },
            None => {
                proof {
                    lemma_filter_all_pass(self.spec_staged(), name@);
                }
            },
        }
    }

    /// Consumes one message: the state moves exactly as [`spec_step`] says,
    /// and staged names stay unique.
    pub fn step(&mut self, msg: ReporterMsg)
        requires
            old(self).wf(),
        ensures
            final(self).wf(),
            (final(self).spec_staged(), final(self).spec_stopped()) == spec_step(
                old(self).spec_staged(),
                old(self).spec_stopped(),
                msg,
            ),
    {
        if self.stopped {
            return ;
        }
        match msg {
            ReporterMsg::AddMetric(name, metric, labels) => {
                self.drop_name(&name);
                proof {
                    assert(forall|i: int|
                        0 <= i < self.spec_staged().len()
                            ==> #[trigger] self.spec_staged()[i].name@ != name@) by {
                        broadcast use vstd::seq_lib::group_filter_ensures;

                    }
                }
                self.staged.push(StagedMetric { name, metric, labels });
            },
            ReporterMsg::RemoveMetric(name) => {
                self.drop_name(&name);
            },
            ReporterMsg::Stop => {
                self.stopped = true;
            },
        }
    }

    /// Stages a metric, as `add` on a reporter handle does: refused with an
    /// explicit error — never a hang or a crash — once the task observed a
    /// stop, and an overwrite of the name otherwise.
    pub fn add(&mut self, name: String, metric: Metric, labels: Option<Vec<(String, String)>>) -> (r: Result<(), String>)
        requires
            old(self).wf(),
        ensures
            final(self).wf(),
            old(self).spec_stopped() ==> r is Err && *final(self) == *old(self),
            !old(self).spec_stopped() ==> r is Ok && (
            final(self).spec_staged(),
            final(self).spec_stopped(),
            ) == spec_step(
                old(self).spec_staged(),
                old(self).spec_stopped(),
                ReporterMsg::AddMetric(name, metric, labels),
            ),
    {
        if self.stopped {
            Err("reporter is stopped".to_owned())
        } else {
            self.step(ReporterMsg::AddMetric(name, metric, labels));
            Ok(())
        }
    }

    /// Observes a stop: the task will run no further cycle.
    pub fn stop(&mut self)
        requires
            old(self).wf(),
        ensures
            final(self).wf(),
            final(self).spec_stopped(),
            final(self).spec_staged() == old(self).spec_staged(),
    {
        self.step(ReporterMsg::Stop);
    }
}

/// After a stop, no further background activity is possible: every message
/// consumed by a stopped task leaves the staged set and the flag exactly as
/// they were.
pub proof fn lemma_no_activity_after_stop(staged: Seq<StagedMetric>, msg: ReporterMsg)
    ensures
        spec_step(staged, true, msg) == (staged, true),
{
}

/// A stop is final whatever came before it: apply a stop, then any message,
/// and the state is still the stopped state the stop produced.
pub proof fn lemma_stop_then_message_changes_nothing(
    staged: Seq<StagedMetric>,
    stopped: bool,
    msg: ReporterMsg,
)
    ensures
        ({
            let after = spec_step(staged, stopped, ReporterMsg::Stop);
            spec_step(after.0, after.1, msg) == after
        }),
{
}

} // verus!
