//! The progress aggregator's counting discipline.
//!
//! One instance is shared by all workers behind the caller's exclusion
//! primitive; `increment` is its only mutation path, one call per finished
//! task, success or failure alike. The law proved at the bottom says what
//! that buys: along any chain of increments — however concurrent
//! completions interleave, each completion is one link — the counter after
//! `k` links reads exactly `k`; no update is ever lost or doubled, and the
//! counter reads `total` exactly when every task has been recorded.

use vstd::prelude::*;

verus! {

/// The displayed progress: `total` is fixed once the work queue is fully
/// enumerated, `completed` climbs from zero to `total`.
pub struct ProgressState {
    total: u64,
    completed: u64,
}

impl ProgressState {
    /// How many tasks the run holds in all.
    pub closed spec fn spec_total(&self) -> u64 {
        self.total
    }

    /// How many tasks have been recorded as finished.
    pub closed spec fn spec_completed(&self) -> u64 {
        self.completed
    }

    /// The counter never runs past its total.
    pub open spec fn wf(&self) -> bool {
        self.spec_completed() <= self.spec_total()
    }

    /// One increment step: exactly one more completed task, total
    /// untouched, taken only while work is outstanding.
    pub open spec fn increments_to(pre: ProgressState, post: ProgressState) -> bool {
        &&& pre.spec_completed() < pre.spec_total()
        &&& post.spec_total() == pre.spec_total()
        &&& post.spec_completed() == pre.spec_completed() + 1
    }

    /// A fresh display over `total` tasks, none finished yet.
    pub fn new(total: u64) -> (r: ProgressState)
        ensures
            r.spec_total() == total,
            r.spec_completed() == 0,
            r.wf(),
    {
        ProgressState { total, completed: 0 }
    }

    /// Records one finished task: never loses and never doubles an update.
    pub fn increment(&mut self)
        requires
            old(self).spec_completed() < old(self).spec_total(),
        ensures
            Self::increments_to(*old(self), *final(self)),
            final(self).wf(),
    {
        self.completed = self.completed + 1;
    }

    /// The recorded count.
    pub fn completed(&self) -> (c: u64)
        ensures
            c == self.spec_completed(),
    {
        self.completed
    }

    /// The fixed task count.
    pub fn total(&self) -> (t: u64)
        ensures
            t == self.spec_total(),
    {
        self.total
    }

    /// Whether every task has been recorded.
    pub fn is_finished(&self) -> (b: bool)
        ensures
            b == (self.spec_completed() == self.spec_total()),
    {
        self.completed == self.total
    }

    /// Settles the display after the run: called once when every task has
    /// completed, it pins the shown state to `completed == total`.
    pub fn finish(&mut self)
        ensures
            final(self).spec_total() == old(self).spec_total(),
            final(self).spec_completed() == final(self).spec_total(),
            final(self).wf(),
    {
        self.completed = self.total;
    }
}

proof fn lemma_trace_prefix(trace: Seq<ProgressState>, total: u64, n: int)
    requires
        trace.len() >= 1,
        trace[0].spec_total() == total,
        trace[0].spec_completed() == 0,
        forall|i: int|
            0 <= i < trace.len() - 1 ==> ProgressState::increments_to(
                #[trigger] trace[i],
                trace[i + 1],
            ),
        0 <= n < trace.len(),
    ensures
        trace[n].spec_completed() == n,
        trace[n].spec_total() == total,
    decreases n,
{
    if n > 0 {
        lemma_trace_prefix(trace, total, n - 1);
        assert(ProgressState::increments_to(trace[n - 1], trace[n]));
    }
}

/// The progress law. Take any chain of counter states that starts fresh
/// and where each link is one `increment` — any interleaving of concurrent
/// task completions yields such a chain, since each completion performs
/// exactly one increment under exclusion. Then the counter reads exactly
/// `k` after `k` links (no update lost, none doubled), the chain can never
/// outgrow `total` tasks, and the counter reads `total` exactly at step
/// `total` — reached exactly once, when every task has finished.
pub proof fn lemma_progress_counts(trace: Seq<ProgressState>, total: u64)
    requires
        trace.len() >= 1,
        trace[0].spec_total() == total,
        trace[0].spec_completed() == 0,
        forall|i: int|
            0 <= i < trace.len() - 1 ==> ProgressState::increments_to(
                #[trigger] trace[i],
                trace[i + 1],
            ),
    ensures
        forall|i: int|
            0 <= i < trace.len() ==> (#[trigger] trace[i].spec_completed()) == i
                && trace[i].spec_total() == total,
        trace.len() <= total + 1,
        forall|i: int|
            0 <= i < trace.len() ==> ((#[trigger] trace[i].spec_completed()) == total <==> i
                == total),
{
    assert forall|i: int|
        0 <= i < trace.len() implies (#[trigger] trace[i].spec_completed()) == i
        && trace[i].spec_total() == total by {
        lemma_trace_prefix(trace, total, i);
    }
    let last = trace.len() - 1;
    if last > 0 {
        assert(ProgressState::increments_to(trace[last - 1], trace[last]));
    }
}

} // verus!
