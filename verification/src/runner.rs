//! The run coordinator's decisions: how a directory listing (or the failure
//! to obtain one) becomes a plan, and how each task's outcome is settled
//! into the shared progress display.
//!
//! The sequencing itself — create the output root, create every mirrored
//! directory, only then fan the tasks out to workers, finally settle the
//! display — is the caller's loop; every decision it takes along the way is
//! a verified function here.

use vstd::prelude::*;
use crate::tree::DirTree;
use crate::walker::{RunPlan, plan_run, plan_matches};
use crate::progress::ProgressState;

verus! {

/// What one task ended as. Consumed immediately: a failure owes exactly one
/// diagnostic naming the failing source, and either way the task counts
/// exactly one progress increment. A failure never touches any other task,
/// is never retried, and never fails the run.
pub enum TaskOutcome {
    Success,
    Failure(String),
}

impl TaskOutcome {
    /// Whether this outcome owes a diagnostic.
    pub open spec fn is_failure(&self) -> bool {
        self is Failure
    }
}

/// The inherited enumeration-degrade policy: an input root that cannot be
/// read is treated exactly like an empty one — the run proceeds with zero
/// tasks instead of failing.
pub fn tree_or_empty(listing: Option<DirTree>) -> (r: DirTree)
    ensures
        match listing {
            Some(tree) => r == tree,
            None => r.files@.len() == 0 && r.subdirs@.len() == 0,
        },
{
    match listing {
        Some(tree) => tree,
        None => DirTree { files: Vec::new(), subdirs: Vec::new() },
    }
}

/// Plans the run from what enumerating the input root yielded: the full
/// walk over the listing, or — when the root could not be read — the empty
/// plan, with no task and no directory.
pub fn plan_from_listing(listing: Option<DirTree>, recursive: bool) -> (plan: RunPlan)
    ensures
        match listing {
            Some(tree) => plan_matches(tree, recursive, plan),
            None => plan.tasks@.len() == 0 && plan.dirs@.len() == 0,
        },
{
    let ghost was_none = listing is None;
    let tree = tree_or_empty(listing);
    let plan = plan_run(&tree, recursive);
    proof {
        if was_none {
            if plan.tasks@.len() > 0 {
                crate::tree::lemma_empty_tree_yields_nothing(
                    tree,
                    recursive,
                    crate::tree::path_view(plan.tasks@[0].source),
                );
            }
            if plan.dirs@.len() > 0 {
                crate::tree::lemma_empty_tree_yields_nothing(
                    tree,
                    recursive,
                    crate::tree::path_view(plan.dirs@[0]),
                );
            }
        }
    }
    plan
}

/// Settles a whole run's worth of outcomes, in the order they arrived:
/// every attempted task is counted exactly once, so the display ends at
/// `completed == total` whatever mix of successes and failures came back —
/// one failed task never keeps the run from finishing. The concurrent run
/// interleaves the same calls behind its lock, and any interleaving is
/// some arrival order. No aggregate failure count is kept; a failure is
/// reported the moment it is settled and then forgotten.
pub fn settle_run(outcomes: &Vec<TaskOutcome>) -> (p: ProgressState)
    ensures
        p.spec_total() == outcomes@.len(),
        p.spec_completed() == outcomes@.len(),
        p.wf(),
{
    let total = outcomes.len() as u64;
    let mut p = ProgressState::new(total);
    let mut i: usize = 0;
    while i < outcomes.len()
        invariant
            i <= outcomes@.len(),
            total == outcomes@.len(),
            p.spec_total() == total,
            p.spec_completed() == i,
        decreases outcomes@.len() - i,
    {
        let _report = record_outcome(&mut p, &outcomes[i]);
        i = i + 1;
    }
    p
}

/// Settles one finished task: exactly one increment whatever the outcome,
/// and tells the caller whether it owes a diagnostic — exactly on failure.
pub fn record_outcome(progress: &mut ProgressState, outcome: &TaskOutcome) -> (report: bool)
    requires
        old(progress).spec_completed() < old(progress).spec_total(),
    ensures
        ProgressState::increments_to(*old(progress), *final(progress)),
        final(progress).wf(),
        report == outcome.is_failure(),
{
    progress.increment();
    match outcome {
        TaskOutcome::Failure(_) => true,
        TaskOutcome::Success => false,
    }
}

} // verus!
