use avif2png::progress::ProgressState;
use avif2png::runner::{record_outcome, settle_run, TaskOutcome};

#[test]
fn counter_climbs_one_per_task_and_settles() {
    let mut p = ProgressState::new(3);
    assert_eq!(p.total(), 3);
    assert_eq!(p.completed(), 0);
    assert!(!p.is_finished());
    p.increment();
    assert_eq!(p.completed(), 1);
    p.increment();
    assert_eq!(p.completed(), 2);
    assert!(!p.is_finished());
    p.increment();
    assert_eq!(p.completed(), 3);
    assert!(p.is_finished());
    p.finish();
    assert_eq!(p.completed(), 3);
    assert_eq!(p.total(), 3);
}

#[test]
fn zero_tasks_finish_immediately() {
    let mut p = ProgressState::new(0);
    assert!(p.is_finished());
    p.finish();
    assert_eq!(p.completed(), 0);
}

#[test]
fn failure_counts_like_success_and_owes_a_diagnostic() {
    // One task's failure moves the counter exactly as a success does and
    // asks for exactly one report; the run still reaches its total.
    let mut p = ProgressState::new(3);
    let failed = TaskOutcome::Failure(String::from("source disappeared"));
    assert!(record_outcome(&mut p, &failed));
    assert_eq!(p.completed(), 1);
    assert!(!record_outcome(&mut p, &TaskOutcome::Success));
    assert!(!record_outcome(&mut p, &TaskOutcome::Success));
    assert_eq!(p.completed(), 3);
    assert!(p.is_finished());
}

#[test]
fn one_deleted_source_fails_alone_and_the_run_still_finishes() {
    // One task's source vanished between enumeration and execution; its
    // failure is its own, the other tasks land normally, the run ends.
    let outcomes = vec![
        TaskOutcome::Success,
        TaskOutcome::Failure(String::from("Unable to read 'INPUT/gone.avif'")),
        TaskOutcome::Success,
        TaskOutcome::Success,
    ];
    let p = settle_run(&outcomes);
    assert_eq!(p.total(), 4);
    assert_eq!(p.completed(), 4);
    assert!(p.is_finished());
}

#[test]
fn settling_no_outcomes_is_already_finished() {
    let p = settle_run(&Vec::new());
    assert_eq!(p.total(), 0);
    assert!(p.is_finished());
}

#[test]
fn many_interleaved_outcomes_reach_total_exactly() {
    // An arbitrary interleaving of worker completions is some order of the
    // same increments; whatever the mix of outcomes, each task lands
    // exactly once and the counter ends at the total.
    let total: u64 = 200;
    let mut p = ProgressState::new(total);
    for k in 0..total {
        let outcome = if k % 7 == 3 {
            TaskOutcome::Failure(format!("task {} failed", k))
        } else {
            TaskOutcome::Success
        };
        assert_eq!(p.completed(), k);
        let report = record_outcome(&mut p, &outcome);
        assert_eq!(report, k % 7 == 3);
        assert_eq!(p.completed(), k + 1);
    }
    assert!(p.is_finished());
}
