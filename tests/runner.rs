use mgit::runner::{after_message, error_statistics, RunQueue};
use mgit::sync::{SyncError, SyncStep};

#[test]
fn claims_are_bounded_by_workers() {
    let mut q = RunQueue::new(5, 2);
    assert_eq!(q.claim(), Some(0));
    assert_eq!(q.claim(), Some(1));
    assert_eq!(q.claim(), None);
    assert_eq!(q.live(), 2);
    q.complete(0, Ok(String::new()));
    assert_eq!(q.claim(), Some(2));
    assert!(q.is_running(1));
    assert!(!q.is_running(0));
}

#[test]
fn zero_workers_means_one() {
    let mut q = RunQueue::new(2, 0);
    assert_eq!(q.claim(), Some(0));
    assert_eq!(q.claim(), None);
}

#[test]
fn failure_does_not_stop_others() {
    let mut q = RunQueue::new(3, 1);
    let a = q.claim().unwrap();
    q.complete(a, Err(SyncError { step: SyncStep::Fetch, message: "unreachable".to_string() }));
    let b = q.claim().unwrap();
    q.complete(b, Ok("track b".to_string()));
    let c = q.claim().unwrap();
    q.complete(c, Ok("track c".to_string()));
    assert_eq!(q.claim(), None);
    let report = q.report();
    assert_eq!(report.successes, vec![(1, "track b".to_string()), (2, "track c".to_string())]);
    assert_eq!(report.failures.len(), 1);
    assert_eq!(report.failures[0].0, 0);
    assert_eq!(report.failures[0].1.step, SyncStep::Fetch);
}

#[test]
fn after_messages() {
    assert_eq!(
        after_message("origin/master: behind 2", "already update to date. [master] x"),
        "update to [master] x"
    );
    assert_eq!(
        after_message("already update to date. a", "already update to date. a"),
        "already update to date. a"
    );
    assert_eq!(after_message("x", "origin/master: 1 changes"), "origin/master: 1 changes");
    assert_eq!(error_statistics(0), "0 error(s)");
    assert_eq!(error_statistics(12), "12 error(s)");
}
