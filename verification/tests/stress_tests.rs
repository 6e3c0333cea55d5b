use kv_harness::message::create_kv_entry;
use kv_harness::store::ModelStore;
use kv_harness::stress::StressTracker;
use kv_harness::stress::stress_task_request;

#[test]
fn task_request_has_max_size_payloads() {
    let req = stress_task_request();
    assert_eq!(req.entry.key.len(), kv_harness::MAX_KEY_SIZE);
    assert_eq!(req.entry.value.len(), kv_harness::MAX_VALUE_SIZE);
}

#[test]
fn tracker_is_done_only_after_every_completion() {
    let n = 5usize;
    let mut tracker = StressTracker::new(n);
    for _ in 0..n {
        tracker.task_issued();
    }
    for _ in 0..n {
        assert!(!tracker.is_done());
        tracker.task_completed();
    }
    assert!(tracker.is_done());
    assert_eq!(tracker.issued, n);
}

#[test]
fn tracker_with_no_tasks_is_done_at_once() {
    let tracker = StressTracker::new(0);
    assert!(tracker.is_done());
}

#[test]
fn simulated_stress_run_issues_exactly_n_puts() {
    let n = 20usize;
    let mut store = ModelStore::new();
    let mut tracker = StressTracker::new(n);
    for _ in 0..n {
        let req = stress_task_request();
        tracker.task_issued();
        store.put(create_kv_entry(req.entry.key, req.entry.value));
        tracker.task_completed();
    }
    assert!(tracker.is_done());
    assert_eq!(tracker.issued, n);
    assert_eq!(tracker.completed, n);
}
