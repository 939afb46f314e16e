use epoch_metrics::{
    can_record, can_spend, duration_bucket_bounds, init_workers, new_epoch, query_finished,
    snapshot, spend_comp_units, update_allocations, FinishedTask, MetricsRegistry,
    DURATION_BUCKET_COUNT,
};

fn ids(names: &[&str]) -> Vec<String> {
    names.iter().map(|n| n.to_string()).collect()
}

fn task(worker: &str, status: &str, ms: u64) -> FinishedTask {
    FinishedTask {
        worker_id: worker.to_string(),
        status: status.to_string(),
        exec_time_ms: ms,
    }
}

#[test]
fn init_workers_zeroes_both_gauges() {
    let mut reg = MetricsRegistry::new();
    init_workers(&mut reg, &ids(&["w1", "w2"]));
    for w in ["w1", "w2"] {
        assert_eq!(reg.allocated_units(w), Some(0));
        assert_eq!(reg.spent_units(w), Some(0));
    }
    assert_eq!(reg.allocated_units("w3"), None);
}

#[test]
fn init_workers_empty_list_changes_nothing() {
    let mut reg = MetricsRegistry::new();
    init_workers(&mut reg, &[]);
    let s = snapshot(&reg);
    assert!(s.allocated.is_empty());
    assert!(s.spent.is_empty());
}

#[test]
fn init_workers_again_rezeroes() {
    let mut reg = MetricsRegistry::new();
    init_workers(&mut reg, &ids(&["w1"]));
    update_allocations(&mut reg, vec![("w1".to_string(), 7)]);
    spend_comp_units(&mut reg, "w1", 3);
    init_workers(&mut reg, &ids(&["w1", "w1"]));
    assert_eq!(reg.allocated_units("w1"), Some(0));
    assert_eq!(reg.spent_units("w1"), Some(0));
    assert_eq!(snapshot(&reg).allocated.len(), 1);
}

#[test]
fn allocations_overwrite_and_leave_spent() {
    let mut reg = MetricsRegistry::new();
    init_workers(&mut reg, &ids(&["w1", "w2"]));
    update_allocations(
        &mut reg,
        vec![("w1".to_string(), 100), ("w2".to_string(), 50)],
    );
    assert_eq!(reg.allocated_units("w1"), Some(100));
    assert_eq!(reg.allocated_units("w2"), Some(50));
    assert_eq!(reg.spent_units("w1"), Some(0));
    assert_eq!(reg.spent_units("w2"), Some(0));
}

#[test]
fn duplicate_allocation_last_wins() {
    let mut reg = MetricsRegistry::new();
    update_allocations(
        &mut reg,
        vec![
            ("w1".to_string(), 10),
            ("w2".to_string(), 20),
            ("w1".to_string(), 30),
        ],
    );
    assert_eq!(reg.allocated_units("w1"), Some(30));
    assert_eq!(reg.allocated_units("w2"), Some(20));
    assert_eq!(reg.spent_units("w1"), None);
}

#[test]
fn spend_accumulates() {
    let mut reg = MetricsRegistry::new();
    init_workers(&mut reg, &ids(&["w1", "w2"]));
    spend_comp_units(&mut reg, "w1", 30);
    spend_comp_units(&mut reg, "w1", 20);
    assert_eq!(reg.spent_units("w1"), Some(50));
    assert_eq!(reg.spent_units("w2"), Some(0));
}

#[test]
fn spend_order_does_not_matter() {
    let mut a = MetricsRegistry::new();
    let mut b = MetricsRegistry::new();
    spend_comp_units(&mut a, "w1", 20);
    spend_comp_units(&mut a, "w2", 5);
    spend_comp_units(&mut a, "w1", 30);
    spend_comp_units(&mut b, "w1", 30);
    spend_comp_units(&mut b, "w1", 20);
    spend_comp_units(&mut b, "w2", 5);
    assert_eq!(a.spent_units("w1"), Some(50));
    assert_eq!(b.spent_units("w1"), Some(50));
    assert_eq!(a.spent_units("w2"), b.spent_units("w2"));
}

#[test]
fn spend_creates_absent_worker() {
    let mut reg = MetricsRegistry::new();
    spend_comp_units(&mut reg, "new", 4_000_000_000);
    spend_comp_units(&mut reg, "new", 4_000_000_000);
    assert_eq!(reg.spent_units("new"), Some(8_000_000_000));
    assert_eq!(reg.allocated_units("new"), None);
    assert!(can_spend(&reg, "new", u32::MAX));
}

#[test]
fn new_epoch_clears_gauges_and_sets_epoch() {
    let mut reg = MetricsRegistry::new();
    init_workers(&mut reg, &ids(&["w1", "w2"]));
    update_allocations(
        &mut reg,
        vec![("w1".to_string(), 100), ("w3".to_string(), 9)],
    );
    spend_comp_units(&mut reg, "w2", 12);
    query_finished(&mut reg, &task("w1", "ok", 2500));
    new_epoch(&mut reg, 5);
    assert_eq!(reg.current_epoch(), 5);
    for w in ["w1", "w2", "w3"] {
        assert_eq!(reg.allocated_units(w), None);
        assert_eq!(reg.spent_units(w), None);
    }
    let h = reg.query_durations("w1", "ok").unwrap();
    assert_eq!(h.count, 1);

    update_allocations(&mut reg, vec![("w2".to_string(), 40)]);
    let s = snapshot(&reg);
    assert_eq!(s.epoch, 5);
    assert_eq!(s.allocated, vec![("w2".to_string(), 40)]);
    assert!(s.spent.is_empty());
    assert_eq!(s.durations.len(), 1);
}

#[test]
fn query_finished_fills_buckets() {
    let mut reg = MetricsRegistry::new();
    query_finished(&mut reg, &task("w1", "ok", 2500));
    let h = reg.query_durations("w1", "ok").unwrap();
    let bounds = duration_bucket_bounds();
    assert_eq!(h.bucket_counts.len(), DURATION_BUCKET_COUNT);
    for (bound, count) in bounds.iter().zip(h.bucket_counts.iter()) {
        if *bound >= 5 {
            assert_eq!(*count, 1);
        } else {
            assert_eq!(*count, 0);
        }
    }
    assert_eq!(h.count, 1);
    assert_eq!(h.sum_ms, 2500);
    assert!(reg.query_durations("w1", "error").is_none());
    assert!(reg.query_durations("w2", "ok").is_none());
}

#[test]
fn query_finished_accumulates_and_bound_is_inclusive() {
    let mut reg = MetricsRegistry::new();
    query_finished(&mut reg, &task("w1", "ok", 5000));
    query_finished(&mut reg, &task("w1", "ok", 1000));
    query_finished(&mut reg, &task("w1", "ok", 200_000));
    query_finished(&mut reg, &task("w1", "error", 1));
    let h = reg.query_durations("w1", "ok").unwrap();
    assert_eq!(h.bucket_counts, vec![1, 2, 2, 2, 2, 2, 2, 2, 2, 2, 2]);
    assert_eq!(h.count, 3);
    assert_eq!(h.sum_ms, 206_000);
    let e = reg.query_durations("w1", "error").unwrap();
    assert_eq!(e.bucket_counts, vec![1; 11]);
    assert_eq!(e.count, 1);
    assert!(can_record(&reg, &task("w1", "ok", 1)));
}

#[test]
fn duration_bounds_are_fixed() {
    assert_eq!(
        duration_bucket_bounds(),
        vec![1, 5, 10, 15, 20, 25, 30, 45, 60, 90, 120]
    );
}

#[test]
fn empty_registry_snapshot() {
    let reg = MetricsRegistry::new();
    let s = snapshot(&reg);
    assert_eq!(s.epoch, 0);
    assert!(s.allocated.is_empty());
    assert!(s.spent.is_empty());
    assert!(s.durations.is_empty());
}

#[test]
fn snapshot_matches_last_writes() {
    let mut reg = MetricsRegistry::new();
    init_workers(&mut reg, &ids(&["w1", "w2"]));
    new_epoch(&mut reg, 3);
    update_allocations(
        &mut reg,
        vec![("w1".to_string(), 8), ("w2".to_string(), 6)],
    );
    update_allocations(&mut reg, vec![("w1".to_string(), 9)]);
    spend_comp_units(&mut reg, "w2", 4);
    query_finished(&mut reg, &task("w2", "timeout", 61_000));
    let s = snapshot(&reg);
    assert_eq!(s.epoch, 3);
    assert_eq!(
        s.allocated,
        vec![("w1".to_string(), 9), ("w2".to_string(), 6)]
    );
    assert_eq!(s.spent, vec![("w2".to_string(), 4)]);
    assert_eq!(s.durations.len(), 1);
    let d = &s.durations[0];
    assert_eq!(d.worker_id, "w2");
    assert_eq!(d.status, "timeout");
    assert_eq!(d.bucket_counts, vec![0, 0, 0, 0, 0, 0, 0, 0, 0, 1, 1]);
    assert_eq!(d.sum_ms, 61_000);
}
