use slotforge::services::metrics_service::{
    can_record, empty_registry, is_likely_user_error, metric_totals, record_operation_at, totals_fit,
    MetricOperation, MetricsRegistry, MvpCriteriaEvaluation, OperationCounters,
};
use slotforge::time::{now_utc, UtcTime};

#[test]
fn identifies_user_safety_and_confirmation_errors() {
    assert!(is_likely_user_error("swap blocked: confirmation required before replacing active save"));
    assert!(is_likely_user_error("swap cancelled by user choice"));
    assert!(!is_likely_user_error("failed to copy selected save into active location"));
}

#[test]
fn user_error_detection_ignores_ascii_case() {
    assert!(is_likely_user_error("DELETE BLOCKED: phrase"));
    assert!(!is_likely_user_error(""));
}

#[test]
fn computes_expected_success_and_failure_counts() {
    let t = UtcTime::from_timestamp(1_700_000_000, 0).expect("valid");
    let mut reg = empty_registry(t);
    assert!(can_record(&reg, MetricOperation::Backup));
    record_operation_at(&mut reg, MetricOperation::Backup, true, false, false, t);
    record_operation_at(&mut reg, MetricOperation::Swap, false, true, true, t);
    record_operation_at(&mut reg, MetricOperation::Swap, true, false, false, t);
    assert!(totals_fit(&reg));
    let totals = metric_totals(&reg);
    assert_eq!(totals.attempts, 3);
    assert_eq!(totals.successes, 2);
    assert_eq!(totals.failures, 1);
    assert_eq!(totals.user_errors, 1);
    assert_eq!(totals.recovered_failures, 1);
    let swap = totals.swap.expect("swap recorded");
    assert_eq!((swap.failures, swap.attempts), (1, 2));
    assert!(totals.restore.is_none());
    assert_eq!(reg.operations().len(), 2);
    assert_eq!(MetricOperation::Swap.as_key(), "swap");
}

#[test]
fn evaluation_meets_criteria_without_failures() {
    let ok = MvpCriteriaEvaluation::from_failures(Vec::new());
    assert!(ok.meets_criteria);
    let bad = MvpCriteriaEvaluation::from_failures(vec!["x".to_string()]);
    assert!(!bad.meets_criteria);
}

#[test]
fn stored_entries_keep_one_counter_per_operation() {
    let c = |n: u64| OperationCounters { attempts: n, successes: n, failures: 0, user_errors: 0, recovered_failures: 0 };
    let reg = MetricsRegistry::from_entries(
        vec![("swap".to_string(), c(1)), ("backup".to_string(), c(2)), ("swap".to_string(), c(3))],
        now_utc(),
    );
    assert_eq!(reg.operations().len(), 2);
    assert_eq!(reg.operations()[0].0, "swap");
    assert_eq!(reg.operations()[0].1.attempts, 3);
    assert_eq!(reg.operations()[1].1.attempts, 2);
}
