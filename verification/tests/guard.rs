use command_framework::guard::{AdmissionGuard, DEBOUNCE_MILLIS};

#[test]
fn window_is_four_seconds() {
    assert_eq!(DEBOUNCE_MILLIS, 4000);
    let mut g = AdmissionGuard::new();
    assert!(!g.check_executing(1, 0));
    g.set_executing(1, 10_000);
    assert!(g.check_executing(1, 10_000));
    assert!(g.check_executing(1, 13_999));
    assert!(!g.check_executing(1, 14_000));
    assert!(!g.check_executing(2, 10_000));
}

#[test]
fn record_from_the_future_counts_as_fresh() {
    let mut g = AdmissionGuard::new();
    g.set_executing(1, 10_000);
    assert!(g.check_executing(1, 5));
}

#[test]
fn drop_removes_whoever_wrote() {
    let mut g = AdmissionGuard::new();
    g.set_executing(1, 100);
    g.set_executing(1, 200);
    g.set_executing(2, 200);
    g.drop_executing(1);
    assert!(!g.check_executing(1, 201));
    assert!(g.check_executing(2, 201));
    g.drop_executing(3);
    assert!(g.check_executing(2, 201));
}

#[test]
fn later_record_replaces_earlier() {
    let mut g = AdmissionGuard::new();
    g.set_executing(1, 0);
    g.set_executing(1, 3_000);
    assert!(g.check_executing(1, 6_000));
}
