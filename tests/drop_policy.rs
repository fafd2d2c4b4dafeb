use pqc_chat::drop_policy::{fill_percent, DropPolicy};

#[test]
fn thresholds_escalate_with_call_duration() {
    let p = DropPolicy::default();
    assert_eq!(p.threshold_at(0), 70);
    assert_eq!(p.threshold_at(29), 70);
    assert_eq!(p.threshold_at(30), 60);
    assert_eq!(p.threshold_at(119), 60);
    assert_eq!(p.threshold_at(120), 50);
    assert_eq!(p.threshold_at(10_000), 50);
}

#[test]
fn drop_decisions() {
    let p = DropPolicy::default();
    // Low fill: always kept.
    assert!(!p.should_drop(10, 0, 0));
    assert!(!p.should_drop(25, 500, 4));
    // Moderate fill: every second packet goes.
    assert!(p.should_drop(30, 0, 4));
    assert!(!p.should_drop(30, 0, 5));
    // Above the threshold: dropped whatever the index.
    assert!(p.should_drop(71, 10, 5));
    assert!(!p.should_drop(65, 10, 5));
    assert!(p.should_drop(65, 60, 5));
    assert!(p.should_drop(55, 200, 5));
}

#[test]
fn custom_policy() {
    let p = DropPolicy { early_pct: 90, early_secs: 5, mid_pct: 80, mid_secs: 10, late_pct: 40, moderate_pct: 100, period: 0 };
    assert!(!p.should_drop(85, 1, 0));
    assert!(p.should_drop(85, 6, 0));
    assert!(p.should_drop(41, 11, 1));
}

#[test]
fn fill_percent_values() {
    assert_eq!(fill_percent(0, 2880), 0);
    assert_eq!(fill_percent(1440, 2880), 50);
    assert_eq!(fill_percent(2880, 2880), 100);
    assert_eq!(fill_percent(1, 3), 33);
}
