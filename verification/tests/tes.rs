use helix_verified::tes::{BehaviorTest, TesTracker, TestDataBuilder};

fn behavior(scenario: &str, passed: bool) -> BehaviorTest {
    BehaviorTest {
        scenario: scenario.to_string(),
        given: "A valid input".to_string(),
        when: "Processing occurs".to_string(),
        then: "Expected output is produced".to_string(),
        passed,
    }
}

#[test]
fn tracker_records_assertions_by_debug_text() {
    let mut tracker = TesTracker::new("test_tes_tracker".to_string());
    assert!(tracker.assert_eq(format!("{:?}", 1 + 1), format!("{:?}", 2), "Basic addition"));
    assert!(tracker.assert_eq(format!("{:?}", "hello".len()), format!("{:?}", 5), "String length"));
    assert!(!tracker.assert_eq(format!("{:?}", true), format!("{:?}", false), "Boolean equality"));
    assert_eq!(tracker.assertion_count(), 3);
    assert_eq!(tracker.failed_assertion_count(), 1);
    assert_eq!(tracker.test_name(), "test_tes_tracker");
}

#[test]
fn tracker_counts_covered_behavior_patterns() {
    let mut tracker = TesTracker::new("coverage".to_string());
    assert_eq!(tracker.covered_behavior_patterns(), 0);
    tracker.test_behavior(behavior("happy_path", true));
    tracker.test_behavior(behavior("edge_case", true));
    assert_eq!(tracker.covered_behavior_patterns(), 2);
    tracker.test_behavior(behavior("happy_path again", true));
    assert_eq!(tracker.covered_behavior_patterns(), 2);
    tracker.test_behavior(behavior("network error under concurrent load", false));
    assert_eq!(tracker.covered_behavior_patterns(), 4);
}

#[test]
fn tracker_keeps_last_mutation_results() {
    let mut tracker = TesTracker::new("mutations".to_string());
    assert_eq!(tracker.mutation_counts(), (0, 0));
    tracker.record_mutations(9, 10);
    tracker.record_mutations(7, 8);
    assert_eq!(tracker.mutation_counts(), (7, 8));
}

#[test]
fn builder_applies_adjustments_in_order() {
    let built = TestDataBuilder::new(vec![1])
        .with(|v: &mut Vec<i32>| v.push(2))
        .with(|v: &mut Vec<i32>| v.push(3))
        .build();
    assert_eq!(built, vec![1, 2, 3]);
    assert_eq!(TestDataBuilder::new(5u8).build(), 5);
}
