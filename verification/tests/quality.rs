use helix_verified::quality_types::{
    categorize_issue, contains_text, priority_for, ActionPriority, CodeLocation, CriticalIssue, ImprovementCategory,
    IssueSeverity,
};

fn issue(description: &str) -> CriticalIssue {
    CriticalIssue {
        module: "m".to_string(),
        severity: IssueSeverity::High,
        description: description.to_string(),
        location: CodeLocation { file: "src/m.rs".to_string(), line: 1, column: None, function: None },
        recommended_fix: "fix".to_string(),
        effort_estimate: 4,
    }
}

#[test]
fn severity_maps_to_priority() {
    assert_eq!(priority_for(IssueSeverity::Critical), ActionPriority::Immediate);
    assert_eq!(priority_for(IssueSeverity::High), ActionPriority::High);
    assert_eq!(priority_for(IssueSeverity::Medium), ActionPriority::Medium);
    assert_eq!(priority_for(IssueSeverity::Low), ActionPriority::Low);
    assert!(IssueSeverity::Critical < IssueSeverity::Low);
}

#[test]
fn issues_are_categorised_by_their_words() {
    assert_eq!(categorize_issue(&issue("Critical weak spot: x")), ImprovementCategory::TestCoverage);
    assert_eq!(categorize_issue(&issue("Low Test Effectiveness Score: 0.20")), ImprovementCategory::TestQuality);
    assert_eq!(categorize_issue(&issue("High cyclomatic complexity: 12.0")), ImprovementCategory::Complexity);
    assert_eq!(categorize_issue(&issue("a security hole")), ImprovementCategory::Security);
    assert_eq!(categorize_issue(&issue("other")), ImprovementCategory::Maintainability);
}

#[test]
fn substring_search() {
    assert!(contains_text("abc", ""));
    assert!(contains_text("abc", "bc"));
    assert!(!contains_text("abc", "abcd"));
    assert!(!contains_text("", "a"));
}
