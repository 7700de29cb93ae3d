use helix_verified::operator_config::{DeskOperatorConfig, OperatorActionScope, OperatorError};

#[test]
fn default_config_validates() {
    assert!(DeskOperatorConfig::default().validate().is_ok());
}

#[test]
fn config_rejects_too_fast_loop() {
    let mut config = DeskOperatorConfig::default();
    config.loop_interval_secs = 1;
    assert!(config.validate().is_err());
}

#[test]
fn config_rejects_too_many_actions() {
    let mut config = DeskOperatorConfig::default();
    config.max_actions_per_cycle = 100;
    assert!(config.validate().is_err());
}

#[test]
fn config_rejects_empty_model() {
    let mut config = DeskOperatorConfig::default();
    config.model = "  ".to_string();
    assert!(config.validate().is_err());
}

#[test]
fn system_prompt_includes_rules() {
    let mut config = DeskOperatorConfig::default();
    config.rules_text = "Always prioritize cases about entity X.".to_string();
    let prompt = config.system_prompt();
    assert!(prompt.contains("Always prioritize cases about entity X."));
    assert!(prompt.contains("Helix Intelligence Desk Operator"));
}

#[test]
fn system_prompt_handles_empty_rules() {
    let config = DeskOperatorConfig::default();
    let prompt = config.system_prompt();
    assert!(prompt.contains("(none — use your best judgment)"));
}

#[test]
fn action_scope_observe_only_denies_all() {
    let scope = OperatorActionScope::ObserveOnly;
    assert!(!scope.permits("ingest_evidence"));
    assert!(!scope.permits("escalate_case"));
    assert!(!scope.permits("policy_simulation"));
}

#[test]
fn action_scope_intelligence_allows_intel_actions() {
    let scope = OperatorActionScope::Intelligence;
    assert!(scope.permits("escalate_case"));
    assert!(scope.permits("review_claim"));
    assert!(scope.permits("federation_broadcast"));
    assert!(!scope.permits("policy_simulation"));
}

#[test]
fn action_scope_full_allows_everything() {
    let scope = OperatorActionScope::Full;
    assert!(scope.permits("policy_simulation"));
    assert!(scope.permits("escalate_case"));
}

#[test]
fn config_errors_name_the_broken_rule() {
    let mut config = DeskOperatorConfig::default();
    config.loop_interval_secs = 4000;
    assert_eq!(
        config.validate(),
        Err(OperatorError::ConfigValidation("loop_interval_secs must be between 5 and 3600".to_string()))
    );
    let mut config = DeskOperatorConfig::default();
    config.max_context_items = 0;
    assert_eq!(
        config.validate(),
        Err(OperatorError::ConfigValidation("max_context_items must be between 1 and 20".to_string()))
    );
    let mut config = DeskOperatorConfig::default();
    config.rules_text = "x".repeat(4097);
    assert!(config.validate().is_err());
    config.rules_text = "x".repeat(4096);
    assert!(config.validate().is_ok());
}

#[test]
fn policy_scope_adds_policy_simulation_only() {
    let scope = OperatorActionScope::Policy;
    assert!(scope.permits("policy_simulation"));
    assert!(scope.permits("log_analysis"));
    assert!(!scope.permits("transfer_funds"));
    assert_eq!(OperatorActionScope::default(), OperatorActionScope::Intelligence);
}
