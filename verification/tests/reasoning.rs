use helix_verified::errors::HelixError;
use helix_verified::expert::ExpertRule;
use helix_verified::neuro_symbolic::evaluate_neuro_symbolic_gate;
use helix_verified::reasoning_types::{
    ExpertSystemKernel, KrrTriple, ReasoningBackend, ReasoningConsistencyScope, ReasoningSupportKind,
    ReasoningSymbolicStatus, ReasoningVerdict, SymbolicReasoningKernel, SymbolicRule,
};
use helix_verified::symbolic_decision::{
    compile_symbolic_program, evaluate_compiled_symbolic_reasoning, resolve_max_rounds, ReasoningDecision,
};
use helix_verified::symbolic_fingerprint::fingerprint_symbolic_program;
use helix_verified::symbolic_eval::SymbolicClosureStatus;

fn rule(id: &str, antecedents: &[&str], consequent: &str) -> SymbolicRule {
    SymbolicRule {
        id: id.to_string(),
        antecedents: antecedents.iter().map(|a| a.to_string()).collect(),
        consequent: consequent.to_string(),
    }
}

fn symbolic(
    query: &str,
    facts: &[&str],
    rules: Vec<SymbolicRule>,
    triples: Vec<KrrTriple>,
    scope: Option<ReasoningConsistencyScope>,
    max_rounds: Option<u8>,
) -> Result<ReasoningDecision, HelixError> {
    let program = compile_symbolic_program(rules, triples)?;
    evaluate_compiled_symbolic_reasoning(
        query.to_string(),
        facts.iter().map(|f| f.to_string()).collect(),
        &program,
        scope,
        max_rounds,
    )
}

fn feature(name: &str, value: i64) -> (String, i64) {
    (name.to_string(), value)
}

#[test]
fn symbolic_backend_entails_query() {
    let decision = symbolic(
        "allow(tx)",
        &["trusted(user)", "kyc_passed(user)"],
        vec![rule("r1", &["trusted(user)", "kyc_passed(user)"], "allow(tx)")],
        vec![],
        None,
        Some(8),
    )
    .unwrap();

    assert_eq!(decision.backend, ReasoningBackend::KrrSymbolic);
    assert_eq!(decision.verdict, ReasoningVerdict::Allow);
    assert_eq!(decision.trace.symbolic_entailed, Some(true));
    assert_eq!(decision.trace.symbolic_status, Some(ReasoningSymbolicStatus::Saturated));
    assert_eq!(decision.trace.pending_rule_count, Some(0));
    assert!(decision.trace.program_fingerprint.is_some());
    assert_eq!(decision.trace.consistency_scope, Some(ReasoningConsistencyScope::Global));
    assert_eq!(decision.trace.support_graph.len(), 3);
    assert!(decision.trace.contradictions.is_empty());
    assert!(decision.trace.blocking_contradictions.is_empty());
    assert_eq!(
        decision.trace.query_support,
        vec!["allow(tx)".to_string(), "kyc_passed(user)".to_string(), "trusted(user)".to_string()]
    );
    assert!(decision
        .trace
        .support_graph
        .iter()
        .any(|node| node.fact == "allow(tx)" && node.rule_id.as_deref() == Some("r1")));
}

#[test]
fn symbolic_backend_preserves_rule_order_semantics_across_rounds() {
    let decision = symbolic(
        "c",
        &["a"],
        vec![rule("r2", &["b"], "c"), rule("r1", &["a"], "b")],
        vec![],
        None,
        Some(2),
    )
    .unwrap();

    assert_eq!(decision.verdict, ReasoningVerdict::Allow);
    assert_eq!(decision.trace.matched_rules, vec!["r1", "r2"]);
}

#[test]
fn symbolic_backend_supports_unconditional_rules() {
    let decision =
        symbolic("allow(tx)", &[], vec![rule("bootstrap", &[], "allow(tx)")], vec![], None, Some(1)).unwrap();

    assert_eq!(decision.verdict, ReasoningVerdict::Allow);
}

#[test]
fn symbolic_backend_canonicalizes_predicates_in_support_graph() {
    let decision = symbolic(
        "allow(tx)",
        &["trusted( user )", "kyc_passed(user)"],
        vec![rule("r1", &["trusted(user)", "kyc_passed(user)"], "allow(tx)")],
        vec![],
        None,
        Some(8),
    )
    .unwrap();

    assert!(decision
        .trace
        .support_graph
        .iter()
        .any(|node| node.fact == "trusted(user)" && node.kind == ReasoningSupportKind::Seed));
}

#[test]
fn symbolic_program_fingerprint_is_stable() {
    let rules = vec![rule("r1", &["trusted(user)"], "allow(tx)")];
    let triples = vec![KrrTriple {
        subject: "user".to_string(),
        predicate: "owns".to_string(),
        object: "tx".to_string(),
    }];
    let a = fingerprint_symbolic_program(&rules, &triples).unwrap();
    let b = fingerprint_symbolic_program(&rules, &triples).unwrap();
    assert_eq!(a, b);
}

#[test]
fn symbolic_backend_denies_when_contradiction_is_present() {
    let decision = symbolic("allow(tx)", &["allow(tx)", "!allow(tx)"], vec![], vec![], None, Some(4)).unwrap();

    assert_eq!(decision.verdict, ReasoningVerdict::Deny);
    assert_eq!(decision.trace.contradictions.len(), 1);
    assert_eq!(decision.trace.contradictions[0].positive, "allow(tx)");
    assert_eq!(decision.trace.contradictions[0].negative, "not allow(tx)");
}

#[test]
fn symbolic_backend_reports_truncation_when_round_budget_is_exhausted() {
    let decision = symbolic(
        "c",
        &["a"],
        vec![rule("r1", &["a"], "b"), rule("r2", &["b"], "c")],
        vec![],
        None,
        Some(1),
    )
    .unwrap();

    assert_eq!(decision.verdict, ReasoningVerdict::Deny);
    assert_eq!(decision.trace.symbolic_status, Some(ReasoningSymbolicStatus::Truncated));
    assert_eq!(decision.trace.pending_rule_count, Some(1));
    assert_eq!(decision.trace.symbolic_entailed, Some(false));
    assert!(decision.rationale.contains("truncated"));
}

#[test]
fn symbolic_query_support_excludes_irrelevant_derivations() {
    let decision = symbolic(
        "allow(tx)",
        &["trusted(user)", "news(noise)"],
        vec![rule("permit", &["trusted(user)"], "allow(tx)"), rule("noise", &["news(noise)"], "alert(side_channel)")],
        vec![],
        None,
        Some(4),
    )
    .unwrap();

    assert_eq!(decision.verdict, ReasoningVerdict::Allow);
    assert!(decision.trace.derived_facts.contains(&"alert(side_channel)".to_string()));
    assert_eq!(decision.trace.query_support, vec!["allow(tx)".to_string(), "trusted(user)".to_string()]);
}

#[test]
fn symbolic_query_support_scope_allows_unrelated_contradictions() {
    let decision = symbolic(
        "allow(tx)",
        &["trusted(user)", "noise", "!noise"],
        vec![rule("permit", &["trusted(user)"], "allow(tx)")],
        vec![],
        Some(ReasoningConsistencyScope::QuerySupport),
        Some(4),
    )
    .unwrap();

    assert_eq!(decision.verdict, ReasoningVerdict::Allow);
    assert_eq!(decision.trace.consistency_scope, Some(ReasoningConsistencyScope::QuerySupport));
    assert_eq!(decision.trace.contradictions.len(), 1);
    assert!(decision.trace.blocking_contradictions.is_empty());
}

#[test]
fn symbolic_query_support_scope_blocks_support_contradictions() {
    let decision = symbolic(
        "allow(tx)",
        &["trusted(user)", "!trusted(user)"],
        vec![rule("permit", &["trusted(user)"], "allow(tx)")],
        vec![],
        Some(ReasoningConsistencyScope::QuerySupport),
        Some(4),
    )
    .unwrap();

    assert_eq!(decision.verdict, ReasoningVerdict::Deny);
    assert_eq!(decision.trace.contradictions.len(), 1);
    assert_eq!(decision.trace.blocking_contradictions.len(), 1);
    assert_eq!(decision.trace.blocking_contradictions[0].positive, "trusted(user)");
}

#[test]
fn expert_backend_tie_breaks_fail_closed() {
    let decision = ExpertSystemKernel::decide(
        vec![feature("risk", 5)],
        vec![
            ExpertRule {
                id: "allow_rule".to_string(),
                min_features: vec![feature("risk", 5)],
                verdict: ReasoningVerdict::Allow,
                weight: 10,
            },
            ExpertRule {
                id: "deny_rule".to_string(),
                min_features: vec![feature("risk", 5)],
                verdict: ReasoningVerdict::Deny,
                weight: 10,
            },
        ],
    )
    .unwrap();

    assert_eq!(decision.verdict, ReasoningVerdict::Deny);
}

#[test]
fn expert_backend_denies_when_no_rule_matches() {
    let decision = ExpertSystemKernel::decide(
        vec![feature("risk", 1)],
        vec![ExpertRule {
            id: "allow_if_high".to_string(),
            min_features: vec![feature("risk", 5)],
            verdict: ReasoningVerdict::Allow,
            weight: 10,
        }],
    )
    .unwrap();

    assert_eq!(decision.verdict, ReasoningVerdict::Deny);
    assert_eq!(decision.confidence.numerator, decision.confidence.denominator);
    assert!(decision.confidence.denominator > 0);
}

#[test]
fn expert_backend_supports_unconditional_rules() {
    let decision = ExpertSystemKernel::decide(
        vec![],
        vec![ExpertRule {
            id: "default_review".to_string(),
            min_features: vec![],
            verdict: ReasoningVerdict::Review,
            weight: 3,
        }],
    )
    .unwrap();

    assert_eq!(decision.verdict, ReasoningVerdict::Review);
    assert_eq!(decision.trace.matched_rules, vec!["default_review"]);
}

#[test]
fn expert_backend_rejects_blank_feature_names() {
    let result = ExpertSystemKernel::decide(
        vec![feature(" ", 5)],
        vec![ExpertRule {
            id: "allow_rule".to_string(),
            min_features: vec![feature("risk", 5)],
            verdict: ReasoningVerdict::Allow,
            weight: 1,
        }],
    );
    assert!(matches!(result, Err(HelixError::ValidationError { .. })));
}

#[test]
fn symbolic_backend_rejects_empty_query_and_triple_fields() {
    let empty_query = symbolic("   ", &["trusted(user)"], vec![], vec![], None, Some(4));
    assert!(matches!(empty_query, Err(HelixError::ValidationError { .. })));

    let empty_triple = symbolic(
        "allow(tx)",
        &["trusted(user)"],
        vec![],
        vec![KrrTriple { subject: "user".to_string(), predicate: " ".to_string(), object: "tx".to_string() }],
        None,
        Some(4),
    );
    assert!(matches!(empty_triple, Err(HelixError::ValidationError { .. })));
}

#[test]
fn symbolic_backends_reject_zero_max_rounds() {
    let symbolic_result = symbolic("allow(tx)", &["allow(tx)"], vec![], vec![], None, Some(0));
    assert!(matches!(symbolic_result, Err(HelixError::ValidationError { .. })));
}

#[test]
fn zero_rounds_is_a_validation_error_and_default_is_sixteen() {
    assert!(matches!(resolve_max_rounds(Some(0)), Err(HelixError::ValidationError { .. })));
    assert_eq!(resolve_max_rounds(None).unwrap(), 16);
    assert_eq!(resolve_max_rounds(Some(3)).unwrap(), 3);
}

#[test]
fn kernel_decides_with_sixteen_rounds_and_global_scope() {
    let decision = SymbolicReasoningKernel::decide(
        "allow(tx)".to_string(),
        vec!["trusted(user)".to_string()],
        vec![rule("permit", &["trusted(user)"], "allow(tx)")],
        vec![],
    )
    .unwrap();
    assert_eq!(decision.verdict, ReasoningVerdict::Allow);
    assert_eq!(decision.trace.consistency_scope, Some(ReasoningConsistencyScope::Global));
}

#[test]
fn fingerprint_changes_with_the_program() {
    let a = fingerprint_symbolic_program(&vec![rule("r1", &["a"], "b")], &vec![]).unwrap();
    let b = fingerprint_symbolic_program(&vec![rule("r1", &["a"], "c")], &vec![]).unwrap();
    assert_ne!(a, b);
    assert_eq!(a.len(), 64);
}

#[test]
fn saturated_allow_entails_the_query_from_facts() {
    let decision = symbolic(
        "d",
        &["a"],
        vec![rule("r1", &["a"], "b"), rule("r2", &["b"], "c"), rule("r3", &["c"], "d")],
        vec![],
        None,
        Some(8),
    )
    .unwrap();
    assert_eq!(decision.verdict, ReasoningVerdict::Allow);
    assert_eq!(decision.trace.symbolic_status, Some(ReasoningSymbolicStatus::Saturated));
    assert_eq!(decision.trace.matched_rules, vec!["r1", "r2", "r3"]);
}

#[test]
fn neuro_symbolic_gate_lets_the_score_decide_only_after_entailment() {
    let program = compile_symbolic_program(vec![rule("permit", &["trusted(user)"], "allow(tx)")], vec![]).unwrap();
    let facts = vec!["trusted(user)".to_string()];
    let pass = evaluate_neuro_symbolic_gate(
        "allow(tx)".to_string(),
        facts.clone(),
        &program,
        16,
        ReasoningConsistencyScope::Global,
        true,
    )
    .unwrap();
    assert_eq!(pass.verdict, ReasoningVerdict::Allow);
    assert!(pass.neural_decides);
    let low = evaluate_neuro_symbolic_gate(
        "allow(tx)".to_string(),
        facts.clone(),
        &program,
        16,
        ReasoningConsistencyScope::Global,
        false,
    )
    .unwrap();
    assert_eq!(low.verdict, ReasoningVerdict::Review);
    let denied = evaluate_neuro_symbolic_gate(
        "allow(tx)".to_string(),
        vec![],
        &program,
        16,
        ReasoningConsistencyScope::Global,
        true,
    )
    .unwrap();
    assert_eq!(denied.verdict, ReasoningVerdict::Deny);
    assert!(!denied.neural_decides);
    assert_eq!(denied.rationale, "symbolic gate failed; denying regardless of neural score");
    let contradiction = evaluate_neuro_symbolic_gate(
        "allow(tx)".to_string(),
        vec!["trusted(user)".to_string(), "!trusted(user)".to_string()],
        &program,
        16,
        ReasoningConsistencyScope::Global,
        true,
    )
    .unwrap();
    assert_eq!(contradiction.verdict, ReasoningVerdict::Deny);
    assert_eq!(contradiction.rationale, "symbolic contradiction detected; denying regardless of neural score");
}

#[test]
fn query_directed_evaluation_agrees_with_full_on_the_query() {
    let program = compile_symbolic_program(
        vec![
            rule("r1", &["a(x)"], "b(x)"),
            rule("r2", &["b(x)"], "goal(x)"),
            rule("r3", &["c(x)"], "unrelated(x)"),
        ],
        vec![],
    )
    .unwrap();
    let facts = vec!["a(x)".to_string(), "c(x)".to_string()];
    for query in ["goal(x)", "unrelated(x)", "missing(x)"] {
        let directed = helix_verified::symbolic_decision::evaluate_compiled_symbolic(
            &program,
            query,
            &facts,
            8,
            helix_verified::symbolic_eval::SymbolicEvaluationScope::QueryDirected,
        )
        .unwrap();
        let full = helix_verified::symbolic_decision::evaluate_compiled_symbolic(
            &program,
            query,
            &facts,
            8,
            helix_verified::symbolic_eval::SymbolicEvaluationScope::Full,
        )
        .unwrap();
        assert_eq!(directed.entailed, full.entailed, "query {}", query);
    }
    let directed = helix_verified::symbolic_decision::evaluate_compiled_symbolic(
        &program,
        "goal(x)",
        &facts,
        8,
        helix_verified::symbolic_eval::SymbolicEvaluationScope::QueryDirected,
    )
    .unwrap();
    assert!(directed.entailed);
    assert!(!directed.derived_facts.iter().any(|f| f.contains("unrelated")));
}

fn run(rules: Vec<SymbolicRule>, facts: &[&str], query: &str, max_rounds: usize) -> helix_verified::symbolic_eval::SymbolicEvaluation {
    let program = compile_symbolic_program(rules, vec![]).unwrap();
    let facts: Vec<String> = facts.iter().map(|f| f.to_string()).collect();
    helix_verified::symbolic_eval::evaluate(
        &program,
        query,
        &facts,
        max_rounds,
        helix_verified::symbolic_eval::SymbolicEvaluationScope::Full,
    )
    .unwrap()
}

#[test]
fn evaluation_closure_after_each_round_budget() {
    let chain = || vec![rule("r1", &["a"], "b"), rule("r2", &["b"], "c"), rule("r3", &["c"], "d")];
    let two = run(chain(), &["a"], "d", 2);
    assert_eq!(two.rounds_executed, 2);
    assert_eq!(two.closure_status, SymbolicClosureStatus::Truncated);
    assert_eq!(two.pending_rule_count, 1);
    assert_eq!(two.derived_facts, vec!["a", "b", "c"]);
    assert_eq!(two.matched_rules, vec!["r1", "r2"]);
    assert!(!two.entailed);

    let all = run(chain(), &["a"], "d", 10);
    assert_eq!(all.rounds_executed, 3);
    assert_eq!(all.closure_status, SymbolicClosureStatus::Saturated);
    assert_eq!(all.pending_rule_count, 0);
    assert_eq!(all.derived_facts, vec!["a", "b", "c", "d"]);
    assert!(all.entailed);
}

#[test]
fn evaluation_counts_a_rule_left_waiting_as_pending() {
    let rules = || vec![rule("r1", &["a"], "b"), rule("r2", &["b"], "c"), rule("r3", &["a"], "c")];
    let one = run(rules(), &["a"], "c", 1);
    assert_eq!(one.rounds_executed, 1);
    assert_eq!(one.derived_facts, vec!["a", "b", "c"]);
    assert_eq!(one.closure_status, SymbolicClosureStatus::Truncated);
    assert_eq!(one.pending_rule_count, 1);

    let more = run(rules(), &["a"], "c", 5);
    assert_eq!(more.rounds_executed, 2);
    assert_eq!(more.closure_status, SymbolicClosureStatus::Saturated);
    assert_eq!(more.pending_rule_count, 0);
    assert_eq!(more.matched_rules, vec!["r1", "r3"]);
}

#[test]
fn evaluation_with_no_round_leaves_ready_rules_pending() {
    let none = run(vec![rule("r1", &["a"], "b"), rule("r2", &["a"], "c")], &["a"], "b", 0);
    assert_eq!(none.rounds_executed, 0);
    assert_eq!(none.pending_rule_count, 2);
    assert_eq!(none.closure_status, SymbolicClosureStatus::Truncated);
    assert_eq!(none.derived_facts, vec!["a"]);
}

#[test]
fn more_rounds_than_rules_reach_the_fixed_point() {
    let rules = || vec![rule("r1", &["a"], "b"), rule("r2", &["b"], "c"), rule("r3", &["c"], "d")];
    let ev = run(rules(), &["a"], "d", 4);
    assert_eq!(ev.closure_status, SymbolicClosureStatus::Saturated);
    assert!(ev.entailed);
    let short = run(rules(), &["a"], "d", 3);
    assert_eq!(short.closure_status, SymbolicClosureStatus::Saturated);
    assert_eq!(short.rounds_executed, 3);
}
