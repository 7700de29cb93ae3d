use helix_verified::collaboration::CollaborationEvent;
use helix_verified::operator_config::{OperatorActionScope, OperatorError, OperatorStatus};
use helix_verified::operator_confirmation::{ConfirmationQueue, ConfirmationRequest, ConfirmationStatus};
use helix_verified::operator_cycle::{
    OperatorDecision, OperatorProposalResponse, activity_entry, allowed_actions, classify_proposal, cycle_gate, start_status, CycleReview, GuardActionClass,
    GuardVerdict, OperatorActivityLog, ReviewStep,
};
use helix_verified::operator_proposals::{
    clean_proposal_text, keep_named_proposals, proposal_to_action, OperatorAction, OperatorProposal, ParamValue,
};

fn text(s: &str) -> ParamValue {
    ParamValue { json: format!("\"{s}\""), text: Some(s.to_string()), items: None }
}

fn param(name: &str, value: ParamValue) -> (String, ParamValue) {
    (name.to_string(), value)
}

fn proposal(action_type: &str, target_id: Option<&str>, rationale: &str, parameters: Vec<(String, ParamValue)>) -> OperatorProposal {
    OperatorProposal {
        action_type: action_type.to_string(),
        target_id: target_id.map(|t| t.to_string()),
        rationale: rationale.to_string(),
        parameters,
    }
}

#[test]
fn proposal_to_action_escalate_case() {
    let p = proposal("escalate_case", Some("case-42"), "Critical finding", vec![]);
    let action = proposal_to_action(&p).unwrap();
    match action {
        OperatorAction::EscalateCase { case_id, rationale } => {
            assert_eq!(case_id, "case-42");
            assert_eq!(rationale, "Critical finding");
        }
        _ => panic!("wrong action type"),
    }
}

#[test]
fn proposal_to_action_log_analysis() {
    let p = proposal(
        "log_analysis",
        None,
        "Observing",
        vec![param("severity", text("high")), param("summary", text("test summary"))],
    );
    let action = proposal_to_action(&p).unwrap();
    match action {
        OperatorAction::LogAnalysis { severity, summary, .. } => {
            assert_eq!(severity, "high");
            assert_eq!(summary, "test summary");
        }
        _ => panic!("wrong action type"),
    }
}

#[test]
fn proposal_to_action_escalate_without_target_returns_none() {
    let p = proposal("escalate_case", None, "test", vec![]);
    assert!(proposal_to_action(&p).is_none());
}

#[test]
fn proposal_to_action_unknown_type_returns_none() {
    let p = proposal("unknown_action", None, "test", vec![]);
    assert!(proposal_to_action(&p).is_none());
}

#[test]
fn proposal_to_action_federation_broadcast() {
    let p = proposal(
        "federation_broadcast",
        None,
        "Share with peers",
        vec![param("title", text("Alert")), param("summary", text("Brief")), param("content", text("Details"))],
    );
    let action = proposal_to_action(&p).unwrap();
    match action {
        OperatorAction::FederationBroadcast { title, summary, content, .. } => {
            assert_eq!(title, "Alert");
            assert_eq!(summary, "Brief");
            assert_eq!(content, "Details");
        }
        _ => panic!("wrong action type"),
    }
}

#[test]
fn missing_parameters_take_their_defaults() {
    let log = proposal_to_action(&proposal("log_analysis", None, "r", vec![])).unwrap();
    assert_eq!(
        log,
        OperatorAction::LogAnalysis { severity: "low".to_string(), summary: String::new(), rationale: "r".to_string() }
    );
    let review = proposal_to_action(&proposal("review_claim", Some("claim-1"), "r", vec![])).unwrap();
    assert_eq!(
        review,
        OperatorAction::ReviewClaim {
            claim_id: "claim-1".to_string(),
            status: "corroborated".to_string(),
            rationale: "r".to_string()
        }
    );
    let sim = proposal_to_action(&proposal("policy_simulation", None, "r", vec![])).unwrap();
    assert_eq!(sim, OperatorAction::PolicySimulation { commands: "[]".to_string(), rationale: "r".to_string() });
    assert_eq!(sim.action_type(), "policy_simulation");
}

#[test]
fn open_case_needs_evidence_and_watchlist() {
    let without_watchlist = proposal("open_case", Some("ev-1"), "r", vec![]);
    assert!(proposal_to_action(&without_watchlist).is_none());
    let full = proposal("open_case", Some("ev-1"), "r", vec![param("watchlist_id", text("wl-9"))]);
    assert_eq!(
        proposal_to_action(&full).unwrap(),
        OperatorAction::OpenCase {
            evidence_id: "ev-1".to_string(),
            title: "Operator-opened case".to_string(),
            watchlist_id: "wl-9".to_string(),
            rationale: "r".to_string()
        }
    );
}

#[test]
fn non_string_parameters_fall_back_to_defaults() {
    let number = ParamValue { json: "3".to_string(), text: None, items: None };
    let p = proposal("log_analysis", None, "r", vec![param("severity", number)]);
    match proposal_to_action(&p).unwrap() {
        OperatorAction::LogAnalysis { severity, .. } => assert_eq!(severity, "low"),
        _ => panic!("wrong action type"),
    }
}

#[test]
fn markdown_fences_are_stripped() {
    assert_eq!(clean_proposal_text("  [1]  "), "[1]");
    assert_eq!(clean_proposal_text("```json\n[{\"type\": \"log_analysis\"}]\n```"), "[{\"type\": \"log_analysis\"}]");
    assert_eq!(clean_proposal_text("```\n{}\n```"), "{}");
    assert_eq!(clean_proposal_text("no fences"), "no fences");
}

#[test]
fn blank_action_types_are_dropped() {
    let kept = keep_named_proposals(vec![
        proposal("log_analysis", None, "a", vec![]),
        proposal("   ", None, "b", vec![]),
        proposal("escalate_case", Some("c"), "c", vec![]),
    ]);
    assert_eq!(kept.len(), 2);
    assert_eq!(kept[0].rationale, "a");
    assert_eq!(kept[1].rationale, "c");
}

#[test]
fn policy_simulations_carry_their_command_count() {
    let list = ParamValue { json: "[1,2,3]".to_string(), text: None, items: Some(3) };
    let p = proposal("policy_simulation", None, "r", vec![param("commands", list)]);
    assert_eq!(classify_proposal(&p), GuardActionClass::PolicySimulation { command_count: 3 });
    let huge = ParamValue { json: "[]".to_string(), text: None, items: Some(70000) };
    let p = proposal("policy_simulation", None, "r", vec![param("commands", huge)]);
    assert_eq!(classify_proposal(&p), GuardActionClass::PolicySimulation { command_count: 65535 });
    let other = proposal("log_analysis", None, "r", vec![]);
    assert_eq!(classify_proposal(&other), GuardActionClass::PolicySimulation { command_count: 1 });
}

#[test]
fn review_gates_scope_then_guard() {
    let proposals = vec![
        proposal("log_analysis", None, "ok", vec![]),
        proposal("policy_simulation", None, "out", vec![]),
        proposal("escalate_case", Some("case-1"), "wait", vec![]),
        proposal("review_claim", Some("claim-1"), "no", vec![]),
        proposal("log_analysis", None, "beyond the limit", vec![]),
    ];
    let mut review = CycleReview::new(proposals, 4, OperatorActionScope::Intelligence);
    assert!(matches!(review.next_step(), ReviewStep::NeedsGuard(_)));
    assert!(review.awaiting_verdict());
    let d = review.record_verdict(GuardVerdict::Allow { requires_confirmation: false }).unwrap();
    assert!(d.allowed);
    match review.next_step() {
        ReviewStep::OutOfScope(d) => {
            assert!(!d.allowed);
            assert_eq!(d.denial_reason.as_deref(), Some("out_of_scope"));
        }
        _ => panic!("expected the scope gate"),
    }
    assert!(matches!(review.next_step(), ReviewStep::NeedsGuard(_)));
    let d = review.record_verdict(GuardVerdict::Allow { requires_confirmation: true }).unwrap();
    assert!(!d.allowed && d.requires_confirmation);
    assert_eq!(d.denial_reason.as_deref(), Some("pending_confirmation"));
    assert!(matches!(review.next_step(), ReviewStep::NeedsGuard(_)));
    let d = review.record_verdict(GuardVerdict::Deny { reason: "mode_off".to_string() }).unwrap();
    assert_eq!(d.denial_reason.as_deref(), Some("mode_off"));
    assert!(matches!(review.next_step(), ReviewStep::Done));
    assert!(review.record_verdict(GuardVerdict::ConfigUpdated).is_none());
    let response = review.finish("mock".to_string(), "[]".to_string(), "t".to_string());
    assert_eq!(response.proposals.len(), 4);
    assert_eq!(response.decisions.len(), 4);
    assert_eq!(response.allowed_count, 1);
    assert_eq!(response.denied_count, 2);
    let actions = allowed_actions(&response);
    assert_eq!(actions.len(), 1);
    assert_eq!(actions[0].action_type(), "log_analysis");
}

#[test]
fn observe_only_denies_everything_at_the_scope_gate() {
    let mut review = CycleReview::new(
        vec![proposal("log_analysis", None, "a", vec![]), proposal("escalate_case", Some("c"), "b", vec![])],
        10,
        OperatorActionScope::ObserveOnly,
    );
    assert!(matches!(review.next_step(), ReviewStep::OutOfScope(_)));
    assert!(matches!(review.next_step(), ReviewStep::OutOfScope(_)));
    assert!(matches!(review.next_step(), ReviewStep::Done));
    let response = review.finish("m".to_string(), String::new(), String::new());
    assert_eq!(response.allowed_count, 0);
    assert_eq!(response.denied_count, 2);
    assert!(allowed_actions(&response).is_empty());
}

#[test]
fn config_update_verdict_denies() {
    let mut review = CycleReview::new(vec![proposal("log_analysis", None, "a", vec![])], 3, OperatorActionScope::Full);
    assert!(matches!(review.next_step(), ReviewStep::NeedsGuard(_)));
    let d = review.record_verdict(GuardVerdict::ConfigUpdated).unwrap();
    assert_eq!(d.denial_reason.as_deref(), Some("config_updated"));
}

#[test]
fn loop_status_transitions() {
    assert_eq!(start_status(OperatorStatus::Stopped), Ok(OperatorStatus::Running));
    assert_eq!(start_status(OperatorStatus::Paused), Ok(OperatorStatus::Running));
    assert_eq!(start_status(OperatorStatus::Running), Err(OperatorError::AlreadyRunning));
    assert_eq!(cycle_gate(OperatorStatus::Stopped), Err(OperatorError::NotRunning));
    assert!(cycle_gate(OperatorStatus::Running).is_ok());
}

#[test]
fn activity_log_capacity_evicts() {
    let mut review = CycleReview::new(vec![proposal("log_analysis", None, "a", vec![])], 1, OperatorActionScope::Full);
    review.next_step();
    let d = review.record_verdict(GuardVerdict::Allow { requires_confirmation: false }).unwrap();
    let mut log = OperatorActivityLog::new(3);
    for cycle in 0..5u64 {
        log.append(activity_entry(cycle, &d));
    }
    assert_eq!(log.len(), 3);
    let recent = log.recent(10);
    assert_eq!(recent.len(), 3);
    assert_eq!(recent[0].cycle, 4);
    assert_eq!(recent[2].cycle, 2);
    assert!(recent[0].id.starts_with("op-"));
    assert_eq!(recent[0].action_type, "log_analysis");
    assert!(recent[0].allowed);
}

fn request(rationale: &str) -> ConfirmationRequest {
    ConfirmationRequest::new(1, proposal("escalate_case", Some("case-1"), rationale, vec![]))
}

#[test]
fn enqueue_and_get_pending() {
    let mut queue = ConfirmationQueue::new(10);
    let r = request("why");
    assert!(r.id.starts_with("conf-"));
    assert_eq!(r.rationale, "why");
    let id = queue.enqueue(r);
    assert_eq!(queue.pending().len(), 1);
    assert_eq!(queue.get(&id).unwrap().status, ConfirmationStatus::Pending);
    assert_eq!(queue.len(), 1);
}

#[test]
fn confirm_resolves_request() {
    let mut queue = ConfirmationQueue::new(10);
    let id = queue.enqueue(request("a"));
    let done = queue.confirm(&id, "sess-1", "Alice").unwrap();
    assert_eq!(done.status, ConfirmationStatus::Confirmed);
    assert_eq!(done.resolved_by.as_deref(), Some("sess-1"));
    assert_eq!(done.resolved_by_name.as_deref(), Some("Alice"));
    assert!(done.resolved_at.is_some());
    assert_eq!(queue.pending_count(), 0);
}

#[test]
fn deny_resolves_request() {
    let mut queue = ConfirmationQueue::new(10);
    let id = queue.enqueue(request("a"));
    let done = queue.deny(&id, "sess-2", "Bob", Some("too risky".to_string())).unwrap();
    assert_eq!(done.status, ConfirmationStatus::Denied);
    assert_eq!(done.denial_reason.as_deref(), Some("too risky"));
}

#[test]
fn confirm_nonexistent_returns_none() {
    let mut queue = ConfirmationQueue::new(10);
    assert!(queue.confirm("conf-missing", "s", "n").is_none());
}

#[test]
fn confirm_already_resolved_returns_none() {
    let mut queue = ConfirmationQueue::new(10);
    let id = queue.enqueue(request("a"));
    assert!(queue.deny(&id, "s", "n", None).is_some());
    assert!(queue.confirm(&id, "s", "n").is_none());
    assert_eq!(queue.get(&id).unwrap().status, ConfirmationStatus::Denied);
}

#[test]
fn capacity_evicts_oldest_pending() {
    let mut queue = ConfirmationQueue::new(2);
    let first = queue.enqueue(request("1"));
    queue.enqueue(request("2"));
    queue.enqueue(request("3"));
    assert_eq!(queue.len(), 2);
    assert!(queue.get(&first).is_none());
    let all = queue.all();
    assert_eq!(all[0].rationale, "3");
    assert_eq!(all[1].rationale, "2");
}

#[test]
fn expire_stale_expires_old_pending() {
    let mut queue = ConfirmationQueue::new(10);
    let now = chrono::Utc::now();
    let mut old = request("old");
    old.requested_at = (now - chrono::Duration::seconds(600)).to_rfc3339();
    let old_id = queue.enqueue(old);
    let fresh_id = queue.enqueue(request("fresh"));
    assert_eq!(queue.expire_stale_at(300, &now.to_rfc3339()), 1);
    assert_eq!(queue.get(&old_id).unwrap().status, ConfirmationStatus::Expired);
    assert_eq!(queue.get(&fresh_id).unwrap().status, ConfirmationStatus::Pending);
    assert_eq!(queue.expire_stale(300), 0);
}

#[test]
fn clear_resolved_removes_non_pending() {
    let mut queue = ConfirmationQueue::new(10);
    let a = queue.enqueue(request("a"));
    queue.enqueue(request("b"));
    queue.confirm(&a, "s", "n");
    assert_eq!(queue.clear_resolved(), 1);
    assert_eq!(queue.len(), 1);
    assert_eq!(queue.pending_count(), 1);
    assert_eq!(queue.clear_resolved(), 0);
}

#[test]
fn pending_count() {
    let mut queue = ConfirmationQueue::new(10);
    queue.enqueue(request("a"));
    let b = queue.enqueue(request("b"));
    queue.enqueue(request("c"));
    queue.deny(&b, "s", "n", None);
    assert_eq!(queue.pending_count(), 2);
    let pending = queue.pending();
    assert_eq!(pending[0].rationale, "a");
    assert_eq!(pending[1].rationale, "c");
}

#[test]
fn collaboration_events_carry_their_payload() {
    match CollaborationEvent::cycle_completed(7, 1, 2, 3) {
        CollaborationEvent::CycleCompleted { cycle, allowed_count, denied_count, pending_confirmation_count, timestamp } => {
            assert_eq!((cycle, allowed_count, denied_count, pending_confirmation_count), (7, 1, 2, 3));
            assert!(!timestamp.is_empty());
        }
        _ => panic!("wrong event"),
    }
    match CollaborationEvent::session_left("sess-1".to_string(), "Alice".to_string()) {
        CollaborationEvent::SessionLeft { session_id, display_name, .. } => {
            assert_eq!(session_id, "sess-1");
            assert_eq!(display_name, "Alice");
        }
        _ => panic!("wrong event"),
    }
    assert!(matches!(CollaborationEvent::loop_started(), CollaborationEvent::LoopStarted { .. }));
}

#[test]
fn proposal_to_action_review_claim() {
    let p = proposal(
        "review_claim",
        Some("claim-1"),
        "Evidence corroborates",
        vec![param("status", text("corroborated"))],
    );
    match proposal_to_action(&p).unwrap() {
        OperatorAction::ReviewClaim { claim_id, status, .. } => {
            assert_eq!(claim_id, "claim-1");
            assert_eq!(status, "corroborated");
        }
        _ => panic!("wrong action"),
    }
}

#[test]
fn proposal_to_action_open_case() {
    let p = proposal(
        "open_case",
        Some("ev-1"),
        "New investigation",
        vec![param("title", text("New Case")), param("watchlist_id", text("wl-1"))],
    );
    match proposal_to_action(&p).unwrap() {
        OperatorAction::OpenCase { evidence_id, title, watchlist_id, .. } => {
            assert_eq!(evidence_id, "ev-1");
            assert_eq!(title, "New Case");
            assert_eq!(watchlist_id, "wl-1");
        }
        _ => panic!("wrong action"),
    }
}

#[test]
fn allowed_actions_extracts_allowed() {
    let params = || vec![param("severity", text("low")), param("summary", text("ok"))];
    let response = OperatorProposalResponse {
        model: "test".to_string(),
        raw_response: "[]".to_string(),
        proposals: vec![proposal("log_analysis", None, "test", params())],
        decisions: vec![OperatorDecision {
            proposal: proposal("log_analysis", None, "test", params()),
            allowed: true,
            denial_reason: None,
            requires_confirmation: false,
        }],
        allowed_count: 1,
        denied_count: 0,
        timestamp: "2026-01-01T00:00:00Z".to_string(),
    };
    let actions = allowed_actions(&response);
    assert_eq!(actions.len(), 1);
    match &actions[0] {
        OperatorAction::LogAnalysis { severity, .. } => assert_eq!(severity, "low"),
        _ => panic!("wrong action"),
    }
}

#[test]
fn full_queue_with_resolved_front_expires_oldest_pending() {
    let mut queue = ConfirmationQueue::new(2);
    let first = queue.enqueue(request("a"));
    let second = queue.enqueue(request("b"));
    queue.confirm(&first, "s", "n").unwrap();
    let third = queue.enqueue(request("c"));
    assert_eq!(queue.len(), 2);
    assert!(queue.get(&second).is_none());
    assert_eq!(queue.get(&first).unwrap().status, ConfirmationStatus::Confirmed);
    let pending = queue.pending();
    assert_eq!(pending.len(), 1);
    assert_eq!(pending[0].id, third);
}

#[test]
fn completed_review_answers_each_proposal_in_order() {
    let proposals = vec![
        proposal("log_analysis", None, "one", vec![]),
        proposal("policy_simulation", None, "two", vec![]),
        proposal("escalate_case", Some("case-9"), "three", vec![]),
    ];
    let mut review = CycleReview::new(proposals, 3, OperatorActionScope::Intelligence);
    loop {
        match review.next_step() {
            ReviewStep::Done => break,
            ReviewStep::OutOfScope(_) => {}
            ReviewStep::NeedsGuard(_) => {
                review.record_verdict(GuardVerdict::Allow { requires_confirmation: true }).unwrap();
            }
        }
    }
    let response = review.finish("m".to_string(), "r".to_string(), "t".to_string());
    assert_eq!(response.decisions.len(), response.proposals.len());
    for (d, p) in response.decisions.iter().zip(response.proposals.iter()) {
        assert_eq!(d.proposal.rationale, p.rationale);
        assert!(!d.allowed);
    }
    let pending = response.decisions.iter().filter(|d| d.requires_confirmation).count();
    assert_eq!(pending, 2);
    assert_eq!(response.allowed_count + response.denied_count + pending, 3);
}
