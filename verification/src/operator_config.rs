//! Desk operator configuration: the rules the operator loop enforces.

use vstd::prelude::*;
use vstd::utf8::encode_utf8;
use crate::text::{decimal, decimal_string, push_str, trim, trim_str};

verus! {

/// How far the autopilot may act.
#[derive(Debug, Clone, Copy, PartialEq, Eq, Structural)]
pub enum AutopilotMode {
    /// Observe only; every action is denied.
    Off,
    /// Proposals wait for human confirmation.
    Assist,
    /// Proposals run automatically within guardrails.
    Auto,
}

/// Failures of the desk operator.
#[derive(Debug, Clone, PartialEq, Eq)]
pub enum OperatorError {
    /// The LLM provider is not configured.
    LlmNotConfigured,
    /// The LLM returned an error.
    LlmError(String),
    /// The LLM response could not be parsed into proposals.
    ParseError(String),
    /// The operator is not running.
    NotRunning,
    /// The operator is already running.
    AlreadyRunning,
    /// The guard denied all proposed actions.
    AllDenied(usize),
    /// Configuration validation failed.
    ConfigValidation(String),
    /// Serialization error.
    Serialization(String),
}

/// Minimum loop interval in seconds.
pub const MIN_LOOP_INTERVAL_SECS: u64 = 5;
/// Maximum loop interval in seconds.
pub const MAX_LOOP_INTERVAL_SECS: u64 = 3600;
/// Maximum actions proposed per loop cycle.
pub const MAX_ACTIONS_PER_CYCLE: usize = 10;
/// Maximum context items in the prompt.
pub const MAX_CONTEXT_ITEMS: usize = 20;
/// Maximum length of the rules text, in bytes.
pub const MAX_RULES_TEXT_LEN: usize = 4096;

/// The actions the operator may propose.
#[derive(Debug, Clone, Copy, PartialEq, Eq, Structural)]
pub enum OperatorActionScope {
    /// Observe and log only.
    ObserveOnly,
    /// Intelligence actions.
    Intelligence,
    /// Intelligence actions and policy simulations.
    Policy,
    /// Every action type.
    Full,
}

impl Default for OperatorActionScope {
    fn default() -> (s: Self)
        ensures
            s == OperatorActionScope::Intelligence,
    {
        OperatorActionScope::Intelligence
    }
}

/// The intelligence action types.
pub open spec fn intelligence_action(a: Seq<char>) -> bool {
    a == "ingest_evidence"@ || a == "review_claim"@ || a == "escalate_case"@ || a == "open_case"@
        || a == "federation_broadcast"@ || a == "log_analysis"@
}

/// Whether `scope` permits action type `a`.
pub open spec fn permits_spec(scope: OperatorActionScope, a: Seq<char>) -> bool {
    match scope {
        OperatorActionScope::ObserveOnly => false,
        OperatorActionScope::Intelligence => intelligence_action(a),
        OperatorActionScope::Policy => intelligence_action(a) || a == "policy_simulation"@,
        OperatorActionScope::Full => true,
    }
}

fn is_intelligence_action(a: &str) -> (b: bool)
    ensures
        b == intelligence_action(a@),
{
    crate::symbolic_program::str_eq(a, "ingest_evidence") || crate::symbolic_program::str_eq(a, "review_claim")
        || crate::symbolic_program::str_eq(a, "escalate_case") || crate::symbolic_program::str_eq(a, "open_case")
        || crate::symbolic_program::str_eq(a, "federation_broadcast") || crate::symbolic_program::str_eq(a, "log_analysis")
}

impl OperatorActionScope {
    /// Whether this scope permits the given action type.
    pub fn permits(&self, action_type: &str) -> (b: bool)
        ensures
            b == permits_spec(*self, action_type@),
    {
        match self {
            OperatorActionScope::ObserveOnly => false,
            OperatorActionScope::Intelligence => is_intelligence_action(action_type),
            OperatorActionScope::Policy => is_intelligence_action(action_type) || crate::symbolic_program::str_eq(
                action_type,
                "policy_simulation",
            ),
            OperatorActionScope::Full => true,
        }
    }
}

/// The run state of the operator loop.
#[derive(Debug, Clone, Copy, PartialEq, Eq, Structural)]
pub enum OperatorStatus {
    /// Stopped.
    Stopped,
    /// Running its observe-think-act loop.
    Running,
    /// Paused.
    Paused,
}

impl Default for OperatorStatus {
    fn default() -> (s: Self)
        ensures
            s == OperatorStatus::Stopped,
    {
        OperatorStatus::Stopped
    }
}

/// The user's rules for the desk operator.
#[derive(Debug, Clone)]
pub struct DeskOperatorConfig {
    /// Whether the loop is enabled.
    pub enabled: bool,
    /// The autopilot mode.
    pub autopilot_mode: AutopilotMode,
    /// The actions the operator may propose.
    pub action_scope: OperatorActionScope,
    /// Loop interval in seconds.
    pub loop_interval_secs: u64,
    /// Maximum actions per cycle.
    pub max_actions_per_cycle: usize,
    /// Maximum context items in the prompt.
    pub max_context_items: usize,
    /// The LLM model.
    pub model: String,
    /// The user's rules, in natural language.
    pub rules_text: String,
    /// Whether decisions go to federation peers.
    pub dispatch_to_peers: bool,
    /// Whether denied proposals are logged.
    pub log_denied_proposals: bool,
}

impl Default for DeskOperatorConfig {
    fn default() -> (c: Self)
        ensures
            !c.enabled,
            c.autopilot_mode == AutopilotMode::Assist,
            c.action_scope == OperatorActionScope::Intelligence,
            c.loop_interval_secs == 60,
            c.max_actions_per_cycle == 3,
            c.max_context_items == 10,
            c.model@ == "gpt-4o-mini"@,
            c.rules_text@ == Seq::<char>::empty(),
            !c.dispatch_to_peers,
            c.log_denied_proposals,
    {
        DeskOperatorConfig {
            enabled: false,
            autopilot_mode: AutopilotMode::Assist,
            action_scope: OperatorActionScope::Intelligence,
            loop_interval_secs: 60,
            max_actions_per_cycle: 3,
            max_context_items: 10,
            model: String::from_str("gpt-4o-mini"),
            rules_text: String::new(),
            dispatch_to_peers: false,
            log_denied_proposals: true,
        }
    }
}

/// The first rule a configuration breaks, or none.
pub open spec fn config_fault(c: DeskOperatorConfig) -> Option<Seq<char>> {
    if c.loop_interval_secs < 5 || c.loop_interval_secs > 3600 {
        Some("loop_interval_secs must be between 5 and 3600"@)
    } else if c.max_actions_per_cycle == 0 || c.max_actions_per_cycle > 10 {
        Some("max_actions_per_cycle must be between 1 and 10"@)
    } else if c.max_context_items == 0 || c.max_context_items > 20 {
        Some("max_context_items must be between 1 and 20"@)
    } else if encode_utf8(c.rules_text@).len() > 4096 {
        Some("rules_text must be at most 4096 characters"@)
    } else if trim(c.model@).len() == 0 {
        Some("model must not be empty"@)
    } else {
        None
    }
}

/// What the operating mode tells the model.
pub open spec fn mode_text(m: AutopilotMode) -> Seq<char> {
    match m {
        AutopilotMode::Off => "Autopilot is OFF. You can observe but all actions will be denied."@,
        AutopilotMode::Assist => "Autopilot is in ASSIST mode. Your proposals will be presented for human confirmation."@,
        AutopilotMode::Auto => "Autopilot is in AUTO mode. Your proposals will be executed automatically within guardrails."@,
    }
}

/// What the action scope tells the model.
pub open spec fn scope_text(s: OperatorActionScope) -> Seq<char> {
    match s {
        OperatorActionScope::ObserveOnly => "You may only observe and log analysis. You cannot propose actions."@,
        OperatorActionScope::Intelligence => "You may propose: ingest_evidence, review_claim, escalate_case, open_case, federation_broadcast, log_analysis."@,
        OperatorActionScope::Policy => "You may propose intelligence actions plus policy_simulation."@,
        OperatorActionScope::Full => "You may propose any action type. On-chain actions still require guard confirmation."@,
    }
}

/// The prompt text before the mode.
pub open spec fn prompt_intro() -> Seq<char> {
    "You are a Helix Intelligence Desk Operator.\nYou operate an intelligence desk autonomously, observing the desk state\nand proposing actions based on the rules below.\n\n## Operating Mode\n"@
}

/// The prompt text between the mode and the scope.
pub open spec fn prompt_scope_head() -> Seq<char> {
    "\n\n## Action Scope\n"@
}

/// The prompt text between the scope and the action bound.
pub open spec fn prompt_constraints_head() -> Seq<char> {
    "\n\n## Constraints\n- You may propose at most "@
}

/// The prompt text between the action bound and the rules.
pub open spec fn prompt_body() -> Seq<char> {
    " actions per cycle.\n- Every proposal is checked by a deterministic guard before execution.\n- The guard can deny any proposal. Denied proposals are logged.\n- You never bypass the guard. You propose; the guard decides.\n\n## Output Format\nReturn ONLY a JSON array of action objects. No prose. No markdown.\nEach action object has:\n  {\"type\": \"<action_type>\", \"target_id\": \"<optional id>\", \"rationale\": \"<why>\", \"parameters\": {...}}\n\nAction types:\n- log_analysis: {\"type\": \"log_analysis\", \"rationale\": \"<your analysis>\", \"parameters\": {\"severity\": \"low|medium|high|critical\", \"summary\": \"<summary>\"}}\n- escalate_case: {\"type\": \"escalate_case\", \"target_id\": \"<case_id>\", \"rationale\": \"<why>\"}\n- open_case: {\"type\": \"open_case\", \"target_id\": \"<evidence_id>\", \"rationale\": \"<why>\", \"parameters\": {\"title\": \"<title>\", \"watchlist_id\": \"<id>\"}}\n- review_claim: {\"type\": \"review_claim\", \"target_id\": \"<claim_id>\", \"rationale\": \"<why>\", \"parameters\": {\"status\": \"corroborated|rejected\"}}\n- federation_broadcast: {\"type\": \"federation_broadcast\", \"rationale\": \"<why>\", \"parameters\": {\"title\": \"<title>\", \"summary\": \"<summary>\", \"content\": \"<content>\"}}\n- policy_simulation: {\"type\": \"policy_simulation\", \"rationale\": \"<why>\", \"parameters\": {\"commands\": [<policy_command>]}}\n\n## User-Defined Rules\n"@
}

/// The rules shown to the model: the user's, or a default when blank.
pub open spec fn rules_shown(rules: Seq<char>) -> Seq<char> {
    if trim(rules).len() == 0 {
        "(none — use your best judgment)"@
    } else {
        rules
    }
}

/// The system prompt of a configuration.
pub open spec fn system_prompt_spec(c: DeskOperatorConfig) -> Seq<char> {
    prompt_intro() + mode_text(c.autopilot_mode) + prompt_scope_head() + scope_text(c.action_scope)
        + prompt_constraints_head() + decimal(c.max_actions_per_cycle as nat) + prompt_body()
        + rules_shown(c.rules_text@) + "\n"@
}

impl DeskOperatorConfig {
    /// Checks the configuration's bounds, in order: loop interval, actions per
    /// cycle, context items, rules length, model.
    pub fn validate(&self) -> (r: Result<(), OperatorError>)
        ensures
            match config_fault(*self) {
                Some(m) => r matches Err(e) && (e matches OperatorError::ConfigValidation(s) && s@ == m),
                None => r is Ok,
            },
    {
        if self.loop_interval_secs < MIN_LOOP_INTERVAL_SECS || self.loop_interval_secs > MAX_LOOP_INTERVAL_SECS {
            return Err(OperatorError::ConfigValidation(String::from_str("loop_interval_secs must be between 5 and 3600")));
        }
        if self.max_actions_per_cycle == 0 || self.max_actions_per_cycle > MAX_ACTIONS_PER_CYCLE {
            return Err(OperatorError::ConfigValidation(String::from_str("max_actions_per_cycle must be between 1 and 10")));
        }
        if self.max_context_items == 0 || self.max_context_items > MAX_CONTEXT_ITEMS {
            return Err(OperatorError::ConfigValidation(String::from_str("max_context_items must be between 1 and 20")));
        }
        if self.rules_text.as_str().as_bytes().len() > MAX_RULES_TEXT_LEN {
            return Err(OperatorError::ConfigValidation(String::from_str("rules_text must be at most 4096 characters")));
        }
        let m = trim_str(self.model.as_str());
        if m.as_str().unicode_len() == 0 {
            return Err(OperatorError::ConfigValidation(String::from_str("model must not be empty")));
        }
        Ok(())
    }

    /// Builds the system prompt: mode, scope, action bound, output format and
    /// the user's rules (a default line when they are blank).
    pub fn system_prompt(&self) -> (s: String)
        ensures
            s@ == system_prompt_spec(*self),
    {
        let mode = match self.autopilot_mode {
            AutopilotMode::Off => "Autopilot is OFF. You can observe but all actions will be denied.",
            AutopilotMode::Assist => "Autopilot is in ASSIST mode. Your proposals will be presented for human confirmation.",
            AutopilotMode::Auto => "Autopilot is in AUTO mode. Your proposals will be executed automatically within guardrails.",
        };
        let scope = match self.action_scope {
            OperatorActionScope::ObserveOnly => "You may only observe and log analysis. You cannot propose actions.",
            OperatorActionScope::Intelligence => "You may propose: ingest_evidence, review_claim, escalate_case, open_case, federation_broadcast, log_analysis.",
            OperatorActionScope::Policy => "You may propose intelligence actions plus policy_simulation.",
            OperatorActionScope::Full => "You may propose any action type. On-chain actions still require guard confirmation.",
        };
        let mut s = String::from_str(
            "You are a Helix Intelligence Desk Operator.\nYou operate an intelligence desk autonomously, observing the desk state\nand proposing actions based on the rules below.\n\n## Operating Mode\n",
        );
        push_str(&mut s, mode);
        push_str(&mut s, "\n\n## Action Scope\n");
        push_str(&mut s, scope);
        push_str(&mut s, "\n\n## Constraints\n- You may propose at most ");
        let n = decimal_string(self.max_actions_per_cycle);
        push_str(&mut s, n.as_str());
        push_str(
            &mut s,
            " actions per cycle.\n- Every proposal is checked by a deterministic guard before execution.\n- The guard can deny any proposal. Denied proposals are logged.\n- You never bypass the guard. You propose; the guard decides.\n\n## Output Format\nReturn ONLY a JSON array of action objects. No prose. No markdown.\nEach action object has:\n  {\"type\": \"<action_type>\", \"target_id\": \"<optional id>\", \"rationale\": \"<why>\", \"parameters\": {...}}\n\nAction types:\n- log_analysis: {\"type\": \"log_analysis\", \"rationale\": \"<your analysis>\", \"parameters\": {\"severity\": \"low|medium|high|critical\", \"summary\": \"<summary>\"}}\n- escalate_case: {\"type\": \"escalate_case\", \"target_id\": \"<case_id>\", \"rationale\": \"<why>\"}\n- open_case: {\"type\": \"open_case\", \"target_id\": \"<evidence_id>\", \"rationale\": \"<why>\", \"parameters\": {\"title\": \"<title>\", \"watchlist_id\": \"<id>\"}}\n- review_claim: {\"type\": \"review_claim\", \"target_id\": \"<claim_id>\", \"rationale\": \"<why>\", \"parameters\": {\"status\": \"corroborated|rejected\"}}\n- federation_broadcast: {\"type\": \"federation_broadcast\", \"rationale\": \"<why>\", \"parameters\": {\"title\": \"<title>\", \"summary\": \"<summary>\", \"content\": \"<content>\"}}\n- policy_simulation: {\"type\": \"policy_simulation\", \"rationale\": \"<why>\", \"parameters\": {\"commands\": [<policy_command>]}}\n\n## User-Defined Rules\n",
        );
        let t = trim_str(self.rules_text.as_str());
        if t.as_str().unicode_len() == 0 {
            push_str(&mut s, "(none — use your best judgment)");
        } else {
            push_str(&mut s, self.rules_text.as_str());
        }
        push_str(&mut s, "\n");
        s
    }
}

/// The intelligence scope permits exactly the intelligence action types:
/// evidence ingestion, claim review, case escalation, case opening,
/// federation broadcast and log analysis.
pub proof fn law_intelligence_scope_actions(a: Seq<char>)
    ensures
        permits_spec(OperatorActionScope::Intelligence, a) <==> (a == "ingest_evidence"@ || a == "review_claim"@
            || a == "escalate_case"@ || a == "open_case"@ || a == "federation_broadcast"@ || a == "log_analysis"@),
{
}

/// The scopes widen in order: observe-only permits nothing; the policy scope
/// permits the intelligence actions and policy simulation and nothing else;
/// the full scope permits everything.
pub proof fn law_scopes_widen(a: Seq<char>)
    ensures
        !permits_spec(OperatorActionScope::ObserveOnly, a),
        permits_spec(OperatorActionScope::Policy, a) <==> (permits_spec(OperatorActionScope::Intelligence, a)
            || a == "policy_simulation"@),
        permits_spec(OperatorActionScope::Full, a),
{
}

} // verus!
