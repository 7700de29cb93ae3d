//! What the LLM-backed agents ask of their model and what each role
//! supports: the prompts they send, whether a generated reply becomes an
//! event, and the operations a role refuses.

use vstd::prelude::*;
use crate::llm::LlmError;
use crate::text::push_str;

verus! {

/// The system prompt of a transformer agent.
pub const TRANSFORMER_SYSTEM_PROMPT: &'static str = "You are an event transformer. Return transformed events as JSON.";

/// The system prompt of an action agent.
pub const ACTION_SYSTEM_PROMPT: &'static str = "You are an action executor. Determine and describe the action to take.";

/// The event type of a source agent's generated reply.
pub const GENERATED_EVENT_TYPE: &'static str = "llm.generated";

/// The roles of LLM agents.
#[derive(Debug, Clone, Copy, PartialEq, Eq, Structural)]
pub enum LlmAgentRole {
    Source,
    Transformer,
    Action,
}

/// The prompt asking a model to analyse an event, given the event's JSON.
pub fn event_analysis_prompt(event_json: &str) -> (s: String)
    ensures
        s@ == "Analyze this event and suggest appropriate actions:\n\n"@ + event_json@,
{
    let mut s = String::from_str("Analyze this event and suggest appropriate actions:\n\n");
    push_str(&mut s, event_json);
    s
}

/// The prompt asking a model to transform an event by the agent's
/// instructions.
pub fn transform_prompt(instructions: &str, event_json: &str) -> (s: String)
    ensures
        s@ == "Transform this event according to the instructions: "@ + instructions@ + "\n\nEvent: "@ + event_json@,
{
    let mut s = String::from_str("Transform this event according to the instructions: ");
    push_str(&mut s, instructions);
    push_str(&mut s, "\n\nEvent: ");
    push_str(&mut s, event_json);
    s
}

/// The prompt asking a model which action an event calls for.
pub fn action_prompt(instructions: &str, event_json: &str) -> (s: String)
    ensures
        s@ == "Execute an action based on this event: "@ + instructions@ + "\n\nEvent: "@ + event_json@,
{
    let mut s = String::from_str("Execute an action based on this event: ");
    push_str(&mut s, instructions);
    push_str(&mut s, "\n\nEvent: ");
    push_str(&mut s, event_json);
    s
}

/// Whether a source agent's reply becomes an event: when it is not empty.
pub fn emits_generated_event(content: &str) -> (b: bool)
    ensures
        b == (content@.len() > 0),
{
    content.unicode_len() > 0
}

/// Whether the role analyses events (only sources do).
pub open spec fn analyses_events(role: LlmAgentRole) -> bool {
    role is Source
}

/// The refusal of recipe synthesis, which no role offers.
pub fn recipe_synthesis_unsupported(role: LlmAgentRole) -> (e: LlmError)
    ensures
        e matches LlmError::ModelNotSupported(m) && m@ == "recipe synthesis"@,
{
    LlmError::ModelNotSupported(String::from_str("recipe synthesis"))
}

/// The refusal of event analysis by the roles that do not offer it; `None`
/// for a source, which analyses events through its model.
pub fn event_analysis_refusal(role: LlmAgentRole) -> (r: Option<LlmError>)
    ensures
        analyses_events(role) <==> r is None,
        r matches Some(e) ==> (e matches LlmError::ModelNotSupported(m) && m@ == "event analysis"@),
{
    match role {
        LlmAgentRole::Source => None,
        _ => Some(LlmError::ModelNotSupported(String::from_str("event analysis"))),
    }
}

} // verus!
