use helix_verified::llm::LlmError;
use helix_verified::llm_agents::{
    action_prompt, emits_generated_event, event_analysis_prompt, event_analysis_refusal, recipe_synthesis_unsupported,
    transform_prompt, LlmAgentRole, ACTION_SYSTEM_PROMPT, GENERATED_EVENT_TYPE, TRANSFORMER_SYSTEM_PROMPT,
};

#[test]
fn prompts_embed_instructions_and_event() {
    assert_eq!(
        transform_prompt("uppercase names", "{\"a\":1}"),
        "Transform this event according to the instructions: uppercase names\n\nEvent: {\"a\":1}"
    );
    assert_eq!(
        action_prompt("notify", "{}"),
        "Execute an action based on this event: notify\n\nEvent: {}"
    );
    assert_eq!(
        event_analysis_prompt("{}"),
        "Analyze this event and suggest appropriate actions:\n\n{}"
    );
}

#[test]
fn fixed_texts() {
    assert_eq!(TRANSFORMER_SYSTEM_PROMPT, "You are an event transformer. Return transformed events as JSON.");
    assert_eq!(ACTION_SYSTEM_PROMPT, "You are an action executor. Determine and describe the action to take.");
    assert_eq!(GENERATED_EVENT_TYPE, "llm.generated");
}

#[test]
fn only_non_empty_replies_are_emitted() {
    assert!(emits_generated_event("hello"));
    assert!(!emits_generated_event(""));
}

#[test]
fn role_refusals() {
    assert_eq!(event_analysis_refusal(LlmAgentRole::Source), None);
    assert_eq!(
        event_analysis_refusal(LlmAgentRole::Action),
        Some(LlmError::ModelNotSupported("event analysis".to_string()))
    );
    assert_eq!(
        recipe_synthesis_unsupported(LlmAgentRole::Transformer),
        LlmError::ModelNotSupported("recipe synthesis".to_string())
    );
}
