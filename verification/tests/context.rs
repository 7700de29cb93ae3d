use helix_verified::conversation::{AgentContext, ConversationContext, ToolDefinition};
use helix_verified::llm::ContextMessageRole;

fn tool(name: &str, enabled: bool) -> ToolDefinition {
    ToolDefinition {
        name: name.to_string(),
        description: format!("{} tool", name),
        input_schema: "{}".to_string(),
        output_schema: "{}".to_string(),
        enabled,
    }
}

#[test]
fn test_agent_context_creation() {
    let agent_id = uuid::Uuid::new_v4().as_u128();
    let profile_id = uuid::Uuid::new_v4().as_u128();
    let context: AgentContext<String> = AgentContext::new(agent_id, profile_id);

    assert_eq!(context.agent_id, agent_id);
    assert_eq!(context.profile_id, profile_id);
    assert!(context.recent_events.is_empty());
    assert!(context.state.is_empty());
}

#[test]
fn test_conversation_context() {
    let mut conv = ConversationContext::new();

    let msg_id = conv.add_message(ContextMessageRole::User, "Hello".to_string());
    assert!(!msg_id.is_empty());
    assert_eq!(conv.messages.len(), 1);
    assert!(conv.token_count > 0);
}

#[test]
fn test_conversation_trimming() {
    let mut conv = ConversationContext::new();
    conv.max_messages = 3;

    for i in 0..5 {
        conv.add_message(ContextMessageRole::User, format!("Message {}", i));
    }

    assert_eq!(conv.messages.len(), 3);
    assert_eq!(conv.messages[0].content, "Message 2");
    assert_eq!(conv.messages[2].content, "Message 4");
}

#[test]
fn conversation_token_count_follows_trimmed_messages() {
    let mut conv = ConversationContext::new();
    conv.max_messages = 2;
    conv.add_message(ContextMessageRole::User, "12345678".to_string());
    conv.add_message(ContextMessageRole::Assistant, "1234".to_string());
    assert_eq!(conv.token_count, 3);
    conv.add_message(ContextMessageRole::User, "123456789".to_string());
    assert_eq!(conv.messages.len(), 2);
    assert_eq!(conv.token_count, 1 + 3);
}

#[test]
fn conversation_message_id_matches_stored_message() {
    let mut conv = ConversationContext::new();
    let id = conv.add_message(ContextMessageRole::System, "rules".to_string());
    assert_eq!(conv.messages[0].id, id);
    assert_eq!(conv.messages[0].token_count, 2);
}

#[test]
fn conversation_recent_and_clear() {
    let mut conv = ConversationContext::default();
    for i in 0..4 {
        conv.add_message(ContextMessageRole::User, format!("m{}", i));
    }
    let recent = conv.get_recent_messages(2);
    assert_eq!(recent.len(), 2);
    assert_eq!(recent[0].content, "m2");
    assert_eq!(conv.get_recent_messages(10).len(), 4);
    conv.clear();
    assert!(conv.messages.is_empty());
    assert_eq!(conv.token_count, 0);
}

#[test]
fn conversation_summary_lines() {
    let mut conv = ConversationContext::new();
    assert_eq!(conv.get_summary(), "No conversation history");
    conv.add_message(ContextMessageRole::User, "Hi".to_string());
    conv.add_message(ContextMessageRole::Assistant, "a".repeat(120));
    let expected = format!("User: Hi\nAssistant: {}...\n", "a".repeat(100));
    assert_eq!(conv.get_summary(), expected);
}

#[test]
fn conversation_summary_keeps_last_five() {
    let mut conv = ConversationContext::new();
    for i in 0..7 {
        conv.add_message(ContextMessageRole::Tool, format!("{}", i));
    }
    assert_eq!(conv.get_summary(), "Tool: 2\nTool: 3\nTool: 4\nTool: 5\nTool: 6\n");
}

#[test]
fn agent_context_keeps_last_ten_events() {
    let mut ctx: AgentContext<u32> = AgentContext::new(1, 2);
    for i in 0..12u32 {
        ctx.add_event(i);
    }
    assert_eq!(ctx.recent_events.len(), 10);
    assert_eq!(ctx.recent_events[0], 2);
    assert_eq!(ctx.recent_events[9], 11);
}

#[test]
fn agent_state_read_after_write() {
    let mut ctx: AgentContext<u32> = AgentContext::new(1, 2);
    assert!(ctx.get_state("mode").is_none());
    ctx.update_state("mode".to_string(), "\"fast\"".to_string());
    ctx.update_state("level".to_string(), "3".to_string());
    ctx.update_state("mode".to_string(), "\"slow\"".to_string());
    assert_eq!(ctx.get_state("mode").map(|s| s.as_str()), Some("\"slow\""));
    assert_eq!(ctx.get_state("level").map(|s| s.as_str()), Some("3"));
    assert_eq!(ctx.state.len(), 2);
}

#[test]
fn agent_enabled_tools_in_order() {
    let mut ctx: AgentContext<u32> = AgentContext::new(1, 2);
    ctx.add_tool(tool("search", true));
    ctx.add_tool(tool("delete", false));
    ctx.add_tool(tool("fetch", true));
    let enabled = ctx.get_enabled_tools();
    assert_eq!(enabled.len(), 2);
    assert_eq!(enabled[0].name, "search");
    assert_eq!(enabled[1].name, "fetch");
}
