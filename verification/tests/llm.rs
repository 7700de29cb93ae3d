use helix_verified::llm::{count_tokens, estimate_token_count, truncate_to_tokens};
use helix_verified::llm::{Message, MessageRole};
use helix_verified::openai_chat::chat_messages;
use helix_verified::llm::FinishReason;
use helix_verified::openai_chat::map_finish_reason;
use helix_verified::openai_chat::{chat_completions_url, provider_name};
use helix_verified::embedding_errors::EmbeddingError;

#[test]
fn test_token_estimation() {
    assert_eq!(estimate_token_count("hello"), 2);
    assert_eq!(estimate_token_count("hello world"), 3);
    assert_eq!(estimate_token_count(""), 0);
    assert_eq!(estimate_token_count("a"), 1);
}

#[test]
fn token_count_is_one_per_started_four_bytes() {
    assert_eq!(count_tokens("abcd", "gpt-4").unwrap(), 1);
    assert_eq!(count_tokens("abcde", "gpt-4").unwrap(), 2);
    assert_eq!(estimate_token_count("é"), 1);
}

#[test]
fn truncation_keeps_short_texts_whole() {
    assert_eq!(truncate_to_tokens("hello", "m", 10).unwrap(), "hello");
}

#[test]
fn truncation_cuts_long_texts() {
    let text = "abcdefghijklmnopqrstuvwx";
    let cut = truncate_to_tokens(text, "m", 2).unwrap();
    assert_eq!(cut, "abcdefgh");
}

#[test]
fn chat_messages_put_the_system_prompt_first() {
    let messages = vec![
        Message { role: MessageRole::User, content: "hi".to_string(), function_call: None },
        Message { role: MessageRole::Assistant, content: "hello".to_string(), function_call: None },
    ];
    let with = chat_messages(&Some("be brief".to_string()), &messages);
    assert_eq!(
        with,
        vec![
            ("system".to_string(), "be brief".to_string()),
            ("user".to_string(), "hi".to_string()),
            ("assistant".to_string(), "hello".to_string()),
        ]
    );
    let without = chat_messages(&None, &messages);
    assert_eq!(without.len(), 2);
    assert_eq!(without[0].0, "user");
}

#[test]
fn finish_reasons_read_back() {
    assert_eq!(map_finish_reason(None), FinishReason::Stop);
    assert_eq!(map_finish_reason(Some("stop")), FinishReason::Stop);
    assert_eq!(map_finish_reason(Some("length")), FinishReason::Length);
    assert_eq!(map_finish_reason(Some("function_call")), FinishReason::FunctionCall);
    assert_eq!(map_finish_reason(Some("content_filter")), FinishReason::ContentFilter);
    assert_eq!(map_finish_reason(Some("weird")), FinishReason::Error);
}

#[test]
fn provider_name_and_endpoint() {
    assert_eq!(provider_name("https://openrouter.ai/api/v1"), "openrouter");
    assert_eq!(provider_name("https://api.openai.com/v1"), "openai");
    assert_eq!(chat_completions_url("https://api.openai.com/v1"), "https://api.openai.com/v1/chat/completions");
}

#[test]
fn embedding_errors_render_their_messages() {
    assert_eq!(
        EmbeddingError::InvalidDimensions { expected: 384, actual: 12 }.to_string(),
        "Invalid dimensions: expected 384, got 12"
    );
    assert_eq!(EmbeddingError::ModelNotFound("m".to_string()).to_string(), "Model not found: m");
}

#[test]
fn extract_structured_data_reads_group_one_of_each_pattern() {
    let patterns = vec![
        ("name".to_string(), r"name:\s*(\w+)".to_string()),
        ("age".to_string(), r"age=(\d+)".to_string()),
        ("missing".to_string(), r"zzz(\d)".to_string()),
        ("broken".to_string(), r"(".to_string()),
        ("whole".to_string(), r"Alice".to_string()),
    ];
    let got = helix_verified::llm::extract_structured_data("name: Alice, age=30; age=41", &patterns);
    assert_eq!(got, vec![("name".to_string(), "Alice".to_string()), ("age".to_string(), "30".to_string())]);
    assert!(helix_verified::llm::extract_structured_data("nothing here", &patterns).is_empty());
}

#[test]
fn truncated_text_fits_its_budget() {
    let text = "a".repeat(40);
    let cut = helix_verified::llm::truncate_to_tokens(&text, "m", 3).unwrap();
    assert_eq!(cut.len(), 12);
    assert!(helix_verified::llm::count_tokens(&cut, "m").unwrap() <= 3);
    let text = "b".repeat(41);
    let cut = helix_verified::llm::truncate_to_tokens(&text, "m", 5).unwrap();
    assert_eq!(cut.len(), 15);
    assert!(cut.len() < text.len());
    assert!(helix_verified::llm::count_tokens(&cut, "m").unwrap() <= 5);
}
