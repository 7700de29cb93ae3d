use helix_verified::json_value::JsonValue;
use helix_verified::llm::LlmError;
use helix_verified::llm_factory::{
    check_uuid_parameter, deterministic_llm_agent_id, llm_agent_identity, llm_agent_role, parameter_string,
    parse_uuid_parameter, DEFAULT_LLM_PROFILE_ID,
};
use sha2::{Digest, Sha256};

fn params(members: Vec<(&str, JsonValue)>) -> Vec<(String, JsonValue)> {
    members.into_iter().map(|(k, v)| (k.to_string(), v)).collect()
}

fn text(s: &str) -> JsonValue {
    JsonValue::Str(s.to_string())
}

#[test]
fn role_defaults_to_source() {
    assert_eq!(llm_agent_role(&params(vec![])).unwrap(), "source");
}

#[test]
fn role_is_trimmed_and_lowercased() {
    let p = params(vec![("agent_type", text("  Transformer \n"))]);
    assert_eq!(llm_agent_role(&p).unwrap(), "transformer");
}

#[test]
fn role_prefers_agent_role_over_other_names() {
    let p = params(vec![("agent_kind", text("action")), ("agent_role", text("SOURCE"))]);
    assert_eq!(llm_agent_role(&p).unwrap(), "source");
    let p = params(vec![("agent_kind", text("action")), ("agent_type", text("transformer"))]);
    assert_eq!(llm_agent_role(&p).unwrap(), "transformer");
}

#[test]
fn unknown_role_fails_closed() {
    let p = params(vec![("agent_role", text("scheduler"))]);
    match llm_agent_role(&p) {
        Err(LlmError::ModelNotSupported(m)) => assert_eq!(m, "unsupported llm agent role: scheduler"),
        other => panic!("unknown role should fail closed: {:?}", other),
    }
}

#[test]
fn non_string_role_is_a_configuration_error() {
    let p = params(vec![("agent_role", JsonValue::Number(3))]);
    assert_eq!(
        llm_agent_role(&p),
        Err(LlmError::ConfigurationError("agent_role, agent_type, or agent_kind must be a string".to_string()))
    );
}

#[test]
fn parameter_string_kinds() {
    let p = params(vec![("a", text("x")), ("b", JsonValue::Bool(true))]);
    assert_eq!(parameter_string(&p, "a"), Ok(Some("x".to_string())));
    assert_eq!(parameter_string(&p, "missing"), Ok(None));
    assert_eq!(parameter_string(&p, "b"), Err(LlmError::ConfigurationError("b must be a string".to_string())));
}

#[test]
fn uuid_parameters() {
    let id = "  67e55044-10b1-426f-9247-bb680e5fe0c8 ";
    assert_eq!(parse_uuid_parameter("agent_id", id), Ok(0x67e5504410b1426f9247bb680e5fe0c8));
    assert_eq!(
        parse_uuid_parameter("agent_id", "00000000-0000-0000-0000-000000000000"),
        Err(LlmError::ConfigurationError("agent_id must not be nil".to_string()))
    );
    assert_eq!(
        parse_uuid_parameter("profile_id", "not-a-uuid"),
        Err(LlmError::ConfigurationError("profile_id must be a valid UUID".to_string()))
    );
    assert_eq!(check_uuid_parameter("x", Some(5)), Ok(5));
    assert!(check_uuid_parameter("x", None).is_err());
}

#[test]
fn default_profile_id_matches_its_text() {
    let parsed = uuid::Uuid::parse_str("50000000-0000-0000-0000-000000000010").unwrap();
    assert_eq!(parsed.as_u128(), DEFAULT_LLM_PROFILE_ID);
}

#[test]
fn derived_agent_id_is_versioned_sha256_prefix() {
    let mut hasher = Sha256::new();
    hasher.update(b"echo");
    hasher.update(b"echo-model");
    hasher.update(b"You are a helpful assistant");
    hasher.update(b"source");
    let digest = hasher.finalize();
    let mut bytes = [0u8; 16];
    bytes.copy_from_slice(&digest[..16]);
    bytes[6] = (bytes[6] & 0x0f) | 0x50;
    bytes[8] = (bytes[8] & 0x3f) | 0x80;
    let expected = uuid::Uuid::from_bytes(bytes).as_u128();
    let id = deterministic_llm_agent_id("echo", "echo-model", "You are a helpful assistant", "source");
    assert_eq!(id, expected);
    assert_eq!(uuid::Uuid::from_u128(id).get_version_num(), 5);
    assert_ne!(id, deterministic_llm_agent_id("echo", "echo-model", "You are a helpful assistant", "action"));
}

#[test]
fn identity_of_named_source_agent() {
    let p = params(vec![("agent_role", text("source")), ("agent_name", text("Echo source"))]);
    let identity = llm_agent_identity("echo", "echo-model", "prompt", &p).unwrap();
    assert_eq!(identity.role, "source");
    assert_eq!(identity.agent_kind, "llm_source");
    assert_eq!(identity.name.as_deref(), Some("Echo source"));
    assert_eq!(identity.profile_id, DEFAULT_LLM_PROFILE_ID);
    assert_eq!(identity.agent_id, deterministic_llm_agent_id("echo", "echo-model", "prompt", "source"));
}

#[test]
fn identity_uses_given_ids() {
    let p = params(vec![
        ("agent_id", text("67e55044-10b1-426f-9247-bb680e5fe0c8")),
        ("profile_id", text("00000000-0000-0000-0000-000000000001")),
    ]);
    let identity = llm_agent_identity("echo", "m", "p", &p).unwrap();
    assert_eq!(identity.agent_id, 0x67e5504410b1426f9247bb680e5fe0c8);
    assert_eq!(identity.profile_id, 1);
    assert!(identity.name.is_none());
}

#[test]
fn identity_errors_in_order() {
    let p = params(vec![("agent_role", text("scheduler")), ("agent_id", JsonValue::Null)]);
    assert!(matches!(llm_agent_identity("e", "m", "p", &p), Err(LlmError::ModelNotSupported(_))));
    let p = params(vec![("agent_id", JsonValue::Null), ("profile_id", text("bad"))]);
    assert_eq!(
        llm_agent_identity("e", "m", "p", &p),
        Err(LlmError::ConfigurationError("agent_id must be a string".to_string()))
    );
    let p = params(vec![("profile_id", text("bad"))]);
    assert_eq!(
        llm_agent_identity("e", "m", "p", &p),
        Err(LlmError::ConfigurationError("profile_id must be a valid UUID".to_string()))
    );
    let p = params(vec![("agent_name", JsonValue::Number(1))]);
    assert_eq!(
        llm_agent_identity("e", "m", "p", &p),
        Err(LlmError::ConfigurationError("agent_name must be a string".to_string()))
    );
}
