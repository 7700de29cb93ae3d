use chrono::{DateTime, Utc};
use helix_verified::errors::HelixError;
use helix_verified::json_value::JsonValue;
use helix_verified::state_store::{InMemoryStateStore, StoredState};

fn new_id() -> u128 {
    uuid::Uuid::new_v4().as_u128()
}

fn s(text: &str) -> JsonValue {
    JsonValue::Str(text.to_string())
}

fn n(v: i64) -> JsonValue {
    JsonValue::Number(v)
}

fn obj(members: Vec<(&str, JsonValue)>) -> JsonValue {
    JsonValue::Object(members.into_iter().map(|(k, v)| (k.to_string(), v)).collect())
}

fn member<'a>(v: &'a JsonValue, name: &str) -> Option<&'a JsonValue> {
    match v {
        JsonValue::Object(m) => m.iter().find(|(k, _)| k == name).map(|(_, x)| x),
        _ => None,
    }
}

fn parse(t: &str) -> DateTime<Utc> {
    DateTime::parse_from_rfc3339(t).unwrap().with_timezone(&Utc)
}

fn pause_ms(ms: i64) {
    let start = Utc::now();
    while Utc::now() - start < chrono::Duration::milliseconds(ms) {}
}

#[test]
fn test_stored_state_creation() {
    let profile_id = new_id();
    let agent_id = new_id();
    let state = StoredState::new(profile_id, agent_id, obj(vec![("key", s("value"))]));

    assert_eq!(state.profile_id, profile_id);
    assert_eq!(state.agent_id, agent_id);
    assert_eq!(state.data, obj(vec![("key", s("value"))]));
    assert!(parse(&state.created_at) <= parse(&state.updated_at));
}

#[test]
fn test_stored_state_update_data() {
    let mut state = StoredState::new(new_id(), new_id(), obj(vec![("counter", n(1))]));
    let original_updated = parse(&state.updated_at);
    pause_ms(1);
    state.update_data(obj(vec![("counter", n(2))]));
    assert_eq!(state.data, obj(vec![("counter", n(2))]));
    assert!(parse(&state.updated_at) > original_updated);
}

#[test]
fn test_stored_state_age_and_older_than() {
    let mut state = StoredState::new(new_id(), new_id(), obj(vec![]));
    state.updated_at = (Utc::now() - chrono::Duration::seconds(10)).to_rfc3339();

    assert!(state.age_seconds().unwrap() >= 9);
    assert!(state.is_older_than(5));
    assert!(!state.is_older_than(15));
}

#[test]
fn test_stored_state_size_bytes() {
    let state = StoredState::new(new_id(), new_id(), obj(vec![("key", s("value"))]));
    assert!(state.size_bytes() > 0);
    assert!(state.size_bytes() < 100);
}

#[test]
fn test_stored_state_is_empty() {
    let empty_states = vec![JsonValue::Null, obj(vec![]), JsonValue::Array(vec![]), s("")];
    for data in empty_states {
        let state = StoredState::new(new_id(), new_id(), data);
        assert!(state.is_empty(), "Expected empty state for data: {:?}", state.data);
    }

    let non_empty_states = vec![
        obj(vec![("key", s("value"))]),
        JsonValue::Array(vec![n(1), n(2), n(3)]),
        s("hello"),
        n(42),
        JsonValue::Bool(true),
    ];
    for data in non_empty_states {
        let state = StoredState::new(new_id(), new_id(), data);
        assert!(!state.is_empty(), "Expected non-empty state for data: {:?}", state.data);
    }
}

#[test]
fn test_stored_state_validate() {
    let valid_state = StoredState::new(new_id(), new_id(), obj(vec![("valid", JsonValue::Bool(true))]));
    assert!(valid_state.validate().is_ok());

    let null_state = StoredState::new(new_id(), new_id(), JsonValue::Null);
    let result = null_state.validate();
    assert!(result.is_err());
    if let Err(HelixError::ValidationError { context, message }) = result {
        assert_eq!(context, "StoredState.data");
        assert!(message.contains("cannot be null"));
    }

    let mut invalid_timestamp_state = StoredState::new(new_id(), new_id(), obj(vec![]));
    invalid_timestamp_state.updated_at =
        (parse(&invalid_timestamp_state.created_at) - chrono::Duration::seconds(1)).to_rfc3339();
    let result = invalid_timestamp_state.validate();
    assert!(result.is_err());
    if let Err(HelixError::ValidationError { context, message }) = result {
        assert_eq!(context, "StoredState.timestamps");
        assert!(message.contains("Updated timestamp cannot be before created timestamp"));
    }
}

#[test]
fn test_stored_state_merge_data() {
    let mut state = StoredState::new(new_id(), new_id(), obj(vec![("a", n(1)), ("b", n(2))]));
    let result = state.merge_data(obj(vec![("b", n(3)), ("c", n(4))]));
    assert!(result.is_ok());
    assert_eq!(state.data, obj(vec![("a", n(1)), ("b", n(3)), ("c", n(4))]));

    let mut string_state = StoredState::new(new_id(), new_id(), s("string"));
    let result = string_state.merge_data(obj(vec![("key", s("value"))]));
    assert!(result.is_err());
    if let Err(HelixError::ValidationError { context, message }) = result {
        assert_eq!(context, "StoredState.merge");
        assert!(message.contains("Can only merge object states"));
    }
}

#[test]
fn test_stored_state_equality() {
    let profile_id = new_id();
    let agent_id = new_id();
    let state1 = StoredState::new(profile_id, agent_id, obj(vec![("test", JsonValue::Bool(true))]));
    let state2 = StoredState::new(profile_id, agent_id, obj(vec![("test", JsonValue::Bool(true))]));
    assert_eq!(state1.profile_id, state2.profile_id);
    assert_eq!(state1.agent_id, state2.agent_id);
    assert_eq!(state1.data, state2.data);

    let state3 = StoredState::new(new_id(), agent_id, obj(vec![("test", JsonValue::Bool(true))]));
    assert_ne!(state1.profile_id, state3.profile_id);
}

#[test]
fn test_stored_state_debug_format() {
    let state = StoredState::new(new_id(), new_id(), obj(vec![("debug", s("test"))]));
    let debug_str = format!("{:?}", state);
    assert!(debug_str.contains("StoredState"));
    assert!(debug_str.contains("debug"));
    assert!(debug_str.contains("test"));
}

#[test]
fn test_stored_state_with_complex_data() {
    let complex = || {
        obj(vec![
            (
                "nested",
                obj(vec![
                    ("array", JsonValue::Array(vec![n(1), n(2), n(3), obj(vec![("inner", s("value"))])])),
                    ("boolean", JsonValue::Bool(true)),
                    ("null_value", JsonValue::Null),
                ]),
            ),
            ("unicode", s("测试数据 🚀")),
            ("large_number", n(9223372036854775807)),
        ])
    };
    let state = StoredState::new(new_id(), new_id(), complex());
    assert_eq!(state.data, complex());
}

#[test]
fn test_stored_state_age_calculation() {
    let mut state = StoredState::new(new_id(), new_id(), obj(vec![("test", s("data"))]));
    let initial_age = state.age_seconds().unwrap();
    assert!(initial_age >= 0);
    assert!(initial_age < 2);

    state.updated_at = (Utc::now() - chrono::Duration::seconds(100)).to_rfc3339();
    let older_age = state.age_seconds().unwrap();
    assert!(older_age >= 100);
    assert!(older_age < 102);
}

#[test]
fn test_stored_state_is_older_than() {
    let mut state = StoredState::new(new_id(), new_id(), obj(vec![("test", s("data"))]));
    assert!(!state.is_older_than(1));
    state.updated_at = (Utc::now() - chrono::Duration::seconds(10)).to_rfc3339();
    assert!(state.is_older_than(5));
    assert!(!state.is_older_than(15));
}

#[test]
fn test_stored_state_update_data_comprehensive() {
    let mut state = StoredState::new(new_id(), new_id(), obj(vec![("initial", s("value"))]));
    let original_updated_at = parse(&state.updated_at);
    pause_ms(1);
    state.update_data(obj(vec![("updated", s("value"))]));
    assert_eq!(state.data, obj(vec![("updated", s("value"))]));
    assert!(parse(&state.updated_at) > original_updated_at);
}

#[test]
fn test_stored_state_merge_data_comprehensive() {
    let initial_data = obj(vec![
        ("existing_key", s("existing_value")),
        ("number", n(42)),
        ("config", obj(vec![("timeout", n(30)), ("retries", n(3))])),
    ]);
    let mut state = StoredState::new(new_id(), new_id(), initial_data);
    let merge_data = obj(vec![
        ("new_key", s("new_value")),
        ("number", n(100)),
        ("config", obj(vec![("timeout", n(60)), ("max_connections", n(10))])),
    ]);
    state.merge_data(merge_data).unwrap();

    assert_eq!(member(&state.data, "existing_key"), Some(&s("existing_value")));
    assert_eq!(member(&state.data, "new_key"), Some(&s("new_value")));
    assert_eq!(member(&state.data, "number"), Some(&n(100)));
    let config = member(&state.data, "config").unwrap();
    assert_eq!(member(config, "timeout"), Some(&n(60)));
    assert_eq!(member(config, "max_connections"), Some(&n(10)));
    assert!(member(config, "retries").is_none());
}

#[test]
fn test_stored_state_boundary_values() {
    let min_uuid = uuid::Uuid::from_bytes([0; 16]).as_u128();
    let max_uuid = uuid::Uuid::from_bytes([255; 16]).as_u128();
    let state = StoredState::new(min_uuid, max_uuid, obj(vec![("boundary", s("test"))]));
    assert_eq!(state.profile_id, min_uuid);
    assert_eq!(state.agent_id, max_uuid);
}

#[test]
fn test_stored_state_timestamp_edge_cases() {
    let mut state = StoredState::new(new_id(), new_id(), obj(vec![("test", s("data"))]));
    state.updated_at = "1970-01-01T00:00:00Z".to_string();
    let age = state.age_seconds().unwrap();
    assert!(age > 1_000_000_000);
    assert!(state.is_older_than(1_000_000_000));

    state.updated_at = (Utc::now() + chrono::Duration::seconds(100)).to_rfc3339();
    let future_age = state.age_seconds().unwrap();
    assert!(future_age < 0);
}

#[test]
fn test_stored_state_memory_efficiency() {
    let state = StoredState::new(new_id(), new_id(), obj(vec![("test", s("data"))]));
    let size = std::mem::size_of_val(&state);
    assert!(size < 500, "StoredState is too large: {} bytes", size);
}

#[test]
fn stored_state_size_is_json_text_length() {
    let state = StoredState::new(1, 2, obj(vec![("key", s("value"))]));
    assert_eq!(state.size_bytes(), "{\"key\":\"value\"}".len());
    let state = StoredState::new(1, 2, JsonValue::Array(vec![n(1), JsonValue::Null]));
    assert_eq!(state.size_bytes(), "[1,null]".len());
}

#[test]
fn stored_state_rejects_unparseable_timestamps() {
    let mut state = StoredState::new(1, 2, obj(vec![]));
    state.created_at = "yesterday".to_string();
    match state.validate() {
        Err(HelixError::ValidationError { context, message }) => {
            assert_eq!(context, "StoredState.timestamps");
            assert_eq!(message, "Timestamps must be RFC 3339 date-times");
        }
        _ => panic!("expected a timestamp error"),
    }
}

#[test]
fn stored_state_age_at_given_time() {
    let mut state = StoredState::new(1, 2, obj(vec![]));
    state.updated_at = "2024-01-01T00:00:00Z".to_string();
    assert_eq!(state.age_seconds_at("2024-01-01T00:01:30Z"), Some(90));
    assert!(state.is_older_than_at(89, "2024-01-01T00:01:30Z"));
    assert!(!state.is_older_than_at(90, "2024-01-01T00:01:30Z"));
    assert_eq!(state.age_seconds_at("not a time"), None);
    assert!(!state.is_older_than_at(-100, "not a time"));
}

#[test]
fn stored_state_failed_merge_changes_nothing() {
    let mut state = StoredState::new(1, 2, obj(vec![("a", n(1))]));
    let before_updated = state.updated_at.clone();
    assert!(state.merge_data(s("x")).is_err());
    assert_eq!(state.data, obj(vec![("a", n(1))]));
    assert_eq!(state.updated_at, before_updated);
}

#[test]
fn test_new_store_is_empty() {
    let store = InMemoryStateStore::new();
    let profile_id = new_id();
    let agent_id = new_id();
    assert!(store.get_state(profile_id, agent_id).is_none());
    assert!(store.list_agent_ids(profile_id).is_empty());
}

#[test]
fn test_set_and_get_state() {
    let mut store = InMemoryStateStore::new();
    let profile_id = new_id();
    let agent_id = new_id();
    store.set_state(profile_id, agent_id, obj(vec![("key", s("value"))]));
    let retrieved = store.get_state(profile_id, agent_id);
    assert_eq!(retrieved, Some(&obj(vec![("key", s("value"))])));
}

#[test]
fn test_get_state_non_existent() {
    let store = InMemoryStateStore::new();
    assert!(store.get_state(new_id(), new_id()).is_none());
}

#[test]
fn test_set_state_overwrites() {
    let mut store = InMemoryStateStore::new();
    let profile_id = new_id();
    let agent_id = new_id();
    store.set_state(profile_id, agent_id, obj(vec![("count", n(1))]));
    let first = store.get_stored_state(profile_id, agent_id).unwrap();
    let (first_created, first_updated) = (first.created_at.clone(), first.updated_at.clone());

    pause_ms(10);
    store.set_state(profile_id, agent_id, obj(vec![("count", n(2))]));

    assert_eq!(store.get_state(profile_id, agent_id), Some(&obj(vec![("count", n(2))])));
    let second = store.get_stored_state(profile_id, agent_id).unwrap();
    assert_eq!(second.data, obj(vec![("count", n(2))]));
    assert_eq!(second.profile_id, profile_id);
    assert_eq!(second.agent_id, agent_id);
    assert_eq!(second.created_at, first_created, "created_at should be preserved on update");
    assert!(parse(&second.updated_at) > parse(&first_updated), "updated_at should be newer");
}

#[test]
fn test_delete_state() {
    let mut store = InMemoryStateStore::new();
    let profile_id = new_id();
    let agent_id = new_id();
    store.set_state(profile_id, agent_id, obj(vec![("to_delete", JsonValue::Bool(true))]));
    assert!(store.get_state(profile_id, agent_id).is_some());

    let deleted = store.delete_state(profile_id, agent_id);
    assert!(deleted);
    assert!(store.get_state(profile_id, agent_id).is_none());
}

#[test]
fn test_delete_state_non_existent() {
    let mut store = InMemoryStateStore::new();
    assert!(!store.delete_state(new_id(), new_id()));
}

#[test]
fn test_list_agent_ids() {
    let mut store = InMemoryStateStore::new();
    let profile1 = new_id();
    let profile2 = new_id();
    let agent1_p1 = new_id();
    let agent2_p1 = new_id();
    let agent1_p2 = new_id();

    store.set_state(profile1, agent1_p1, obj(vec![]));
    store.set_state(profile1, agent2_p1, obj(vec![]));
    store.set_state(profile2, agent1_p2, obj(vec![]));

    let p1_agents = store.list_agent_ids(profile1);
    assert_eq!(p1_agents.len(), 2);
    assert!(p1_agents.contains(&agent1_p1));
    assert!(p1_agents.contains(&agent2_p1));

    let p2_agents = store.list_agent_ids(profile2);
    assert_eq!(p2_agents.len(), 1);
    assert!(p2_agents.contains(&agent1_p2));

    assert!(store.list_agent_ids(new_id()).is_empty());
}

#[test]
fn test_get_stored_state() {
    let mut store = InMemoryStateStore::new();
    let profile_id = new_id();
    let agent_id = new_id();

    let initial_time = Utc::now();
    pause_ms(10);
    store.set_state(profile_id, agent_id, obj(vec![("meta", s("data"))]));
    pause_ms(10);
    let time_after_set = Utc::now();

    let stored = store.get_stored_state(profile_id, agent_id);
    assert!(stored.is_some());
    let stored = stored.unwrap();
    assert_eq!(stored.profile_id, profile_id);
    assert_eq!(stored.agent_id, agent_id);
    assert_eq!(stored.data, obj(vec![("meta", s("data"))]));
    let created = parse(&stored.created_at);
    assert!(created > initial_time && created < time_after_set);
    assert_eq!(stored.created_at, stored.updated_at);
}

#[test]
fn test_merge_state_new() {
    let mut store = InMemoryStateStore::new();
    let profile_id = new_id();
    let agent_id = new_id();
    store.merge_state(profile_id, agent_id, obj(vec![("a", n(1))])).unwrap();

    assert_eq!(store.get_state(profile_id, agent_id), Some(&obj(vec![("a", n(1))])));
    let stored = store.get_stored_state(profile_id, agent_id).unwrap();
    assert_eq!(stored.data, obj(vec![("a", n(1))]));
}

#[test]
fn test_merge_state_existing() {
    let mut store = InMemoryStateStore::new();
    let profile_id = new_id();
    let agent_id = new_id();
    let initial_data = obj(vec![("a", n(1)), ("b", obj(vec![("x", n(10))]))]);
    let merge_data = obj(vec![("b", obj(vec![("y", n(20))])), ("c", n(3))]);

    store.set_state(profile_id, agent_id, initial_data);
    let first = store.get_stored_state(profile_id, agent_id).unwrap();
    let (first_created, first_updated) = (first.created_at.clone(), first.updated_at.clone());

    pause_ms(10);
    store.merge_state(profile_id, agent_id, merge_data).unwrap();

    let expected = obj(vec![("a", n(1)), ("b", obj(vec![("y", n(20))])), ("c", n(3))]);
    assert_eq!(store.get_state(profile_id, agent_id), Some(&expected));
    let second = store.get_stored_state(profile_id, agent_id).unwrap();
    assert_eq!(second.data, expected);
    assert_eq!(second.created_at, first_created);
    assert!(parse(&second.updated_at) > parse(&first_updated));
}

#[test]
fn test_merge_state_non_object_fails_gracefully() {
    let mut store = InMemoryStateStore::new();
    let profile_id = new_id();
    let agent_id = new_id();
    store.set_state(profile_id, agent_id, s("not an object"));

    let result = store.merge_state(profile_id, agent_id, obj(vec![("a", n(1))]));
    assert!(result.is_err());
    match result.err().unwrap() {
        HelixError::ValidationError { context, message } => {
            assert_eq!(context, "StoredState.merge");
            assert!(message.contains("Can only merge object states"));
        }
        _ => panic!("Expected ValidationError"),
    }
}

#[test]
fn test_clear_profile_state() {
    let mut store = InMemoryStateStore::new();
    let profile1 = new_id();
    let profile2 = new_id();
    let agent1_p1 = new_id();
    let agent2_p1 = new_id();
    let agent1_p2 = new_id();

    store.set_state(profile1, agent1_p1, obj(vec![]));
    store.set_state(profile1, agent2_p1, obj(vec![]));
    store.set_state(profile2, agent1_p2, obj(vec![]));

    assert_eq!(store.clear_profile_state(profile1), 2);
    assert!(store.get_state(profile1, agent1_p1).is_none());
    assert!(store.get_state(profile1, agent2_p1).is_none());
    assert!(store.list_agent_ids(profile1).is_empty());

    assert!(store.get_state(profile2, agent1_p2).is_some());
    assert_eq!(store.list_agent_ids(profile2).len(), 1);

    assert_eq!(store.clear_profile_state(profile1), 0);
    assert_eq!(store.clear_profile_state(profile2), 1);
    assert!(store.list_agent_ids(profile2).is_empty());
}

#[test]
fn test_timestamps_on_set_and_merge() {
    let mut store = InMemoryStateStore::new();
    let profile_id = new_id();
    let agent_id = new_id();

    store.set_state(profile_id, agent_id, obj(vec![("v", n(1))]));
    let s1 = store.get_stored_state(profile_id, agent_id).unwrap();
    assert_eq!(s1.created_at, s1.updated_at);
    let (s1_created, s1_updated) = (s1.created_at.clone(), s1.updated_at.clone());

    pause_ms(20);
    store.set_state(profile_id, agent_id, obj(vec![("v", n(2))]));
    let s2 = store.get_stored_state(profile_id, agent_id).unwrap();
    assert_eq!(s2.created_at, s1_created, "created_at should persist");
    assert!(parse(&s2.updated_at) > parse(&s1_updated), "updated_at should advance on set");
    assert!(parse(&s2.updated_at) > parse(&s2.created_at));
    let (s2_created, s2_updated) = (s2.created_at.clone(), s2.updated_at.clone());

    pause_ms(20);
    store.merge_state(profile_id, agent_id, obj(vec![("v", n(3)), ("new", JsonValue::Bool(true))])).unwrap();
    let s3 = store.get_stored_state(profile_id, agent_id).unwrap();
    assert_eq!(s3.created_at, s2_created, "created_at should persist on merge");
    assert!(parse(&s3.updated_at) > parse(&s2_updated), "updated_at should advance on merge");
    assert_eq!(s3.data, obj(vec![("v", n(3)), ("new", JsonValue::Bool(true))]));
}

#[test]
fn store_delete_after_set_restores_other_keys() {
    let mut store = InMemoryStateStore::default();
    store.set_state(1, 1, n(1));
    store.set_state(1, 2, n(2));
    assert!(store.delete_state(1, 2));
    assert!(!store.delete_state(1, 2));
    assert_eq!(store.get_state(1, 1), Some(&n(1)));
    assert_eq!(store.list_agent_ids(1), vec![1]);
}

#[test]
fn store_same_agent_in_two_profiles_is_isolated() {
    let mut store = InMemoryStateStore::new();
    store.set_state(1, 7, obj(vec![("profile", n(1))]));
    store.set_state(2, 7, obj(vec![("profile", n(2))]));
    assert_eq!(store.get_state(1, 7), Some(&obj(vec![("profile", n(1))])));
    assert_eq!(store.get_state(2, 7), Some(&obj(vec![("profile", n(2))])));
    assert_eq!(store.clear_profile_state(1), 1);
    assert_eq!(store.get_state(2, 7), Some(&obj(vec![("profile", n(2))])));
}

#[test]
fn timestamp_order_and_age_checks() {
    use_checks();
}

fn use_checks() {
    assert!(helix_verified::state_store::check_timestamp_order(Some(false)).is_ok());
    match helix_verified::state_store::check_timestamp_order(Some(true)) {
        Err(HelixError::ValidationError { message, .. }) => {
            assert_eq!(message, "Updated timestamp cannot be before created timestamp")
        }
        _ => panic!("expected an order error"),
    }
    assert!(helix_verified::state_store::check_timestamp_order(None).is_err());
    assert!(helix_verified::state_store::age_exceeds(Some(10), 5));
    assert!(!helix_verified::state_store::age_exceeds(Some(5), 5));
    assert!(!helix_verified::state_store::age_exceeds(None, -1));
}

#[test]
fn test_mock_state_store_basic_operations() {
    let mut store = InMemoryStateStore::new();
    let profile_id = new_id();
    let agent_id = new_id();
    let data = || obj(vec![("counter", n(10)), ("last_run", s("2024-01-01T12:00:00Z"))]);

    assert!(store.get_state(profile_id, agent_id).is_none());
    store.set_state(profile_id, agent_id, data());
    assert_eq!(store.get_state(profile_id, agent_id), Some(&data()));

    store.set_state(profile_id, agent_id, obj(vec![("counter", n(11))]));
    assert_eq!(store.get_state(profile_id, agent_id), Some(&obj(vec![("counter", n(11))])));
}

#[test]
fn test_mock_state_store_delete() {
    let mut store = InMemoryStateStore::new();
    let profile_id = new_id();
    let agent_id = new_id();
    assert!(!store.delete_state(profile_id, agent_id));
    store.set_state(profile_id, agent_id, obj(vec![("test", s("data"))]));
    assert!(store.delete_state(profile_id, agent_id));
    assert!(store.get_state(profile_id, agent_id).is_none());
    assert!(!store.delete_state(profile_id, agent_id));
}

#[test]
fn test_mock_state_store_list_agent_ids() {
    let mut store = InMemoryStateStore::new();
    let profile1 = new_id();
    let profile2 = new_id();
    let agent1 = new_id();
    let agent2 = new_id();
    let agent3 = new_id();

    assert!(store.list_agent_ids(profile1).is_empty());
    store.set_state(profile1, agent1, obj(vec![("p1a1", JsonValue::Bool(true))]));
    store.set_state(profile1, agent2, obj(vec![("p1a2", JsonValue::Bool(true))]));
    store.set_state(profile2, agent3, obj(vec![("p2a3", JsonValue::Bool(true))]));

    let mut agents1 = store.list_agent_ids(profile1);
    agents1.sort();
    let mut expected1 = vec![agent1, agent2];
    expected1.sort();
    assert_eq!(agents1, expected1);
    assert_eq!(store.list_agent_ids(profile2), vec![agent3]);
    assert!(store.list_agent_ids(new_id()).is_empty());
}

#[test]
fn test_mock_state_store_get_stored_state() {
    let mut store = InMemoryStateStore::new();
    let profile_id = new_id();
    let agent_id = new_id();
    assert!(store.get_stored_state(profile_id, agent_id).is_none());
    store.set_state(profile_id, agent_id, obj(vec![("metadata", s("test"))]));
    let state = store.get_stored_state(profile_id, agent_id).unwrap();
    assert_eq!(state.profile_id, profile_id);
    assert_eq!(state.agent_id, agent_id);
    assert_eq!(state.data, obj(vec![("metadata", s("test"))]));
    assert!(parse(&state.created_at) <= parse(&state.updated_at));
}

#[test]
fn test_mock_state_store_merge_state() {
    let mut store = InMemoryStateStore::new();
    let profile_id = new_id();
    let agent_id = new_id();
    store.merge_state(profile_id, agent_id, obj(vec![("a", n(1)), ("b", n(2))])).unwrap();
    assert_eq!(store.get_state(profile_id, agent_id), Some(&obj(vec![("a", n(1)), ("b", n(2))])));
    store.merge_state(profile_id, agent_id, obj(vec![("b", n(3)), ("c", n(4))])).unwrap();
    assert_eq!(store.get_state(profile_id, agent_id), Some(&obj(vec![("a", n(1)), ("b", n(3)), ("c", n(4))])));
}

#[test]
fn test_mock_state_store_clear_profile_state() {
    let mut store = InMemoryStateStore::new();
    let profile1 = new_id();
    let profile2 = new_id();
    let agent1 = new_id();
    let agent2 = new_id();
    let agent3 = new_id();

    assert_eq!(store.clear_profile_state(profile1), 0);
    store.set_state(profile1, agent1, obj(vec![("p1a1", JsonValue::Bool(true))]));
    store.set_state(profile1, agent2, obj(vec![("p1a2", JsonValue::Bool(true))]));
    store.set_state(profile2, agent3, obj(vec![("p2a3", JsonValue::Bool(true))]));

    assert_eq!(store.clear_profile_state(profile1), 2);
    assert!(store.list_agent_ids(profile1).is_empty());
    assert_eq!(store.list_agent_ids(profile2), vec![agent3]);
    assert_eq!(store.clear_profile_state(profile1), 0);
}

#[test]
fn test_mock_state_store_multiple_profiles() {
    let mut store = InMemoryStateStore::new();
    let profile1 = new_id();
    let profile2 = new_id();
    let agent_id = new_id();
    store.set_state(profile1, agent_id, obj(vec![("profile", n(1))]));
    store.set_state(profile2, agent_id, obj(vec![("profile", n(2))]));
    assert_eq!(store.get_state(profile1, agent_id), Some(&obj(vec![("profile", n(1))])));
    assert_eq!(store.get_state(profile2, agent_id), Some(&obj(vec![("profile", n(2))])));
}

#[test]
fn test_mock_state_store_large_data() {
    let mut store = InMemoryStateStore::new();
    let profile_id = new_id();
    let agent_id = new_id();
    let large = || obj(vec![("large_array", JsonValue::Array((0..1000).map(n).collect())), ("metadata", s("test"))]);
    store.set_state(profile_id, agent_id, large());
    assert_eq!(store.get_state(profile_id, agent_id), Some(&large()));
}

#[test]
fn test_mock_state_store_unicode_data() {
    let mut store = InMemoryStateStore::new();
    let profile_id = new_id();
    let agent_id = new_id();
    let unicode = || {
        obj(vec![
            ("chinese", s("你好世界")),
            ("emoji", s("🚀🌟💫")),
            ("arabic", s("مرحبا بالعالم")),
            ("mixed", s("Hello 世界 🌍")),
        ])
    };
    store.set_state(profile_id, agent_id, unicode());
    assert_eq!(store.get_state(profile_id, agent_id), Some(&unicode()));
}

#[test]
fn test_mock_state_store_complex_json() {
    let mut store = InMemoryStateStore::new();
    let profile_id = new_id();
    let agent_id = new_id();
    let complex = || {
        obj(vec![
            ("nested", obj(vec![("deep", obj(vec![("value", n(42))]))])),
            (
                "array",
                JsonValue::Array(vec![n(1), s("two"), obj(vec![("three", n(3))]), JsonValue::Array(vec![n(4), n(5)])]),
            ),
            ("boolean", JsonValue::Bool(true)),
            ("null_value", JsonValue::Null),
        ])
    };
    store.set_state(profile_id, agent_id, complex());
    assert_eq!(store.get_state(profile_id, agent_id), Some(&complex()));
}

#[test]
fn test_mock_state_store_error_scenarios() {
    let mut store = InMemoryStateStore::new();
    let profile_id = new_id();
    let agent_id = new_id();
    store.set_state(profile_id, agent_id, s("not_an_object"));
    let result = store.merge_state(profile_id, agent_id, obj(vec![("key", s("value"))]));
    assert!(result.is_err());
}
