use helix_verified::core_types::{EventKind, PolicyId, ResourceId};
use std::collections::HashMap;

#[test]
fn test_policy_id_type() {
    let policy_id: PolicyId = "test_policy_123".to_string();
    assert_eq!(policy_id, "test_policy_123");
}

#[test]
fn test_event_kind_creation() {
    let kind1 = EventKind::new("user.created");
    let kind2 = EventKind::new("system.shutdown".to_string());

    assert_eq!(kind1.as_ref(), "user.created");
    assert_eq!(kind2.as_ref(), "system.shutdown");
}

#[test]
fn test_event_kind_from_string() {
    let kind: EventKind = "data.processed".to_string().into();
    assert_eq!(kind.as_ref(), "data.processed");
}

#[test]
fn test_event_kind_from_str() {
    let kind: EventKind = "agent.started".into();
    assert_eq!(kind.as_ref(), "agent.started");
}

#[test]
fn test_event_kind_as_ref() {
    let kind = EventKind::new("test.event");
    let s: &str = kind.as_ref();
    assert_eq!(s, "test.event");
}

#[test]
fn test_event_kind_display() {
    let kind = EventKind::new("display.test");
    assert_eq!(kind.to_string(), "display.test");
}

#[test]
fn test_event_kind_equality() {
    let kind1 = EventKind::new("same.event");
    let kind2 = EventKind::new("same.event");
    let kind3 = EventKind::new("different.event");

    assert_eq!(kind1, kind2);
    assert_ne!(kind1, kind3);
}

#[test]
fn test_event_kind_clone() {
    let kind1 = EventKind::new("clone.test");
    let kind2 = kind1.clone();

    assert_eq!(kind1, kind2);
}

#[test]
fn test_event_kind_debug() {
    let kind = EventKind::new("debug.test");
    let debug_str = format!("{:?}", kind);

    assert!(debug_str.contains("EventKind"));
    assert!(debug_str.contains("debug.test"));
}

#[test]
fn test_resource_id_creation() {
    let id1 = ResourceId::new("resource_123");
    let id2 = ResourceId::new("resource_456".to_string());

    assert_eq!(id1.as_ref(), "resource_123");
    assert_eq!(id2.as_ref(), "resource_456");
}

#[test]
fn test_resource_id_from_string() {
    let id: ResourceId = "string_resource".to_string().into();
    assert_eq!(id.as_ref(), "string_resource");
}

#[test]
fn test_resource_id_from_str() {
    let id: ResourceId = "str_resource".into();
    assert_eq!(id.as_ref(), "str_resource");
}

#[test]
fn test_resource_id_as_ref() {
    let id = ResourceId::new("ref_test");
    let s: &str = id.as_ref();
    assert_eq!(s, "ref_test");
}

#[test]
fn test_resource_id_display() {
    let id = ResourceId::new("display_resource");
    assert_eq!(id.to_string(), "display_resource");
}

#[test]
fn test_resource_id_equality() {
    let id1 = ResourceId::new("same_resource");
    let id2 = ResourceId::new("same_resource");
    let id3 = ResourceId::new("different_resource");

    assert_eq!(id1, id2);
    assert_ne!(id1, id3);
}

#[test]
fn test_resource_id_clone() {
    let id1 = ResourceId::new("clone_resource");
    let id2 = id1.clone();

    assert_eq!(id1, id2);
}

#[test]
fn test_resource_id_debug() {
    let id = ResourceId::new("debug_resource");
    let debug_str = format!("{:?}", id);

    assert!(debug_str.contains("ResourceId"));
    assert!(debug_str.contains("debug_resource"));
}

#[test]
fn test_event_kind_hash() {
    let mut map = HashMap::new();
    let kind = EventKind::new("hash.test");

    map.insert(kind.clone(), "value");
    assert_eq!(map.get(&kind), Some(&"value"));
}

#[test]
fn test_resource_id_hash() {
    let mut map = HashMap::new();
    let id = ResourceId::new("hash_resource");

    map.insert(id.clone(), "value");
    assert_eq!(map.get(&id), Some(&"value"));
}

#[test]
fn test_empty_event_kind() {
    let kind = EventKind::new("");
    assert_eq!(kind.as_ref(), "");
}

#[test]
fn test_empty_resource_id() {
    let id = ResourceId::new("");
    assert_eq!(id.as_ref(), "");
}

#[test]
fn test_special_characters_event_kind() {
    let kind = EventKind::new("event.with-special_chars@123");
    assert_eq!(kind.as_ref(), "event.with-special_chars@123");
}

#[test]
fn test_special_characters_resource_id() {
    let id = ResourceId::new("resource/with\\special:chars");
    assert_eq!(id.as_ref(), "resource/with\\special:chars");
}

#[test]
fn test_unicode_event_kind() {
    let kind = EventKind::new("événement.créé");
    assert_eq!(kind.as_ref(), "événement.créé");
}

#[test]
fn test_unicode_resource_id() {
    let id = ResourceId::new("资源_123");
    assert_eq!(id.as_ref(), "资源_123");
}

#[test]
fn as_str_and_to_string_agree_with_the_text() {
    let kind = EventKind::new("a.b");
    assert_eq!(kind.as_str(), "a.b");
    assert_eq!(kind.to_string(), kind.0);
    let id = ResourceId::from("r-1".to_string());
    assert_eq!(id.as_str(), "r-1");
}
