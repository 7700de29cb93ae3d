use helix_verified::profile::Profile;
use std::collections::hash_map::DefaultHasher;
use std::hash::{Hash, Hasher};

fn new_id() -> u128 {
    uuid::Uuid::new_v4().as_u128()
}

fn create_test_profile() -> Profile {
    Profile::new(new_id(), Some("Test Profile".to_string()), "user".to_string())
}

#[test]
fn test_profile_creation() {
    let profile_id = new_id();
    let profile_name = Some("Test User".to_string());
    let profile_kind = "user".to_string();

    let profile = Profile::new(profile_id, profile_name.clone(), profile_kind.clone());

    assert_eq!(profile.id, profile_id);
    assert_eq!(profile.name, profile_name);
    assert_eq!(profile.kind, profile_kind);
    assert_eq!(profile.status, "active");
    assert_eq!(profile.created_at, profile.updated_at);
}

#[test]
fn test_profile_creation_without_name() {
    let profile_id = new_id();
    let profile_kind = "organization".to_string();

    let profile = Profile::new(profile_id, None, profile_kind.clone());

    assert_eq!(profile.id, profile_id);
    assert_eq!(profile.name, None);
    assert_eq!(profile.kind, profile_kind);
    assert_eq!(profile.status, "active");
}

#[test]
fn test_update_name_to_none() {
    let mut profile = create_test_profile();
    profile.update_name(None);
    assert_eq!(profile.name, None);
}

#[test]
fn test_is_active() {
    let mut profile = create_test_profile();
    assert!(profile.is_active());
    profile.update_status("suspended".to_string());
    assert!(!profile.is_active());
    profile.update_status("active".to_string());
    assert!(profile.is_active());
}

#[test]
fn test_is_suspended() {
    let mut profile = create_test_profile();
    assert!(!profile.is_suspended());
    profile.update_status("suspended".to_string());
    assert!(profile.is_suspended());
    profile.update_status("active".to_string());
    assert!(!profile.is_suspended());
}

#[test]
fn test_validate_valid_profile() {
    let profile = create_test_profile();
    assert!(profile.validate().is_ok());
}

#[test]
fn test_validate_empty_kind() {
    let mut profile = create_test_profile();
    profile.kind = String::new();
    let result = profile.validate();
    assert!(result.is_err());
    assert_eq!(result.unwrap_err(), "Profile kind cannot be empty");
}

#[test]
fn test_validate_empty_name() {
    let mut profile = create_test_profile();
    profile.name = Some(String::new());
    let result = profile.validate();
    assert!(result.is_err());
    assert_eq!(result.unwrap_err(), "Profile name cannot be empty if provided");
}

#[test]
fn test_validate_long_name() {
    let mut profile = create_test_profile();
    profile.name = Some("a".repeat(256));
    let result = profile.validate();
    assert!(result.is_err());
    assert_eq!(result.unwrap_err(), "Profile name cannot exceed 255 characters");
}

#[test]
fn test_validate_invalid_status() {
    let mut profile = create_test_profile();
    profile.status = "invalid_status".to_string();
    let result = profile.validate();
    assert!(result.is_err());
    assert_eq!(result.unwrap_err(), "Invalid profile status");
}

#[test]
fn test_validate_valid_statuses() {
    let mut profile = create_test_profile();
    for status in &["active", "suspended", "deleted"] {
        profile.status = status.to_string();
        assert!(profile.validate().is_ok(), "Status '{}' should be valid", status);
    }
}

#[test]
fn test_profile_equality() {
    let profile1 = create_test_profile();
    let mut profile2 = profile1.clone();
    assert_eq!(profile1, profile2);
    profile2.update_name(Some("Different Name".to_string()));
    assert_ne!(profile1, profile2);
}

#[test]
fn test_profile_with_unicode_name() {
    let unicode_name = Some("用户测试 🚀 Тест".to_string());
    let profile = Profile::new(new_id(), unicode_name.clone(), "user".to_string());
    assert_eq!(profile.name, unicode_name);
    assert!(profile.validate().is_ok());
}

#[test]
fn test_profile_boundary_values() {
    let min_uuid = uuid::Uuid::from_bytes([0; 16]).as_u128();
    let profile = Profile::new(min_uuid, Some("Min UUID".to_string()), "test".to_string());
    assert_eq!(profile.id, min_uuid);

    let max_uuid = uuid::Uuid::from_bytes([255; 16]).as_u128();
    let profile = Profile::new(max_uuid, Some("Max UUID".to_string()), "test".to_string());
    assert_eq!(profile.id, max_uuid);
}

#[test]
fn test_profile_name_edge_cases() {
    let max_valid_name = Some("a".repeat(255));
    let mut profile = Profile::new(new_id(), max_valid_name.clone(), "user".to_string());
    assert!(profile.validate().is_ok());
    assert_eq!(profile.name, max_valid_name);

    let special_name = Some(r#"Name with "quotes" and \backslashes"#.to_string());
    profile.update_name(special_name.clone());
    assert_eq!(profile.name, special_name);
}

#[test]
fn test_profile_kind_variations() {
    let profile_id = new_id();
    let test_kinds = vec!["user", "organization", "service", "admin", "guest", "system", "api", "bot"];
    for kind in test_kinds {
        let profile = Profile::new(profile_id, Some("Test".to_string()), kind.to_string());
        assert_eq!(profile.kind, kind);
        assert!(profile.validate().is_ok());
    }
}

#[test]
fn test_profile_status_transitions() {
    let mut profile = create_test_profile();
    let status_transitions = vec![
        ("active", "suspended"),
        ("suspended", "active"),
        ("active", "deleted"),
        ("suspended", "deleted"),
    ];
    for (from_status, to_status) in status_transitions {
        profile.status = from_status.to_string();
        assert!(profile.validate().is_ok());
        profile.update_status(to_status.to_string());
        assert_eq!(profile.status, to_status);
        assert!(profile.validate().is_ok());
    }
}

#[test]
fn test_profile_update_preserves_created_at() {
    let mut profile = create_test_profile();
    let original_created_at = profile.created_at.clone();
    profile.update_name(Some("New Name".to_string()));
    profile.update_status("suspended".to_string());
    assert_eq!(profile.created_at, original_created_at);
}

#[test]
fn test_profile_validation_comprehensive() {
    let mut profile = create_test_profile();

    profile.kind = "   ".to_string();
    assert!(profile.validate().is_err());

    profile.kind = "user".to_string();
    profile.name = Some("   ".to_string());
    assert!(profile.validate().is_err());

    profile.name = Some("Valid Name".to_string());
    profile.status = "ACTIVE".to_string();
    assert!(profile.validate().is_err());

    profile.status = "Active".to_string();
    assert!(profile.validate().is_err());
}

#[test]
fn test_profile_clone_independence() {
    let original = create_test_profile();
    let mut cloned = original.clone();

    cloned.update_name(Some("Cloned Profile".to_string()));
    cloned.update_status("suspended".to_string());

    assert_eq!(original.name, Some("Test Profile".to_string()));
    assert_eq!(original.status, "active");
    assert_eq!(cloned.name, Some("Cloned Profile".to_string()));
    assert_eq!(cloned.status, "suspended");
}

#[test]
fn test_profile_large_data_handling() {
    let long_kind = "a".repeat(100);
    let profile = Profile::new(new_id(), Some("Test".to_string()), long_kind.clone());
    assert_eq!(profile.kind, long_kind);
}

#[test]
fn test_profile_memory_efficiency() {
    let profile = create_test_profile();
    let size = std::mem::size_of_val(&profile);
    assert!(size < 1000, "Profile struct is too large: {} bytes", size);
}

#[test]
fn test_profile_hash_consistency() {
    let profile1 = create_test_profile();
    let profile2 = profile1.clone();

    let mut hasher1 = DefaultHasher::new();
    let mut hasher2 = DefaultHasher::new();
    profile1.id.hash(&mut hasher1);
    profile2.id.hash(&mut hasher2);
    assert_eq!(hasher1.finish(), hasher2.finish());
}

#[test]
fn test_profile_error_messages() {
    let mut profile = create_test_profile();

    profile.kind = "".to_string();
    match profile.validate() {
        Err(msg) => assert_eq!(msg, "Profile kind cannot be empty"),
        Ok(_) => panic!("Expected validation error"),
    }

    profile.kind = "user".to_string();
    profile.name = Some("".to_string());
    match profile.validate() {
        Err(msg) => assert_eq!(msg, "Profile name cannot be empty if provided"),
        Ok(_) => panic!("Expected validation error"),
    }

    profile.name = Some("a".repeat(256));
    match profile.validate() {
        Err(msg) => assert_eq!(msg, "Profile name cannot exceed 255 characters"),
        Ok(_) => panic!("Expected validation error"),
    }

    profile.name = Some("Valid Name".to_string());
    profile.status = "invalid".to_string();
    match profile.validate() {
        Err(msg) => assert_eq!(msg, "Invalid profile status"),
        Ok(_) => panic!("Expected validation error"),
    }
}

#[test]
fn profile_timestamps_are_rfc3339() {
    let profile = create_test_profile();
    assert!(chrono::DateTime::parse_from_rfc3339(&profile.created_at).is_ok());
}

#[test]
fn profile_name_limit_counts_bytes() {
    let mut profile = create_test_profile();
    profile.name = Some("é".repeat(128));
    assert_eq!(profile.validate().unwrap_err(), "Profile name cannot exceed 255 characters");
    profile.name = Some("é".repeat(127));
    assert!(profile.validate().is_ok());
}
