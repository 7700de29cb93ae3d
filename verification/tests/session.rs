use helix_verified::operator_registry::OperatorRegistry;
use helix_verified::operator_session::{
    status_for_age, OperatorSession, PresenceThresholds, SessionKind, SessionRole, SessionStatus,
};

fn session(name: &str, kind: SessionKind) -> OperatorSession {
    OperatorSession::new(name.to_string(), kind, SessionRole::Operator, None)
}

fn seconds_ago(now: chrono::DateTime<chrono::Utc>, secs: i64) -> String {
    (now - chrono::Duration::seconds(secs)).to_rfc3339()
}

#[test]
fn session_new_has_active_status() {
    let session = OperatorSession::new(
        "Alice".to_string(),
        SessionKind::Human,
        SessionRole::Operator,
        Some("Tokyo".to_string()),
    );
    assert_eq!(session.status, SessionStatus::Active);
    assert_eq!(session.kind, SessionKind::Human);
    assert_eq!(session.role, SessionRole::Operator);
    assert!(session.id.starts_with("sess-"));
}

#[test]
fn compute_status_idle_after_threshold() {
    let session = OperatorSession::new("Carol".to_string(), SessionKind::Human, SessionRole::Operator, None);
    let now = chrono::Utc::now();
    let mut session = session;
    session.last_heartbeat = seconds_ago(now, 45);
    let thresholds = PresenceThresholds::default();
    assert_eq!(
        session.compute_status(&now.to_rfc3339(), thresholds.idle_secs, thresholds.disconnect_secs),
        SessionStatus::Idle
    );
}

#[test]
fn compute_status_disconnected_after_timeout() {
    let mut session = OperatorSession::new("Dave".to_string(), SessionKind::Ai, SessionRole::Operator, None);
    let now = chrono::Utc::now();
    session.last_heartbeat = seconds_ago(now, 120);
    let thresholds = PresenceThresholds::default();
    assert_eq!(
        session.compute_status(&now.to_rfc3339(), thresholds.idle_secs, thresholds.disconnect_secs),
        SessionStatus::Disconnected
    );
}

#[test]
fn role_permissions_are_correct() {
    assert!(SessionRole::Admin.can_confirm());
    assert!(SessionRole::Operator.can_confirm());
    assert!(!SessionRole::Viewer.can_confirm());

    assert!(SessionRole::Admin.can_configure());
    assert!(!SessionRole::Operator.can_configure());
    assert!(!SessionRole::Viewer.can_configure());

    assert!(SessionRole::Admin.can_control_loop());
    assert!(!SessionRole::Operator.can_control_loop());

    assert!(SessionRole::Admin.can_manage_sessions());
    assert!(!SessionRole::Operator.can_manage_sessions());
}

#[test]
fn status_thresholds_are_inclusive() {
    assert_eq!(status_for_age(29, 30, 90), SessionStatus::Active);
    assert_eq!(status_for_age(30, 30, 90), SessionStatus::Idle);
    assert_eq!(status_for_age(89, 30, 90), SessionStatus::Idle);
    assert_eq!(status_for_age(90, 30, 90), SessionStatus::Disconnected);
}

#[test]
fn unparsable_heartbeat_counts_as_just_now() {
    let mut s = session("Eve", SessionKind::Human);
    s.last_heartbeat = "not a time".to_string();
    let now = chrono::Utc::now().to_rfc3339();
    assert_eq!(s.compute_status(&now, 30, 90), SessionStatus::Active);
}

#[test]
fn heartbeat_makes_a_session_active() {
    let mut s = session("Finn", SessionKind::Human);
    s.status = SessionStatus::Idle;
    s.heartbeat();
    assert_eq!(s.status, SessionStatus::Active);
}

#[test]
fn add_and_get_session() {
    let mut registry = OperatorRegistry::new();
    let s = session("Alice", SessionKind::Human);
    let id = registry.add(s.clone());
    assert_eq!(id, s.id);
    let got = registry.get(&id).unwrap();
    assert_eq!(got.display_name, "Alice");
    assert_eq!(registry.len(), 1);
    assert!(registry.get("sess-missing").is_none());
}

#[test]
fn adding_the_same_id_replaces_the_session() {
    let mut registry = OperatorRegistry::new();
    let s = session("Alice", SessionKind::Human);
    registry.add(s.clone());
    let mut renamed = s.clone();
    renamed.display_name = "Alice B".to_string();
    registry.add(renamed);
    assert_eq!(registry.len(), 1);
    assert_eq!(registry.get(&s.id).unwrap().display_name, "Alice B");
}

#[test]
fn remove_session() {
    let mut registry = OperatorRegistry::new();
    let s = session("Bob", SessionKind::Human);
    let id = registry.add(s);
    assert!(registry.remove(&id).is_some());
    assert!(registry.is_empty());
    assert!(registry.remove(&id).is_none());
}

#[test]
fn heartbeat_returns_false_for_missing() {
    let mut registry = OperatorRegistry::new();
    assert!(!registry.heartbeat("sess-none"));
    let id = registry.add(session("Cy", SessionKind::Ai));
    assert!(registry.heartbeat(&id));
}

#[test]
fn counts_by_kind() {
    let mut registry = OperatorRegistry::new();
    registry.add(session("H1", SessionKind::Human));
    registry.add(session("H2", SessionKind::Human));
    registry.add(session("A1", SessionKind::Ai));
    assert_eq!(registry.counts_by_kind(), (2, 1));
}

#[test]
fn prune_removes_disconnected() {
    let mut registry = OperatorRegistry::new();
    let now = chrono::Utc::now();
    let mut old = session("Old", SessionKind::Human);
    old.last_heartbeat = seconds_ago(now, 300);
    let fresh = session("Fresh", SessionKind::Human);
    registry.add(old);
    registry.add(fresh);
    assert_eq!(registry.prune_stale_at(&now.to_rfc3339()), 1);
    assert_eq!(registry.len(), 1);
    let listed = registry.list_at(&now.to_rfc3339());
    assert_eq!(listed[0].display_name, "Fresh");
}

#[test]
fn list_active_excludes_disconnected() {
    let mut registry = OperatorRegistry::with_thresholds(PresenceThresholds { idle_secs: 30, disconnect_secs: 90 });
    let now = chrono::Utc::now();
    let mut gone = session("Gone", SessionKind::Human);
    gone.last_heartbeat = seconds_ago(now, 1000);
    registry.add(gone);
    registry.add(session("Here", SessionKind::Ai));
    let active = registry.list_active();
    assert_eq!(active.len(), 1);
    assert_eq!(active[0].display_name, "Here");
    let all = registry.list();
    assert_eq!(all.len(), 2);
    assert_eq!(all[0].status, SessionStatus::Disconnected);
}

#[test]
fn heartbeat_updates_session() {
    let mut registry = OperatorRegistry::new();
    let id = registry.add(session("Carol", SessionKind::Human));
    assert!(registry.heartbeat(&id));
    let updated = registry.get(&id).unwrap();
    assert_eq!(updated.status, SessionStatus::Active);
}

#[test]
fn list_returns_all_sessions() {
    let mut registry = OperatorRegistry::new();
    for i in 0..3 {
        registry.add(session(&format!("User{i}"), SessionKind::Human));
    }
    let sessions = registry.list();
    assert_eq!(sessions.len(), 3);
}

#[test]
fn session_id_is_a_prefixed_v4_uuid() {
    let s = session("Dana", SessionKind::Human);
    let id: Vec<char> = s.id.chars().collect();
    assert_eq!(id.len(), 41);
    let uuid = &id[5..];
    for (i, c) in uuid.iter().enumerate() {
        if i == 8 || i == 13 || i == 18 || i == 23 {
            assert_eq!(*c, '-');
        } else {
            assert!(c.is_ascii_hexdigit() && !c.is_ascii_uppercase());
        }
    }
    assert_eq!(uuid[14], '4');
    assert!(matches!(uuid[19], '8' | '9' | 'a' | 'b'));
    assert!(s.joined_at.ends_with("+00:00"));
}
