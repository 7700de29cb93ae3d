use helix_verified::federation::{
    dispatch_entry, matches_query, overview_of, DispatchLog, DispatchLogEntry, DispatchOutcome, DispatchStatus,
    FederationError, FederationEvent, FederationEventKind, PeerDesk, PeerRegistryQuery,
};
use helix_verified::gui::AppState;
use helix_verified::peer_registry::PeerRegistry;

fn valid_peer() -> PeerDesk {
    PeerDesk {
        id: "desk-alpha".to_string(),
        name: "Alpha Desk".to_string(),
        endpoint_url: "https://alpha.helix.io".to_string(),
        auth_token: "secret-token-123".to_string(),
        trust_score: 80,
        enabled: true,
        tags: vec!["osint".to_string()],
        created_at: "2026-01-01T00:00:00Z".to_string(),
        updated_at: "2026-01-01T00:00:00Z".to_string(),
    }
}

fn entry(i: usize, status: DispatchStatus) -> DispatchLogEntry {
    DispatchLogEntry {
        id: format!("e{i}"),
        event_id: format!("ev{i}"),
        peer_id: "p".to_string(),
        peer_endpoint: "http://x".to_string(),
        event_kind: "helix.test".to_string(),
        event_title: format!("T{i}"),
        status,
        http_status: Some(200),
        error_message: None,
        latency_ms: 5,
        dispatched_at: "2026-01-01T00:00:00Z".to_string(),
    }
}

#[test]
fn peer_validation_accepts_valid_peer() {
    assert!(valid_peer().validate().is_ok());
}

#[test]
fn peer_validation_rejects_empty_id() {
    let mut peer = valid_peer();
    peer.id = "".to_string();
    assert!(peer.validate().is_err());
}

#[test]
fn peer_validation_rejects_bad_url() {
    let mut peer = valid_peer();
    peer.endpoint_url = "not a url".to_string();
    assert!(peer.validate().is_err());
}

#[test]
fn peer_validation_rejects_short_token() {
    let mut peer = valid_peer();
    peer.auth_token = "short".to_string();
    assert!(peer.validate().is_err());
}

#[test]
fn peer_validation_rejects_trust_over_100() {
    let mut peer = valid_peer();
    peer.trust_score = 101;
    assert!(peer.validate().is_err());
}

#[test]
fn receive_url_strips_trailing_slash() {
    let mut peer = valid_peer();
    peer.endpoint_url = "https://alpha.helix.io/".to_string();
    assert_eq!(peer.receive_url(), "https://alpha.helix.io/api/v1/federation/receive");
}

#[test]
fn peer_errors_name_the_broken_rule() {
    let mut peer = valid_peer();
    peer.endpoint_url = "not a url".to_string();
    assert_eq!(peer.validate(), Err(FederationError::PeerValidation("endpoint_url must be a valid URL".to_string())));
    let mut peer = valid_peer();
    peer.name = "   ".to_string();
    assert_eq!(peer.validate(), Err(FederationError::PeerValidation("peer name must be 1–128 characters".to_string())));
    let mut peer = valid_peer();
    peer.trust_score = 100;
    assert!(peer.validate().is_ok());
}

#[test]
fn receive_url_strips_every_trailing_slash() {
    let mut peer = valid_peer();
    peer.endpoint_url = "https://alpha.helix.io///".to_string();
    assert_eq!(peer.receive_url(), "https://alpha.helix.io/api/v1/federation/receive");
}

#[test]
fn federation_event_new_sets_correct_type() {
    let event = FederationEvent::new("desk-a", FederationEventKind::CaseEscalated, "Case escalated", "Summary", "Content", 80);
    assert_eq!(event.event_type, "helix.case.escalated");
    assert_eq!(event.source_desk_id, "desk-a");
    assert_eq!(event.target_desk_id, "*");
    assert_eq!(event.specversion, "1.0");
    assert!(!event.id.is_empty());
}

#[test]
fn event_kinds_map_to_their_types() {
    assert_eq!(FederationEventKind::WatchlistHit.event_type(), "helix.watchlist.hit");
    assert_eq!(FederationEventKind::ManualBroadcast.event_type(), "helix.federation.broadcast");
    assert_eq!(FederationEventKind::AutopilotProposal.event_type(), "helix.autopilot.proposal");
}

#[test]
fn query_filters_by_enabled_and_tag() {
    let peer = valid_peer();
    let mut q = PeerRegistryQuery::default();
    assert!(matches_query(&q, &peer));
    q.tag = Some("osint".to_string());
    assert!(matches_query(&q, &peer));
    q.tag = Some("sigint".to_string());
    assert!(!matches_query(&q, &peer));
    q.tag = None;
    q.enabled = Some(false);
    assert!(!matches_query(&q, &peer));
}

#[test]
fn dispatch_log_capacity_eviction() {
    let mut log = DispatchLog::new(5);
    for i in 0..10 {
        log.append(entry(i, DispatchStatus::Delivered));
    }
    assert_eq!(log.len(), 5);
    let recent = log.recent(10);
    assert_eq!(recent[0].id, "e9");
    assert_eq!(recent[4].id, "e5");
    assert!(!log.is_empty());
}

#[test]
fn dispatch_entry_records_each_outcome() {
    let event = FederationEvent::new("desk-a", FederationEventKind::CaseOpened, "Opened", "S", "C", 70);
    let peer = valid_peer();
    let ok = dispatch_entry(
        &event,
        &peer,
        DispatchOutcome::Responded { status: 202, success: true, body: String::new() },
        12,
        "t".to_string(),
    );
    assert_eq!(ok.status, DispatchStatus::Delivered);
    assert_eq!(ok.http_status, Some(202));
    assert!(ok.id.starts_with("log-"));
    assert_eq!(ok.peer_endpoint, "https://alpha.helix.io");
    let failed = dispatch_entry(
        &event,
        &peer,
        DispatchOutcome::Responded { status: 500, success: false, body: "boom".to_string() },
        3,
        "t".to_string(),
    );
    assert_eq!(failed.status, DispatchStatus::Failed);
    assert_eq!(failed.error_message.as_deref(), Some("HTTP 500: boom"));
    let down = dispatch_entry(&event, &peer, DispatchOutcome::Unreachable("refused".to_string()), 1, "t".to_string());
    assert_eq!(down.status, DispatchStatus::Unreachable);
    assert_eq!(down.http_status, None);
    assert_eq!(down.error_message.as_deref(), Some("refused"));
}

#[test]
fn failed_dispatch_message_is_capped_at_512_characters() {
    let event = FederationEvent::new("desk-a", FederationEventKind::CaseOpened, "Opened", "S", "C", 70);
    let long = "x".repeat(1000);
    let failed = dispatch_entry(
        &event,
        &valid_peer(),
        DispatchOutcome::Responded { status: 404, success: false, body: long },
        3,
        "t".to_string(),
    );
    assert_eq!(failed.error_message.unwrap().chars().count(), 512);
}

#[test]
fn overview_counts_peers_and_dispatches() {
    let mut off = valid_peer();
    off.id = "desk-beta".to_string();
    off.enabled = false;
    let entries = vec![
        entry(0, DispatchStatus::Delivered),
        entry(1, DispatchStatus::Failed),
        entry(2, DispatchStatus::Delivered),
        entry(3, DispatchStatus::Unreachable),
    ];
    let o = overview_of("desk-a", vec![valid_peer(), off], &entries);
    assert_eq!(o.status.peer_count, 2);
    assert_eq!(o.status.enabled_peer_count, 1);
    assert_eq!(o.status.total_dispatches, 4);
    assert_eq!(o.status.successful_dispatches, 2);
    assert_eq!(o.status.failed_dispatches, 1);
    assert!(o.status.federation_enabled);
}

#[test]
fn ring_buffer_drops_oldest_events() {
    let mut state: AppState<String> = AppState::new(2);
    state.record_event("a".to_string());
    state.record_event("b".to_string());
    state.record_event("c".to_string());
    let events = state.all_events();
    assert_eq!(events.len(), 2);
    assert_eq!(events[0], "b");
    assert_eq!(events[1], "c");
}

#[test]
fn ring_buffer_keeps_the_latest_in_order() {
    let mut state: AppState<usize> = AppState::new(5);
    for i in 0..12 {
        state.record_event(i);
    }
    assert_eq!(state.all_events(), &vec![7, 8, 9, 10, 11]);
    let fresh: AppState<usize> = AppState::default();
    assert!(fresh.all_events().is_empty());
}

fn peer_with(id: &str, enabled: bool, tags: &[&str]) -> PeerDesk {
    let mut p = valid_peer();
    p.id = id.to_string();
    p.enabled = enabled;
    p.tags = tags.iter().map(|t| t.to_string()).collect();
    p
}

#[test]
fn registry_upsert_and_get() {
    let mut registry = PeerRegistry::new();
    let peer = valid_peer();
    registry.upsert(peer.clone()).unwrap();
    let got = registry.get("desk-alpha").unwrap();
    assert_eq!(got, peer);
}

#[test]
fn registry_remove_returns_peer() {
    let mut registry = PeerRegistry::from_peers(vec![valid_peer()]);
    let removed = registry.remove("desk-alpha").unwrap();
    assert_eq!(removed.id, "desk-alpha");
    assert_eq!(registry.count(), 0);
}

#[test]
fn registry_remove_missing_returns_error() {
    let mut registry = PeerRegistry::new();
    assert_eq!(registry.remove("nope"), Err(FederationError::PeerNotFound("nope".to_string())));
}

#[test]
fn registry_rejects_invalid_peers() {
    let mut registry = PeerRegistry::new();
    let mut bad = valid_peer();
    bad.auth_token = "short".to_string();
    assert!(registry.upsert(bad).is_err());
    assert_eq!(registry.count(), 0);
}

#[test]
fn registry_keeps_ids_sorted_and_unique() {
    let mut registry = PeerRegistry::new();
    registry.upsert(peer_with("desk-c", true, &[])).unwrap();
    registry.upsert(peer_with("desk-a", false, &["osint"])).unwrap();
    registry.upsert(peer_with("desk-b", true, &["osint"])).unwrap();
    registry.upsert(peer_with("desk-a", true, &["osint"])).unwrap();
    let all = registry.list(&PeerRegistryQuery::default());
    let ids: Vec<&str> = all.iter().map(|p| p.id.as_str()).collect();
    assert_eq!(ids, vec!["desk-a", "desk-b", "desk-c"]);
    assert!(all[0].enabled);
}

#[test]
fn registry_list_filters_by_tag_and_enabled() {
    let registry = PeerRegistry::from_peers(vec![
        peer_with("p1", true, &["osint"]),
        peer_with("p2", false, &["osint"]),
        peer_with("p3", true, &[]),
    ]);
    let osint = registry.list(&PeerRegistryQuery { enabled: None, tag: Some("osint".to_string()) });
    assert_eq!(osint.len(), 2);
    let enabled = registry.enabled_peers();
    assert_eq!(enabled.len(), 2);
    assert_eq!(registry.enabled_count(), 2);
    assert_eq!(registry.count(), 3);
    let disabled = registry.list(&PeerRegistryQuery { enabled: Some(false), tag: None });
    assert_eq!(disabled[0].id, "p2");
}

#[test]
fn registry_enabled_peers_filters_disabled() {
    let mut peer = valid_peer();
    peer.enabled = false;
    let registry = PeerRegistry::from_peers(vec![peer]);
    assert_eq!(registry.enabled_peers().len(), 0);
}

#[test]
fn registry_list_filters_by_tag() {
    let mut peer_a = valid_peer();
    peer_a.id = "desk-a".to_string();
    peer_a.tags = vec!["osint".to_string()];
    let mut peer_b = valid_peer();
    peer_b.id = "desk-b".to_string();
    peer_b.tags = vec!["market".to_string()];
    let registry = PeerRegistry::from_peers(vec![peer_a, peer_b]);
    let query = PeerRegistryQuery { enabled: None, tag: Some("osint".to_string()) };
    let result = registry.list(&query);
    assert_eq!(result.len(), 1);
    assert_eq!(result[0].id, "desk-a");
}

#[test]
fn registry_counts() {
    let mut peer_a = valid_peer();
    peer_a.id = "desk-a".to_string();
    let mut peer_b = valid_peer();
    peer_b.id = "desk-b".to_string();
    peer_b.enabled = false;
    let registry = PeerRegistry::from_peers(vec![peer_a, peer_b]);
    assert_eq!(registry.count(), 2);
    assert_eq!(registry.enabled_count(), 1);
}

#[test]
fn dispatch_log_append_and_recent() {
    let mut log = DispatchLog::new(3);
    for i in 0..5 {
        let entry = DispatchLogEntry {
            id: format!("log-{i}"),
            event_id: format!("evt-{i}"),
            peer_id: "peer-a".to_string(),
            peer_endpoint: "http://localhost".to_string(),
            event_kind: "helix.case.escalated".to_string(),
            event_title: format!("Event {i}"),
            status: DispatchStatus::Delivered,
            http_status: Some(200),
            error_message: None,
            latency_ms: 10,
            dispatched_at: "2026-01-01T00:00:00Z".to_string(),
        };
        log.append(entry);
    }
    assert_eq!(log.len(), 3);
    let recent = log.recent(10);
    assert_eq!(recent[0].id, "log-4");
    assert_eq!(recent[2].id, "log-2");
}

#[test]
fn dispatch_log_empty() {
    let log = DispatchLog::new(10);
    assert!(log.is_empty());
    assert_eq!(log.len(), 0);
    assert!(log.recent(5).is_empty());
}

fn make_peer(id: &str, enabled: bool) -> PeerDesk {
    PeerDesk {
        id: id.to_string(),
        name: format!("Peer {id}"),
        endpoint_url: "http://localhost:1".to_string(),
        auth_token: "test-token-12".to_string(),
        trust_score: 75,
        enabled,
        tags: vec!["test".to_string()],
        created_at: "2026-01-01T00:00:00Z".to_string(),
        updated_at: "2026-01-01T00:00:00Z".to_string(),
    }
}

#[test]
fn registry_query_filters() {
    let tagged = |id: &str, enabled: bool, tag: &str| {
        let mut p = make_peer(id, enabled);
        p.tags = vec![tag.to_string()];
        p
    };
    let registry = PeerRegistry::from_peers(vec![tagged("a", true, "osint"), tagged("b", false, "osint"), tagged("c", true, "market")]);

    assert_eq!(registry.list(&PeerRegistryQuery::default()).len(), 3);
    assert_eq!(registry.list(&PeerRegistryQuery { enabled: Some(true), tag: None }).len(), 2);
    assert_eq!(registry.list(&PeerRegistryQuery { enabled: None, tag: Some("osint".to_string()) }).len(), 2);
    let combined = registry.list(&PeerRegistryQuery { enabled: Some(true), tag: Some("osint".to_string()) });
    assert_eq!(combined.len(), 1);
    assert_eq!(combined[0].id, "a");
}

#[test]
fn event_kind_event_types() {
    assert_eq!(FederationEventKind::CaseEscalated.event_type(), "helix.case.escalated");
    assert_eq!(FederationEventKind::WatchlistHit.event_type(), "helix.watchlist.hit");
    assert_eq!(FederationEventKind::EvidenceIngested.event_type(), "helix.evidence.ingested");
    assert_eq!(FederationEventKind::ManualBroadcast.event_type(), "helix.federation.broadcast");
}

#[test]
fn registry_from_peers_keeps_last_of_each_id() {
    let mut first = make_peer("dup", true);
    first.name = "first".to_string();
    let mut second = make_peer("dup", false);
    second.name = "second".to_string();
    let registry = PeerRegistry::from_peers(vec![first, make_peer("other", true), second]);
    assert_eq!(registry.count(), 2);
    let kept = registry.get("dup").unwrap();
    assert_eq!(kept.name, "second");
    assert!(!kept.enabled);
}
