use agent_reach::error::ReachError;
use agent_reach::registry::Registry;
use agent_reach::session::{AuthenticatedSession, SessionStore};
use agent_reach::table::Table;
use agent_reach::types::{
    default_ttl, AgentStatus, DeregisterResponse, RegisterRequest, RegistryEntry,
};

fn entry(did: &str, endpoint: &str, now: i64, ttl: u64) -> RegistryEntry {
    RegistryEntry::new(did.to_string(), endpoint.to_string(), now, ttl)
}

#[test]
fn entry_expires_at_registration_plus_ttl() {
    let e = entry("did:a", "https://a", 100, 60);
    assert_eq!(e.did, "did:a");
    assert_eq!(e.endpoint, "https://a");
    assert_eq!(e.registered_at, 100);
    assert_eq!(e.expires_at, 160);
    assert_eq!(entry("d", "e", -100, 0).expires_at, -100);
    assert_eq!(entry("d", "e", 0, i64::MAX as u64).expires_at, i64::MAX);
}

#[test]
fn entry_status_turns_at_expiry() {
    let e = entry("did:a", "https://a", 100, 60);
    assert_eq!(e.status(100), AgentStatus::Online);
    assert_eq!(e.status(159), AgentStatus::Online);
    assert_eq!(e.status(160), AgentStatus::Expired);
    assert_eq!(e.status(161), AgentStatus::Expired);
    assert_eq!(AgentStatus::Expired.as_str(), "expired");
    assert_eq!(e.duplicate(), e);
}

#[test]
fn default_ttl_is_an_hour() {
    assert_eq!(default_ttl(), 3600);
    assert_eq!(RegisterRequest::new("e".to_string(), None).ttl, 3600);
    assert_eq!(RegisterRequest::new("e".to_string(), Some(5)).ttl, 5);
    assert_eq!(RegisterRequest::new("e".to_string(), Some(0)).endpoint, "e");
}

#[test]
fn lookup_returns_only_live_rows() {
    let mut r = Registry::new();
    assert_eq!(r.lookup("did:a", 0), None);
    r.register(entry("did:a", "https://a", 0, 1));
    assert_eq!(r.lookup("did:a", 0), Some(entry("did:a", "https://a", 0, 1)));
    assert_eq!(r.lookup("did:a", 1), None);
    assert_eq!(r.lookup("did:a", 2), None);
    assert_eq!(r.get("did:a"), Some(entry("did:a", "https://a", 0, 1)));
    assert_eq!(r.lookup("did:b", 0), None);
    assert_eq!(r.lookup("did:A", 0), None);
}

#[test]
fn registration_replaces_the_row() {
    let mut r = Registry::new();
    r.register(entry("did:a", "https://old", 0, 10));
    r.register(entry("did:b", "https://b", 0, 10));
    r.register(entry("did:a", "https://new", 5, 10));
    assert_eq!(r.len(), 2);
    let row = r.lookup("did:a", 12).unwrap();
    assert_eq!(row.endpoint, "https://new");
    assert_eq!(row.registered_at, 5);
    assert_eq!(row.expires_at, 15);
    assert_eq!(r.lookup("did:b", 5).unwrap().endpoint, "https://b");
}

#[test]
fn registering_twice_with_the_same_arguments_leaves_one_row() {
    let mut r = Registry::new();
    r.register(entry("did:a", "https://a", 0, 10));
    r.register(entry("did:a", "https://a", 3, 10));
    assert_eq!(r.len(), 1);
    let row = r.get("did:a").unwrap();
    assert_eq!(row.endpoint, "https://a");
    assert_eq!(row.registered_at, 3);
    assert_eq!(row.expires_at, 13);
}

#[test]
fn deregister_says_whether_a_row_was_there() {
    let mut r = Registry::new();
    assert!(!r.deregister("did:a"));
    r.register(entry("did:a", "https://a", 0, 10));
    r.register(entry("did:b", "https://b", 0, 10));
    assert!(r.deregister("did:a"));
    assert!(!r.deregister("did:a"));
    assert_eq!(r.lookup("did:a", 0), None);
    assert!(r.lookup("did:b", 0).is_some());
    assert_eq!(r.len(), 1);
    r.register(entry("did:a", "https://again", 1, 10));
    assert_eq!(r.lookup("did:a", 1).unwrap().endpoint, "https://again");
}

#[test]
fn expired_row_can_be_deregistered() {
    let mut r = Registry::new();
    r.register(entry("did:a", "https://a", 0, 1));
    assert_eq!(r.lookup("did:a", 5), None);
    assert!(r.deregister("did:a"));
    assert_eq!(r.len(), 0);
}

#[test]
fn cleanup_removes_exactly_the_expired_rows() {
    let mut r = Registry::new();
    r.register(entry("did:a", "a", 0, 10));
    r.register(entry("did:b", "b", 0, 20));
    r.register(entry("did:c", "c", 0, 30));
    r.register(entry("did:d", "d", 0, 10));
    assert_eq!(r.cleanup_expired(9), 0);
    assert_eq!(r.len(), 4);
    assert_eq!(r.cleanup_expired(10), 2);
    assert_eq!(r.len(), 2);
    assert_eq!(r.get("did:a"), None);
    assert_eq!(r.get("did:d"), None);
    assert!(r.lookup("did:b", 10).is_some());
    assert_eq!(r.cleanup_expired(100), 2);
    assert_eq!(r.len(), 0);
    assert_eq!(r.cleanup_expired(100), 0);
}

#[test]
fn cleanup_changes_no_lookup() {
    let mut with = Registry::new();
    let mut without = Registry::new();
    for (did, ttl) in [("did:a", 5u64), ("did:b", 15), ("did:c", 25)] {
        with.register(entry(did, "e", 0, ttl));
        without.register(entry(did, "e", 0, ttl));
    }
    with.cleanup_expired(10);
    for now in [10i64, 14, 15, 24, 25, 100] {
        for did in ["did:a", "did:b", "did:c", "did:x"] {
            assert_eq!(with.lookup(did, now), without.lookup(did, now));
        }
    }
}

#[test]
fn table_keeps_one_value_per_key() {
    let mut t: Table<RegistryEntry> = Table::new();
    assert_eq!(t.len(), 0);
    assert!(!t.contains_key("k"));
    t.insert("k".to_string(), entry("k", "1", 0, 0));
    t.insert("l".to_string(), entry("l", "2", 0, 0));
    t.insert("k".to_string(), entry("k", "3", 0, 0));
    assert_eq!(t.len(), 2);
    assert!(t.contains_key("k"));
    assert_eq!(t.get("k").unwrap().endpoint, "3");
    assert_eq!(t.get("l").unwrap().endpoint, "2");
    assert!(t.get("m").is_none());
    let mut keys = t.keys();
    keys.sort();
    assert_eq!(keys, vec!["k".to_string(), "l".to_string()]);
    assert_eq!(t.remove("k").unwrap().endpoint, "3");
    assert!(t.remove("k").is_none());
    assert_eq!(t.len(), 1);
    assert_eq!(t.get("l").unwrap().endpoint, "2");
    assert_eq!(t.keys(), vec!["l".to_string()]);
}

#[test]
fn table_keys_differ_by_any_character() {
    let mut t: Table<RegistryEntry> = Table::new();
    t.insert("".to_string(), entry("", "empty", 0, 0));
    t.insert("a".to_string(), entry("a", "a", 0, 0));
    t.insert("A".to_string(), entry("A", "A", 0, 0));
    t.insert("a ".to_string(), entry("a ", "space", 0, 0));
    t.insert("\u{e9}".to_string(), entry("\u{e9}", "accent", 0, 0));
    assert_eq!(t.len(), 5);
    assert_eq!(t.get("").unwrap().endpoint, "empty");
    assert_eq!(t.get("A").unwrap().endpoint, "A");
    assert_eq!(t.get("a ").unwrap().endpoint, "space");
    assert_eq!(t.get("\u{e9}").unwrap().endpoint, "accent");
}

#[test]
fn session_store_enforces_the_lifetime_on_reading() {
    let mut s = SessionStore::new();
    let session = AuthenticatedSession { did: "did:a".to_string(), created_at: 1000 };
    s.insert("id".to_string(), session.clone());
    assert_eq!(s.get("id", 1000), Some(session.clone()));
    assert_eq!(s.get("id", 1299), Some(session.clone()));
    assert_eq!(s.get("id", 1300), None);
    assert_eq!(s.get("id", 1301), None);
    assert_eq!(s.get("id", 1299), Some(session.clone()));
    assert_eq!(s.get("other", 1000), None);
    assert_eq!(s.authorize("id", 1299), Ok(session.clone()));
    assert_eq!(s.authorize("id", 1300), Err(ReachError::SessionExpired));
    assert_eq!(s.authorize("other", 1000), Err(ReachError::Unauthorized));
    assert!(session.usable_at(999));
    assert!(!session.usable_at(i64::MAX));
    assert_eq!(session.duplicate(), session);
}

#[test]
fn session_store_survives_extreme_times() {
    let mut s = SessionStore::new();
    s.insert("old".to_string(), AuthenticatedSession { did: "d".to_string(), created_at: i64::MIN });
    s.insert("new".to_string(), AuthenticatedSession { did: "d".to_string(), created_at: i64::MAX });
    assert_eq!(s.get("old", i64::MAX), None);
    assert_eq!(s.get("old", i64::MIN + 299).unwrap().created_at, i64::MIN);
    assert_eq!(s.get("old", i64::MIN + 300), None);
    assert!(s.get("new", i64::MIN).is_some());
    assert!(s.get("new", i64::MAX).is_some());
}

#[test]
fn session_store_removes_and_replaces() {
    let mut s = SessionStore::new();
    s.insert("id".to_string(), AuthenticatedSession { did: "did:a".to_string(), created_at: 0 });
    s.insert("id".to_string(), AuthenticatedSession { did: "did:b".to_string(), created_at: 5 });
    assert_eq!(s.get("id", 5).unwrap().did, "did:b");
    assert!(s.remove("id"));
    assert!(!s.remove("id"));
    assert_eq!(s.authorize("id", 5), Err(ReachError::Unauthorized));
}

#[test]
fn every_error_has_its_status_and_text() {
    let cases = [
        (ReachError::InvalidDid, 400u16, "Invalid DID format"),
        (ReachError::InvalidSignature, 401, "Invalid signature"),
        (ReachError::InvalidChallenge, 400, "Invalid or expired challenge"),
        (ReachError::NotFound, 404, "Agent not found"),
        (ReachError::Expired, 410, "Registration expired"),
        (ReachError::Unauthorized, 401, "Unauthorized - valid session required"),
        (ReachError::SessionExpired, 401, "Session expired"),
        (ReachError::HandshakeError("issuer mismatch".to_string()), 400, "Handshake error: issuer mismatch"),
        (ReachError::Internal("rng".to_string()), 500, "Internal error: rng"),
    ];
    for (error, status, text) in cases {
        assert_eq!(error.status_code(), status);
        assert_eq!(error.message(), text);
        assert_eq!(error.into_response().0, status);
    }
}

#[test]
fn internal_detail_is_not_sent_to_the_client() {
    let e = ReachError::Internal("secret detail".to_string());
    assert_eq!(e.into_response(), (500, "Internal error".to_string()));
    let e = ReachError::HandshakeError("issuer mismatch".to_string());
    assert_eq!(e.into_response(), (400, "Handshake error: issuer mismatch".to_string()));
    assert_eq!(ReachError::NotFound.into_response(), (404, "Agent not found".to_string()));
    assert_eq!(DeregisterResponse { ok: true }, DeregisterResponse { ok: true });
}
