use agent_reach::client::{lookup_url, request_url};
use agent_reach::handlers::{lookup_at, AppState};
use agent_reach::mcp::{
    deregistered_text, failure_text, found_text, lookup_outcome, registered_text, status_text,
    whoami_text, LookupOutcome, Tool, DEFAULT_REGISTRY_URL,
};
use agent_reach::registry::{restore_entry, store_ttl, Registry};
use agent_reach::types::RegistryEntry;

#[test]
fn request_addresses() {
    assert_eq!(request_url("http://localhost:3001", "/hello"), "http://localhost:3001/hello");
    assert_eq!(request_url("", ""), "");
    assert_eq!(
        lookup_url("http://localhost:3001", "did:key:z6Mk"),
        "http://localhost:3001/lookup/did%3Akey%3Az6Mk"
    );
    assert_eq!(lookup_url("s", "a b/c~d-e_f.g"), "s/lookup/a%20b%2Fc~d-e_f.g");
    assert_eq!(lookup_url("s", "\u{e9}"), "s/lookup/%C3%A9");
    assert_eq!(lookup_url("s", ""), "s/lookup/");
}

#[test]
fn lookup_address_leads_back_to_the_did() {
    let mut state = AppState::new();
    for did in ["did:key:z6Mk", "a b/c%d", "\u{e9}\u{1F389}", "100%"] {
        state.registry.register(RegistryEntry::new(did.to_string(), "e".to_string(), 0, 10));
        let url = lookup_url("", did);
        let segment = url.strip_prefix("/lookup/").unwrap();
        assert_eq!(lookup_at(&state, segment, 1).unwrap().did, did);
    }
}

#[test]
fn store_keeps_a_row_for_the_time_it_has_left() {
    assert_eq!(store_ttl(160, 100), 60);
    assert_eq!(store_ttl(101, 100), 1);
    assert_eq!(store_ttl(100, 100), 1);
    assert_eq!(store_ttl(50, 100), 1);
    assert_eq!(store_ttl(i64::MAX, i64::MIN), u64::MAX);
    assert_eq!(store_ttl(i64::MIN, i64::MAX), 1);
}

#[test]
fn row_comes_back_from_the_store() {
    let entry = restore_entry("did:a", "https://a".to_string(), 90, 60, 100).unwrap();
    assert_eq!(
        entry,
        RegistryEntry {
            did: "did:a".to_string(),
            endpoint: "https://a".to_string(),
            registered_at: 90,
            expires_at: 160,
        }
    );
    assert_eq!(restore_entry("d", "e".to_string(), 0, -2, 100).unwrap().expires_at, 98);
    assert_eq!(restore_entry("d", "e".to_string(), 0, 1, i64::MAX), None);
    assert_eq!(restore_entry("d", "e".to_string(), 0, -1, i64::MIN), None);
    assert_eq!(restore_entry("d", "e".to_string(), 0, 0, i64::MAX).unwrap().expires_at, i64::MAX);
    let mut registry = Registry::new();
    let stored = RegistryEntry::new("did:a".to_string(), "e".to_string(), 100, 60);
    let back = restore_entry("did:a", "e".to_string(), 100, store_ttl(160, 120) as i64, 120).unwrap();
    assert_eq!(back, stored);
    registry.register(back);
    assert!(registry.lookup("did:a", 159).is_some());
}

#[test]
fn tools_by_name() {
    assert_eq!(DEFAULT_REGISTRY_URL, "https://reach.agent-id.ai");
    let names = ["reach_register", "reach_lookup", "reach_deregister", "reach_status", "reach_whoami"];
    let tools = Tool::all();
    assert_eq!(tools.len(), 5);
    for (tool, name) in tools.iter().zip(names) {
        assert_eq!(tool.name(), name);
        assert_eq!(Tool::parse(name), Ok(*tool));
        assert!(!tool.description().is_empty());
    }
    assert_eq!(Tool::parse("reach_unknown"), Err("Unknown tool: reach_unknown".to_string()));
    assert_eq!(Tool::parse(""), Err("Unknown tool: ".to_string()));
    assert_eq!(Tool::parse("Reach_lookup"), Err("Unknown tool: Reach_lookup".to_string()));
    assert_eq!(Tool::Register.required_argument(), Some("endpoint"));
    assert_eq!(Tool::Lookup.required_argument(), Some("did"));
    assert_eq!(Tool::Deregister.required_argument(), None);
    assert_eq!(Tool::Status.required_argument(), None);
    assert_eq!(Tool::Whoami.required_argument(), None);
    assert!(Tool::Register.needs_session());
    assert!(Tool::Deregister.needs_session());
    assert!(!Tool::Lookup.needs_session());
    assert!(!Tool::Status.needs_session());
    assert!(!Tool::Whoami.needs_session());
    assert_eq!(Tool::Lookup.description(), "Look up an agent's endpoint by DID");
}

#[test]
fn lookup_answers_by_status() {
    assert_eq!(lookup_outcome(200), LookupOutcome::Found);
    assert_eq!(lookup_outcome(299), LookupOutcome::Found);
    assert_eq!(lookup_outcome(404), LookupOutcome::NotFound);
    assert_eq!(lookup_outcome(410), LookupOutcome::Failed);
    assert_eq!(lookup_outcome(400), LookupOutcome::Failed);
    assert_eq!(lookup_outcome(500), LookupOutcome::Failed);
    assert_eq!(lookup_outcome(199), LookupOutcome::Failed);
    assert_eq!(lookup_outcome(300), LookupOutcome::Failed);
}

#[test]
fn what_the_adapter_says() {
    assert_eq!(failure_text(Some("Session expired".to_string())), "Session expired");
    assert_eq!(failure_text(None), "Unknown error");
    assert_eq!(
        registered_text("did:a", "https://a"),
        "\u{2713} Registered did:a at endpoint: https://a"
    );
    assert_eq!(found_text("did:a", "https://a"), "\u{2713} Found did:a\n  Endpoint: https://a");
    assert_eq!(deregistered_text("did:a"), "\u{2713} Deregistered did:a");
    assert_eq!(
        status_text("did:a", Some("https://a")),
        "\u{2713} Registered\n  DID: did:a\n  Endpoint: https://a"
    );
    assert_eq!(status_text("did:a", None), "\u{25cb} Not registered\n  DID: did:a");
    assert_eq!(whoami_text("did:a"), "Your DID: did:a");
}
