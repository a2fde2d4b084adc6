use agent_reach::cli::{
    build_card, default_card_id, format_age, get_relays, heartbeat_age, is_online,
    parse_capability, parse_protocol, split_once,
};
use agent_reach::crypto::IdentityKey;
use agent_reach::discovery::{
    kind_heartbeat, kind_service_card, make_tags, read_event_tags, Error, KIND_HEARTBEAT,
    KIND_SERVICE_CARD, LABEL_HEARTBEAT, LABEL_NAMESPACE, LABEL_SERVICE_CARD,
};
use agent_reach::heartbeat::{Heartbeat, Status};
use agent_reach::identity::{
    key_from_base64, key_from_hex, key_from_slice, key_to_hex, IdentityError,
};
use agent_reach::service_card::{
    protocol_of, Capability, Protocol, ServiceCard, ServiceCardBuilder,
};

fn strings(items: &[&str]) -> Vec<String> {
    items.iter().map(|s| s.to_string()).collect()
}

fn tags(items: &[&[&str]]) -> Vec<Vec<String>> {
    items.iter().map(|t| strings(t)).collect()
}

fn keys() -> nostr::key::Keys {
    nostr::key::Keys::parse("6b911fd37cdf5c81d4c0adb1ab7fa822ed253ab0ad9aa18d77257c88b29b718e")
        .unwrap()
}

fn sample_card() -> ServiceCard {
    ServiceCard::builder("card-1", "Agent")
        .about("does things")
        .capability("transcription", "Convert audio to text")
        .capability("coding", "Write code")
        .protocol(Protocol::dm("wss://relay.example"))
        .protocol(Protocol::dvm("wss://dvm.example", vec![5000, 5001]))
        .protocol(Protocol::custom("grpc", "grpc://x"))
        .build()
}

#[test]
fn kinds_and_labels() {
    assert_eq!(KIND_SERVICE_CARD, 31990);
    assert_eq!(KIND_HEARTBEAT, 31991);
    assert_eq!(kind_service_card(), 31990);
    assert_eq!(kind_heartbeat(), 31991);
    assert_eq!(LABEL_NAMESPACE, "agent-discovery");
    assert_eq!(LABEL_SERVICE_CARD, "service-card");
    assert_eq!(LABEL_HEARTBEAT, "heartbeat");
}

#[test]
fn status_words() {
    assert_eq!(Status::Available.name(), "available");
    assert_eq!(Status::Busy.name(), "busy");
    assert_eq!(Status::Maintenance.name(), "maintenance");
    assert_eq!(Status::parse("available"), Ok(Status::Available));
    assert_eq!(Status::parse("busy"), Ok(Status::Busy));
    assert_eq!(Status::parse("maintenance"), Ok(Status::Maintenance));
    assert_eq!(
        Status::parse("Busy"),
        Err(Error::ParseError("unknown status: Busy".to_string()))
    );
    assert_eq!(Status::parse(""), Err(Error::ParseError("unknown status: ".to_string())));
}

#[test]
fn heartbeat_constructors() {
    assert_eq!(
        Heartbeat::new("card", Status::Busy),
        Heartbeat { service_card_id: "card".to_string(), status: Status::Busy }
    );
    assert_eq!(Heartbeat::available("c").status, Status::Available);
    assert_eq!(Heartbeat::busy("c").status, Status::Busy);
    assert_eq!(Heartbeat::maintenance("c").status, Status::Maintenance);
    assert_eq!(Heartbeat::maintenance("c").service_card_id, "c");
}

#[test]
fn heartbeat_tags_in_order() {
    let h = Heartbeat::busy("card-1");
    assert_eq!(
        h.tag_values(),
        tags(&[
            &["L", "agent-discovery"],
            &["l", "heartbeat", "agent-discovery"],
            &["d", "card-1"],
            &["s", "busy"],
        ])
    );
    let made: Vec<Vec<String>> = h.to_tags().iter().map(|t| t.as_slice().to_vec()).collect();
    assert_eq!(made, h.tag_values());
}

#[test]
fn heartbeat_is_read_back_from_its_tags() {
    for h in [Heartbeat::available("a"), Heartbeat::busy(""), Heartbeat::maintenance("x y")] {
        assert_eq!(Heartbeat::from_tags(&h.tag_values()), Ok(h));
    }
}

#[test]
fn heartbeat_from_tags_takes_the_last_of_each() {
    let r = Heartbeat::from_tags(&tags(&[
        &["d", "first"],
        &["s", "busy"],
        &["x"],
        &["d"],
        &[],
        &["d", "second", "extra"],
        &["s", "available"],
        &["other", "value"],
    ]));
    assert_eq!(r, Ok(Heartbeat::available("second")));
}

#[test]
fn heartbeat_from_tags_errors() {
    assert_eq!(
        Heartbeat::from_tags(&tags(&[&["s", "busy"]])),
        Err(Error::ParseError("missing 'd' tag".to_string()))
    );
    assert_eq!(
        Heartbeat::from_tags(&tags(&[&["d", "card"]])),
        Err(Error::ParseError("missing 'status' tag".to_string()))
    );
    assert_eq!(
        Heartbeat::from_tags(&tags(&[])),
        Err(Error::ParseError("missing 'd' tag".to_string()))
    );
    assert_eq!(
        Heartbeat::from_tags(&tags(&[&["d", "card"], &["s", "asleep"], &["s", "busy"]])),
        Err(Error::ParseError("unknown status: asleep".to_string()))
    );
    assert_eq!(
        Heartbeat::from_tags(&tags(&[&["s", "asleep"]])),
        Err(Error::ParseError("unknown status: asleep".to_string()))
    );
    assert_eq!(
        Heartbeat::from_tags(&tags(&[&["d", "card"], &["s"], &["s", "busy"]])),
        Ok(Heartbeat::busy("card"))
    );
}

#[test]
fn heartbeat_event_round_trip() {
    let h = Heartbeat::maintenance("card-9");
    let event = h.to_event(&keys()).unwrap();
    assert_eq!(event.kind, nostr::event::Kind::Custom(31991));
    assert_eq!(event.content, "");
    assert_eq!(read_event_tags(&event), h.tag_values());
    assert_eq!(Heartbeat::try_from_event(&event), Ok(h));
    assert!(event.verify().is_ok());
}

#[test]
fn capability_tag() {
    let c = Capability::new("coding", "Write code");
    assert_eq!(c, Capability { id: "coding".to_string(), description: "Write code".to_string() });
    assert_eq!(c.tag_values(), strings(&["c", "coding", "Write code"]));
    assert_eq!(c.to_tag().as_slice().to_vec(), strings(&["c", "coding", "Write code"]));
}

#[test]
fn protocol_constructors_names_and_endpoints() {
    let cases = [
        (Protocol::dm("r"), "dm", "r"),
        (Protocol::dvm("r2", vec![1]), "dvm", "r2"),
        (Protocol::a2a("u1"), "a2a", "u1"),
        (Protocol::mcp("u2"), "mcp", "u2"),
        (Protocol::http("u3"), "http", "u3"),
        (Protocol::custom("grpc", "e"), "grpc", "e"),
    ];
    for (p, id, endpoint) in cases {
        assert_eq!(p.id(), id);
        assert_eq!(p.endpoint(), endpoint);
        assert_eq!(p.duplicate(), p);
    }
    assert_eq!(Protocol::dm("r"), Protocol::Dm { relays: "r".to_string() });
    assert_eq!(
        Protocol::dvm("r", vec![7, 8]),
        Protocol::Dvm { relays: "r".to_string(), kinds: vec![7, 8] }
    );
    assert_eq!(
        Protocol::custom("a", "b"),
        Protocol::Custom { id: "a".to_string(), endpoint: "b".to_string() }
    );
}

#[test]
fn protocol_tags() {
    assert_eq!(Protocol::http("https://x").tag_values(), tags(&[&["r", "http", "https://x"]]));
    assert_eq!(
        Protocol::dvm("wss://r", vec![5000, 0, 65535]).tag_values(),
        tags(&[&["r", "dvm", "wss://r"], &["k", "5000"], &["k", "0"], &["k", "65535"]])
    );
    assert_eq!(Protocol::dvm("wss://r", vec![]).tag_values(), tags(&[&["r", "dvm", "wss://r"]]));
    let made: Vec<Vec<String>> = Protocol::dvm("wss://r", vec![9])
        .to_tags()
        .iter()
        .map(|t| t.as_slice().to_vec())
        .collect();
    assert_eq!(made, tags(&[&["r", "dvm", "wss://r"], &["k", "9"]]));
}

#[test]
fn protocol_of_names() {
    assert_eq!(protocol_of("dm", "e".to_string()), Protocol::dm("e"));
    assert_eq!(protocol_of("dvm", "e".to_string()), Protocol::dvm("e", vec![]));
    assert_eq!(protocol_of("a2a", "e".to_string()), Protocol::a2a("e"));
    assert_eq!(protocol_of("mcp", "e".to_string()), Protocol::mcp("e"));
    assert_eq!(protocol_of("http", "e".to_string()), Protocol::http("e"));
    assert_eq!(protocol_of("HTTP", "e".to_string()), Protocol::custom("HTTP", "e"));
    assert_eq!(protocol_of("", "".to_string()), Protocol::custom("", ""));
}

#[test]
fn builder_collects_in_order() {
    let card = sample_card();
    assert_eq!(card.id, "card-1");
    assert_eq!(card.name, "Agent");
    assert_eq!(card.about, "does things");
    assert_eq!(
        card.capabilities,
        vec![
            Capability::new("transcription", "Convert audio to text"),
            Capability::new("coding", "Write code"),
        ]
    );
    assert_eq!(
        card.protocols,
        vec![
            Protocol::dm("wss://relay.example"),
            Protocol::dvm("wss://dvm.example", vec![5000, 5001]),
            Protocol::custom("grpc", "grpc://x"),
        ]
    );
    let empty = ServiceCardBuilder::new("i", "n").build();
    assert_eq!(empty.about, "");
    assert!(empty.capabilities.is_empty());
    assert!(empty.protocols.is_empty());
    let twice = ServiceCardBuilder::new("i", "n").about("a").about("b").build();
    assert_eq!(twice.about, "b");
}

#[test]
fn card_tags_in_order() {
    assert_eq!(
        sample_card().tag_values(),
        tags(&[
            &["L", "agent-discovery"],
            &["l", "service-card", "agent-discovery"],
            &["d", "card-1"],
            &["name", "Agent"],
            &["about", "does things"],
            &["c", "transcription", "Convert audio to text"],
            &["c", "coding", "Write code"],
            &["r", "dm", "wss://relay.example"],
            &["r", "dvm", "wss://dvm.example"],
            &["k", "5000"],
            &["k", "5001"],
            &["r", "grpc", "grpc://x"],
        ])
    );
    let made: Vec<Vec<String>> =
        sample_card().to_tags().iter().map(|t| t.as_slice().to_vec()).collect();
    assert_eq!(made, sample_card().tag_values());
}

#[test]
fn card_is_read_back_from_its_tags() {
    assert_eq!(ServiceCard::from_tags(&sample_card().tag_values()), Ok(sample_card()));
    let plain = ServiceCard::builder("i", "n").build();
    assert_eq!(ServiceCard::from_tags(&plain.tag_values()), Ok(plain));
}

#[test]
fn card_from_tags_rules() {
    let card = ServiceCard::from_tags(&tags(&[
        &[],
        &["d"],
        &["d", "old"],
        &["d", "id"],
        &["name", "n1"],
        &["name", "n2", "ignored"],
        &["c", "only-id"],
        &["c", "cap", "desc", "more"],
        &["r", "mcp"],
        &["r", "dvm", "wss://a"],
        &["k", "12"],
        &["k", "x"],
        &["k", "65536"],
        &["k", "-1"],
        &["k"],
        &["r", "dvm", "wss://b", "extra"],
        &["k", "7"],
        &["r", "weird", "e"],
        &["r"],
        &["unknown", "v"],
    ]))
    .unwrap();
    assert_eq!(card.id, "id");
    assert_eq!(card.name, "n2");
    assert_eq!(card.about, "");
    assert_eq!(card.capabilities, vec![Capability::new("cap", "desc")]);
    assert_eq!(
        card.protocols,
        vec![
            Protocol::mcp(""),
            Protocol::dvm("wss://a", vec![12, 7]),
            Protocol::dvm("wss://b", vec![12, 7]),
            Protocol::custom("weird", "e"),
        ]
    );
}

#[test]
fn card_from_tags_errors() {
    assert_eq!(
        ServiceCard::from_tags(&tags(&[&["name", "n"]])),
        Err(Error::ParseError("missing 'd' tag".to_string()))
    );
    assert_eq!(
        ServiceCard::from_tags(&tags(&[&["d", "i"]])),
        Err(Error::ParseError("missing 'name' tag".to_string()))
    );
    assert_eq!(
        ServiceCard::from_tags(&tags(&[])),
        Err(Error::ParseError("missing 'd' tag".to_string()))
    );
    assert_eq!(
        Error::ParseError("missing 'd' tag".to_string()).message(),
        "Parse error: missing 'd' tag"
    );
    assert_eq!(Error::SigningError("x".to_string()).message(), "Signing error: x");
    assert_eq!(Error::RelayError("x".to_string()).message(), "Relay error: x");
    assert_eq!(Error::NostrError("x".to_string()).message(), "Nostr error: x");
    assert_eq!(Error::InvalidCapability("x".to_string()).message(), "Invalid capability: x");
    assert_eq!(Error::InvalidProtocol("x".to_string()).message(), "Invalid protocol: x");
    assert_eq!(Error::SerializationError("x".to_string()).message(), "Serialization error: x");
}

#[test]
fn card_event_round_trip() {
    let card = sample_card();
    let event = card.to_event(&keys()).unwrap();
    assert_eq!(event.kind, nostr::event::Kind::Custom(31990));
    assert_eq!(read_event_tags(&event), card.tag_values());
    assert_eq!(ServiceCard::try_from_event(&event), Ok(card));
    assert!(event.verify().is_ok());
}

#[test]
fn make_tags_keeps_order_and_duplicates() {
    let values = tags(&[&["a"], &["b", "1"], &["a"], &["b", "1"]]);
    let made: Vec<Vec<String>> =
        make_tags(values.clone()).iter().map(|t| t.as_slice().to_vec()).collect();
    assert_eq!(made, values);
    assert!(make_tags(Vec::new()).is_empty());
}

#[test]
fn split_once_at_the_first_separator() {
    assert_eq!(split_once("a:b", ':'), Some(("a".to_string(), "b".to_string())));
    assert_eq!(split_once("a:b:c", ':'), Some(("a".to_string(), "b:c".to_string())));
    assert_eq!(split_once(":", ':'), Some((String::new(), String::new())));
    assert_eq!(split_once("a:", ':'), Some(("a".to_string(), String::new())));
    assert_eq!(split_once(":b", ':'), Some((String::new(), "b".to_string())));
    assert_eq!(split_once("ab", ':'), None);
    assert_eq!(split_once("", ':'), None);
    assert_eq!(
        split_once("\u{e9}\u{1F389}:\u{e9}", ':'),
        Some(("\u{e9}\u{1F389}".to_string(), "\u{e9}".to_string()))
    );
}

#[test]
fn capability_arguments() {
    assert_eq!(
        parse_capability("transcription:Convert audio to text"),
        Ok(Capability::new("transcription", "Convert audio to text"))
    );
    assert_eq!(parse_capability("a:b:c"), Ok(Capability::new("a", "b:c")));
    assert_eq!(parse_capability(":"), Ok(Capability::new("", "")));
    assert_eq!(
        parse_capability("nocolon"),
        Err(Error::InvalidCapability("Capability must be in format 'id:description'".to_string()))
    );
}

#[test]
fn protocol_arguments() {
    assert_eq!(parse_protocol("dm:wss://r"), Ok(Protocol::dm("wss://r")));
    assert_eq!(parse_protocol("dvm:wss://r"), Ok(Protocol::dvm("wss://r", vec![])));
    assert_eq!(
        parse_protocol("a2a:https://example.com/.well-known/agent.json"),
        Ok(Protocol::a2a("https://example.com/.well-known/agent.json"))
    );
    assert_eq!(parse_protocol("mcp:u"), Ok(Protocol::mcp("u")));
    assert_eq!(parse_protocol("http:u"), Ok(Protocol::http("u")));
    assert_eq!(parse_protocol("grpc:u"), Ok(Protocol::custom("grpc", "u")));
    assert_eq!(
        parse_protocol("http"),
        Err(Error::InvalidProtocol("Protocol must be in format 'type:endpoint'".to_string()))
    );
}

#[test]
fn relays_by_precedence() {
    let defaults = strings(&["wss://relay.damus.io", "wss://nos.lol", "wss://relay.nostr.band"]);
    assert_eq!(get_relays(strings(&["a", "b"]), &strings(&["c"])), strings(&["a", "b"]));
    assert_eq!(get_relays(strings(&[]), &strings(&["c", "d"])), strings(&["c", "d"]));
    assert_eq!(get_relays(strings(&[]), &strings(&[])), defaults);
    assert_eq!(get_relays(strings(&["a"]), &strings(&[])), strings(&["a"]));
}

#[test]
fn default_card_id_from_public_key() {
    assert_eq!(default_card_id("0123456789abcdef"), "01234567-v1");
    assert_eq!(default_card_id("abcdefgh"), "abcdefgh-v1");
}

#[test]
fn build_card_from_arguments() {
    let card = build_card(
        "id",
        "name",
        "about",
        &strings(&["a:first", "b:second:x"]),
        &strings(&["http:https://x", "dvm:wss://r", "odd:e"]),
    )
    .unwrap();
    assert_eq!(
        card,
        ServiceCard::builder("id", "name")
            .about("about")
            .capability("a", "first")
            .capability("b", "second:x")
            .protocol(Protocol::http("https://x"))
            .protocol(Protocol::dvm("wss://r", vec![]))
            .protocol(Protocol::custom("odd", "e"))
            .build()
    );
    assert_eq!(
        build_card("i", "n", "", &strings(&[]), &strings(&[])),
        Ok(ServiceCard::builder("i", "n").build())
    );
    assert!(matches!(
        build_card("i", "n", "", &strings(&["ok:1", "bad", "worse"]), &strings(&["alsobad"])),
        Err(Error::InvalidCapability(_))
    ));
    assert!(matches!(
        build_card("i", "n", "", &strings(&["ok:1"]), &strings(&["http:x", "bad"])),
        Err(Error::InvalidProtocol(_))
    ));
}

#[test]
fn heartbeat_age_and_online_window() {
    assert_eq!(heartbeat_age(1000, 400), 600);
    assert_eq!(heartbeat_age(400, 1000), 0);
    assert_eq!(heartbeat_age(5, 5), 0);
    assert_eq!(heartbeat_age(u64::MAX, 0), u64::MAX);
    assert!(is_online(0));
    assert!(is_online(899));
    assert!(!is_online(900));
    assert!(!is_online(u64::MAX));
}

#[test]
fn age_in_words() {
    assert_eq!(format_age(0), "0s ago");
    assert_eq!(format_age(59), "59s ago");
    assert_eq!(format_age(60), "1m ago");
    assert_eq!(format_age(119), "1m ago");
    assert_eq!(format_age(3599), "59m ago");
    assert_eq!(format_age(3600), "1h ago");
    assert_eq!(format_age(7300), "2h ago");
    assert_eq!(format_age(u64::MAX), "5124095576030431h ago");
}

#[test]
fn key_from_hex_text() {
    let text = "0102030405060708090a0b0c0d0e0f101112131415161718191a1b1c1d1e1f20";
    let key = key_from_hex(text).unwrap();
    let mut expected = [0u8; 32];
    for (i, b) in expected.iter_mut().enumerate() {
        *b = i as u8 + 1;
    }
    assert_eq!(key.to_bytes(), expected);
    assert_eq!(key_to_hex(&key), text);
    assert_eq!(key_from_hex(&text.to_uppercase()).unwrap().to_bytes(), expected);
    assert_eq!(key_from_hex(&text[2..]).err(), Some(IdentityError::InvalidLength));
    assert_eq!(key_from_hex("").err(), Some(IdentityError::InvalidLength));
    assert_eq!(key_from_hex("0").err(), Some(IdentityError::InvalidEncoding));
    assert_eq!(key_from_hex("zz").err(), Some(IdentityError::InvalidEncoding));
    assert_eq!(key_from_hex(&format!("{} ", text)).err(), Some(IdentityError::InvalidEncoding));
    assert_eq!(
        key_from_hex(&text.replace("01", "\u{e9}")).err(),
        Some(IdentityError::InvalidEncoding)
    );
}

#[test]
fn key_from_base64_text() {
    let secret = [7u8; 32];
    let text = base64::Engine::encode(&base64::engine::general_purpose::STANDARD, secret);
    assert_eq!(key_from_base64(&text).unwrap().to_bytes(), secret);
    assert_eq!(key_from_base64("AAAA").err(), Some(IdentityError::InvalidLength));
    assert_eq!(key_from_base64("").err(), Some(IdentityError::InvalidLength));
    assert_eq!(key_from_base64("not base64!").err(), Some(IdentityError::InvalidEncoding));
    assert_eq!(
        key_from_base64(&text).unwrap().did(),
        IdentityKey::from_bytes(secret).did()
    );
}

#[test]
fn key_from_bytes_needs_thirty_two() {
    assert_eq!(key_from_slice(&vec![1u8; 32]).unwrap().to_bytes(), [1u8; 32]);
    assert_eq!(key_from_slice(&vec![1u8; 31]).err(), Some(IdentityError::InvalidLength));
    assert_eq!(key_from_slice(&vec![1u8; 33]).err(), Some(IdentityError::InvalidLength));
    assert_eq!(key_from_slice(&Vec::new()).err(), Some(IdentityError::InvalidLength));
}
