use agent_reach::canonical::{push_decimal, push_json_string};
use agent_reach::crypto::{
    is_valid_did, random_token, sha256_hex, token_of, verify_signature, IdentityKey,
};
use agent_reach::messages::{Challenge, Proof};

fn sample_challenge() -> Challenge {
    Challenge {
        issuer: "did:key:server".to_string(),
        audience: "did:key:alice".to_string(),
        nonce: "00ff".to_string(),
        issued_at: 1000,
        expires_at: 1060,
        issuer_signature: "ignored".to_string(),
    }
}

#[test]
fn canonical_challenge_is_sorted_and_compact() {
    assert_eq!(
        sample_challenge().canonical(),
        "{\"audience\":\"did:key:alice\",\"expires_at\":1060,\"issued_at\":1000,\"issuer\":\"did:key:server\",\"nonce\":\"00ff\"}"
    );
}

#[test]
fn canonical_challenge_leaves_the_signature_out() {
    let mut other = sample_challenge();
    other.issuer_signature = "something else".to_string();
    assert_eq!(other.canonical(), sample_challenge().canonical());
    assert_eq!(other.hash(), sample_challenge().hash());
}

#[test]
fn challenge_hash_is_sha256_of_canonical_text_in_lower_hex() {
    assert_eq!(
        sample_challenge().hash(),
        "d55a548523d473f6050cb6d552e16b505f5f0b5dcbcb8f38708f0629c6f99bf1"
    );
}

#[test]
fn challenge_hash_changes_with_every_member() {
    let base = sample_challenge().hash();
    let mut c = sample_challenge();
    c.issuer.push('x');
    assert_ne!(c.hash(), base);
    let mut c = sample_challenge();
    c.audience.push('x');
    assert_ne!(c.hash(), base);
    let mut c = sample_challenge();
    c.nonce.push('0');
    assert_ne!(c.hash(), base);
    let mut c = sample_challenge();
    c.issued_at += 1;
    assert_ne!(c.hash(), base);
    let mut c = sample_challenge();
    c.expires_at += 1;
    assert_ne!(c.hash(), base);
}

#[test]
fn canonical_text_escapes_and_extremes() {
    let c = Challenge {
        issuer: String::new(),
        audience: "a\"b\\c\n\t\r\u{8}\u{c}\u{1}\u{1f}\u{e9}\u{1F389}".to_string(),
        nonce: "/".to_string(),
        issued_at: i64::MAX,
        expires_at: i64::MIN,
        issuer_signature: String::new(),
    };
    assert_eq!(
        c.canonical(),
        "{\"audience\":\"a\\\"b\\\\c\\n\\t\\r\\b\\f\\u0001\\u001f\u{e9}\u{1F389}\",\"expires_at\":-9223372036854775808,\"issued_at\":9223372036854775807,\"issuer\":\"\",\"nonce\":\"/\"}"
    );
    assert_eq!(
        c.hash(),
        "fe1069b85f9f7d2cf9e94e5efed8e252a29c8ccf68b5f7a9e0bd5428bb31d75e"
    );
}

#[test]
fn canonical_proof_is_sorted_and_compact() {
    let p = Proof {
        responder_did: "did:key:alice".to_string(),
        challenge_hash: "abc".to_string(),
        issuer: "did:key:server".to_string(),
        signed_at: -5,
        responder_signature: "ignored".to_string(),
    };
    assert_eq!(
        p.canonical(),
        "{\"challenge_hash\":\"abc\",\"issuer\":\"did:key:server\",\"responder_did\":\"did:key:alice\",\"signed_at\":-5}"
    );
}

#[test]
fn canonical_text_agrees_with_a_json_reader() {
    let c = Challenge {
        issuer: "did:key:s\u{7f}\"".to_string(),
        audience: "line\nbreak \u{0} \u{10} tab\t".to_string(),
        nonce: "\\u0041".to_string(),
        issued_at: 0,
        expires_at: -1,
        issuer_signature: String::new(),
    };
    let value: serde_json::Value = serde_json::from_str(&c.canonical()).unwrap();
    assert_eq!(value["issuer"].as_str().unwrap(), c.issuer);
    assert_eq!(value["audience"].as_str().unwrap(), c.audience);
    assert_eq!(value["nonce"].as_str().unwrap(), c.nonce);
    assert_eq!(value["issued_at"].as_i64().unwrap(), 0);
    assert_eq!(value["expires_at"].as_i64().unwrap(), -1);
    assert_eq!(value.as_object().unwrap().len(), 5);
}

#[test]
fn decimal_has_no_leading_zeros() {
    for (n, text) in [
        (0i64, "0"),
        (7, "7"),
        (10, "10"),
        (-1, "-1"),
        (-10, "-10"),
        (1234567890, "1234567890"),
        (i64::MAX, "9223372036854775807"),
        (i64::MIN, "-9223372036854775808"),
    ] {
        let mut out = String::from(">");
        push_decimal(&mut out, n);
        assert_eq!(out, format!(">{}", text));
    }
}

#[test]
fn json_string_appends_to_what_is_there() {
    let mut out = String::from("x=");
    push_json_string(&mut out, "a/b");
    push_json_string(&mut out, "");
    assert_eq!(out, "x=\"a/b\"\"\"");
}

#[test]
fn sha256_hex_of_known_inputs() {
    assert_eq!(
        sha256_hex(b""),
        "e3b0c44298fc1c149afbf4c8996fb92427ae41e4649b934ca495991b7852b855"
    );
    assert_eq!(
        sha256_hex(b"abc"),
        "ba7816bf8f01cfea414140de5dae2223b00361a396177a9cb410ff61f20015ad"
    );
}

#[test]
fn did_validity_follows_the_did_key_method() {
    assert!(is_valid_did("did:key:z6MkhaXgBZDvotDkL5257faiztiGiC2QtKLGpbnnEGta2doK"));
    assert!(!is_valid_did("did:key:Alice"));
    assert!(!is_valid_did("did:aip:1:abc"));
    assert!(!is_valid_did("did:key:f6MkhaXgBZDvotDkL5257faiztiGiC2QtKLGpbnnEGta2doK"));
    assert!(!is_valid_did(""));
}

#[test]
fn key_did_matches_the_key_crate() {
    let secret = [7u8; 32];
    let key = IdentityKey::from_bytes(secret);
    let expected = agent_id::RootKey::from_bytes(&secret).unwrap().did().to_string();
    assert_eq!(key.did(), expected);
    assert!(key.did().starts_with("did:key:z6Mk"));
    assert!(is_valid_did(&key.did()));
    assert_eq!(key.to_bytes(), secret);
}

#[test]
fn signature_is_hex_of_the_ed25519_signature() {
    let secret = [9u8; 32];
    let key = IdentityKey::from_bytes(secret);
    let signature = key.sign(b"message");
    let expected = agent_id::RootKey::from_bytes(&secret).unwrap().sign(b"message");
    assert_eq!(signature, hex::encode(expected.to_bytes()));
    assert_eq!(signature.len(), 128);
    assert_eq!(signature, signature.to_lowercase());
}

#[test]
fn signature_verifies_only_for_signer_and_message() {
    let alice = IdentityKey::from_bytes([1u8; 32]);
    let bob = IdentityKey::from_bytes([2u8; 32]);
    let signature = alice.sign(b"message");
    assert!(verify_signature(&alice.did(), b"message", &signature));
    assert!(verify_signature(&alice.did(), b"message", &signature.to_uppercase()));
    assert!(!verify_signature(&bob.did(), b"message", &signature));
    assert!(!verify_signature(&alice.did(), b"other", &signature));
    assert!(!verify_signature(&alice.did(), b"message", "zz"));
    assert!(!verify_signature(&alice.did(), b"message", ""));
    assert!(!verify_signature(&alice.did(), b"message", &signature[2..]));
    assert!(!verify_signature("did:key:Alice", b"message", &signature));
}

#[test]
fn generated_keys_differ() {
    let a = IdentityKey::generate();
    let b = IdentityKey::generate();
    assert_ne!(a.to_bytes(), b.to_bytes());
    assert!(is_valid_did(&a.did()));
}

#[test]
fn random_tokens_are_hex_of_the_asked_length() {
    let a = random_token(16).unwrap();
    let b = random_token(16).unwrap();
    assert_eq!(a.len(), 32);
    assert!(a.chars().all(|c| c.is_ascii_hexdigit() && !c.is_ascii_uppercase()));
    assert_ne!(a, b);
    assert_eq!(random_token(0).unwrap(), "");
}

#[test]
fn challenge_is_read_back_from_its_canonical_text() {
    let mut c = sample_challenge();
    let text = c.canonical();
    c.issuer_signature = String::new();
    assert_eq!(Challenge::decode(&text), Some(c));
}

#[test]
fn challenge_with_escapes_and_extremes_is_read_back() {
    let c = Challenge {
        issuer: "\u{0}\u{1}\u{7}\u{8}\u{9}\u{a}\u{b}\u{c}\u{d}\u{e}\u{f}\u{10}\u{1f} \u{7f}".to_string(),
        audience: "a\"b\\c/\u{e9}\u{1F389}\\u0041\\\"".to_string(),
        nonce: String::new(),
        issued_at: i64::MAX,
        expires_at: i64::MIN,
        issuer_signature: String::new(),
    };
    assert_eq!(Challenge::decode(&c.canonical()), Some(c.clone()));
    let zero = Challenge { issued_at: 0, expires_at: -1, ..c };
    assert_eq!(Challenge::decode(&zero.canonical()), Some(zero));
}

#[test]
fn proof_is_read_back_from_its_canonical_text() {
    let p = Proof {
        responder_did: "did:key:alice".to_string(),
        challenge_hash: "ab\ncd".to_string(),
        issuer: "did:key:\"server\"".to_string(),
        signed_at: -1700000000,
        responder_signature: String::new(),
    };
    assert_eq!(Proof::decode(&p.canonical()), Some(p));
}

#[test]
fn text_that_is_not_canonical_is_refused() {
    let good = "{\"audience\":\"a\",\"expires_at\":60,\"issued_at\":0,\"issuer\":\"s\",\"nonce\":\"n\"}";
    assert!(Challenge::decode(good).is_some());
    let bad = [
        "",
        "{}",
        "{\"audience\":\"a\",\"expires_at\":60,\"issued_at\":0,\"issuer\":\"s\",\"nonce\":\"n\"} ",
        " {\"audience\":\"a\",\"expires_at\":60,\"issued_at\":0,\"issuer\":\"s\",\"nonce\":\"n\"}",
        "{\"audience\": \"a\",\"expires_at\":60,\"issued_at\":0,\"issuer\":\"s\",\"nonce\":\"n\"}",
        "{\"audience\":\"a\",\"expires_at\":60,\"issued_at\":0,\"issuer\":\"s\",\"nonce\":\"n\"}}",
        "{\"audience\":\"a\",\"expires_at\":60,\"issued_at\":0,\"issuer\":\"s\",\"nonce\":\"n\"",
        "{\"audience\":\"a\",\"issued_at\":0,\"expires_at\":60,\"issuer\":\"s\",\"nonce\":\"n\"}",
        "{\"audience\":\"a\",\"expires_at\":060,\"issued_at\":0,\"issuer\":\"s\",\"nonce\":\"n\"}",
        "{\"audience\":\"a\",\"expires_at\":60,\"issued_at\":-0,\"issuer\":\"s\",\"nonce\":\"n\"}",
        "{\"audience\":\"a\",\"expires_at\":60,\"issued_at\":00,\"issuer\":\"s\",\"nonce\":\"n\"}",
        "{\"audience\":\"a\",\"expires_at\":+60,\"issued_at\":0,\"issuer\":\"s\",\"nonce\":\"n\"}",
        "{\"audience\":\"a\",\"expires_at\":6.0,\"issued_at\":0,\"issuer\":\"s\",\"nonce\":\"n\"}",
        "{\"audience\":\"a\",\"expires_at\":6e1,\"issued_at\":0,\"issuer\":\"s\",\"nonce\":\"n\"}",
        "{\"audience\":\"a\",\"expires_at\":,\"issued_at\":0,\"issuer\":\"s\",\"nonce\":\"n\"}",
        "{\"audience\":\"a\",\"expires_at\":-,\"issued_at\":0,\"issuer\":\"s\",\"nonce\":\"n\"}",
        "{\"audience\":\"a\",\"expires_at\":\"60\",\"issued_at\":0,\"issuer\":\"s\",\"nonce\":\"n\"}",
        "{\"audience\":\"a\",\"expires_at\":9223372036854775808,\"issued_at\":0,\"issuer\":\"s\",\"nonce\":\"n\"}",
        "{\"audience\":\"a\",\"expires_at\":-9223372036854775809,\"issued_at\":0,\"issuer\":\"s\",\"nonce\":\"n\"}",
        "{\"audience\":\"a\",\"expires_at\":99999999999999999999999999999999999999999,\"issued_at\":0,\"issuer\":\"s\",\"nonce\":\"n\"}",
        "{\"audience\":\"\\u0041\",\"expires_at\":60,\"issued_at\":0,\"issuer\":\"s\",\"nonce\":\"n\"}",
        "{\"audience\":\"\\u000a\",\"expires_at\":60,\"issued_at\":0,\"issuer\":\"s\",\"nonce\":\"n\"}",
        "{\"audience\":\"\\u001F\",\"expires_at\":60,\"issued_at\":0,\"issuer\":\"s\",\"nonce\":\"n\"}",
        "{\"audience\":\"\\u0020\",\"expires_at\":60,\"issued_at\":0,\"issuer\":\"s\",\"nonce\":\"n\"}",
        "{\"audience\":\"\\/\",\"expires_at\":60,\"issued_at\":0,\"issuer\":\"s\",\"nonce\":\"n\"}",
        "{\"audience\":\"\\x\",\"expires_at\":60,\"issued_at\":0,\"issuer\":\"s\",\"nonce\":\"n\"}",
        "{\"audience\":\"\\u00\",\"expires_at\":60,\"issued_at\":0,\"issuer\":\"s\",\"nonce\":\"n\"}",
        "{\"audience\":\"a\nb\",\"expires_at\":60,\"issued_at\":0,\"issuer\":\"s\",\"nonce\":\"n\"}",
        "{\"audience\":\"a\tb\",\"expires_at\":60,\"issued_at\":0,\"issuer\":\"s\",\"nonce\":\"n\"}",
        "{\"audience\":\"a,\"expires_at\":60,\"issued_at\":0,\"issuer\":\"s\",\"nonce\":\"n\"}",
        "{\"audience\":\"a\\\",\"expires_at\":60,\"issued_at\":0,\"issuer\":\"s\",\"nonce\":\"n\"}",
        "{\"audience\":a,\"expires_at\":60,\"issued_at\":0,\"issuer\":\"s\",\"nonce\":\"n\"}",
        "{\"audience\":\"a\",\"expires_at\":60,\"issued_at\":0,\"issuer\":\"s\",\"nonce\":\"n\",\"issuer_signature\":\"x\"}",
        "{\"audience\":\"a\",\"expires_at\":60,\"issued_at\":0,\"issuer\":\"s\"}",
    ];
    for text in bad {
        assert_eq!(Challenge::decode(text), None, "{:?}", text);
    }
    assert_eq!(Proof::decode(good), None);
    assert_eq!(Proof::decode(""), None);
    assert_eq!(
        Proof::decode("{\"challenge_hash\":\"h\",\"issuer\":\"s\",\"responder_did\":\"r\",\"signed_at\":01}"),
        None
    );
    assert!(Proof::decode(
        "{\"challenge_hash\":\"h\",\"issuer\":\"s\",\"responder_did\":\"r\",\"signed_at\":1}"
    )
    .is_some());
}

#[test]
fn every_accepted_text_is_the_canonical_text_of_what_was_read() {
    let texts = [
        "{\"audience\":\"a\",\"expires_at\":60,\"issued_at\":0,\"issuer\":\"s\",\"nonce\":\"n\"}",
        "{\"audience\":\"\\u0000\\u001f\\b\\\\\",\"expires_at\":-7,\"issued_at\":9223372036854775807,\"issuer\":\"\",\"nonce\":\"\\\"\"}",
    ];
    for text in texts {
        assert_eq!(Challenge::decode(text).unwrap().canonical(), text);
    }
}

#[test]
fn token_stands_for_what_was_drawn() {
    assert_eq!(token_of(None), None);
    assert_eq!(token_of(Some(Vec::new())), Some(String::new()));
    assert_eq!(token_of(Some(vec![0x00, 0x0f, 0xa5, 0xff])), Some("000fa5ff".to_string()));
    assert_eq!(random_token(0), Some(String::new()));
    assert_eq!(random_token(1).unwrap().len(), 2);
}
