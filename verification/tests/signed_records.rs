use fedi3_core::chat::{ChatBundle, ChatEnvelope, ChatPreKey, ChatError, bundle_signing_text, envelope_signing_text,
    sign_bundle, verify_bundle_signature, sign_envelope, verify_envelope_signature};
use fedi3_core::relaypost::{build_signed_post_relay_http_request_at, build_signed_post_relay_http_request, RelayPostError};
use fedi3_core::httpsig::{parse_signature_header, build_signing_string, verify_signature_rsa_sha256};
use fedi3_core::retry::retry_sleep_ms;
use fedi3_core::content::extract_hashtags;
use fedi3_core::queue::PostDeliveryMode;
use fedi3_core::legacysync::{run_legacy_stream, LegacyPage, LegacyItem, LegacySyncError};
use fedi3_core::json::Json;
use base64::Engine as _;
use rsa::pkcs8::{EncodePrivateKey, EncodePublicKey, LineEnding};

fn keypair() -> (String, String) {
    let mut rng = rand::thread_rng();
    let key = rsa::RsaPrivateKey::new(&mut rng, 512).expect("key");
    (key.to_pkcs8_pem(LineEnding::LF).expect("pem").to_string(),
        key.to_public_key().to_public_key_pem(LineEnding::LF).expect("pub pem"))
}

fn bundle() -> ChatBundle {
    ChatBundle {
        v: 1,
        actor: "https://h/users/\"u\"".to_string(),
        peer_id: "peer".to_string(),
        did: None,
        device_id: "dev\n1".to_string(),
        kem_public_b64: "KEM".to_string(),
        prekeys: vec![ChatPreKey { id: "a".to_string(), public_b64: "A".to_string() },
            ChatPreKey { id: "b".to_string(), public_b64: "B".to_string() }],
        created_at_ms: -5,
        signature_b64: Some("ignored".to_string()),
    }
}

fn envelope() -> ChatEnvelope {
    ChatEnvelope {
        v: 1, thread_id: "t".to_string(), message_id: "m".to_string(), sender_actor: "https://h/users/u".to_string(),
        sender_device: "d".to_string(), sender_peer_id: "p".to_string(), created_at_ms: 7, kem_alg: "kyber768".to_string(),
        kem_ciphertext_b64: "K".to_string(), kem_key_id: "identity".to_string(), nonce_b64: "N".to_string(),
        ciphertext_b64: "C".to_string(), signature_b64: None,
    }
}

#[test]
fn signing_texts_are_the_fields_in_order() {
    assert_eq!(
        bundle_signing_text(&bundle()),
        "{\"v\":1,\"actor\":\"https://h/users/\\\"u\\\"\",\"peer_id\":\"peer\",\"did\":null,\"device_id\":\"dev\\n1\",\"kem_public_b64\":\"KEM\",\"prekeys\":[{\"id\":\"a\",\"public_b64\":\"A\"},{\"id\":\"b\",\"public_b64\":\"B\"}],\"created_at_ms\":-5,\"signature_b64\":null}"
    );
    assert_eq!(
        envelope_signing_text(&envelope()),
        "{\"v\":1,\"thread_id\":\"t\",\"message_id\":\"m\",\"sender_actor\":\"https://h/users/u\",\"sender_device\":\"d\",\"sender_peer_id\":\"p\",\"created_at_ms\":7,\"kem_alg\":\"kyber768\",\"kem_ciphertext_b64\":\"K\",\"kem_key_id\":\"identity\",\"nonce_b64\":\"N\",\"ciphertext_b64\":\"C\",\"signature_b64\":null}"
    );
}

#[test]
fn bundles_and_envelopes_sign_and_verify() {
    let (private_pem, public_pem) = keypair();
    let (_, other_pem) = keypair();
    let b = sign_bundle(&private_pem, bundle()).expect("signed");
    assert_eq!(verify_bundle_signature(&b, &public_pem), Ok(()));
    assert_eq!(verify_bundle_signature(&b, &other_pem), Err(ChatError::BadSignature));
    let mut tampered = b.clone();
    tampered.peer_id = "other".to_string();
    assert_eq!(verify_bundle_signature(&tampered, &public_pem), Err(ChatError::BadSignature));
    let mut unsigned = b.clone();
    unsigned.signature_b64 = None;
    assert_eq!(verify_bundle_signature(&unsigned, &public_pem), Err(ChatError::MissingSignature));
    unsigned.signature_b64 = Some("!!".to_string());
    assert_eq!(verify_bundle_signature(&unsigned, &public_pem), Err(ChatError::InvalidBase64));
    assert_eq!(sign_bundle("no key", bundle()).unwrap_err(), ChatError::SigningFailed);
    let e = sign_envelope(&private_pem, envelope()).expect("signed");
    assert_eq!(verify_envelope_signature(&e, &public_pem), Ok(()));
    assert_eq!(verify_envelope_signature(&envelope(), &public_pem), Err(ChatError::MissingSignature));
}

#[test]
fn signed_post_requests() {
    let (private_pem, public_pem) = keypair();
    let body = b"{\"type\":\"Follow\"}";
    let q = build_signed_post_relay_http_request_at("id-1".to_string(), &private_pem, "https://me/users/u#main-key",
        "https://remote.example/users/x/inbox?a=b", body, 1_700_000_000).expect("request");
    assert_eq!(q.id, "id-1");
    assert_eq!(q.method, "POST");
    assert_eq!(q.path, "/users/x/inbox");
    assert_eq!(q.query, "?a=b");
    assert_eq!(q.body_b64, base64::engine::general_purpose::STANDARD.encode(body));
    let names: Vec<&str> = q.headers.iter().map(|(k, _)| k.as_str()).collect();
    assert_eq!(names, vec!["accept", "content-type", "date", "digest", "host", "signature"]);
    assert_eq!(q.headers[2].1, "Tue, 14 Nov 2023 22:13:20 GMT");
    assert_eq!(q.headers[4].1, "remote.example");
    let p = parse_signature_header(&q.headers[5].1).expect("parses");
    assert_eq!(p.key_id, "https://me/users/u#main-key");
    let hs: Vec<(String, Option<String>)> = q.headers.iter().map(|(k, v)| (k.clone(), Some(v.clone()))).collect();
    let ss = build_signing_string("POST", &q.path, Some("a=b"), &hs, &p.headers).expect("signing string");
    assert!(verify_signature_rsa_sha256(&public_pem, &ss, &p.signature));
    assert_eq!(build_signed_post_relay_http_request_at("i".to_string(), &private_pem, "k", "http://[bad", body, 1).unwrap_err(),
        RelayPostError::InvalidUrl);
    assert!(build_signed_post_relay_http_request("i".to_string(), "no key", "k", "https://r/inbox", body).is_err());
}

#[test]
fn small_pieces() {
    let w = retry_sleep_ms(400);
    assert!((400..=600).contains(&w));
    assert_eq!(retry_sleep_ms(u64::MAX), u64::MAX);
    assert_eq!(extract_hashtags("#ab_1 #é x"), vec!["ab_1".to_string(), "é".to_string()]);
    assert_eq!(PostDeliveryMode::from_str(" P2P-Only "), PostDeliveryMode::from_str("p2p-only"));
}

#[test]
fn legacy_run_drives_the_steps() {
    let page = |next: Option<&str>, n: usize| LegacyPage {
        schema_version: Some("1".to_string()), mode: Some("delta".to_string()), checkpoint_ms: Some(500),
        items: (0..n).map(|i| LegacyItem { note: Json::Null, created_at_ms: 1000 + i as i64 }).collect(),
        next: next.map(|s| s.to_string()),
    };
    let fetches = std::cell::Cell::new(0);
    let st = run_legacy_stream("https://relay", "u", "notes", Some(100), 5, 3,
        |_url: String| { fetches.set(fetches.get() + 1); Some(page(Some("c"), 2)) },
        |_n: &Json, _t: i64| Some(true)).expect("run");
    assert_eq!(fetches.get(), 2);
    assert_eq!(st.ingested, 3);
    assert_eq!(st.latest_checkpoint, 1001);
    assert_eq!(st.final_checkpoint(1), 1001);
    let err = run_legacy_stream("https://relay", "u", "notes", None, 5, 3, |_u: String| None, |_n: &Json, _t: i64| Some(true));
    assert_eq!(err.unwrap_err(), LegacySyncError::FetchFailed);
    let wrong_mode = run_legacy_stream("https://relay", "u", "notes", None, 5, 3,
        |_u: String| Some(page(None, 1)), |_n: &Json, _t: i64| Some(true));
    assert_eq!(wrong_mode.unwrap_err(), LegacySyncError::UnexpectedMode);
}
