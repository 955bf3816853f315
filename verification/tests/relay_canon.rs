use fedi3_core::relayenc::{RelayHttpRequest, EnvelopeError, decrypt_relay_http_request_body, encrypt_relay_with,
    encrypt_relay_http_request_body, envelope_request};
use fedi3_core::canonjson::canonicalize_json;
use fedi3_core::json::{Json, JsonNumber};
use fedi3_core::media::media_dir;
use fedi3_core::httpsig::{sign_bytes_rsa_sha256, signature_header, parse_signature_header};
use fedi3_core::legacysync::legacy_sync_start;
use fedi3_core::identity::{identity_from_private_pem, IdentityError};
use fedi3_core::digest::did_from_public_key_pem;
use base64::Engine as _;
use rsa::pkcs8::{EncodePrivateKey, EncodePublicKey, LineEnding};

fn keypair(bits: usize) -> (String, String) {
    let mut rng = rand::thread_rng();
    let key = rsa::RsaPrivateKey::new(&mut rng, bits).expect("key");
    let private_pem = key.to_pkcs8_pem(LineEnding::LF).expect("pem").to_string();
    let public_pem = key.to_public_key().to_public_key_pem(LineEnding::LF).expect("pub pem");
    (private_pem, public_pem)
}

fn request(body: &[u8]) -> RelayHttpRequest {
    RelayHttpRequest {
        id: "req-1".to_string(),
        method: "POST".to_string(),
        path: "/inbox".to_string(),
        query: "".to_string(),
        headers: vec![("content-type".to_string(), "application/activity+json".to_string())],
        body_b64: base64::engine::general_purpose::STANDARD.encode(body),
    }
}

fn render(j: &Json) -> String {
    match j {
        Json::Null => "null".to_string(),
        Json::Bool(b) => b.to_string(),
        Json::Number(JsonNumber::PosInt(n)) => n.to_string(),
        Json::Number(JsonNumber::NegInt(n)) => n.to_string(),
        Json::Number(JsonNumber::Float(s)) => s.clone(),
        Json::Str(s) => format!("\"{}\"", s),
        Json::Array(a) => format!("[{}]", a.iter().map(render).collect::<Vec<_>>().join(",")),
        Json::Object(o) => format!(
            "{{{}}}",
            o.iter().map(|(k, v)| format!("\"{}\":{}", k, render(v))).collect::<Vec<_>>().join(",")
        ),
    }
}

#[test]
fn relay_body_encrypts_then_decrypts() {
    let (private_pem, public_pem) = keypair(1024);
    let req = request(b"{\"type\":\"Follow\"}");
    let enc = encrypt_relay_http_request_body(&public_pem, req.clone()).expect("encrypted");
    assert_ne!(enc.body_b64, req.body_b64);
    assert_eq!(enc.headers.len(), 3);
    assert_eq!(enc.headers[1], ("x-fedi3-encrypted".to_string(), "1".to_string()));
    assert_eq!(enc.headers[2], ("content-type".to_string(), "application/json".to_string()));
    let env = base64::engine::general_purpose::STANDARD.decode(enc.body_b64.as_bytes()).expect("b64");
    let env: serde_json::Value = serde_json::from_slice(&env).expect("json envelope");
    assert_eq!(env["v"], 1);
    assert_eq!(env["alg"], "rsa-oaep-sha256+aes-256-gcm");
    let dec = decrypt_relay_http_request_body(&private_pem, enc);
    assert_eq!(dec.body_b64, req.body_b64);
    assert_eq!(dec.headers.len(), 2);
    assert!(dec.headers.iter().all(|(k, _)| !k.eq_ignore_ascii_case("x-fedi3-encrypted")));
    assert_eq!(dec.id, "req-1");
    assert_eq!(dec.path, "/inbox");
}

#[test]
fn relay_encryption_with_given_key_and_edge_cases() {
    let key = [7u8; 32];
    let nonce = [9u8; 12];
    let empty = request(b"");
    let same = encrypt_relay_with("not a key", empty.clone(), &key, &nonce).expect("empty body passes");
    assert_eq!(same.body_b64, empty.body_b64);
    assert_eq!(same.headers, empty.headers);
    let body = request(b"hello");
    assert_eq!(encrypt_relay_with("not a key", body.clone(), &key, &nonce).err(), Some(EnvelopeError::PublicKey));
    let (private_pem, public_pem) = keypair(1024);
    let enc = encrypt_relay_with(&public_pem, body.clone(), &key, &nonce).expect("encrypted");
    let env = base64::engine::general_purpose::STANDARD.decode(enc.body_b64.as_bytes()).expect("b64");
    let env: serde_json::Value = serde_json::from_slice(&env).expect("json envelope");
    assert_eq!(env["nonce_b64"], base64::engine::general_purpose::STANDARD.encode(nonce));
    let dec = decrypt_relay_http_request_body(&private_pem, enc.clone());
    assert_eq!(dec.body_b64, body.body_b64);
    let (other_private, _) = keypair(1024);
    let untouched = decrypt_relay_http_request_body(&other_private, enc.clone());
    assert_eq!(untouched.body_b64, enc.body_b64);
    assert_eq!(untouched.headers, enc.headers);
}

#[test]
fn unmarked_relay_request_passes_through() {
    let req = request(b"plain");
    let out = decrypt_relay_http_request_body("not a key", req.clone());
    assert_eq!(out.body_b64, req.body_b64);
    assert_eq!(out.headers, req.headers);
}

#[test]
fn canonical_json_sorts_members_recursively() {
    let doc = Json::Object(vec![
        ("type".to_string(), Json::Str("Note".to_string())),
        ("attachment".to_string(), Json::Array(vec![Json::Object(vec![
            ("url".to_string(), Json::Str("u".to_string())),
            ("mediaType".to_string(), Json::Null),
        ])])),
        ("id".to_string(), Json::Number(JsonNumber::PosInt(1))),
        ("type".to_string(), Json::Str("Create".to_string())),
    ]);
    let c = canonicalize_json(&doc);
    assert_eq!(render(&c), "{\"attachment\":[{\"mediaType\":null,\"url\":\"u\"}],\"id\":1,\"type\":\"Create\"}");
    assert_eq!(render(&canonicalize_json(&c)), render(&c));
    assert_eq!(render(&canonicalize_json(&Json::Bool(true))), "true");
}

#[test]
fn media_dir_is_under_the_data_dir() {
    assert_eq!(media_dir("/data/fedi3"), "/data/fedi3/media");
    assert_eq!(media_dir("/data/fedi3/"), "/data/fedi3/media");
}

#[test]
fn signing_with_a_too_small_key_fails_cleanly() {
    let (private_pem, _) = keypair(256);
    assert!(sign_bytes_rsa_sha256(&private_pem, b"hello").is_none());
}

#[test]
fn signature_header_reads_back() {
    let names = vec!["(request-target)".to_string(), "host".to_string(), "date".to_string()];
    let sig: Vec<u8> = (0u8..=200).collect();
    let h = signature_header("https://h/users/u#main-key", &names, &sig);
    let p = parse_signature_header(&h).expect("parses");
    assert_eq!(p.key_id, "https://h/users/u#main-key");
    assert_eq!(p.headers, names);
    assert_eq!(p.signature, sig);
}

#[test]
fn legacy_run_stays_within_budgets() {
    let mut st = legacy_sync_start(Some(100));
    let (max_pages, max_items) = (2usize, 3usize);
    let mut pages_fetched = 0;
    while st.wants_page(max_pages, max_items) {
        pages_fetched += 1;
        for t in [150i64, 90, 300, 120, 80] {
            if !st.wants_item(max_items) {
                break;
            }
            st.observe_time(t);
            st.count_ingested();
        }
        st.end_page(false, Some("more".to_string()));
    }
    assert_eq!(pages_fetched, 1);
    assert_eq!(st.ingested, 3);
    assert!(st.pages <= 2);
    assert_eq!(st.final_checkpoint(5), 300);
    assert!(st.final_checkpoint(5) >= 100);
}

#[test]
fn identity_derives_public_key_and_did() {
    let (private_pem, public_pem) = keypair(512);
    let id = identity_from_private_pem(private_pem.clone()).expect("identity");
    assert_eq!(id.private_key_pem, private_pem);
    assert_eq!(id.public_key_pem, public_pem);
    assert_eq!(id.did, did_from_public_key_pem(&public_pem));
    assert!(id.did.starts_with("did:fedi3:"));
    assert_eq!(identity_from_private_pem("garbage".to_string()).err(), Some(IdentityError::BadPrivateKey));
}

#[test]
fn envelope_is_the_key_sorted_json() {
    let out = envelope_request(request(b"x"), b"k", b"n", b"c");
    let env = base64::engine::general_purpose::STANDARD.decode(out.body_b64.as_bytes()).expect("b64");
    assert_eq!(
        String::from_utf8(env.clone()).expect("utf8"),
        "{\"alg\":\"rsa-oaep-sha256+aes-256-gcm\",\"ct_b64\":\"Yw==\",\"ek_b64\":\"aw==\",\"nonce_b64\":\"bg==\",\"v\":1}"
    );
    let mut m = serde_json::Map::new();
    m.insert("v".to_string(), serde_json::Value::from(1));
    m.insert("alg".to_string(), serde_json::Value::from("rsa-oaep-sha256+aes-256-gcm"));
    m.insert("ek_b64".to_string(), serde_json::Value::from("aw=="));
    m.insert("nonce_b64".to_string(), serde_json::Value::from("bg=="));
    m.insert("ct_b64".to_string(), serde_json::Value::from("Yw=="));
    assert_eq!(serde_json::to_vec(&serde_json::Value::Object(m)).expect("json"), env);
    assert_eq!(out.headers.len(), 3);
}
