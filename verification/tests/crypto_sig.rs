use fedi3_core::digest::{short_hash, abuse_key_for_key_id, abuse_key_for_actor, did_from_public_key_pem, chat_dm_thread_id, hex_encode};
use fedi3_core::httpsig::{parse_signature_header, SigParseError, build_signing_string, SigningError, verify_digest_if_present, DigestError,
    signature_header, sign_bytes_rsa_sha256, verify_bytes_rsa_sha256, verify_signature_rsa_sha256, verify_date_at, DateError,
    sign_request_at, SignRequestError};
use fedi3_core::chat::{derive_key, seal_payload, open_payload, ChatError, random_id};
use rsa::pkcs8::{EncodePrivateKey, EncodePublicKey, LineEnding};

fn keypair() -> (String, String) {
    let mut rng = rand::thread_rng();
    let key = rsa::RsaPrivateKey::new(&mut rng, 512).expect("key");
    let private_pem = key.to_pkcs8_pem(LineEnding::LF).expect("pem").to_string();
    let public_pem = key.to_public_key().to_public_key_pem(LineEnding::LF).expect("pub pem");
    (private_pem, public_pem)
}

#[test]
fn short_hash_is_sha256_prefix() {
    assert_eq!(short_hash("abc"), "ba7816bf8f01cfea");
    assert_eq!(abuse_key_for_key_id("abc"), "key:ba7816bf8f01cfea");
    assert_eq!(abuse_key_for_actor("abc"), "actor:ba7816bf8f01cfea");
    assert_eq!(hex_encode(&[0, 255, 16]), "00ff10");
}

#[test]
fn did_is_first_32_hex_of_sha256() {
    assert_eq!(did_from_public_key_pem("abc"), "did:fedi3:ba7816bf8f01cfea414140de5dae2223");
}

#[test]
fn dm_thread_id_hashes_joined_members() {
    // sha256("a|b")
    let id = chat_dm_thread_id(&["a".to_string(), "b".to_string()]);
    assert!(id.starts_with("urn:fedi3:chat:dm:"));
    assert_eq!(id.len(), "urn:fedi3:chat:dm:".len() + 64);
    assert_ne!(id, chat_dm_thread_id(&["b".to_string(), "a".to_string()]));
}

#[test]
fn signature_header_parses() {
    let p = parse_signature_header(r#"keyId="https://a/users/u#main-key", headers="(request-target) Host date", signature="AQID""#).unwrap();
    assert_eq!(p.key_id, "https://a/users/u#main-key");
    assert_eq!(p.headers, vec!["(request-target)", "host", "date"]);
    assert_eq!(p.signature, vec![1u8, 2, 3]);
    let d = parse_signature_header(r#"keyId="k",signature="AQID""#).unwrap();
    assert_eq!(d.headers, vec!["date"]);
    assert_eq!(parse_signature_header(r#"signature="AQID""#).unwrap_err(), SigParseError::MissingKeyId);
    assert_eq!(parse_signature_header(r#"keyId="k""#).unwrap_err(), SigParseError::MissingSignature);
    assert_eq!(parse_signature_header(r#"keyId="k",signature="!!""#).unwrap_err(), SigParseError::BadSignatureEncoding);
}

#[test]
fn signing_string_lines() {
    let headers = vec![
        ("host".to_string(), Some("example.org".to_string())),
        ("date".to_string(), Some(" Tue, 07 Jun 2022 20:51:35 GMT ".to_string())),
        ("x-bin".to_string(), None),
    ];
    let signed = vec!["(request-target)".to_string(), "host".to_string(), "date".to_string()];
    let s = build_signing_string("POST", "/inbox", Some("a=1"), &headers, &signed).unwrap();
    assert_eq!(s, "(request-target): post /inbox?a=1\nhost: example.org\ndate: Tue, 07 Jun 2022 20:51:35 GMT");
    assert_eq!(build_signing_string("GET", "/", None, &headers, &["digest".to_string()]).unwrap_err(), SigningError::MissingHeader);
    assert_eq!(build_signing_string("GET", "/", None, &headers, &["x-bin".to_string()]).unwrap_err(), SigningError::InvalidHeaderValue);
    assert_eq!(build_signing_string("GET", "/", None, &headers, &["bad name".to_string()]).unwrap_err(), SigningError::BadHeaderName);
}

#[test]
fn digest_checks() {
    // base64 of sha256("abc")
    let good = "SHA-256=ungWv48Bz+pBQUDeXa4iI7ADYaOWF3qctBD/YfIAFa0=";
    assert_eq!(verify_digest_if_present(None, b"abc"), Ok(()));
    assert_eq!(verify_digest_if_present(Some(Some(good)), b"abc"), Ok(()));
    assert_eq!(verify_digest_if_present(Some(Some("sha-256=ungWv48Bz+pBQUDeXa4iI7ADYaOWF3qctBD/YfIAFa0=")), b"abc"), Ok(()));
    assert_eq!(verify_digest_if_present(Some(Some(good)), b"abd"), Err(DigestError::Mismatch));
    assert_eq!(verify_digest_if_present(Some(None), b"abc"), Err(DigestError::NotText));
    assert_eq!(verify_digest_if_present(Some(Some("nodigest")), b"abc"), Err(DigestError::Invalid));
    assert_eq!(verify_digest_if_present(Some(Some("SHA-256=!!")), b"abc"), Err(DigestError::BadEncoding));
    assert_eq!(verify_digest_if_present(Some(Some("MD5=abc")), b"abc"), Err(DigestError::Unsupported));
}

#[test]
fn rsa_sign_then_verify() {
    let (private_pem, public_pem) = keypair();
    let sig = sign_bytes_rsa_sha256(&private_pem, b"hello").expect("signature");
    assert_eq!(sig.len(), 64);
    assert!(verify_bytes_rsa_sha256(&public_pem, b"hello", &sig));
    assert!(!verify_bytes_rsa_sha256(&public_pem, b"hellp", &sig));
    assert!(verify_signature_rsa_sha256(&public_pem, "hello", &sig));
    assert!(sign_bytes_rsa_sha256("not a key", b"x").is_none());
    let h = signature_header("k#main-key", &vec!["host".to_string(), "date".to_string()], &[1, 2, 3]);
    assert_eq!(h, "keyId=\"k#main-key\",algorithm=\"rsa-sha256\",headers=\"host date\",signature=\"AQID\"");
}

#[test]
fn request_signing_adds_headers_and_verifies() {
    let (private_pem, public_pem) = keypair();
    let headers = vec![("accept".to_string(), Some("application/json".to_string()))];
    let signed = vec!["(request-target)".to_string(), "Host".to_string(), "Date".to_string(), "Digest".to_string()];
    let rs = sign_request_at(&private_pem, "k", "POST", "/inbox", None, Some("example.org"), &headers, b"abc", &signed, 784111777).unwrap();
    assert_eq!(rs.added, vec![
        ("date".to_string(), "Sun, 06 Nov 1994 08:49:37 GMT".to_string()),
        ("digest".to_string(), "SHA-256=ungWv48Bz+pBQUDeXa4iI7ADYaOWF3qctBD/YfIAFa0=".to_string()),
        ("host".to_string(), "example.org".to_string()),
    ]);
    let p = parse_signature_header(&rs.signature).unwrap();
    assert_eq!(p.headers, vec!["(request-target)", "host", "date", "digest"]);
    let ss = "(request-target): post /inbox\nhost: example.org\ndate: Sun, 06 Nov 1994 08:49:37 GMT\ndigest: SHA-256=ungWv48Bz+pBQUDeXa4iI7ADYaOWF3qctBD/YfIAFa0=";
    assert!(verify_signature_rsa_sha256(&public_pem, ss, &p.signature));
    // the date it added is accepted at the time it was signed
    assert_eq!(verify_date_at(Some(Some("Sun, 06 Nov 1994 08:49:37 GMT")), 0, 784111777000), Ok(()));
    assert_eq!(sign_request_at("bad", "k", "GET", "/", None, None, &headers, b"", &vec!["date".to_string()], 0).unwrap_err(),
        SignRequestError::BadPrivateKey);
    assert_eq!(sign_request_at(&private_pem, "k", "GET", "/", None, None, &headers, b"", &vec!["host".to_string()], 0).unwrap_err(),
        SignRequestError::Signing(SigningError::MissingHeader));
}

#[test]
fn date_checks() {
    let d = "Sun, 06 Nov 1994 08:49:37 GMT";
    assert_eq!(verify_date_at(None, 300, 0), Err(DateError::Missing));
    assert_eq!(verify_date_at(Some(None), 300, 0), Err(DateError::NotText));
    assert_eq!(verify_date_at(Some(Some("yesterday")), 300, 0), Err(DateError::Unparsable));
    assert_eq!(verify_date_at(Some(Some(d)), 300, 784111777000 + 300_000), Ok(()));
    assert_eq!(verify_date_at(Some(Some(d)), 300, 784111777000 + 300_001), Err(DateError::Skewed));
    assert_eq!(verify_date_at(Some(Some(d)), 300, 784111777000 - 300_001), Err(DateError::Skewed));
}

#[test]
fn payload_sealing_round_trip() {
    let key = derive_key(b"shared secret", "thread-1", "msg-1");
    assert_eq!(key.len(), 32);
    assert_ne!(key, derive_key(b"shared secret", "thread-1", "msg-2"));
    let nonce = [7u8; 12];
    let (n, c) = seal_payload(&key, &nonce, b"{\"op\":\"message\"}").unwrap();
    assert_eq!(n, "BwcHBwcHBwcHBwcH");
    assert_ne!(c, "eyJvcCI6Im1lc3NhZ2UifQ==");
    assert_eq!(open_payload(&key, &n, &c).unwrap(), b"{\"op\":\"message\"}".to_vec());
    let other = derive_key(b"other", "thread-1", "msg-1");
    assert_eq!(open_payload(&other, &n, &c).unwrap_err(), ChatError::DecryptFailed);
    assert_eq!(open_payload(&key[..16], &n, &c).unwrap_err(), ChatError::InvalidKey);
    assert_eq!(open_payload(&key, "AAAA", &c).unwrap_err(), ChatError::InvalidNonceLength);
    assert_eq!(open_payload(&key, "!", &c).unwrap_err(), ChatError::InvalidBase64);
    assert_eq!(seal_payload(&key[..5], &nonce, b"x").unwrap_err(), ChatError::InvalidKey);
}

#[test]
fn random_ids_are_24_hex_digits() {
    let a = random_id();
    let b = random_id();
    assert_eq!(a.len(), 24);
    assert!(a.chars().all(|c| c.is_ascii_hexdigit() && !c.is_ascii_uppercase()));
    assert_ne!(a, b);
}
