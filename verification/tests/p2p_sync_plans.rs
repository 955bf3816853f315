use fedi3_core::json::Json;
use fedi3_core::p2psync::{p2p_sync_settings, p2p_sync_item_plan, sync_dedup_id};
use fedi3_core::discovery::{initial_self_addrs, mailbox_poll_secs};
use fedi3_core::legacysync::legacy_sync_start;
use fedi3_core::relayenc::{RelayHttpRequest, EnvelopeError, encrypt_relay_with};
use fedi3_core::httpsig::build_signing_string;
use fedi3_core::digest::short_hash;
use fedi3_core::inbox::{InboxGate, InboxStep};
use base64::Engine as _;
use rsa::pkcs8::EncodePublicKey;
use rsa::pkcs8::LineEnding;

fn s(x: &str) -> Json {
    Json::Str(x.to_string())
}

fn obj(v: Vec<(&str, Json)>) -> Json {
    Json::Object(v.into_iter().map(|(k, v)| (k.to_string(), v)).collect())
}

#[test]
fn sync_settings_are_clamped() {
    assert_eq!(p2p_sync_settings(None, None), (30, 50));
    assert_eq!(p2p_sync_settings(Some(1), Some(0)), (5, 1));
    assert_eq!(p2p_sync_settings(Some(99999), Some(1000)), (3600, 200));
    assert_eq!(p2p_sync_settings(Some(60), Some(10)), (60, 10));
    assert_eq!(mailbox_poll_secs(None), 15);
    assert_eq!(mailbox_poll_secs(Some(1)), 5);
    assert_eq!(mailbox_poll_secs(Some(1000)), 300);
}

#[test]
fn synced_items_are_planned() {
    let public = obj(vec![("type", s("Create")), ("actor", s("https://a/u")),
        ("to", s("https://www.w3.org/ns/activitystreams#Public"))]);
    let p = p2p_sync_item_plan("  ", &public, true).expect("actor from activity");
    assert_eq!(p.actor, "https://a/u");
    assert_eq!(p.activity_type.as_deref(), Some("Create"));
    assert!(p.store && p.to_feed);
    let q = p2p_sync_item_plan("https://b/u", &public, false).expect("actor id");
    assert_eq!(q.actor, "https://b/u");
    assert!(!q.store && !q.to_feed);
    let private = obj(vec![("actor", s("https://a/u"))]);
    let r = p2p_sync_item_plan("", &private, true).expect("plan");
    assert!(r.store && !r.to_feed && r.activity_type.is_none());
    assert!(p2p_sync_item_plan("", &obj(vec![]), true).is_none());
}

#[test]
fn sync_dedup_ids() {
    assert_eq!(sync_dedup_id(&obj(vec![("id", s(" x "))]), "{}"), "x");
    assert_eq!(sync_dedup_id(&obj(vec![]), "{}"), format!("urn:fedi3:sync:{}", short_hash("{}")));
}

#[test]
fn initial_self_addresses() {
    let announce = vec!["/ip4/1.2.3.4/tcp/4001".to_string(), "/dns4/a/tcp/1".to_string(), "/dns4/a/tcp/1".to_string()];
    let relays = vec![" /dns4/relay/tcp/4001/p2p/R ".to_string(), "  ".to_string()];
    assert_eq!(
        initial_self_addrs(&announce, &relays, "P", false),
        vec!["/dns4/a/tcp/1".to_string(), "/dns4/relay/tcp/4001/p2p/R/p2p-circuit/p2p/P".to_string(),
            "/ip4/1.2.3.4/tcp/4001".to_string()]
    );
    assert_eq!(
        initial_self_addrs(&announce, &relays, "P", true),
        vec!["/dns4/relay/tcp/4001/p2p/R/p2p-circuit/p2p/P".to_string()]
    );
}

#[test]
fn legacy_run_end_is_ready() {
    let st = legacy_sync_start(None);
    let end = st.end_of_run(77);
    assert_eq!(end.checkpoint, 77);
    assert_eq!(end.items, 0);
    assert!(end.bootstrap_done);
    assert_eq!(end.phase, "ready");
    assert!(!legacy_sync_start(Some(5)).end_of_run(77).bootstrap_done);
}

#[test]
fn too_small_relay_key_cannot_wrap() {
    let mut rng = rand::thread_rng();
    let key = rsa::RsaPrivateKey::new(&mut rng, 512).expect("key");
    let public_pem = key.to_public_key().to_public_key_pem(LineEnding::LF).expect("pem");
    let req = RelayHttpRequest {
        id: "r".to_string(), method: "POST".to_string(), path: "/inbox".to_string(), query: "".to_string(),
        headers: vec![], body_b64: base64::engine::general_purpose::STANDARD.encode(b"hi"),
    };
    assert_eq!(encrypt_relay_with(&public_pem, req, &[1u8; 32], &[2u8; 12]).err(), Some(EnvelopeError::PublicKey));
}

#[test]
fn header_names_are_normalized_or_refused() {
    let hs = vec![("host".to_string(), Some("h".to_string()))];
    assert_eq!(build_signing_string("GET", "/", None, &hs, &["Host".to_string()]).expect("ok"), "Host: h");
    assert!(build_signing_string("GET", "/", None, &hs, &["bad name".to_string()]).is_err());
}

#[test]
fn inbox_checks_run_in_order() {
    let mut g = InboxGate::first();
    let mut seen = vec![g];
    loop {
        match g.next(true) {
            InboxStep::Check(n) => {
                g = n;
                seen.push(n);
            }
            InboxStep::Process => break,
            InboxStep::Refuse(_) => panic!("nothing failed"),
        }
    }
    assert_eq!(seen.len(), 17);
    assert_eq!(seen[1], InboxGate::Digest);
    assert_eq!(seen[16], InboxGate::ValidJson);
    assert_eq!(InboxGate::SignatureValid.next(false), InboxStep::Refuse(401));
    assert_eq!(InboxGate::ActorAllowed.next(false), InboxStep::Refuse(403));
    assert_eq!(InboxGate::HostQuota.next(false), InboxStep::Refuse(429));
    assert_eq!(InboxGate::ValidJson.next(false), InboxStep::Refuse(400));
    assert_eq!(InboxGate::SignatureValid.strikes(), (true, true));
    assert_eq!(InboxGate::KeyResolved.strikes(), (true, false));
    assert_eq!(InboxGate::Date.strikes(), (false, false));
}
