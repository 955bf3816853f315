use fedi3_core::discovery::{merge_did_record_at, DidDiscoveryRecord, DidPeer, PeerDiscoveryRecord, DID_PEER_TTL_MS};
use fedi3_core::devicesync::{sync_peers, device_sync_query, parse_i64, parse_since, device_response_accepted, items_to_store,
    next_since, DeviceSyncItem};
use fedi3_core::legacysync::{legacy_sync_config, LegacySyncError, checkpoint_from_meta, legacy_page_url, legacy_sync_start,
    normalize_relay_note, relay_sync_activity, relay_published};
use fedi3_core::service::{initial_state, service_step, ServiceEvent, ServiceAction, hash_text};
use fedi3_core::p2pframe::{frame_payload, frame_length, FrameError, MAX_P2P_PAYLOAD_BYTES};
use fedi3_core::json::{Json, JsonNumber};

fn peer(id: &str, seen: i64) -> DidPeer {
    DidPeer { peer_id: id.to_string(), addrs: vec![format!("/ip4/1.2.3.4/tcp/1/p2p/{id}")], last_seen_ms: seen }
}

fn ids(ps: &[DidPeer]) -> Vec<String> {
    ps.iter().map(|p| p.peer_id.clone()).collect()
}

fn s(x: &str) -> Json {
    Json::Str(x.to_string())
}

fn obj(v: Vec<(&str, Json)>) -> Json {
    Json::Object(v.into_iter().map(|(k, v)| (k.to_string(), v)).collect())
}

fn show(j: &Json) -> String {
    match j {
        Json::Null => "null".to_string(),
        Json::Bool(b) => b.to_string(),
        Json::Number(JsonNumber::PosInt(n)) => n.to_string(),
        Json::Number(JsonNumber::NegInt(n)) => n.to_string(),
        Json::Number(JsonNumber::Float(t)) => t.clone(),
        Json::Str(t) => format!("{t:?}"),
        Json::Array(a) => format!("[{}]", a.iter().map(show).collect::<Vec<_>>().join(",")),
        Json::Object(o) => format!("{{{}}}", o.iter().map(|(k, v)| format!("{k:?}:{}", show(v))).collect::<Vec<_>>().join(",")),
    }
}

#[test]
fn did_record_merge_keeps_fresh_sorted_unique_peers() {
    let now: i64 = 10 * DID_PEER_TTL_MS;
    let existing = DidDiscoveryRecord {
        did: "did:fedi3:x".to_string(),
        actor: "https://old/users/a".to_string(),
        peers: vec![peer("c", now), peer("stale", now - DID_PEER_TTL_MS - 1), peer("me", 5), peer(" ", now), peer("a", now), peer("c", now - 1)],
        updated_at_ms: now - 1,
        v: 1,
    };
    let me = PeerDiscoveryRecord { peer_id: "me".to_string(), actor: "https://new/users/a".to_string(), addrs: vec!["/ip4/9.9.9.9".to_string()], updated_at_ms: now, v: 1 };
    let r = merge_did_record_at(Some(existing), "did:fedi3:x", &me, now);
    assert_eq!(ids(&r.peers), vec!["a", "c", "me"]);
    let mine = r.peers.iter().find(|p| p.peer_id == "me").unwrap();
    assert_eq!(mine.last_seen_ms, now);
    assert_eq!(mine.addrs, vec!["/ip4/9.9.9.9"]);
    assert_eq!(r.actor, "https://old/users/a");
    assert_eq!(r.updated_at_ms, now);
    assert_eq!(r.v, 1);
}

#[test]
fn did_record_merge_caps_at_sixteen_and_takes_actor_when_blank() {
    let mut peers = Vec::new();
    for i in 0..20 {
        peers.push(peer(&format!("p{i:02}"), 100));
    }
    let existing = DidDiscoveryRecord { did: "d".to_string(), actor: "  ".to_string(), peers, updated_at_ms: 0, v: 1 };
    let me = PeerDiscoveryRecord { peer_id: "zz".to_string(), actor: "https://me/users/a".to_string(), addrs: vec![], updated_at_ms: 0, v: 1 };
    let r = merge_did_record_at(Some(existing), "d", &me, 100);
    assert_eq!(r.peers.len(), 16);
    assert_eq!(r.peers[0].peer_id, "p00");
    assert_eq!(r.peers[15].peer_id, "p15");
    assert_eq!(r.actor, "https://me/users/a");
    let fresh = merge_did_record_at(None, "d", &me, 100);
    assert_eq!(ids(&fresh.peers), vec!["zz"]);
    assert_eq!(fresh.actor, "https://me/users/a");
}

#[test]
fn device_sync_targets_skip_self_and_blank() {
    let r = sync_peers(vec![peer("b", 1), peer("me", 1), peer("a", 1), peer("", 1), peer("b", 2)], "me");
    assert_eq!(ids(&r), vec!["a", "b"]);
    assert_eq!(r[1].last_seen_ms, 1);
}

#[test]
fn device_sync_requests_and_answers() {
    assert_eq!(device_sync_query(-5, 50), "?since=-5&limit=50");
    assert_eq!(parse_i64("123"), Some(123));
    assert_eq!(parse_i64("+7"), Some(7));
    assert_eq!(parse_i64("-9223372036854775808"), Some(i64::MIN));
    assert_eq!(parse_i64("9223372036854775808"), None);
    assert_eq!(parse_i64(" 1"), None);
    assert_eq!(parse_i64("-"), None);
    assert_eq!(parse_i64(""), None);
    assert_eq!(parse_since(Some("42")), 42);
    assert_eq!(parse_since(Some("x")), 0);
    assert_eq!(parse_since(None), 0);
    assert!(device_response_accepted(200, Some("did:a"), "did:a"));
    assert!(!device_response_accepted(300, Some("did:a"), "did:a"));
    assert!(!device_response_accepted(204, Some("did:b"), "did:a"));
    assert!(!device_response_accepted(204, None, "did:a"));
    let kept = items_to_store(vec![
        DeviceSyncItem { id: " a ".to_string(), created_at_ms: 1, activity_bytes: b"{}".to_vec() },
        DeviceSyncItem { id: " ".to_string(), created_at_ms: 2, activity_bytes: b"{}".to_vec() },
        DeviceSyncItem { id: "c".to_string(), created_at_ms: 3, activity_bytes: vec![] },
    ]);
    assert_eq!(kept.len(), 1);
    assert_eq!(kept[0].id, "a");
    assert_eq!(next_since(10, 5), Some(10));
    assert_eq!(next_since(5, 5), None);
}

#[test]
fn legacy_sync_setup_and_urls() {
    assert_eq!(legacy_sync_config(None, Some("t"), "u").unwrap_err(), LegacySyncError::MissingRelayBaseUrl);
    assert_eq!(legacy_sync_config(Some("r"), Some(" "), "u").unwrap_err(), LegacySyncError::MissingRelayToken);
    assert_eq!(legacy_sync_config(Some("r"), Some("t"), " ").unwrap_err(), LegacySyncError::MissingUsername);
    assert_eq!(legacy_sync_config(Some(" r "), Some(" t "), " u ").unwrap(), ("r".to_string(), "t".to_string(), "u".to_string()));
    assert_eq!(checkpoint_from_meta(Some("12"), Some("99")), Some(12));
    assert_eq!(checkpoint_from_meta(None, Some("99")), Some(99));
    assert_eq!(checkpoint_from_meta(Some("bad"), Some("99")), None);
    assert_eq!(legacy_page_url("https://relay/", "a b", "social", true, 0, None),
        "https://relay/_fedi3/relay/legacy/bootstrap?v=1&username=a%20b&stream=social&limit=1000&gzip=true");
    assert_eq!(legacy_page_url("https://relay", "ü", "home", false, 17, Some("c/1")),
        "https://relay/_fedi3/relay/legacy/sync?v=1&username=%C3%BC&stream=home&limit=200&since=17&cursor=c%2F1");
}

#[test]
fn legacy_sync_progress() {
    let mut st = legacy_sync_start(None);
    assert!(st.bootstrap);
    assert!(st.wants_page(0, 0));
    assert_eq!(st.check_page(Some("1"), Some("bootstrap")), Ok(()));
    assert_eq!(st.check_page(Some("2"), Some("bootstrap")), Err(LegacySyncError::UnsupportedSchemaVersion));
    assert_eq!(st.check_page(Some("1"), Some("delta")), Err(LegacySyncError::UnexpectedMode));
    st.observe_time(50);
    st.observe_time(20);
    assert_eq!(st.latest_checkpoint, 50);
    assert!(st.wants_item(1));
    st.count_ingested();
    assert!(!st.wants_item(1));
    st.end_page(false, Some("next".to_string()));
    assert_eq!(st.pages, 1);
    assert!(!st.finished);
    assert_eq!(st.next_page_url("https://r", "u", "s"), "https://r/_fedi3/relay/legacy/bootstrap?v=1&username=u&stream=s&limit=1000&gzip=true&cursor=next");
    assert!(!st.wants_page(1, 10));
    st.end_page(false, None);
    assert!(st.finished);
    assert_eq!(st.final_checkpoint(999), 50);
    let delta = legacy_sync_start(Some(-3));
    assert!(!delta.bootstrap);
    assert_eq!(delta.final_checkpoint(999), 999);
}

#[test]
fn relayed_note_becomes_create_activity() {
    let note = obj(vec![("type", s("Article")), ("id", s(" https://x/n/1 ")), ("name", s("Title")), ("attributedTo", s(" https://x/u/a "))]);
    let n = normalize_relay_note(note, 1500, 7).unwrap();
    assert_eq!(n.note_id, "https://x/n/1");
    assert_eq!(n.actor, "https://x/u/a");
    assert_eq!(n.seen_ms, 1500);
    assert_eq!(show(&n.note), r#"{"type":"Note","id":" https://x/n/1 ","name":"Title","attributedTo":" https://x/u/a ","content":"Title","created_at_ms":1500}"#);
    let (id, act) = relay_sync_activity(n);
    assert_eq!(id, "https://x/n/1#fedi3-relay-sync:1500");
    let shown = show(&act);
    assert!(shown.starts_with(r#"{"@context":"https://www.w3.org/ns/activitystreams","id":"https://x/n/1#fedi3-relay-sync:1500","type":"Create","actor":"https://x/u/a","object":{"#));
    assert!(shown.ends_with(r#""published":"1970-01-01T00:00:01.5Z","created_at_ms":1500,"fedi3RelaySync":true,"to":["https://www.w3.org/ns/activitystreams#Public"]}"#));
    let old = obj(vec![("id", s("i")), ("actor", s("a")), ("created_at_ms", Json::Number(JsonNumber::PosInt(1)))]);
    let m = normalize_relay_note(old, 0, 7).unwrap();
    assert_eq!(m.seen_ms, 7);
    assert_eq!(show(&m.note), r#"{"id":"i","actor":"a","created_at_ms":1}"#);
    assert!(normalize_relay_note(obj(vec![("id", s("i"))]), 1, 1).is_none());
    assert!(normalize_relay_note(obj(vec![("id", s("i")), ("attributedTo", Json::Null), ("actor", s("a"))]), 1, 1).is_none());
    assert!(normalize_relay_note(s("x"), 1, 1).is_none());
    assert_eq!(relay_published(784111777000), "1994-11-06T08:49:37Z");
}

#[test]
fn service_reloads_only_changed_configs() {
    let s0 = initial_state();
    let (s1, a1) = service_step(s0, ServiceEvent::ConfigMissing);
    assert_eq!(a1, ServiceAction::ReportMissing);
    let (s2, a2) = service_step(s1, ServiceEvent::ConfigMissing);
    assert_eq!(a2, ServiceAction::Wait);
    let h = hash_text("{\"username\":\"a\"}");
    assert_eq!(h, hash_text("{\"username\":\"a\"}"));
    assert_ne!(h, hash_text("{\"username\":\"b\"}"));
    let (s3, a3) = service_step(s2, ServiceEvent::ConfigRead { hash: h });
    assert_eq!(a3, ServiceAction::Load);
    let (s4, a4) = service_step(s3, ServiceEvent::ConfigLoaded { hash: h });
    assert_eq!(a4, ServiceAction::Restart { stop: None });
    let (s5, _) = service_step(s4, ServiceEvent::Started { hash: h, handle: 7 });
    let (s6, a6) = service_step(s5, ServiceEvent::ConfigRead { hash: h });
    assert_eq!(a6, ServiceAction::Wait);
    let (s7, a7) = service_step(s6, ServiceEvent::ConfigRead { hash: h + 1 });
    assert_eq!(a7, ServiceAction::Load);
    let (s8, _) = service_step(s7, ServiceEvent::ConfigInvalid { hash: h + 1 });
    let (s9, a9) = service_step(s8, ServiceEvent::ConfigRead { hash: h + 1 });
    assert_eq!(a9, ServiceAction::Wait);
    let (s10, a10) = service_step(s9, ServiceEvent::ConfigLoaded { hash: h + 2 });
    assert_eq!(a10, ServiceAction::Restart { stop: Some(7) });
    let (_, a11) = service_step(s10, ServiceEvent::Shutdown);
    assert_eq!(a11, ServiceAction::Exit { stop: None });
}

#[test]
fn frames_announce_their_length() {
    let f = frame_payload(b"{\"a\":1}");
    assert_eq!(&f[..4], &[0, 0, 0, 7]);
    assert_eq!(&f[4..], b"{\"a\":1}");
    assert_eq!(frame_length(&f), Ok(7));
    assert_eq!(frame_length(&[0, 0, 1]), Err(FrameError::Truncated));
    assert_eq!(frame_length(&[0, 0, 0, 0]), Err(FrameError::BadLength));
    assert_eq!(frame_length(&[0, 0x20, 0, 0]), Ok(MAX_P2P_PAYLOAD_BYTES));
    assert_eq!(frame_length(&[0, 0x20, 0, 1]), Err(FrameError::BadLength));
}
