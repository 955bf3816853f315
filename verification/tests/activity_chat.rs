use fedi3_core::json::{Json, JsonNumber};
use fedi3_core::activity::{activity_has_recipient, is_public_activity, extract_object_id, extract_actor, with_cc, outbox_prepare,
    OutboxError, outbox_delete_check, create_object_id, extract_recipients, collect_recipient_actors, is_notification,
    activity_from_note, activity_dedup_id, local_actor, AS_PUBLIC};
use fedi3_core::inbox::{inbox_kind, InboxKind, follow_request, build_accept};
use fedi3_core::appconfig::{normalize_app_config, ConfigError};
use fedi3_core::chat::{chat_store_plan, ChatStoreOp, ChatEnvelope, ChatPayload, ChatError, chat_send_plan, ChatSendError,
    kem_target, ChatBundle, ChatPreKey, bundle_did, uses_prekey, prekeys_to_create, chat_member_role};

fn s(x: &str) -> Json {
    Json::Str(x.to_string())
}

fn arr(v: Vec<Json>) -> Json {
    Json::Array(v)
}

fn obj(v: Vec<(&str, Json)>) -> Json {
    Json::Object(v.into_iter().map(|(k, v)| (k.to_string(), v)).collect())
}

fn show(j: &Json) -> String {
    match j {
        Json::Null => "null".to_string(),
        Json::Bool(b) => b.to_string(),
        Json::Number(JsonNumber::PosInt(n)) => n.to_string(),
        Json::Number(JsonNumber::NegInt(n)) => n.to_string(),
        Json::Number(JsonNumber::Float(t)) => t.clone(),
        Json::Str(t) => format!("{t:?}"),
        Json::Array(a) => format!("[{}]", a.iter().map(show).collect::<Vec<_>>().join(",")),
        Json::Object(o) => format!("{{{}}}", o.iter().map(|(k, v)| format!("{k:?}:{}", show(v))).collect::<Vec<_>>().join(",")),
    }
}

#[test]
fn addressing_and_references() {
    let a = obj(vec![("to", arr(vec![s("x"), arr(vec![s(AS_PUBLIC)])])), ("cc", s("https://b/u"))]);
    assert!(is_public_activity(&a));
    assert!(activity_has_recipient(&a, "https://b/u"));
    assert!(!activity_has_recipient(&a, "https://c/u"));
    let b = obj(vec![("actor", obj(vec![("id", s("https://a/u"))])), ("object", arr(vec![s("x"), obj(vec![("id", s("y"))])]))]);
    assert_eq!(extract_actor(&b), Some("https://a/u".to_string()));
    assert_eq!(extract_object_id(&b), Some("x".to_string()));
    let c = obj(vec![("object", obj(vec![("id", s("n")), ("attributedTo", arr(vec![Json::Null, s("https://z/u")]))]))]);
    assert_eq!(extract_actor(&c), Some("https://z/u".to_string()));
    assert_eq!(extract_object_id(&c), Some("n".to_string()));
}

#[test]
fn cc_is_appended_or_replaced() {
    let a = with_cc(obj(vec![("cc", arr(vec![s("a")]))]), "b");
    assert_eq!(show(&a), r#"{"cc":["a","b"]}"#);
    let b = with_cc(obj(vec![("cc", s("a"))]), "b");
    assert_eq!(show(&b), r#"{"cc":["b"]}"#);
    let c = with_cc(obj(vec![]), "b");
    assert_eq!(show(&c), r#"{"cc":["b"]}"#);
}

#[test]
fn outbox_posts_are_checked_and_completed() {
    assert_eq!(local_actor("https://h/", "u"), "https://h/users/u");
    let act = obj(vec![("type", s("Create")), ("to", arr(vec![s(AS_PUBLIC)]))]);
    let (out, id) = outbox_prepare(act, "https://h/", "u", "https://h/users/u/activities/1").unwrap();
    assert_eq!(id, "https://h/users/u/activities/1");
    assert_eq!(show(&out), r#"{"type":"Create","to":["https://www.w3.org/ns/activitystreams#Public"],"actor":"https://h/users/u","cc":["https://h/users/u/followers"],"id":"https://h/users/u/activities/1"}"#);
    let wrong = obj(vec![("actor", s("https://evil/users/x"))]);
    assert_eq!(outbox_prepare(wrong, "https://h", "u", "f").unwrap_err(), OutboxError::ActorMismatch);
    assert_eq!(OutboxError::ActorMismatch.status(), 403);
    assert_eq!(OutboxError::NotOwner.status(), 403);
    assert_eq!(OutboxError::MissingObject.status(), 400);
    assert_eq!(OutboxError::MissingObjectId.status(), 400);
    let del = obj(vec![("type", s("Delete")), ("object", s("https://h/users/u/objects/9"))]);
    assert_eq!(outbox_delete_check(&del, "u").unwrap(), "https://h/users/u/objects/9");
    let foreign = obj(vec![("object", s("https://x/notes/1"))]);
    assert_eq!(outbox_delete_check(&foreign, "u").unwrap_err(), OutboxError::NotOwner);
    assert_eq!(outbox_delete_check(&obj(vec![]), "u").unwrap_err(), OutboxError::MissingObject);
    assert_eq!(create_object_id(Some("https://h/users/u/objects/7"), "act", "https://h", "u"), "https://h/users/u/objects/7");
    assert_eq!(create_object_id(None, "abc", "https://h/", "u"), "https://h/users/u/objects/ba7816bf8f01cfea");
}

#[test]
fn recipients_are_sorted_and_filtered() {
    let a = obj(vec![
        ("to", arr(vec![s("https://b/u"), s(AS_PUBLIC), s("https://a/u")])),
        ("cc", arr(vec![s("https://h/users/u/followers"), s("https://a/u"), s("mailto:x")])),
    ]);
    assert_eq!(collect_recipient_actors(a.get("to"), a.get("cc")), vec!["https://a/u", "https://b/u"]);
    assert_eq!(extract_recipients(&a), vec!["https://a/u", "https://b/u", "https://h/users/u/followers", "mailto:x"]);
}

#[test]
fn notifications_for_the_local_user() {
    let me = "https://h/users/u";
    assert!(is_notification(&obj(vec![("type", s("Like"))]), me, "@u@h"));
    let mention = obj(vec![("type", s("Create")), ("object", obj(vec![("type", s("Note")),
        ("tag", arr(vec![obj(vec![("type", s("Mention")), ("name", s("u@h"))])]))]))]);
    assert!(is_notification(&mention, me, "@u@h"));
    let other = obj(vec![("type", s("Create")), ("object", obj(vec![("type", s("Note")), ("content", s("hello"))]))]);
    assert!(!is_notification(&other, me, "@u@h"));
    assert!(!is_notification(&obj(vec![("type", s("Delete"))]), me, "@u@h"));
}

#[test]
fn search_results_and_dedup_ids() {
    let note = obj(vec![("id", s("https://x/n")), ("attributedTo", s("https://x/u"))]);
    let act = activity_from_note(&note).unwrap();
    assert_eq!(show(&act), r#"{"id":"https://x/n#search","type":"Create","actor":"https://x/u","object":{"id":"https://x/n","attributedTo":"https://x/u"}}"#);
    assert!(activity_from_note(&obj(vec![("id", s(" "))])).is_none());
    assert_eq!(activity_dedup_id(&obj(vec![("id", s(" i "))]), b"{}"), "i");
    assert_eq!(activity_dedup_id(&obj(vec![]), b"abc"),
        "urn:fedi3:inbox:ba7816bf8f01cfea414140de5dae2223b00361a396177a9cb410ff61f20015ad");
}

#[test]
fn inbox_dispatch_and_follows() {
    assert_eq!(inbox_kind(&obj(vec![("type", s("Like"))])), InboxKind::Generic);
    assert_eq!(inbox_kind(&obj(vec![("type", s("Follow"))])), InboxKind::Follow);
    assert_eq!(inbox_kind(&obj(vec![("type", s("Undo"))])), InboxKind::Undo);
    assert_eq!(inbox_kind(&obj(vec![("type", s("Move"))])), InboxKind::Other);
    let f = obj(vec![("type", s("Follow")), ("id", s("https://a/f/1")), ("actor", s("https://a/u")), ("object", s("https://h/users/u"))]);
    assert_eq!(follow_request(&f, "https://h/users/u"), Some(("https://a/u".to_string(), Some("https://a/f/1".to_string()))));
    assert_eq!(follow_request(&f, "https://h/users/v"), None);
    let acc = build_accept("https://h/a/1", "https://h/users/u", &f, "https://a/u");
    assert!(show(&acc).ends_with(r#""to":["https://a/u"]}"#));
    assert!(show(&acc).starts_with(r#"{"@context":"https://www.w3.org/ns/activitystreams","id":"https://h/a/1","type":"Accept","actor":"https://h/users/u","object":{"#));
}

#[test]
fn app_config_is_normalized() {
    let raw = obj(vec![
        ("username", s(" alice ")), ("domain", s("example.org")), ("relayWs", s("wss://relay")), ("bind", s("127.0.0.1:8080")),
        ("summary", s("hi <b>")), ("manuallyApprovesFollowers", Json::Bool(true)),
        ("blockedDomains", arr(vec![s(" a.example "), s(""), Json::Null])),
        ("upnpLeaseSecs", Json::Number(JsonNumber::PosInt(3600))),
    ]);
    let out = normalize_app_config(raw).unwrap();
    let text = show(&out);
    assert!(text.starts_with(r#"{"username":"alice","domain":"example.org","public_base_url":"","relay_ws":"wss://relay","bind":"127.0.0.1:8080""#));
    assert!(text.contains(r#""summary":"<p>hi &lt;b&gt;</p>""#));
    assert!(text.contains(r#""manually_approves_followers":true"#));
    assert!(text.contains(r#""blocked_domains":["a.example"]"#));
    assert!(text.contains(r#""upnp_lease_secs":3600"#));
    let core = obj(vec![("relay_ws", s("x"))]);
    assert_eq!(show(&normalize_app_config(core).unwrap()), r#"{"relay_ws":"x"}"#);
    assert_eq!(normalize_app_config(s("x")).unwrap_err(), ConfigError::NotObject);
    assert_eq!(normalize_app_config(obj(vec![("username", s("a"))])).unwrap_err(), ConfigError::MissingDomain);
    assert_eq!(normalize_app_config(obj(vec![])).unwrap_err(), ConfigError::MissingUsername);
    assert_eq!(normalize_app_config(obj(vec![("username", s("a")), ("domain", s("d"))])).unwrap_err(), ConfigError::MissingRelayWs);
    assert_eq!(normalize_app_config(obj(vec![("username", s("a")), ("domain", s("d")), ("relayWs", s("w"))])).unwrap_err(), ConfigError::MissingBind);
}

fn envelope(thread: &str) -> ChatEnvelope {
    ChatEnvelope {
        v: 1, thread_id: thread.to_string(), message_id: "m1".to_string(), sender_actor: "https://a/u".to_string(),
        sender_device: "dev-1".to_string(), sender_peer_id: "p".to_string(), created_at_ms: 5, kem_alg: "kyber768".to_string(),
        kem_ciphertext_b64: String::new(), kem_key_id: "identity".to_string(), nonce_b64: String::new(), ciphertext_b64: String::new(),
        signature_b64: None,
    }
}

fn payload(op: &str) -> ChatPayload {
    ChatPayload { op: op.to_string(), text: None, reply_to: None, message_id: None, status: None, thread_id: None, attachments: None,
        action: None, targets: None, members: None, title: None, reaction: None }
}

#[test]
fn received_chat_payloads_update_the_store() {
    let steps = chat_store_plan(&envelope(" t1 "), &payload("message"), "https://me/u").unwrap();
    assert_eq!(steps.len(), 5);
    assert!(steps.iter().all(|s| s.required));
    assert!(matches!(&steps[0].op, ChatStoreOp::CreateThread { thread_id, kind, title: None } if thread_id == "t1" && kind == "dm"));
    assert!(matches!(&steps[2].op, ChatStoreOp::UpsertMember { actor, role, .. } if actor == "https://me/u" && role == "member"));
    assert!(matches!(&steps[3].op, ChatStoreOp::InsertMessage { message_id, created_at_ms: 5, .. } if message_id == "m1"));
    assert_eq!(chat_store_plan(&envelope("  "), &payload("message"), "x").unwrap_err(), ChatError::MissingThreadId);
    let mut sys = payload("system");
    sys.action = Some("add_member".to_string());
    sys.targets = Some(vec!["https://b/u".to_string(), "https://c/u".to_string()]);
    sys.members = Some(vec!["https://a/u".to_string()]);
    let steps = chat_store_plan(&envelope("g"), &sys, "x").unwrap();
    assert_eq!(steps.len(), 6);
    assert!(matches!(&steps[1].op, ChatStoreOp::SetMembers { members, .. } if members.len() == 1));
    assert!(matches!(&steps[3].op, ChatStoreOp::UpsertMember { actor, .. } if actor == "https://c/u"));
    assert!(!steps[3].required);
    let mut del = payload("system");
    del.action = Some("delete_thread".to_string());
    let steps = chat_store_plan(&envelope("g"), &del, "x").unwrap();
    assert_eq!(steps.len(), 2);
    assert!(matches!(&steps[1].op, ChatStoreOp::DeleteThread { .. }));
    let mut react = payload("react");
    react.message_id = Some("m0".to_string());
    react.reaction = Some("+1".to_string());
    react.action = Some("remove".to_string());
    let steps = chat_store_plan(&envelope("g"), &react, "x").unwrap();
    assert!(matches!(&steps[0].op, ChatStoreOp::RemoveReaction { reaction, .. } if reaction == "+1"));
    assert!(matches!(&steps[1].op, ChatStoreOp::TouchThreadOfMessage { .. }));
    assert!(chat_store_plan(&envelope("g"), &payload("typing"), "x").unwrap().is_empty());
    assert!(chat_store_plan(&envelope("g"), &payload("edit"), "x").unwrap().is_empty());
}

#[test]
fn sending_a_chat_message() {
    let me = "https://me/u";
    let p = chat_send_plan(" hi ", None, vec![], vec!["https://b/u".to_string()], me, "abc").unwrap();
    assert_eq!(p.members, vec!["https://b/u", "https://me/u"]);
    assert_eq!(p.kind, "dm");
    assert!(p.thread_id.starts_with("urn:fedi3:chat:dm:"));
    assert!(p.new_thread);
    let g = chat_send_plan("hi", None, vec![], vec!["https://c/u".to_string(), "https://b/u".to_string(), "https://me/u".to_string()], me, "abc").unwrap();
    assert_eq!(g.thread_id, "urn:fedi3:chat:abc");
    assert_eq!(g.kind, "group");
    assert_eq!(g.members.len(), 3);
    let t = chat_send_plan("hi", Some("t9"), vec!["https://me/u".to_string()], vec![], me, "abc").unwrap();
    assert_eq!((t.thread_id.as_str(), t.kind.as_str(), t.new_thread), ("t9", "group", false));
    assert_eq!(chat_send_plan("  ", None, vec![], vec!["x".to_string()], me, "abc").unwrap_err(), ChatSendError::EmptyText);
    assert_eq!(chat_send_plan("hi", None, vec![], vec![], me, "abc").unwrap_err(), ChatSendError::MissingRecipients);
    assert_eq!(chat_member_role(me, me), "owner");
    assert_eq!(chat_member_role("https://b/u", me), "member");
}

#[test]
fn chat_keys_and_bundles() {
    let mut b = ChatBundle { v: 1, actor: "a".to_string(), peer_id: "p".to_string(), did: None, device_id: "d".to_string(),
        kem_public_b64: "IDKEY".to_string(), prekeys: vec![], created_at_ms: 0, signature_b64: None };
    assert_eq!(kem_target(&b), ("identity".to_string(), "IDKEY".to_string()));
    b.prekeys.push(ChatPreKey { id: "prekey-1".to_string(), public_b64: "PK1".to_string() });
    assert_eq!(kem_target(&b), ("prekey-1".to_string(), "PK1".to_string()));
    assert!(uses_prekey("prekey-1"));
    assert!(!uses_prekey("identity"));
    assert_eq!(bundle_did(&vec!["https://x".to_string(), "did:fedi3:abc".to_string(), "did:fedi3:def".to_string()]), Some("did:fedi3:abc".to_string()));
    assert_eq!(bundle_did(&vec![]), None);
    assert_eq!(prekeys_to_create(3), 17);
    assert_eq!(prekeys_to_create(25), 0);
}
