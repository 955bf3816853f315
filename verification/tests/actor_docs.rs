use fedi3_core::actordoc::{build_local_actor, webfinger, WebfingerError, host_meta_json, nodeinfo_links, ms_to_rfc3339};
use fedi3_core::startup::{ApConfig, ProfileField};
use fedi3_core::json::{Json, JsonNumber};

fn show(j: &Json) -> String {
    match j {
        Json::Null => "null".to_string(),
        Json::Bool(b) => b.to_string(),
        Json::Number(JsonNumber::PosInt(n)) => n.to_string(),
        Json::Number(JsonNumber::NegInt(n)) => n.to_string(),
        Json::Number(JsonNumber::Float(t)) => t.clone(),
        Json::Str(t) => format!("{t:?}"),
        Json::Array(a) => format!("[{}]", a.iter().map(show).collect::<Vec<_>>().join(",")),
        Json::Object(o) => format!("{{{}}}", o.iter().map(|(k, v)| format!("{k:?}:{}", show(v))).collect::<Vec<_>>().join(",")),
    }
}

fn cfg() -> ApConfig {
    ApConfig {
        username: "alice".to_string(),
        domain: "example.org".to_string(),
        public_base_url: "https://example.org/".to_string(),
        relay_base_url: None,
        relay_token: None,
        public_key_pem: "PEM".to_string(),
        also_known_as: vec![],
        p2p_peer_id: None,
        p2p_peer_addrs: vec![],
        display_name: Some("  ".to_string()),
        summary: None,
        icon_url: Some("https://example.org/icon.png".to_string()),
        icon_media_type: None,
        image_url: Some(" ".to_string()),
        image_media_type: None,
        profile_fields: vec![
            ProfileField { name: " site ".to_string(), value: " https://a ".to_string() },
            ProfileField { name: "empty".to_string(), value: " ".to_string() },
        ],
        manually_approves_followers: false,
        published_ms: Some(784111777000),
        blocked_domains: vec![],
        blocked_actors: vec![],
        p2p_cache_ttl_secs: 60,
    }
}

#[test]
fn local_actor_document() {
    let a = show(&build_local_actor(&cfg()));
    assert!(a.starts_with(r#"{"@context":["https://www.w3.org/ns/activitystreams","https://w3id.org/security/v1","http://joinmastodon.org/ns#"],"id":"https://example.org/users/alice","type":"Person","preferredUsername":"alice","name":"alice","url":"https://example.org/users/alice","summary":"","published":"1994-11-06T08:49:37Z","manuallyApprovesFollowers":false,"attachment":[{"type":"PropertyValue","name":"site","value":"https://a"}],"followers":"https://example.org/users/alice/followers""#));
    assert!(a.contains(r#""endpoints":{"sharedInbox":"https://example.org/inbox"},"publicKey":{"id":"https://example.org/users/alice#main-key","owner":"https://example.org/users/alice","publicKeyPem":"PEM"},"icon":{"type":"Image","mediaType":"image/png","url":"https://example.org/icon.png"},"discoverable":true"#));
    assert!(a.ends_with(r#""featured":"https://example.org/users/alice/collections/featured","featuredTags":"https://example.org/users/alice/collections/featuredTags"}"#));
    assert!(!a.contains(r#""image":"#));
    assert!(!a.contains("alsoKnownAs"));
    let mut c = cfg();
    c.p2p_peer_id = Some("12D3".to_string());
    c.p2p_peer_addrs = vec!["/ip4/1.2.3.4".to_string()];
    c.also_known_as = vec!["did:fedi3:x".to_string()];
    let b = show(&build_local_actor(&c));
    assert!(b.contains(r#""endpoints":{"sharedInbox":"https://example.org/inbox","fedi3PeerId":"12D3","fedi3PeerAddrs":["/ip4/1.2.3.4"]}"#));
    assert!(b.contains(r#""alsoKnownAs":["did:fedi3:x"]"#));
}

#[test]
fn webfinger_answers_only_for_the_local_user() {
    let c = cfg();
    let ok = webfinger(&c, Some("foo=1&resource=acct%3Aalice%40example.org")).unwrap();
    assert_eq!(show(&ok), r#"{"subject":"acct:alice@example.org","links":[{"rel":"self","type":"application/activity+json","href":"https://example.org/users/alice"},{"rel":"http://webfinger.net/rel/profile-page","type":"text/html","href":"https://example.org/users/alice"}]}"#);
    assert!(webfinger(&c, Some("resource=acct:alice@other.host")).is_ok());
    assert!(webfinger(&c, Some("resource=https://example.org/users/alice")).is_ok());
    assert_eq!(webfinger(&c, Some("resource=acct:bob@example.org")).unwrap_err(), WebfingerError::NotFound);
    assert_eq!(webfinger(&c, Some("resource=acct:alice")).unwrap_err(), WebfingerError::NotFound);
    assert_eq!(webfinger(&c, Some("x=1")).unwrap_err(), WebfingerError::MissingResource);
    assert_eq!(webfinger(&c, None).unwrap_err(), WebfingerError::MissingResource);
    assert_eq!(WebfingerError::NotFound.status(), 404);
    assert_eq!(WebfingerError::MissingResource.status(), 400);
}

#[test]
fn discovery_documents() {
    let c = cfg();
    assert_eq!(show(&host_meta_json(&c)), r#"{"links":[{"rel":"lrdd","type":"application/jrd+json","template":"https://example.org/.well-known/webfinger?resource={uri}"}]}"#);
    assert_eq!(show(&nodeinfo_links(&c)), r#"{"links":[{"rel":"http://nodeinfo.diaspora.software/ns/schema/2.0","href":"https://example.org/nodeinfo/2.0"}]}"#);
    assert_eq!(ms_to_rfc3339(784111777123), Some("1994-11-06T08:49:37.123Z".to_string()));
    assert_eq!(ms_to_rfc3339(0), Some("1970-01-01T00:00:00Z".to_string()));
    assert_eq!(ms_to_rfc3339(i64::MAX), None);
}
