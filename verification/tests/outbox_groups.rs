use fedi3_core::json::{Json, JsonNumber};
use fedi3_core::activity::{complete_created_object, complete_updated_object};
use fedi3_core::inbox::{seen_answer, SeenAnswer};
use fedi3_core::queue::{QueueSettings, PostDeliveryMode, FailureAction, GroupOutcome, group_outcomes_with_jitter, group_outcomes, Job};
use fedi3_core::discovery::self_record_addrs;

fn s(x: &str) -> Json {
    Json::Str(x.to_string())
}

fn show(j: &Json) -> String {
    match j {
        Json::Null => "null".to_string(),
        Json::Bool(b) => b.to_string(),
        Json::Number(JsonNumber::PosInt(n)) => n.to_string(),
        Json::Number(JsonNumber::NegInt(n)) => n.to_string(),
        Json::Number(JsonNumber::Float(t)) => t.clone(),
        Json::Str(t) => format!("{t:?}"),
        Json::Array(a) => format!("[{}]", a.iter().map(show).collect::<Vec<_>>().join(",")),
        Json::Object(o) => format!("{{{}}}", o.iter().map(|(k, v)| format!("{k:?}:{}", show(v))).collect::<Vec<_>>().join(",")),
    }
}

fn members(v: Vec<(&str, Json)>) -> Vec<(String, Json)> {
    v.into_iter().map(|(k, v)| (k.to_string(), v)).collect()
}

fn settings() -> QueueSettings {
    QueueSettings { max_attempts: 3, base_backoff_secs: 5, max_backoff_secs: 3600,
        post_delivery_mode: PostDeliveryMode::P2pRelay, p2p_relay_fallback_secs: 5, p2p_cache_ttl_secs: 60 }
}

fn job(id: &str, attempt: u32) -> Job {
    Job { id: id.to_string(), attempt, target: "https://b/inbox".to_string(), activity_json: b"{}".to_vec(), key_id: None, activity_id: None }
}

#[test]
fn created_object_is_completed() {
    let mut obj = members(vec![("type", s("Note")), ("cc", s("keep"))]);
    let to = s("https://www.w3.org/ns/activitystreams#Public");
    let cc = s("https://h/users/u/followers");
    complete_created_object(&mut obj, "https://h/users/u/objects/1", "https://h/users/u", Some(&to), Some(&cc), Some("2024-01-01T00:00:00Z"));
    assert_eq!(show(&Json::Object(obj)), "{\"type\":\"Note\",\"cc\":\"keep\",\"id\":\"https://h/users/u/objects/1\",\"attributedTo\":\"https://h/users/u\",\"to\":\"https://www.w3.org/ns/activitystreams#Public\",\"published\":\"2024-01-01T00:00:00Z\"}");
    let mut own = members(vec![("attributedTo", s("someone")), ("published", s("p"))]);
    complete_created_object(&mut own, "i", "a", None, None, Some("q"));
    assert_eq!(show(&Json::Object(own)), "{\"attributedTo\":\"someone\",\"published\":\"p\",\"id\":\"i\"}");
}

#[test]
fn updated_object_is_completed() {
    let mut obj = members(vec![("id", s("https://h/users/u/objects/1")), ("attributedTo", Json::Null)]);
    complete_updated_object(&mut obj, "https://h/users/u", None, Some(&s("c")), Some("2024-02-02T00:00:00Z"));
    assert_eq!(show(&Json::Object(obj)), "{\"id\":\"https://h/users/u/objects/1\",\"attributedTo\":\"https://h/users/u\",\"updated\":\"2024-02-02T00:00:00Z\",\"cc\":\"c\"}");
    let mut kept = members(vec![("attributedTo", s("https://h/users/u")), ("updated", s("x"))]);
    complete_updated_object(&mut kept, "https://h/users/u", None, None, Some("y"));
    assert_eq!(show(&Json::Object(kept)), "{\"attributedTo\":\"https://h/users/u\",\"updated\":\"x\"}");
}

#[test]
fn inbox_seen_answers() {
    assert_eq!(seen_answer(Some(true)), SeenAnswer::Process);
    assert_eq!(seen_answer(Some(false)), SeenAnswer::Duplicate);
    assert_eq!(seen_answer(None), SeenAnswer::StoreError);
    assert_eq!(SeenAnswer::Duplicate.status(), Some(202));
    assert_eq!(SeenAnswer::StoreError.status(), Some(502));
    assert_eq!(SeenAnswer::Process.status(), None);
}

#[test]
fn group_delivery_outcome_applies_to_every_job() {
    let jobs = vec![job("a", 0), job("b", 2)];
    let ok = group_outcomes_with_jitter(&jobs, true, &settings(), &vec![1, 2]);
    assert!(ok.iter().all(|o| matches!(o, GroupOutcome::Delivered)));
    let failed = group_outcomes_with_jitter(&jobs, false, &settings(), &vec![1234, 5]);
    match &failed[0] {
        GroupOutcome::Failed(FailureAction::Reschedule { attempt, backoff }) => {
            assert_eq!(*attempt, 1);
            assert_eq!((backoff.secs, backoff.jitter_ms), (5, 234));
        }
        _ => panic!("first job is rescheduled"),
    }
    assert!(matches!(failed[1], GroupOutcome::Failed(FailureAction::Dead)));
    let random = group_outcomes(&jobs, false, &settings());
    assert_eq!(random.len(), 2);
    assert!(matches!(random[1], GroupOutcome::Failed(FailureAction::Dead)));
    assert!(group_outcomes(&vec![], true, &settings()).is_empty());
}

#[test]
fn self_record_addresses() {
    let base = vec!["/ip4/10.0.0.2/tcp/4001".to_string(), "/dns4/relay/tcp/443".to_string()];
    let observed = vec!["/ip4/1.2.3.4/tcp/4001".to_string(), "/dns4/relay/tcp/443".to_string()];
    assert_eq!(self_record_addrs(&base, &observed, true), base);
    assert_eq!(self_record_addrs(&base, &vec![], false), base);
    assert_eq!(
        self_record_addrs(&base, &observed, false),
        vec!["/dns4/relay/tcp/443".to_string(), "/ip4/1.2.3.4/tcp/4001".to_string(), "/ip4/10.0.0.2/tcp/4001".to_string()]
    );
    let many: Vec<String> = (0..40).map(|i| format!("/ip4/10.0.0.{i:02}/tcp/1")).collect();
    let out = self_record_addrs(&many, &vec!["/z".to_string(); 10], false);
    assert_eq!(out.len(), 32);
    assert_eq!(out[0], "/ip4/10.0.0.00/tcp/1");
}
