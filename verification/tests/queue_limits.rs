use fedi3_core::retry::{retry_delay_ms, SendRetry, SendStep, backoff_with_jitter, next_backoff, pow2_u64, should_retry_status};
use fedi3_core::queue::{QueueSettings, PostDeliveryMode, failure_action_with_jitter, failure_action, FailureAction, reschedule_due_ms,
    is_permanent_error, target_needs_lookup, plan_batch, Job, TargetResolution, activity_id_from_bytes, receipt_targets};
use fedi3_core::limits::{InboxLimiter, InboxRateLimits};
use fedi3_core::metrics::{NetMetrics, ema_update, saturating_add_u64, wrapping_add_u64};
use fedi3_core::report::{is_internal, render_prometheus};
use fedi3_core::queue::QueueStats;

fn job(id: &str, target: &str, body: &[u8]) -> Job {
    Job { id: id.to_string(), attempt: 0, target: target.to_string(), activity_json: body.to_vec(), key_id: None, activity_id: None }
}

#[test]
fn relay_retry_delays() {
    // the bytes of "home" sum to 425, and 425 % 120 == 65
    assert_eq!(retry_delay_ms("home", 0), 315);
    assert_eq!(retry_delay_ms("home", 1), 565);
    assert_eq!(retry_delay_ms("home", 4), 4065);
    assert_eq!(retry_delay_ms("home", 40), 4065);
    for a in 0..10 {
        assert!(retry_delay_ms("social", a) <= retry_delay_ms("social", a + 1));
    }
}

#[test]
fn send_retry_schedule() {
    let mut s = SendRetry::start(9);
    assert_eq!(s.max_attempts, 5);
    assert!(matches!(s.on_response(503), SendStep::RetryAfter(200)));
    assert!(matches!(s.on_error(), SendStep::RetryAfter(400)));
    assert!(matches!(s.on_response(404), SendStep::Finish));
    assert!(matches!(s.on_response(429), SendStep::RetryAfter(800)));
    assert!(matches!(s.on_response(500), SendStep::RetryAfter(1600)));
    assert!(matches!(s.on_response(500), SendStep::Finish));
    assert_eq!(SendRetry::start(0).max_attempts, 1);
    assert!(should_retry_status(429) && should_retry_status(599) && !should_retry_status(499));
}

#[test]
fn queue_backoff_doubles_and_caps() {
    assert_eq!(pow2_u64(10), 1024);
    let b = backoff_with_jitter(1, 5, 3600, 2500);
    assert_eq!((b.secs, b.jitter_ms), (5, 500));
    assert_eq!(backoff_with_jitter(3, 5, 3600, 0).secs, 20);
    assert_eq!(backoff_with_jitter(30, 5, 3600, 0).secs, 3600);
    assert_eq!(backoff_with_jitter(0, 5, 3600, 0).secs, 5);
    let n = next_backoff(2, 5, 3600);
    assert_eq!(n.secs, 10);
    assert!(n.jitter_ms < 1000);
}

#[test]
fn failed_jobs_retry_until_the_limit() {
    let settings = QueueSettings { max_attempts: 3, base_backoff_secs: 5, max_backoff_secs: 3600,
        post_delivery_mode: PostDeliveryMode::P2pRelay, p2p_relay_fallback_secs: 5, p2p_cache_ttl_secs: 60 };
    match failure_action_with_jitter(0, &settings, 7) {
        FailureAction::Reschedule { attempt, backoff } => {
            assert_eq!(attempt, 1);
            assert_eq!((backoff.secs, backoff.jitter_ms), (5, 7));
            assert_eq!(reschedule_due_ms(1000, &backoff), 6007);
        }
        FailureAction::Dead => panic!("should retry"),
    }
    assert!(matches!(failure_action_with_jitter(2, &settings, 7), FailureAction::Dead));
    assert!(matches!(failure_action(1, &settings), FailureAction::Reschedule { attempt: 2, .. }));
    assert!(matches!(failure_action(u32::MAX, &settings), FailureAction::Dead));
    assert_eq!(PostDeliveryMode::from_str(" p2p_only "), Some(PostDeliveryMode::P2pOnly));
    assert_eq!(PostDeliveryMode::from_str("nope"), None);
}

#[test]
fn batch_plan_groups_by_key_inbox_and_body() {
    let mut j3 = job("3", "https://b/users/x", b"B");
    j3.key_id = Some("other#k".to_string());
    let jobs = vec![
        job("1", "https://a/inbox", b"A"),
        job("2", "https://a/inbox", b"A"),
        j3,
        job("4", "https://c/users/y", b"A"),
        job("5", "https://d/users/z", b"A"),
        job("6", "https://e/users/w", b"A"),
        job("7", "https://a/inbox", b"B"),
    ];
    let rs = vec![
        TargetResolution::NotLooked,
        TargetResolution::NotLooked,
        TargetResolution::Resolved { inbox: "https://b/inbox".to_string(), has_p2p_peer: false },
        TargetResolution::Resolved { inbox: "https://c/inbox".to_string(), has_p2p_peer: true },
        TargetResolution::Failed("HTTP 410 Gone".to_string()),
        TargetResolution::Failed("timeout".to_string()),
        TargetResolution::NotLooked,
    ];
    let plan = plan_batch(jobs, rs, "me#main-key");
    assert_eq!(plan.groups.len(), 3);
    assert_eq!(plan.groups[0].inbox, "https://a/inbox");
    assert_eq!(plan.groups[0].key_id, "me#main-key");
    assert_eq!(plan.groups[0].jobs.iter().map(|j| j.id.clone()).collect::<Vec<_>>(), vec!["1", "2"]);
    assert_eq!(plan.groups[1].key_id, "other#k");
    assert_eq!(plan.groups[1].inbox, "https://b/inbox");
    assert_eq!(plan.groups[2].jobs[0].id, "7");
    assert_ne!(plan.groups[0].body_hash, plan.groups[2].body_hash);
    assert_eq!(plan.passthrough.len(), 1);
    assert_eq!(plan.passthrough[0].id, "4");
    assert_eq!(plan.dead, vec!["5"]);
    assert_eq!(plan.skipped, vec!["6"]);
    assert!(is_permanent_error("peer deleted"));
    assert!(!is_permanent_error("500"));
    assert!(!target_needs_lookup("https://a/inbox"));
    assert!(target_needs_lookup("https://a/users/b"));
}

#[test]
fn queued_activity_ids() {
    assert_eq!(activity_id_from_bytes(None, b""), None);
    assert_eq!(activity_id_from_bytes(None, b"abc").unwrap(),
        "urn:fedi3:activity:sha256:ba7816bf8f01cfea414140de5dae2223b00361a396177a9cb410ff61f20015ad");
    assert_eq!(receipt_targets(" id ", " https://a/u "),
        Some(("id".to_string(), "https://a/u".to_string(), "https://a/u/inbox".to_string())));
    assert_eq!(receipt_targets("id", " "), None);
}

#[test]
fn inbox_rate_limits_per_sender() {
    let limits = InboxRateLimits { max_reqs_per_min: 2, max_bytes_per_min: 2048, max_reqs_per_day: 0, max_bytes_per_day: 0 };
    let mut l = InboxLimiter::new();
    assert!(l.check("a", 1000, 10, &limits));
    assert!(l.check("a", 2000, 10, &limits));
    assert!(!l.check("a", 3000, 10, &limits));
    assert!(l.check("b", 3000, 2048, &limits));
    assert!(!l.check("b", 3001, 1, &limits));
    // a new minute starts a new window
    assert!(l.check("a", 61_000, 10, &limits));
    assert_eq!(l.len(), 2);
    // the byte allowance is at least 1024
    let tiny = InboxRateLimits { max_reqs_per_min: 0, max_bytes_per_min: 0, max_reqs_per_day: 0, max_bytes_per_day: 0 };
    let mut t = InboxLimiter::new();
    assert!(t.check("c", 0, 1024, &tiny));
    assert!(!t.check("c", 1, 0, &tiny));
}

#[test]
fn metrics_track_peers_and_rtt() {
    assert_eq!(ema_update(0, 80), 80);
    assert_eq!(ema_update(80, 0), 80);
    assert_eq!(ema_update(80, 160), 90);
    assert_eq!(saturating_add_u64(u64::MAX, 1), u64::MAX);
    assert_eq!(wrapping_add_u64(u64::MAX, 2), 1);
    let mut m = NetMetrics::new();
    m.p2p_peer_seen_at("p1", 1000);
    m.p2p_peer_seen_at("p2", 2000);
    m.p2p_peer_seen_at("p1", 3000);
    assert_eq!(m.p2p_active_peers, 2);
    m.mailbox_peer_seen_at("m", 1000);
    m.relay_rx_add(10);
    m.relay_rx_add(5);
    m.auth_failure();
    let snap = m.snapshot_at(62_500);
    assert_eq!(snap.ts_ms, 62_500);
    assert_eq!(snap.relay_rx_bytes, 15);
    assert_eq!(snap.auth_failures, 1);
    assert_eq!(snap.mailbox_active_peers, 0);
    assert_eq!(m.p2p_active_peers, 1);
}

#[test]
fn internal_token_and_prometheus() {
    assert!(is_internal("", None));
    assert!(is_internal("t", Some("t")));
    assert!(!is_internal("t", Some("u")));
    assert!(!is_internal("t", None));
    let mut m = NetMetrics::new();
    m.http_error();
    let text = render_prometheus(&m, Some(QueueStats { pending: 3, delivered: 4, dead: 5 }), true);
    assert!(text.contains("# TYPE fedi3_core_http_errors counter\nfedi3_core_http_errors 1\n"));
    assert!(text.contains("fedi3_core_queue_pending 3\n"));
    assert!(text.ends_with("fedi3_core_db_ok 1\n"));
}
